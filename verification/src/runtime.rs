//! Container runtimes (containerd, CRI-O): container IDs, PID file paths,
//! and container root filesystems under `/proc/{pid}/root`.
//!
//! Reading the PID file and probing sockets are the caller's; this module
//! decides which file to read and what its contents mean.
use vstd::prelude::*;
use crate::errors::{FailureKind, ReadFailure, RuntimeError};
use crate::notify::path_join;
use crate::text::{
    decimal, owned, parse_unsigned, parse_unsigned_chars, push_chars, push_decimal, push_str,
    replace_all, replace_str, starts_with, str_chars, string_from_chars, trim, trim_chars,
    trim_leading, trim_leading_char, is_prefix,
};

verus! {

/// Socket of containerd.
pub const CONTAINERD_SOCKET_PATH: &'static str = "/run/containerd/containerd.sock";
/// Container ID prefix of containerd.
pub const CONTAINERD_PREFIX: &'static str = "containerd://";
/// PID file of a containerd container: `{0}` is the host root, `{1}` the ID.
pub const CONTAINERD_PID_TEMPLATE: &'static str = "{0}/run/containerd/io.containerd.runtime.v2.task/k8s.io/{1}/init.pid";
/// Socket of CRI-O.
pub const CRIO_SOCKET_PATH: &'static str = "/var/run/crio/crio.sock";
/// Container ID prefix of CRI-O.
pub const CRIO_PREFIX: &'static str = "cri-o://";
/// PID file of a CRI-O container: `{0}` is the host root, `{1}` the ID.
pub const CRIO_PID_TEMPLATE: &'static str = "{0}/var/run/crio/{1}/pidfile";

/// Type of container runtime.
#[derive(Debug, Clone, Copy, PartialEq, Eq, Structural, Hash)]
pub enum RuntimeType {
    /// containerd.
    Containerd,
    /// CRI-O.
    CriO,
}

/// The display name of a runtime type.
pub open spec fn runtime_label(t: RuntimeType) -> Seq<char> {
    match t {
        RuntimeType::Containerd => "containerd"@,
        RuntimeType::CriO => "CRI-O"@,
    }
}

impl RuntimeType {
    /// The display name.
    pub fn label(&self) -> (r: &'static str)
        ensures
            r@ == runtime_label(*self),
    {
        match self {
            RuntimeType::Containerd => "containerd",
            RuntimeType::CriO => "CRI-O",
        }
    }
}

/// The runtime a container ID names by its prefix, containerd first.
pub open spec fn runtime_of_id(id: Seq<char>) -> Option<RuntimeType> {
    if is_prefix(CONTAINERD_PREFIX@, id) {
        Some(RuntimeType::Containerd)
    } else if is_prefix(CRIO_PREFIX@, id) {
        Some(RuntimeType::CriO)
    } else {
        None
    }
}

/// The runtime a container ID names by its prefix.
pub fn detect_runtime_type(container_id: &str) -> (r: Option<RuntimeType>)
    ensures
        r == runtime_of_id(container_id@),
{
    if starts_with(container_id, CONTAINERD_PREFIX) {
        Some(RuntimeType::Containerd)
    } else if starts_with(container_id, CRIO_PREFIX) {
        Some(RuntimeType::CriO)
    } else {
        None
    }
}

/// The host root: the configured one, else `/host` when that directory
/// exists, else `/`.
pub open spec fn host_root_choice(configured: Option<Seq<char>>, host_dir_exists: bool) -> Seq<char> {
    match configured {
        Some(p) => p,
        None => if host_dir_exists {
            "/host"@
        } else {
            "/"@
        },
    }
}

/// The host root path from the configured value (`HOST_ROOT_PATH`) and
/// whether `/host` is a directory.
pub fn detect_host_root(configured: Option<String>, host_dir_exists: bool) -> (r: String)
    ensures
        r@ == host_root_choice(
            match configured {
                Some(p) => Some(p@),
                None => None::<Seq<char>>,
            },
            host_dir_exists,
        ),
{
    match configured {
        Some(p) => p,
        None => if host_dir_exists {
            owned("/host")
        } else {
            owned("/")
        },
    }
}

/// The characters allowed in a container ID besides ASCII letters and
/// digits.
pub open spec fn id_char_ok(c: char) -> bool {
    ('a' <= c <= 'z') || ('A' <= c <= 'Z') || ('0' <= c <= '9') || c == '-' || c == '_'
}

/// `s` holds `..`.
pub open spec fn has_dotdot(s: Seq<char>) -> bool {
    exists|i: int| 0 <= i < s.len() - 1 && #[trigger] s[i] == '.' && s[i + 1] == '.'
}

/// Why a container ID is refused, if it is: empty, a path traversal
/// attempt, or a character outside letters, digits, `-` and `_`.
pub open spec fn id_rejection(id: Seq<char>) -> Option<Seq<char>> {
    if id.len() == 0 {
        Some("container ID is empty"@)
    } else if has_dotdot(id) || id.contains('/') || id.contains('\\') || id.contains('\0') {
        Some("container ID contains invalid characters (potential path traversal)"@)
    } else if !(forall|i: int| 0 <= i < id.len() ==> id_char_ok(#[trigger] id[i])) {
        Some("container ID contains invalid characters"@)
    } else {
        None
    }
}

/// Refuse container IDs that could leave the runtime's directory.
pub fn validate_container_id(id: &str) -> (r: Result<(), RuntimeError>)
    ensures
        match id_rejection(id@) {
            None => r is Ok,
            Some(reason) => r matches Err(RuntimeError::InvalidContainerId { id: i, reason: m }) && i@ == id@ && m@ == reason,
        },
{
    let v = str_chars(id);
    let n = v.len();
    if n == 0 {
        return Err(RuntimeError::InvalidContainerId { id: owned(id), reason: owned("container ID is empty") });
    }
    let mut traversal = false;
    let mut i: usize = 0;
    while i < n
        invariant
            n == v@.len(),
            v@ == id@,
            i <= n,
            !traversal ==> forall|j: int| 0 <= j < i ==> #[trigger] v@[j] != '/' && v@[j] != '\\' && v@[j] != '\0' && !(j + 1 < n && v@[j] == '.' && v@[j + 1] == '.'),
            traversal ==> has_dotdot(id@) || id@.contains('/') || id@.contains('\\') || id@.contains('\0'),
        decreases n - i,
    {
        let c = v[i];
        if c == '/' || c == '\\' || c == '\0' {
            assert(v@[i as int] == c);
            traversal = true;
        }
        if i + 1 < n && c == '.' && v[i + 1] == '.' {
            assert(has_dotdot(id@)) by {
                assert(v@[i as int] == '.' && v@[i + 1] == '.');
            }
            traversal = true;
        }
        i = i + 1;
    }
    if traversal {
        return Err(RuntimeError::InvalidContainerId {
            id: owned(id),
            reason: owned("container ID contains invalid characters (potential path traversal)"),
        });
    }
    proof {
        assert(!has_dotdot(id@));
        assert(!id@.contains('/'));
        assert(!id@.contains('\\'));
        assert(!id@.contains('\0'));
    }
    let mut k: usize = 0;
    while k < n
        invariant
            n == v@.len(),
            v@ == id@,
            k <= n,
            n > 0,
            !(has_dotdot(id@) || id@.contains('/') || id@.contains('\\') || id@.contains('\0')),
            forall|j: int| 0 <= j < k ==> id_char_ok(#[trigger] v@[j]),
        decreases n - k,
    {
        let c = v[k];
        if !(('a' <= c && c <= 'z') || ('A' <= c && c <= 'Z') || ('0' <= c && c <= '9') || c == '-' || c == '_') {
            assert(!id_char_ok(id@[k as int]));
            return Err(RuntimeError::InvalidContainerId {
                id: owned(id),
                reason: owned("container ID contains invalid characters"),
            });
        }
        k = k + 1;
    }
    Ok(())
}

/// `/proc/{pid}/root`.
pub open spec fn proc_root(pid: u32) -> Seq<char> {
    "/proc/"@ + decimal(pid as nat) + "/root"@
}

/// The host path of `container_path` inside the container of `pid`.
pub open spec fn container_path_of(pid: u32, container_path: Seq<char>) -> Seq<char> {
    path_join(proc_root(pid), trim_leading(container_path, '/'))
}

/// `/proc/{pid}/root`.
pub fn proc_root_path(pid: u32) -> (r: String)
    ensures
        r@ == proc_root(pid),
{
    let mut v: Vec<char> = Vec::new();
    push_str(&mut v, "/proc/");
    push_decimal(&mut v, pid as u64);
    push_str(&mut v, "/root");
    string_from_chars(&v)
}

/// The host path of `container_path` inside the container of `pid`.
pub fn container_path(pid: u32, path: &str) -> (r: String)
    ensures
        r@ == container_path_of(pid, path@),
{
    let root = proc_root_path(pid);
    let rel = trim_leading_char(path, '/');
    let rel_s = string_from_chars(&rel);
    crate::notify::join_path(root.as_str(), rel_s.as_str())
}

/// The PID file path from a template: host root for `{0}`, then the
/// container ID for `{1}`.
pub open spec fn pid_path_of(template: Seq<char>, host_root: Seq<char>, id: Seq<char>) -> Seq<char> {
    replace_all(replace_all(template, "{0}"@, host_root), "{1}"@, id)
}

fn pid_path_from(template: &str, host_root: &str, id: &str) -> (r: String)
    ensures
        r@ == pid_path_of(template@, host_root@, id@),
{
    proof {
        reveal_strlit("{0}");
        reveal_strlit("{1}");
    }
    let a = replace_str(template, "{0}", host_root);
    replace_str(a.as_str(), "{1}", id)
}

/// The PID a PID file holds: its trimmed contents as a `u32`.
pub open spec fn pid_of_content(content: Seq<char>) -> Option<nat> {
    parse_unsigned(trim(content), 0xffff_ffff)
}

/// The PID of a container, from the outcome of reading its PID file at
/// `path`: a missing file, an unreadable file, or contents that are not a
/// `u32` are errors.
pub fn pid_from_read(container_id: &str, path: &str, read: Result<String, ReadFailure>) -> (r: Result<u32, RuntimeError>)
    ensures
        match read {
            Err(f) => if f.kind == FailureKind::NotFound {
                r matches Err(RuntimeError::PidFileNotFound { container_id: c, path: p }) && c@ == container_id@ && p@ == path@
            } else {
                r matches Err(RuntimeError::PidFileRead { path: p, source: m }) && p@ == path@ && m@ == f.message@
            },
            Ok(content) => match pid_of_content(content@) {
                Some(pid) => r == Ok::<u32, RuntimeError>(pid as u32),
                None => r matches Err(RuntimeError::InvalidPidContent { path: p, content: c }) && p@ == path@ && c@ == trim(content@),
            },
        },
{
    match read {
        Err(f) => {
            if f.kind == FailureKind::NotFound {
                Err(RuntimeError::PidFileNotFound { container_id: owned(container_id), path: owned(path) })
            } else {
                Err(RuntimeError::PidFileRead { path: owned(path), source: f.message })
            }
        },
        Ok(content) => {
            let v = str_chars(content.as_str());
            let t = trim_chars(&v);
            match parse_unsigned_chars(&t, 0xffff_ffffu64) {
                Some(x) => Ok(x as u32),
                None => Err(RuntimeError::InvalidPidContent { path: owned(path), content: string_from_chars(&t) }),
            }
        },
    }
}

/// `id` without `prefix`, or the error a runtime gives for a foreign ID.
pub open spec fn strip_result(id: Seq<char>, prefix: Seq<char>) -> Option<Seq<char>> {
    if is_prefix(prefix, id) {
        Some(id.subrange(prefix.len() as int, id.len() as int))
    } else {
        None
    }
}

fn strip_id_prefix<'a>(container_id: &'a str, prefix: &str) -> (r: Result<&'a str, RuntimeError>)
    ensures
        match strip_result(container_id@, prefix@) {
            Some(rest) => r matches Ok(s) && s@ == rest,
            None => r matches Err(RuntimeError::InvalidContainerId { id: i, reason: m }) && i@ == container_id@
                && m@ == "expected prefix '"@ + prefix@ + "'"@,
        },
{
    if starts_with(container_id, prefix) {
        let n = container_id.unicode_len();
        let k = prefix.unicode_len();
        Ok(container_id.substring_char(k, n))
    } else {
        let mut v: Vec<char> = Vec::new();
        push_str(&mut v, "expected prefix '");
        push_str(&mut v, prefix);
        push_str(&mut v, "'");
        Err(RuntimeError::InvalidContainerId { id: owned(container_id), reason: string_from_chars(&v) })
    }
}

/// Container runtime operations.
pub trait ContainerRuntime {
    /// The runtime type.
    spec fn spec_type(&self) -> RuntimeType;

    /// The container ID prefix of the runtime.
    spec fn spec_prefix(&self) -> Seq<char>;

    /// The PID file template of the runtime.
    spec fn spec_template(&self) -> Seq<char>;

    /// The host root the runtime's files are found under.
    spec fn spec_host_root(&self) -> Seq<char>;

    /// The runtime type.
    fn runtime_type(&self) -> (r: RuntimeType)
        ensures
            r == self.spec_type(),
    ;

    /// The root filesystem of the container whose init process is `pid`.
    fn resolve_container_root(&self, pid: u32) -> (r: String)
        ensures
            r@ == proc_root(pid),
    ;

    /// The host path of `container_path` inside the container of `pid`;
    /// leading separators of `container_path` are ignored.
    fn resolve_container_path(&self, pid: u32, container_path: &str) -> (r: String)
        ensures
            r@ == container_path_of(pid, container_path@),
    {
        crate::runtime::container_path(pid, container_path)
    }

    /// The container ID without the runtime's prefix.
    fn strip_prefix<'a>(&self, container_id: &'a str) -> (r: Result<&'a str, RuntimeError>)
        ensures
            match strip_result(container_id@, self.spec_prefix()) {
                Some(rest) => r matches Ok(s) && s@ == rest,
                None => r matches Err(RuntimeError::InvalidContainerId { id: i, reason: m }) && i@ == container_id@
                    && m@ == "expected prefix '"@ + self.spec_prefix() + "'"@,
            },
    ;

    /// The PID file of the container with the bare ID `id`.
    fn pid_file_path(&self, id: &str) -> (r: String)
        ensures
            r@ == pid_path_of(self.spec_template(), self.spec_host_root(), id@),
    ;

    /// The PID file to read for a full container ID: the prefix is
    /// stripped and the bare ID validated first.
    fn pid_file_for(&self, container_id: &str) -> (r: Result<String, RuntimeError>)
        ensures
            match strip_result(container_id@, self.spec_prefix()) {
                None => r matches Err(RuntimeError::InvalidContainerId { id: i, .. }) && i@ == container_id@,
                Some(bare) => match id_rejection(bare) {
                    Some(reason) => r matches Err(RuntimeError::InvalidContainerId { id: i, reason: m }) && i@ == bare && m@ == reason,
                    None => r matches Ok(p) && p@ == pid_path_of(self.spec_template(), self.spec_host_root(), bare),
                },
            },
    {
        let bare = match self.strip_prefix(container_id) {
            Ok(b) => b,
            Err(e) => {
                return Err(e);
            },
        };
        match validate_container_id(bare) {
            Ok(()) => Ok(self.pid_file_path(bare)),
            Err(e) => Err(e),
        }
    }
}

/// containerd.
#[derive(Debug)]
pub struct ContainerdRuntime {
    host_root: String,
}

/// CRI-O.
#[derive(Debug)]
pub struct CriORuntime {
    host_root: String,
}

impl ContainerdRuntime {
    /// containerd with the host root found from the configured value and
    /// whether `/host` is a directory.
    pub fn new(configured_root: Option<String>, host_dir_exists: bool) -> (r: Self)
        ensures
            r.spec_host_root() == host_root_choice(
                match configured_root {
                    Some(p) => Some(p@),
                    None => None::<Seq<char>>,
                },
                host_dir_exists,
            ),
    {
        ContainerdRuntime { host_root: detect_host_root(configured_root, host_dir_exists) }
    }

    /// containerd with an explicit host root.
    pub fn with_host_root(host_root: String) -> (r: Self)
        ensures
            r.spec_host_root() == host_root@,
    {
        ContainerdRuntime { host_root }
    }

    /// The runtime's socket under the host root; the runtime is available
    /// when it exists.
    pub fn socket_path(&self) -> (r: String)
        ensures
            r@ == path_join(self.spec_host_root(), trim_leading(CONTAINERD_SOCKET_PATH@, '/')),
    {
        let rel = trim_leading_char(CONTAINERD_SOCKET_PATH, '/');
        let rel_s = string_from_chars(&rel);
        crate::notify::join_path(self.host_root.as_str(), rel_s.as_str())
    }
}

impl CriORuntime {
    /// CRI-O with the host root found from the configured value and whether
    /// `/host` is a directory.
    pub fn new(configured_root: Option<String>, host_dir_exists: bool) -> (r: Self)
        ensures
            r.spec_host_root() == host_root_choice(
                match configured_root {
                    Some(p) => Some(p@),
                    None => None::<Seq<char>>,
                },
                host_dir_exists,
            ),
    {
        CriORuntime { host_root: detect_host_root(configured_root, host_dir_exists) }
    }

    /// CRI-O with an explicit host root.
    pub fn with_host_root(host_root: String) -> (r: Self)
        ensures
            r.spec_host_root() == host_root@,
    {
        CriORuntime { host_root }
    }

    /// The runtime's socket under the host root; the runtime is available
    /// when it exists.
    pub fn socket_path(&self) -> (r: String)
        ensures
            r@ == path_join(self.spec_host_root(), trim_leading(CRIO_SOCKET_PATH@, '/')),
    {
        let rel = trim_leading_char(CRIO_SOCKET_PATH, '/');
        let rel_s = string_from_chars(&rel);
        crate::notify::join_path(self.host_root.as_str(), rel_s.as_str())
    }
}

impl ContainerRuntime for ContainerdRuntime {
    open spec fn spec_type(&self) -> RuntimeType {
        RuntimeType::Containerd
    }

    open spec fn spec_prefix(&self) -> Seq<char> {
        CONTAINERD_PREFIX@
    }

    open spec fn spec_template(&self) -> Seq<char> {
        CONTAINERD_PID_TEMPLATE@
    }

    closed spec fn spec_host_root(&self) -> Seq<char> {
        self.host_root@
    }

    fn runtime_type(&self) -> (r: RuntimeType) {
        RuntimeType::Containerd
    }

    fn resolve_container_root(&self, pid: u32) -> (r: String) {
        proc_root_path(pid)
    }

    fn strip_prefix<'a>(&self, container_id: &'a str) -> (r: Result<&'a str, RuntimeError>) {
        strip_id_prefix(container_id, CONTAINERD_PREFIX)
    }

    fn pid_file_path(&self, id: &str) -> (r: String) {
        pid_path_from(CONTAINERD_PID_TEMPLATE, self.host_root.as_str(), id)
    }
}

impl ContainerRuntime for CriORuntime {
    open spec fn spec_type(&self) -> RuntimeType {
        RuntimeType::CriO
    }

    open spec fn spec_prefix(&self) -> Seq<char> {
        CRIO_PREFIX@
    }

    open spec fn spec_template(&self) -> Seq<char> {
        CRIO_PID_TEMPLATE@
    }

    closed spec fn spec_host_root(&self) -> Seq<char> {
        self.host_root@
    }

    fn runtime_type(&self) -> (r: RuntimeType) {
        RuntimeType::CriO
    }

    fn resolve_container_root(&self, pid: u32) -> (r: String) {
        proc_root_path(pid)
    }

    fn strip_prefix<'a>(&self, container_id: &'a str) -> (r: Result<&'a str, RuntimeError>) {
        strip_id_prefix(container_id, CRIO_PREFIX)
    }

    fn pid_file_path(&self, id: &str) -> (r: String) {
        pid_path_from(CRIO_PID_TEMPLATE, self.host_root.as_str(), id)
    }
}

/// One of the supported runtimes.
#[derive(Debug)]
pub enum AnyRuntime {
    Containerd(ContainerdRuntime),
    CriO(CriORuntime),
}

impl ContainerRuntime for AnyRuntime {
    open spec fn spec_type(&self) -> RuntimeType {
        match self {
            AnyRuntime::Containerd(r) => r.spec_type(),
            AnyRuntime::CriO(r) => r.spec_type(),
        }
    }

    open spec fn spec_prefix(&self) -> Seq<char> {
        match self {
            AnyRuntime::Containerd(r) => r.spec_prefix(),
            AnyRuntime::CriO(r) => r.spec_prefix(),
        }
    }

    open spec fn spec_template(&self) -> Seq<char> {
        match self {
            AnyRuntime::Containerd(r) => r.spec_template(),
            AnyRuntime::CriO(r) => r.spec_template(),
        }
    }

    open spec fn spec_host_root(&self) -> Seq<char> {
        match self {
            AnyRuntime::Containerd(r) => r.spec_host_root(),
            AnyRuntime::CriO(r) => r.spec_host_root(),
        }
    }

    fn runtime_type(&self) -> (r: RuntimeType) {
        match self {
            AnyRuntime::Containerd(r) => r.runtime_type(),
            AnyRuntime::CriO(r) => r.runtime_type(),
        }
    }

    fn resolve_container_root(&self, pid: u32) -> (r: String) {
        proc_root_path(pid)
    }

    fn strip_prefix<'a>(&self, container_id: &'a str) -> (r: Result<&'a str, RuntimeError>) {
        match self {
            AnyRuntime::Containerd(r) => r.strip_prefix(container_id),
            AnyRuntime::CriO(r) => r.strip_prefix(container_id),
        }
    }

    fn pid_file_path(&self, id: &str) -> (r: String) {
        match self {
            AnyRuntime::Containerd(r) => r.pid_file_path(id),
            AnyRuntime::CriO(r) => r.pid_file_path(id),
        }
    }
}

/// The runtime of a container ID, with the given host root; an unknown
/// prefix is an error.
pub fn runtime_for_container(container_id: &str, host_root: String) -> (r: Result<AnyRuntime, RuntimeError>)
    ensures
        match runtime_of_id(container_id@) {
            Some(t) => r matches Ok(rt) && rt.spec_type() == t && rt.spec_host_root() == host_root@,
            None => r matches Err(RuntimeError::UnknownRuntime { id }) && id@ == container_id@,
        },
{
    match detect_runtime_type(container_id) {
        Some(RuntimeType::Containerd) => Ok(AnyRuntime::Containerd(ContainerdRuntime::with_host_root(host_root))),
        Some(RuntimeType::CriO) => Ok(AnyRuntime::CriO(CriORuntime::with_host_root(host_root))),
        None => Err(RuntimeError::UnknownRuntime { id: owned(container_id) }),
    }
}

/// The available runtime, containerd first, from whether each runtime's
/// socket exists under the host root.
pub fn detect_runtime(host_root: String, containerd_socket_exists: bool, crio_socket_exists: bool) -> (r: Option<AnyRuntime>)
    ensures
        containerd_socket_exists ==> (r matches Some(rt) && rt.spec_type() == RuntimeType::Containerd && rt.spec_host_root() == host_root@),
        !containerd_socket_exists && crio_socket_exists ==> (r matches Some(rt) && rt.spec_type() == RuntimeType::CriO && rt.spec_host_root() == host_root@),
        !containerd_socket_exists && !crio_socket_exists ==> r is None,
{
    if containerd_socket_exists {
        Some(AnyRuntime::Containerd(ContainerdRuntime::with_host_root(host_root)))
    } else if crio_socket_exists {
        Some(AnyRuntime::CriO(CriORuntime::with_host_root(host_root)))
    } else {
        None
    }
}


/// A container ID made of a runtime's prefix and a bare ID names that
/// runtime, and stripping the prefix gives the bare ID back.
pub proof fn law_prefix_roundtrip(id: Seq<char>)
    ensures
        runtime_of_id(CONTAINERD_PREFIX@ + id) == Some(RuntimeType::Containerd),
        strip_result(CONTAINERD_PREFIX@ + id, CONTAINERD_PREFIX@) == Some(id),
        runtime_of_id(CRIO_PREFIX@ + id) == Some(RuntimeType::CriO),
        strip_result(CRIO_PREFIX@ + id, CRIO_PREFIX@) == Some(id),
{
    reveal_strlit("containerd://");
    reveal_strlit("cri-o://");
    let a = CONTAINERD_PREFIX@ + id;
    let b = CRIO_PREFIX@ + id;
    assert(a.subrange(0, 13) =~= CONTAINERD_PREFIX@);
    assert(a.subrange(13, a.len() as int) =~= id);
    assert(b.subrange(0, 8) =~= CRIO_PREFIX@);
    assert(b.subrange(8, b.len() as int) =~= id);
    if is_prefix(CONTAINERD_PREFIX@, b) {
        assert(b.subrange(0, 13)[1] == CONTAINERD_PREFIX@[1]);
    }
}

} // verus!
