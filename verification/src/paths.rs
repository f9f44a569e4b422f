//! Where things are on the host: the host root the daemon sees the host
//! filesystem under, `/proc`, runtime sockets, and container paths.
use vstd::prelude::*;
use crate::notify::{join_path, path_join};
use crate::text::{decimal, owned, push_decimal, str_chars, string_from_chars, trim_leading, trim_leading_char};

verus! {

/// A container runtime, by the socket it listens on.
#[derive(Debug, Clone, Copy, PartialEq, Eq, Structural)]
pub enum RuntimeType {
    Containerd,
    CriO,
}

/// The socket of a runtime, relative to the host root.
pub open spec fn socket_of(t: RuntimeType) -> Seq<char> {
    match t {
        RuntimeType::Containerd => "run/containerd/containerd.sock"@,
        RuntimeType::CriO => "var/run/crio/crio.sock"@,
    }
}

impl RuntimeType {
    /// The runtime's socket, relative to the host root.
    pub fn default_socket_path(&self) -> (r: &'static str)
        ensures
            r@ == socket_of(*self),
    {
        match self {
            RuntimeType::Containerd => "run/containerd/containerd.sock",
            RuntimeType::CriO => "var/run/crio/crio.sock",
        }
    }
}

/// The host root: the configured path when it is a directory, else `/host`
/// when that is a directory, else `/`.
pub open spec fn detected_root(configured: Option<Seq<char>>, configured_is_dir: bool, host_dir_is_dir: bool) -> Seq<char> {
    match configured {
        Some(p) if configured_is_dir => p,
        _ => if host_dir_is_dir {
            "/host"@
        } else {
            "/"@
        },
    }
}

/// The host root from the configured path (`HOST_ROOT_PATH`) and the
/// directory checks.
pub fn detect_host_root(configured: Option<String>, configured_is_dir: bool, host_dir_is_dir: bool) -> (r: String)
    ensures
        r@ == detected_root(
            match configured {
                Some(p) => Some(p@),
                None => None::<Seq<char>>,
            },
            configured_is_dir,
            host_dir_is_dir,
        ),
{
    match configured {
        Some(p) => {
            if configured_is_dir {
                return p;
            }
        },
        None => {},
    }
    if host_dir_is_dir {
        owned("/host")
    } else {
        owned("/")
    }
}

/// `/proc/{pid}/root/{path}` under the given `/proc`, leading separators of
/// `path` ignored.
pub open spec fn container_host_path(proc_path: Seq<char>, pid: u32, path: Seq<char>) -> Seq<char> {
    path_join(path_join(path_join(proc_path, decimal(pid as nat)), "root"@), trim_leading(path, '/'))
}

/// An absolute path under the host root; a relative path as it is.
pub open spec fn host_path(host_root: Seq<char>, path: Seq<char>) -> Seq<char> {
    if path.len() > 0 && path[0] == '/' {
        path_join(host_root, trim_leading(path, '/'))
    } else {
        path
    }
}

/// Paths on the host.
pub trait PathProvider {
    /// The host root.
    spec fn spec_host_root(&self) -> Seq<char>;

    /// The `/proc` directory.
    spec fn spec_proc_path(&self) -> Seq<char>;

    /// The host root.
    fn host_root(&self) -> (r: &str)
        ensures
            r@ == self.spec_host_root(),
    ;

    /// The `/proc` directory.
    fn proc_path(&self) -> (r: &str)
        ensures
            r@ == self.spec_proc_path(),
    ;

    /// The socket of a runtime under the host root.
    fn runtime_socket(&self, runtime: RuntimeType) -> (r: String)
        ensures
            r@ == path_join(self.spec_host_root(), socket_of(runtime)),
    ;

    /// The host path of a path inside the container of `container_pid`.
    fn resolve_container_path(&self, container_pid: u32, path: &str) -> (r: String)
        ensures
            r@ == container_host_path(self.spec_proc_path(), container_pid, path@),
    ;

    /// A host path as seen from the daemon.
    fn resolve_path(&self, path: &str) -> (r: String)
        ensures
            r@ == host_path(self.spec_host_root(), path@),
    ;
}

/// Paths on a Linux host.
#[derive(Debug)]
pub struct LinuxPathProvider {
    host_root: String,
    proc_path: String,
}

impl LinuxPathProvider {
    /// The detected host root and `/proc`.
    pub fn new(detected_root: String) -> (r: Self)
        ensures
            r.spec_host_root() == detected_root@,
            r.spec_proc_path() == "/proc"@,
    {
        LinuxPathProvider { host_root: detected_root, proc_path: owned("/proc") }
    }

    /// Explicit paths.
    pub fn with_paths(host_root: String, proc_path: String) -> (r: Self)
        ensures
            r.spec_host_root() == host_root@,
            r.spec_proc_path() == proc_path@,
    {
        LinuxPathProvider { host_root, proc_path }
    }

    /// The given paths where present; otherwise the detected host root and
    /// `/proc`.
    pub fn with_overrides(host_root: Option<String>, proc_path: Option<String>, detected_root: String) -> (r: Self)
        ensures
            r.spec_host_root() == match host_root {
                Some(h) => h@,
                None => detected_root@,
            },
            r.spec_proc_path() == match proc_path {
                Some(p) => p@,
                None => "/proc"@,
            },
    {
        let h = match host_root {
            Some(h) => h,
            None => detected_root,
        };
        let p = match proc_path {
            Some(p) => p,
            None => owned("/proc"),
        };
        LinuxPathProvider { host_root: h, proc_path: p }
    }
}

impl PathProvider for LinuxPathProvider {
    closed spec fn spec_host_root(&self) -> Seq<char> {
        self.host_root@
    }

    closed spec fn spec_proc_path(&self) -> Seq<char> {
        self.proc_path@
    }

    fn host_root(&self) -> (r: &str) {
        self.host_root.as_str()
    }

    fn proc_path(&self) -> (r: &str) {
        self.proc_path.as_str()
    }

    fn runtime_socket(&self, runtime: RuntimeType) -> (r: String) {
        join_path(self.host_root.as_str(), runtime.default_socket_path())
    }

    fn resolve_container_path(&self, container_pid: u32, path: &str) -> (r: String) {
        let mut d: Vec<char> = Vec::new();
        push_decimal(&mut d, container_pid as u64);
        let ds = string_from_chars(&d);
        let a = join_path(self.proc_path.as_str(), ds.as_str());
        let b = join_path(a.as_str(), "root");
        let rel = trim_leading_char(path, '/');
        let rs = string_from_chars(&rel);
        join_path(b.as_str(), rs.as_str())
    }

    fn resolve_path(&self, path: &str) -> (r: String) {
        let v = str_chars(path);
        if v.len() > 0 && v[0] == '/' {
            let rel = trim_leading_char(path, '/');
            let rs = string_from_chars(&rel);
            join_path(self.host_root.as_str(), rs.as_str())
        } else {
            owned(path)
        }
    }
}


proof fn lemma_decimal_shape(n: nat)
    ensures
        decimal(n).len() > 0,
        decimal(n)[0] != '/',
        decimal(n).last() != '/',
    decreases n,
{
    if n >= 10 {
        lemma_decimal_shape(n / 10);
        assert(decimal(n) == decimal(n / 10).push(crate::text::digit_char(n % 10)));
    }
}

/// The host path of a container path is the same whether it is taken from
/// the container runtime (under `/proc/{pid}/root`) or from a path
/// provider whose `/proc` is `/proc`.
pub proof fn law_container_paths_agree(pid: u32, path: Seq<char>)
    ensures
        container_host_path("/proc"@, pid, path) == crate::runtime::container_path_of(pid, path),
{
    reveal_strlit("/proc");
    reveal_strlit("/proc/");
    reveal_strlit("root");
    reveal_strlit("/root");
    lemma_decimal_shape(pid as nat);
    let d = decimal(pid as nat);
    let a = path_join("/proc"@, d);
    assert(a == "/proc"@ + seq!['/'] + d);
    let b = path_join(a, "root"@);
    assert(b == a + seq!['/'] + "root"@);
    assert(b =~= "/proc/"@ + d + "/root"@);
}

} // verus!
