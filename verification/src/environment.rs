//! The deployment environment (host, container with or without host
//! access, WSL), the warnings it calls for, and which monitoring features
//! it supports; plus the kernel checks for eBPF.
//!
//! The files and paths these depend on are read by the caller and handed
//! over as values.
use vstd::prelude::*;
use crate::text::{
    contains, contains_seq, owned, parse_unsigned, parse_unsigned_chars, push_decimal, push_str,
    spec_to_lowercase, split_char, split_on, str_chars, string_from_chars, to_lowercase, trim,
    trim_chars, decimal,
};

verus! {

/// Where the daemon runs.
#[derive(Debug, Clone, Copy, PartialEq, Eq, Structural)]
pub enum DeploymentEnvironment {
    /// Directly on the host.
    Host,
    /// In a container with the host filesystem mounted.
    ContainerWithHostAccess,
    /// In a container without host access.
    ContainerIsolated,
}

/// A monitoring feature.
#[derive(Debug, Clone, Copy, PartialEq, Eq, Structural)]
pub enum Feature {
    Inotify,
    Fanotify,
    FanotifyPermission,
    AuditNetlink,
    ProcAccess,
    Ebpf,
    EbpfLsm,
}

/// Severity of an environment warning.
#[derive(Debug, Clone, Copy, PartialEq, Eq, Structural)]
pub enum WarningSeverity {
    Info,
    Warning,
    Error,
}

/// The display name of an environment.
pub open spec fn environment_label(e: DeploymentEnvironment) -> Seq<char> {
    match e {
        DeploymentEnvironment::Host => "Host"@,
        DeploymentEnvironment::ContainerWithHostAccess => "Container (with host access)"@,
        DeploymentEnvironment::ContainerIsolated => "Container (isolated)"@,
    }
}

/// The display name of a feature.
pub open spec fn feature_label(f: Feature) -> Seq<char> {
    match f {
        Feature::Inotify => "inotify"@,
        Feature::Fanotify => "fanotify"@,
        Feature::FanotifyPermission => "fanotify (permission events)"@,
        Feature::AuditNetlink => "audit netlink"@,
        Feature::ProcAccess => "/proc filesystem"@,
        Feature::Ebpf => "eBPF"@,
        Feature::EbpfLsm => "eBPF LSM hooks"@,
    }
}

/// The display name of a severity.
pub open spec fn severity_label(s: WarningSeverity) -> Seq<char> {
    match s {
        WarningSeverity::Info => "INFO"@,
        WarningSeverity::Warning => "WARN"@,
        WarningSeverity::Error => "ERROR"@,
    }
}

impl DeploymentEnvironment {
    /// The display name.
    pub fn label(&self) -> (r: &'static str)
        ensures
            r@ == environment_label(*self),
    {
        match self {
            DeploymentEnvironment::Host => "Host",
            DeploymentEnvironment::ContainerWithHostAccess => "Container (with host access)",
            DeploymentEnvironment::ContainerIsolated => "Container (isolated)",
        }
    }
}

impl Feature {
    /// The display name.
    pub fn label(&self) -> (r: &'static str)
        ensures
            r@ == feature_label(*self),
    {
        match self {
            Feature::Inotify => "inotify",
            Feature::Fanotify => "fanotify",
            Feature::FanotifyPermission => "fanotify (permission events)",
            Feature::AuditNetlink => "audit netlink",
            Feature::ProcAccess => "/proc filesystem",
            Feature::Ebpf => "eBPF",
            Feature::EbpfLsm => "eBPF LSM hooks",
        }
    }
}

impl WarningSeverity {
    /// The display name.
    pub fn label(&self) -> (r: &'static str)
        ensures
            r@ == severity_label(*self),
    {
        match self {
            WarningSeverity::Info => "INFO",
            WarningSeverity::Warning => "WARN",
            WarningSeverity::Error => "ERROR",
        }
    }
}

/// A warning about the environment.
#[derive(Debug)]
pub struct EnvironmentWarning {
    /// Stable code of the warning.
    pub code: &'static str,
    /// What it means.
    pub message: String,
    /// How serious it is.
    pub severity: WarningSeverity,
}

/// Environment errors.
#[derive(Debug)]
pub enum EnvironmentError {
    /// The feature cannot work here.
    FeatureUnavailable { feature: Feature, reason: String },
    /// The environment could not be determined.
    DetectionFailed(String),
}

/// The message of an environment error.
pub open spec fn environment_error_text(e: EnvironmentError) -> Seq<char> {
    match e {
        EnvironmentError::FeatureUnavailable { feature, reason } => "Feature '"@ + feature_label(feature) + "' is not available: "@
            + reason@,
        EnvironmentError::DetectionFailed(m) => "Failed to detect environment: "@ + m@,
    }
}

impl EnvironmentError {
    /// The error's message.
    pub fn message(&self) -> (r: String)
        ensures
            r@ == environment_error_text(*self),
    {
        let mut v: Vec<char> = Vec::new();
        match self {
            EnvironmentError::FeatureUnavailable { feature, reason } => {
                push_str(&mut v, "Feature '");
                push_str(&mut v, feature.label());
                push_str(&mut v, "' is not available: ");
                push_str(&mut v, reason.as_str());
            },
            EnvironmentError::DetectionFailed(m) => {
                push_str(&mut v, "Failed to detect environment: ");
                push_str(&mut v, m.as_str());
            },
        }
        assert(v@ =~= environment_error_text(*self));
        string_from_chars(&v)
    }
}

/// The kernel release names WSL: its lower case mentions `microsoft` or
/// `wsl`.
pub open spec fn wsl_version(version: Seq<char>) -> bool {
    contains_seq(spec_to_lowercase(version), "microsoft"@) || contains_seq(spec_to_lowercase(version), "wsl"@)
}

/// Whether the contents of `/proc/version` (none when unreadable) show WSL.
pub fn detect_wsl(proc_version: Option<&str>) -> (r: bool)
    ensures
        r == match proc_version {
            Some(v) => wsl_version(v@),
            None => false,
        },
{
    match proc_version {
        Some(v) => {
            let l = to_lowercase(v);
            let c = str_chars(l.as_str());
            contains(&c, "microsoft") || contains(&c, "wsl")
        },
        None => false,
    }
}

/// A cgroup listing that shows a container runtime.
pub open spec fn container_cgroup(cgroup: Seq<char>) -> bool {
    contains_seq(cgroup, "/docker/"@) || contains_seq(cgroup, "/kubepods/"@) || contains_seq(cgroup, "/containerd/"@)
        || contains_seq(cgroup, "/crio/"@)
}

/// A process whose init cgroup text holds one of the container runtimes'
/// hierarchy pieces `/docker/`, `/kubepods/`, `/containerd/` or `/crio/`
/// (anywhere in it) runs in a container, whatever the other markers say.
pub proof fn law_runtime_cgroup_means_container(cgroup: Seq<char>, marker: Seq<char>, at: int)
    requires
        marker == "/docker/"@ || marker == "/kubepods/"@ || marker == "/containerd/"@ || marker == "/crio/"@,
        0 <= at,
        at + marker.len() <= cgroup.len(),
        cgroup.subrange(at, at + marker.len()) == marker,
    ensures
        container_cgroup(cgroup),
{
    assert(cgroup.subrange(at, at + marker.len()) == marker);
}

/// Whether the process runs in a container: `/.dockerenv` exists, the
/// cgroups of process 1 (none when unreadable) name a container runtime,
/// or the Kubernetes service account directory exists.
pub fn is_in_container(dockerenv_exists: bool, init_cgroup: Option<&str>, k8s_secrets_exist: bool) -> (r: bool)
    ensures
        r == (dockerenv_exists || match init_cgroup {
            Some(c) => container_cgroup(c@),
            None => false,
        } || k8s_secrets_exist),
{
    if dockerenv_exists {
        return true;
    }
    match init_cgroup {
        Some(c) => {
            let v = str_chars(c);
            if contains(&v, "/docker/") || contains(&v, "/kubepods/") || contains(&v, "/containerd/") || contains(&v, "/crio/") {
                return true;
            }
        },
        None => {},
    }
    k8s_secrets_exist
}

/// The environment: the host unless in a container, then by host access.
pub open spec fn environment_of(in_container: bool, has_host_root: bool) -> DeploymentEnvironment {
    if !in_container {
        DeploymentEnvironment::Host
    } else if has_host_root {
        DeploymentEnvironment::ContainerWithHostAccess
    } else {
        DeploymentEnvironment::ContainerIsolated
    }
}

/// The host root: the configured path when it is a directory, else `/host`
/// when that is a directory, else none.
pub fn choose_host_root(configured: Option<String>, configured_is_dir: bool, host_dir_is_dir: bool) -> (r: Option<String>)
    ensures
        match configured {
            Some(p) if configured_is_dir => r matches Some(h) && h@ == p@,
            _ => if host_dir_is_dir {
                r matches Some(h) && h@ == "/host"@
            } else {
                r is None
            },
        },
{
    match configured {
        Some(p) => {
            if configured_is_dir {
                return Some(p);
            }
        },
        None => {},
    }
    if host_dir_is_dir {
        Some(owned("/host"))
    } else {
        None
    }
}

/// `(major, minor)` of a kernel release: the first two `.`-separated
/// pieces of the trimmed release, when both are `u32` numbers.
pub open spec fn kernel_version(release: Seq<char>) -> Option<(nat, nat)> {
    let parts = split_char(trim(release), '.');
    if parts.len() >= 2 {
        match (parse_unsigned(parts[0], 0xffff_ffff), parse_unsigned(parts[1], 0xffff_ffff)) {
            (Some(a), Some(b)) => Some((a, b)),
            _ => None,
        }
    } else {
        None
    }
}

/// `(major, minor)` of a kernel release (`/proc/sys/kernel/osrelease`).
pub fn parse_kernel_version(release: &str) -> (r: Option<(u32, u32)>)
    ensures
        match r {
            Some((a, b)) => kernel_version(release@) == Some((a as nat, b as nat)),
            None => kernel_version(release@) is None,
        },
{
    let v = str_chars(release);
    let t = trim_chars(&v);
    let parts = split_on(&t, '.');
    if parts.len() < 2 {
        return None;
    }
    let a = parse_unsigned_chars(&parts[0], 0xffff_ffffu64);
    let b = parse_unsigned_chars(&parts[1], 0xffff_ffffu64);
    match (a, b) {
        (Some(x), Some(y)) => Some((x as u32, y as u32)),
        _ => None,
    }
}

/// The release is at least `major.minor`.
pub open spec fn version_at_least(release: Option<Seq<char>>, major: nat, minor: nat) -> bool {
    match release {
        Some(r) => match kernel_version(r) {
            Some((a, b)) => a > major || (a == major && b >= minor),
            None => false,
        },
        None => false,
    }
}

/// Whether the kernel release (none when unreadable) is at least
/// `major.minor`; an unreadable or malformed release is not.
pub fn check_kernel_version(release: Option<&str>, required_major: u32, required_minor: u32) -> (r: bool)
    ensures
        r == version_at_least(
            match release {
                Some(s) => Some(s@),
                None => None::<Seq<char>>,
            },
            required_major as nat,
            required_minor as nat,
        ),
{
    match release {
        Some(s) => match parse_kernel_version(s) {
            Some((a, b)) => a > required_major || (a == required_major && b >= required_minor),
            None => false,
        },
        None => false,
    }
}

/// The active LSM list (`/sys/kernel/security/lsm`) names `bpf`.
pub open spec fn lsm_lists_bpf(lsm: Seq<char>) -> bool {
    exists|i: int| 0 <= i < split_char(lsm, ',').len() && #[trigger] trim(split_char(lsm, ',')[i]) == "bpf"@
}

/// Whether the BPF LSM is active, from the LSM list (none when unreadable).
pub fn is_bpf_lsm_enabled(lsm: Option<&str>) -> (r: bool)
    ensures
        r == match lsm {
            Some(s) => lsm_lists_bpf(s@),
            None => false,
        },
{
    match lsm {
        Some(s) => {
            let v = str_chars(s);
            let parts = split_on(&v, ',');
            let ghost sp = split_char(s@, ',');
            let mut i: usize = 0;
            while i < parts.len()
                invariant
                    v@ == s@,
                    lsm == Some(s),
                    sp == split_char(s@, ','),
                    parts@.len() == sp.len(),
                    forall|j: int| 0 <= j < parts@.len() ==> #[trigger] parts@[j]@ == sp[j],
                    i <= parts@.len(),
                    forall|j: int| 0 <= j < i ==> trim(#[trigger] sp[j]) != "bpf"@,
                decreases parts.len() - i,
            {
                let t = trim_chars(&parts[i]);
                if crate::text::chars_eq_str(&t, "bpf") {
                    assert(trim(sp[i as int]) == "bpf"@);
                    assert(lsm_lists_bpf(s@));
                    return true;
                }
                i = i + 1;
            }
            false
        },
        None => false,
    }
}

/// What the kernel offers for eBPF: the release, whether BTF exists
/// (`/sys/kernel/btf/vmlinux`), and the LSM list.
pub open spec fn ebpf_lsm_ready(release: Option<Seq<char>>, btf_exists: bool, lsm: Option<Seq<char>>) -> bool {
    &&& version_at_least(release, 5, 7)
    &&& btf_exists
    &&& match lsm {
        Some(l) => lsm_lists_bpf(l),
        None => false,
    }
}

/// Whether eBPF LSM programs can be loaded: kernel 5.7 or later, BTF, and
/// the BPF LSM active.
pub fn is_ebpf_supported(release: Option<&str>, btf_exists: bool, lsm: Option<&str>) -> (r: bool)
    ensures
        r == ebpf_lsm_ready(
            match release {
                Some(s) => Some(s@),
                None => None::<Seq<char>>,
            },
            btf_exists,
            match lsm {
                Some(s) => Some(s@),
                None => None::<Seq<char>>,
            },
        ),
{
    if !check_kernel_version(release, 5, 7) {
        return false;
    }
    if !btf_exists {
        return false;
    }
    is_bpf_lsm_enabled(lsm)
}

/// What the feature checks read: whether `/proc` exists, the kernel
/// release, and whether BTF exists.
#[derive(Debug)]
pub struct FeatureProbe {
    pub proc_exists: bool,
    pub osrelease: Option<String>,
    pub btf_exists: bool,
}

/// Detection of the environment and of what it supports.
pub trait EnvironmentDetector {
    /// The environment found.
    spec fn spec_environment(&self) -> DeploymentEnvironment;

    /// The host root found.
    spec fn spec_host_root(&self) -> Option<Seq<char>>;

    /// The kernel is WSL's.
    spec fn spec_wsl(&self) -> bool;

    /// The environment found.
    fn detect(&self) -> (r: DeploymentEnvironment)
        ensures
            r == self.spec_environment(),
    ;

    /// Whether the host filesystem can be reached.
    fn can_access_host(&self) -> (r: bool)
        ensures
            r == (self.spec_host_root() is Some || self.spec_environment() == DeploymentEnvironment::Host),
    ;

    /// Warnings about the environment, by code in order: `WSL_DETECTED`,
    /// `NO_HOST_ACCESS`, `AUDIT_LIMITED`, each when it applies.
    fn environment_warnings(&self) -> (r: Vec<EnvironmentWarning>)
        ensures
            warning_codes(r@) == expected_warning_codes(self.spec_wsl(), self.spec_environment()),
    ;

    /// Whether the feature can work here, from what the probe read.
    fn validate_for_feature(&self, feature: Feature, probe: &FeatureProbe) -> (r: Result<(), EnvironmentError>)
        ensures
            r is Ok <==> feature_ok(feature, self.spec_environment(), self.spec_wsl(), probe.proc_exists,
                match probe.osrelease {
                    Some(s) => Some(s@),
                    None => None::<Seq<char>>,
                },
                probe.btf_exists),
            r matches Err(EnvironmentError::FeatureUnavailable { feature: f, .. }) ==> f == feature,
            !(r matches Err(EnvironmentError::DetectionFailed(_))),
    ;
}

/// The codes of the warnings, in order.
pub open spec fn warning_codes(w: Seq<EnvironmentWarning>) -> Seq<Seq<char>> {
    w.map_values(|x: EnvironmentWarning| x.code@)
}

/// The warning codes an environment calls for.
pub open spec fn expected_warning_codes(wsl: bool, env: DeploymentEnvironment) -> Seq<Seq<char>> {
    (if wsl { seq!["WSL_DETECTED"@] } else { Seq::<Seq<char>>::empty() })
        + (if env == DeploymentEnvironment::ContainerIsolated { seq!["NO_HOST_ACCESS"@] } else { Seq::<Seq<char>>::empty() })
        + (if env != DeploymentEnvironment::Host { seq!["AUDIT_LIMITED"@] } else { Seq::<Seq<char>>::empty() })
}

/// The release is known and below `major.minor`.
pub open spec fn version_below(release: Option<Seq<char>>, major: nat, minor: nat) -> bool {
    match release {
        Some(r) => match kernel_version(r) {
            Some((a, b)) => a < major || (a == major && b < minor),
            None => false,
        },
        None => false,
    }
}

/// Whether a feature works: audit netlink only on a host that is not
/// WSL; `/proc` access when `/proc` exists; eBPF unless the kernel is known
/// to be older than 4.4; eBPF LSM unless the kernel is known to be older
/// than 5.7, and only with BTF; the rest always.
pub open spec fn feature_ok(
    feature: Feature,
    env: DeploymentEnvironment,
    wsl: bool,
    proc_exists: bool,
    release: Option<Seq<char>>,
    btf_exists: bool,
) -> bool {
    match feature {
        Feature::AuditNetlink => env == DeploymentEnvironment::Host && !wsl,
        Feature::ProcAccess => proc_exists,
        Feature::Ebpf => !version_below(release, 4, 4),
        Feature::EbpfLsm => !version_below(release, 5, 7) && btf_exists,
        _ => true,
    }
}

/// The environment of this Linux system.
#[derive(Debug)]
pub struct LinuxEnvironmentDetector {
    environment: DeploymentEnvironment,
    is_wsl: bool,
    host_root: Option<String>,
}

impl LinuxEnvironmentDetector {
    /// The environment, from whether the kernel is WSL's, the host root
    /// found, and whether the process runs in a container.
    pub fn new(is_wsl: bool, host_root: Option<String>, in_container: bool) -> (r: Self)
        ensures
            r.spec_wsl() == is_wsl,
            r.spec_host_root() == match host_root {
                Some(h) => Some(h@),
                None => None::<Seq<char>>,
            },
            r.spec_environment() == environment_of(in_container, host_root is Some),
    {
        let environment = if !in_container {
            DeploymentEnvironment::Host
        } else if host_root.is_some() {
            DeploymentEnvironment::ContainerWithHostAccess
        } else {
            DeploymentEnvironment::ContainerIsolated
        };
        LinuxEnvironmentDetector { environment, is_wsl, host_root }
    }

    /// Whether the kernel is WSL's.
    pub fn is_wsl(&self) -> (r: bool)
        ensures
            r == self.spec_wsl(),
    {
        self.is_wsl
    }

    /// The host root found.
    pub fn host_root(&self) -> (r: Option<&str>)
        ensures
            match r {
                Some(h) => self.spec_host_root() == Some(h@),
                None => self.spec_host_root() is None,
            },
    {
        match &self.host_root {
            Some(h) => Some(h.as_str()),
            None => None,
        }
    }
}

/// Why a feature cannot work, if it cannot: the reason a refusal gives.
pub open spec fn feature_refusal(
    feature: Feature,
    env: DeploymentEnvironment,
    wsl: bool,
    proc_exists: bool,
    release: Option<Seq<char>>,
    btf_exists: bool,
) -> Option<Seq<char>> {
    let version = match release {
        Some(r) => kernel_version(r),
        None => None,
    };
    match feature {
        Feature::AuditNetlink => if env != DeploymentEnvironment::Host {
            Some(
                "Linux audit rules cannot watch /proc/<pid>/root/* paths in containers. For process attribution in containers, use eBPF with the 'ebpf' feature (requires kernel 5.7+ with CONFIG_BPF_LSM=y and BTF). See daemons/common/EBPF.md for details."@,
            )
        } else if wsl {
            Some("WSL2 kernel has limited audit subsystem support. The NETLINK_AUDIT socket may not be available."@)
        } else {
            None
        },
        Feature::ProcAccess => if !proc_exists {
            Some("/proc filesystem not available"@)
        } else {
            None
        },
        Feature::Ebpf => match version {
            Some((a, b)) => if a < 4 || (a == 4 && b < 4) {
                Some("Kernel "@ + decimal(a) + "."@ + decimal(b) + " does not support "@ + "eBPF"@ + ". Requires "@ + "4.4+"@)
            } else {
                None
            },
            None => None,
        },
        Feature::EbpfLsm => match version {
            Some((a, b)) if a < 5 || (a == 5 && b < 7) => Some(
                "Kernel "@ + decimal(a) + "."@ + decimal(b) + " does not support "@ + "eBPF LSM"@ + ". Requires "@ + "5.7+"@,
            ),
            _ => if !btf_exists {
                Some("BTF (BPF Type Format) not available. Kernel must be compiled with CONFIG_DEBUG_INFO_BTF=y"@)
            } else {
                None
            },
        },
        _ => None,
    }
}

fn too_old(feature: Feature, major: u32, minor: u32, what: &str, needed: &str) -> (r: EnvironmentError)
    ensures
        r matches EnvironmentError::FeatureUnavailable { feature: f, reason } && f == feature
            && reason@ == "Kernel "@ + decimal(major as nat) + "."@ + decimal(minor as nat) + " does not support "@ + what@
                + ". Requires "@ + needed@,
{
    let mut v: Vec<char> = Vec::new();
    push_str(&mut v, "Kernel ");
    push_decimal(&mut v, major as u64);
    push_str(&mut v, ".");
    push_decimal(&mut v, minor as u64);
    push_str(&mut v, " does not support ");
    push_str(&mut v, what);
    push_str(&mut v, ". Requires ");
    push_str(&mut v, needed);
    EnvironmentError::FeatureUnavailable { feature, reason: string_from_chars(&v) }
}

impl EnvironmentDetector for LinuxEnvironmentDetector {
    closed spec fn spec_environment(&self) -> DeploymentEnvironment {
        self.environment
    }

    closed spec fn spec_host_root(&self) -> Option<Seq<char>> {
        match self.host_root {
            Some(h) => Some(h@),
            None => None,
        }
    }

    closed spec fn spec_wsl(&self) -> bool {
        self.is_wsl
    }

    fn detect(&self) -> (r: DeploymentEnvironment) {
        self.environment
    }

    fn can_access_host(&self) -> (r: bool) {
        self.host_root.is_some() || self.environment == DeploymentEnvironment::Host
    }

    fn environment_warnings(&self) -> (r: Vec<EnvironmentWarning>) {
        let mut w: Vec<EnvironmentWarning> = Vec::new();
        proof {
            reveal_strlit("WSL_DETECTED");
            reveal_strlit("NO_HOST_ACCESS");
            reveal_strlit("AUDIT_LIMITED");
        }
        if self.is_wsl {
            w.push(EnvironmentWarning {
                code: "WSL_DETECTED",
                message: owned(
                    "Running in WSL2 environment. Some kernel features may be limited. The Microsoft WSL kernel does not support all audit subsystem features. This is fine for development, but production deployments should use native Linux.",
                ),
                severity: WarningSeverity::Warning,
            });
        }
        let ghost w1 = w@;
        if self.environment == DeploymentEnvironment::ContainerIsolated {
            w.push(EnvironmentWarning {
                code: "NO_HOST_ACCESS",
                message: owned(
                    "Running in container without host filesystem access. File monitoring will only work for container-local files. For production Kubernetes deployment, mount the host filesystem.",
                ),
                severity: WarningSeverity::Warning,
            });
        }
        let ghost w2 = w@;
        if self.environment != DeploymentEnvironment::Host {
            w.push(EnvironmentWarning {
                code: "AUDIT_LIMITED",
                message: owned(
                    "Linux audit rules cannot be added for /proc/<pid>/root/* paths. This is a kernel limitation in containerized environments. For process attribution, use eBPF (kernel 5.7+ with BTF). See daemons/common/EBPF.md for setup instructions.",
                ),
                severity: WarningSeverity::Info,
            });
        }
        assert(warning_codes(w@) =~= expected_warning_codes(self.is_wsl, self.environment));
        w
    }

    fn validate_for_feature(&self, feature: Feature, probe: &FeatureProbe) -> (r: Result<(), EnvironmentError>)
        ensures
            match feature_refusal(
                feature,
                self.spec_environment(),
                self.spec_wsl(),
                probe.proc_exists,
                match probe.osrelease {
                    Some(s) => Some(s@),
                    None => None::<Seq<char>>,
                },
                probe.btf_exists,
            ) {
                Some(reason) => r matches Err(EnvironmentError::FeatureUnavailable { feature: f, reason: m }) && f == feature
                    && m@ == reason,
                None => r is Ok,
            },
    {
        match feature {
            Feature::AuditNetlink => {
                if self.environment != DeploymentEnvironment::Host {
                    return Err(EnvironmentError::FeatureUnavailable {
                        feature,
                        reason: owned(
                            "Linux audit rules cannot watch /proc/<pid>/root/* paths in containers. For process attribution in containers, use eBPF with the 'ebpf' feature (requires kernel 5.7+ with CONFIG_BPF_LSM=y and BTF). See daemons/common/EBPF.md for details.",
                        ),
                    });
                }
                if self.is_wsl {
                    return Err(EnvironmentError::FeatureUnavailable {
                        feature,
                        reason: owned("WSL2 kernel has limited audit subsystem support. The NETLINK_AUDIT socket may not be available."),
                    });
                }
                Ok(())
            },
            Feature::ProcAccess => {
                if !probe.proc_exists {
                    return Err(EnvironmentError::FeatureUnavailable { feature, reason: owned("/proc filesystem not available") });
                }
                Ok(())
            },
            Feature::Ebpf => {
                match &probe.osrelease {
                    Some(rel) => match parse_kernel_version(rel.as_str()) {
                        Some((major, minor)) => {
                            if major < 4 || (major == 4 && minor < 4) {
                                return Err(too_old(feature, major, minor, "eBPF", "4.4+"));
                            }
                        },
                        None => {},
                    },
                    None => {},
                }
                Ok(())
            },
            Feature::EbpfLsm => {
                match &probe.osrelease {
                    Some(rel) => match parse_kernel_version(rel.as_str()) {
                        Some((major, minor)) => {
                            if major < 5 || (major == 5 && minor < 7) {
                                return Err(too_old(feature, major, minor, "eBPF LSM", "5.7+"));
                            }
                        },
                        None => {},
                    },
                    None => {},
                }
                if !probe.btf_exists {
                    return Err(EnvironmentError::FeatureUnavailable {
                        feature,
                        reason: owned("BTF (BPF Type Format) not available. Kernel must be compiled with CONFIG_DEBUG_INFO_BTF=y"),
                    });
                }
                Ok(())
            },
            _ => Ok(()),
        }
    }
}

} // verus!
