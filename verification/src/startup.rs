//! Daemon startup decisions: the checks that must pass before the daemon
//! serves, the runtime mode, the log level, and the warnings the inotify
//! limits call for.
use vstd::prelude::*;
use crate::capabilities::{CapabilityChecker, RequiredCapability, argusd_required_caps, missing_capabilities_message, missing_message_of};
use crate::environment::{EnvironmentDetector, EnvironmentError, Feature, FeatureProbe, feature_ok};
use crate::glog::LogLevel;
use crate::limits::{ResourceLimitError, check_fd_limit, sat_add};
use crate::text::{chars_eq_str, decimal, push_decimal, push_str, spec_to_lowercase, str_chars, string_from_chars, to_lowercase};

verus! {

/// File descriptors kept free for connections, logging and `/proc`.
pub const FD_SAFETY_MARGIN: u64 = 1024;

/// How file events are watched.
#[derive(Debug, Clone, Copy, PartialEq, Eq, Structural)]
pub enum RuntimeMode {
    /// inotify.
    Traditional,
    /// eBPF LSM hooks.
    Ebpf,
}

/// The mode: without eBPF built in, traditional; with it, traditional when
/// asked for by name (`traditional` or `inotify`, any case), otherwise
/// (`ebpf` or anything else) eBPF when the kernel supports it and no needed
/// capability is missing.
pub open spec fn mode_for(requested: Seq<char>, ebpf_built: bool, ebpf_supported: bool, missing_caps: nat) -> RuntimeMode {
    let m = spec_to_lowercase(requested);
    if !ebpf_built {
        RuntimeMode::Traditional
    } else if m == "traditional"@ || m == "inotify"@ {
        RuntimeMode::Traditional
    } else if !ebpf_supported || missing_caps > 0 {
        RuntimeMode::Traditional
    } else {
        RuntimeMode::Ebpf
    }
}

/// The runtime mode for the requested mode name.
pub fn detect_runtime_mode(requested: &str, ebpf_built: bool, ebpf_supported: bool, missing_caps: usize) -> (r: RuntimeMode)
    ensures
        r == mode_for(requested@, ebpf_built, ebpf_supported, missing_caps as nat),
{
    if !ebpf_built {
        return RuntimeMode::Traditional;
    }
    let l = to_lowercase(requested);
    let v = str_chars(l.as_str());
    if chars_eq_str(&v, "traditional") || chars_eq_str(&v, "inotify") {
        return RuntimeMode::Traditional;
    }
    if !ebpf_supported || missing_caps > 0 {
        return RuntimeMode::Traditional;
    }
    RuntimeMode::Ebpf
}

/// The log level named (any case): `trace`, `debug`, `warn`, `error`;
/// anything else is `info`.
pub open spec fn level_for(name: Seq<char>) -> LogLevel {
    let l = spec_to_lowercase(name);
    if l == "trace"@ {
        LogLevel::Trace
    } else if l == "debug"@ {
        LogLevel::Debug
    } else if l == "warn"@ {
        LogLevel::Warn
    } else if l == "error"@ {
        LogLevel::Error
    } else {
        LogLevel::Info
    }
}

/// The log level named by `level_str`.
pub fn parse_log_level(level_str: &str) -> (r: LogLevel)
    ensures
        r == level_for(level_str@),
{
    let l = to_lowercase(level_str);
    let v = str_chars(l.as_str());
    if chars_eq_str(&v, "trace") {
        LogLevel::Trace
    } else if chars_eq_str(&v, "debug") {
        LogLevel::Debug
    } else if chars_eq_str(&v, "warn") {
        LogLevel::Warn
    } else if chars_eq_str(&v, "error") {
        LogLevel::Error
    } else {
        LogLevel::Info
    }
}

/// How the mode is shown at startup.
pub open spec fn mode_text(mode: RuntimeMode) -> Seq<char> {
    match mode {
        RuntimeMode::Ebpf => "ebpf (LSM hooks)"@,
        RuntimeMode::Traditional => "traditional (inotify)"@,
    }
}

/// How the mode is shown at startup.
pub fn log_runtime_mode(mode: RuntimeMode) -> (r: &'static str)
    ensures
        r@ == mode_text(mode),
{
    match mode {
        RuntimeMode::Ebpf => "ebpf (LSM hooks)",
        RuntimeMode::Traditional => "traditional (inotify)",
    }
}

/// Which inotify limits deserve a warning: the kernel's watch limit below
/// the configured watches, and an event queue shorter than 32768.
pub fn inotify_limit_warnings(max_user_watches: u64, max_queued_events: u64, max_watches: usize) -> (r: (bool, bool))
    ensures
        r.0 == (max_user_watches < max_watches),
        r.1 == (max_queued_events < 32768),
{
    ((max_user_watches as u128) < (max_watches as u128), max_queued_events < 32768)
}

/// Why the daemon cannot start.
#[derive(Debug)]
pub enum StartupFailure {
    /// A feature the daemon always needs cannot work here: what was being
    /// validated, and why.
    Environment { context: &'static str, cause: EnvironmentError },
    /// Base capabilities are missing; the report for the operator.
    MissingCapabilities { report: String },
    /// The file descriptor limit is too low, or could not be read.
    FdLimit(ResourceLimitError),
}

/// The message a startup failure ends the daemon with.
pub open spec fn startup_failure_text(f: StartupFailure) -> Seq<char> {
    match f {
        StartupFailure::Environment { context, .. } => context@,
        StartupFailure::MissingCapabilities { .. } => "Missing required capabilities - daemon cannot start"@,
        StartupFailure::FdLimit(_) => "Insufficient file descriptor limit - daemon cannot start safely"@,
    }
}

impl StartupFailure {
    /// The message the daemon ends with.
    pub fn message(&self) -> (r: &'static str)
        ensures
            r@ == startup_failure_text(*self),
    {
        match self {
            StartupFailure::Environment { context, .. } => *context,
            StartupFailure::MissingCapabilities { .. } => "Missing required capabilities - daemon cannot start",
            StartupFailure::FdLimit(_) => "Insufficient file descriptor limit - daemon cannot start safely",
        }
    }
}

/// The feature works here, as the detector and the probe see it.
pub open spec fn feature_works<D: EnvironmentDetector>(d: &D, feature: Feature, probe: &FeatureProbe) -> bool {
    feature_ok(
        feature,
        d.spec_environment(),
        d.spec_wsl(),
        probe.proc_exists,
        match probe.osrelease {
            Some(s) => Some(s@),
            None => None::<Seq<char>>,
        },
        probe.btf_exists,
    )
}

/// Check the features the daemon always needs: inotify (the fallback of
/// every mode), then `/proc` access; the first that cannot work fails
/// startup.
pub fn validate_environment<D: EnvironmentDetector>(detector: &D, probe: &FeatureProbe) -> (r: Result<(), StartupFailure>)
    ensures
        r is Ok <==> feature_works(detector, Feature::Inotify, probe) && feature_works(detector, Feature::ProcAccess, probe),
        !feature_works(detector, Feature::Inotify, probe) ==> (r matches Err(StartupFailure::Environment { context, .. })
            && context@ == "inotify feature validation failed"@),
        feature_works(detector, Feature::Inotify, probe) && !feature_works(detector, Feature::ProcAccess, probe) ==> (r matches Err(
            StartupFailure::Environment { context, .. },
        ) && context@ == "/proc access validation failed"@),
{
    match detector.validate_for_feature(Feature::Inotify, probe) {
        Ok(()) => {},
        Err(cause) => {
            return Err(StartupFailure::Environment { context: "inotify feature validation failed", cause });
        },
    }
    match detector.validate_for_feature(Feature::ProcAccess, probe) {
        Ok(()) => Ok(()),
        Err(cause) => Err(StartupFailure::Environment { context: "/proc access validation failed", cause }),
    }
}

/// Check the capabilities argusd always needs; when one is missing,
/// startup fails with the report that tells the operator how to grant it.
pub fn validate_capabilities<C: CapabilityChecker>(checker: &C) -> (r: Result<(), StartupFailure>)
    ensures
        checker.holds(RequiredCapability::SysPtrace) ==> r is Ok,
        !checker.holds(RequiredCapability::SysPtrace) ==> (r matches Err(StartupFailure::MissingCapabilities { report })
            && report@ == missing_message_of(seq![RequiredCapability::SysPtrace], "argusd"@)),
{
    let caps = argusd_required_caps();
    let missing = checker.check_required(&caps);
    proof {
        reveal(Seq::filter);
        assert(caps@.drop_last() =~= Seq::<RequiredCapability>::empty());
        assert(Seq::<RequiredCapability>::empty().filter(|c: RequiredCapability| !checker.holds(c)) =~= Seq::<RequiredCapability>::empty());
    }
    if missing.len() == 0 {
        Ok(())
    } else {
        assert(missing@ =~= seq![RequiredCapability::SysPtrace]);
        Err(StartupFailure::MissingCapabilities { report: missing_capabilities_message(&missing, "argusd") })
    }
}

/// Check that the process may open a file descriptor per watch plus the
/// safety margin: the soft limit when it allows that. Whatever the limit
/// is, a success is at least the need.
pub fn validate_fd_limit(max_watches: usize) -> (r: Result<u64, StartupFailure>)
    ensures
        r matches Ok(soft) ==> soft >= sat_add(max_watches as u64, FD_SAFETY_MARGIN),
        r matches Err(f) ==> f is FdLimit,
{
    match check_fd_limit(max_watches as u64, FD_SAFETY_MARGIN) {
        Ok(soft) => Ok(soft),
        Err(e) => Err(StartupFailure::FdLimit(e)),
    }
}

/// The advice printed with a too-low file descriptor limit.
pub fn fd_limit_advice(max_watches: usize) -> (r: String)
    requires
        max_watches + FD_SAFETY_MARGIN <= u64::MAX,
    ensures
        r@ == "Increase with: ulimit -n "@ + decimal((max_watches + FD_SAFETY_MARGIN) as nat)
            + " (or update container securityContext)"@,
{
    let mut v: Vec<char> = Vec::new();
    push_str(&mut v, "Increase with: ulimit -n ");
    push_decimal(&mut v, max_watches as u64 + FD_SAFETY_MARGIN);
    push_str(&mut v, " (or update container securityContext)");
    string_from_chars(&v)
}

} // verus!
