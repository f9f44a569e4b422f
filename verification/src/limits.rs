//! Resource limits: the file descriptor limit check and the inotify and
//! fanotify limits read from `/proc/sys/fs`.
use vstd::prelude::*;
use crate::notify::errno_display;
use crate::text::{decimal, owned, parse_unsigned, parse_unsigned_chars, push_decimal, push_str, str_chars, string_from_chars, trim, trim_chars};

verus! {

/// Resource limit errors.
#[derive(Debug)]
pub enum ResourceLimitError {
    /// The file descriptor limit is below what is needed.
    FdLimitTooLow { current: u64, required: u64 },
    /// The limit could not be queried; the `errno` value.
    QueryFailed(i32),
    /// A `/proc` file could not be read or parsed.
    ProcReadFailed { path: String, source: String },
}

/// The message of a resource limit error.
pub open spec fn limit_error_text(e: ResourceLimitError) -> Seq<char> {
    match e {
        ResourceLimitError::FdLimitTooLow { current, required } => "file descriptor limit too low: "@ + decimal(current as nat)
            + " < "@ + decimal(required as nat) + " (adjust with: ulimit -n "@ + decimal(required as nat) + ")"@,
        ResourceLimitError::QueryFailed(code) => "failed to query resource limit: "@ + errno_display(code),
        ResourceLimitError::ProcReadFailed { path, source } => "failed to read "@ + path@ + ": "@ + source@,
    }
}

impl ResourceLimitError {
    /// The error's message.
    pub fn message(&self) -> (r: String)
        ensures
            r@ == limit_error_text(*self),
    {
        let mut v: Vec<char> = Vec::new();
        match self {
            ResourceLimitError::FdLimitTooLow { current, required } => {
                push_str(&mut v, "file descriptor limit too low: ");
                push_decimal(&mut v, *current);
                push_str(&mut v, " < ");
                push_decimal(&mut v, *required);
                push_str(&mut v, " (adjust with: ulimit -n ");
                push_decimal(&mut v, *required);
                push_str(&mut v, ")");
            },
            ResourceLimitError::QueryFailed(code) => {
                push_str(&mut v, "failed to query resource limit: ");
                let t = crate::notify::errno_string(*code);
                push_str(&mut v, t.as_str());
            },
            ResourceLimitError::ProcReadFailed { path, source } => {
                push_str(&mut v, "failed to read ");
                push_str(&mut v, path.as_str());
                push_str(&mut v, ": ");
                push_str(&mut v, source.as_str());
            },
        }
        assert(v@ =~= limit_error_text(*self));
        string_from_chars(&v)
    }
}

/// `a + b`, or the largest `u64` when that overflows.
pub open spec fn sat_add(a: u64, b: u64) -> u64 {
    if a + b > u64::MAX {
        u64::MAX
    } else {
        (a + b) as u64
    }
}

/// Judge a soft file descriptor limit against what is needed (plus a
/// margin, saturating): the limit when enough, else an error with both.
pub fn fd_limit_verdict(soft: u64, required_fds: u64, safety_margin: u64) -> (r: Result<u64, ResourceLimitError>)
    ensures
        soft >= sat_add(required_fds, safety_margin) ==> r == Ok::<u64, ResourceLimitError>(soft),
        soft < sat_add(required_fds, safety_margin) ==> (r matches Err(ResourceLimitError::FdLimitTooLow { current, required })
            && current == soft && required == sat_add(required_fds, safety_margin)),
{
    let total = required_fds.saturating_add(safety_margin);
    if soft < total {
        Err(ResourceLimitError::FdLimitTooLow { current: soft, required: total })
    } else {
        Ok(soft)
    }
}

/// `getrlimit(RLIMIT_NOFILE)` (`nix`): the soft and hard limits on open
/// file descriptors, or the `errno` the call failed with. The limits are
/// the process's own, so nothing is stated of them.
#[verifier::external_body]
fn nofile_limits() -> (r: Result<(u64, u64), i32>) {
    match nix::sys::resource::getrlimit(nix::sys::resource::Resource::RLIMIT_NOFILE) {
        Ok((soft, hard)) => Ok((soft, hard)),
        Err(e) => Err(e as i32),
    }
}

/// Check that the process may open `required_fds` plus `safety_margin`
/// file descriptors: the soft limit when it allows that. Whatever the
/// limit is, a success is at least the need and a too-low error reports
/// the limit below the need.
pub fn check_fd_limit(required_fds: u64, safety_margin: u64) -> (r: Result<u64, ResourceLimitError>)
    ensures
        (r matches Ok(soft) ==> soft >= sat_add(required_fds, safety_margin)),
        (r matches Err(ResourceLimitError::FdLimitTooLow { current, required }) ==> current < required && required == sat_add(
            required_fds,
            safety_margin,
        )),
        !(r matches Err(ResourceLimitError::ProcReadFailed { .. })),
{
    match nofile_limits() {
        Ok((soft, _hard)) => fd_limit_verdict(soft, required_fds, safety_margin),
        Err(code) => Err(ResourceLimitError::QueryFailed(code)),
    }
}

/// The value of a `/proc/sys` file: its trimmed contents as a `u64`.
pub open spec fn proc_value(content: Seq<char>) -> Option<nat> {
    parse_unsigned(trim(content), u64::MAX as nat)
}

/// The number a `/proc/sys` file at `path` holds, from the outcome of
/// reading it (the error's message on failure).
pub fn parse_proc_u64(path: &str, read: Result<String, String>) -> (r: Result<u64, ResourceLimitError>)
    ensures
        match read {
            Err(m) => r matches Err(ResourceLimitError::ProcReadFailed { path: p, source: s }) && p@ == path@ && s@ == m@,
            Ok(c) => match proc_value(c@) {
                Some(x) => r == Ok::<u64, ResourceLimitError>(x as u64),
                None => r matches Err(ResourceLimitError::ProcReadFailed { path: p, source: s }) && p@ == path@
                    && s@ == "failed to parse as u64"@,
            },
        },
{
    match read {
        Err(m) => Err(ResourceLimitError::ProcReadFailed { path: owned(path), source: m }),
        Ok(c) => {
            let v = str_chars(c.as_str());
            let t = trim_chars(&v);
            match parse_unsigned_chars(&t, u64::MAX) {
                Some(x) => Ok(x),
                None => Err(ResourceLimitError::ProcReadFailed { path: owned(path), source: owned("failed to parse as u64") }),
            }
        },
    }
}

/// The value of a limit file, or `default` when it cannot be read or parsed.
pub open spec fn limit_or(read: Result<Seq<char>, Seq<char>>, default: u64) -> u64 {
    match read {
        Ok(c) => match proc_value(c) {
            Some(x) => x as u64,
            None => default,
        },
        Err(_) => default,
    }
}

/// The contents of a read outcome.
pub open spec fn read_view(read: Result<String, String>) -> Result<Seq<char>, Seq<char>> {
    match read {
        Ok(c) => Ok(c@),
        Err(m) => Err(m@),
    }
}

fn value_or(path: &str, read: Result<String, String>, default: u64) -> (r: u64)
    ensures
        r == limit_or(read_view(read), default),
{
    match parse_proc_u64(path, read) {
        Ok(x) => x,
        Err(_) => default,
    }
}

/// The inotify limits `max_user_watches` (default 8192) and
/// `max_queued_events` (default 16384), from reading their files.
pub fn read_inotify_limits(max_user_watches: Result<String, String>, max_queued_events: Result<String, String>) -> (r: (u64, u64))
    ensures
        r.0 == limit_or(read_view(max_user_watches), 8192),
        r.1 == limit_or(read_view(max_queued_events), 16384),
{
    let w = value_or("/proc/sys/fs/inotify/max_user_watches", max_user_watches, 8192);
    let q = value_or("/proc/sys/fs/inotify/max_queued_events", max_queued_events, 16384);
    (w, q)
}

/// The inotify limit `max_user_instances` (default 128), from reading its
/// file.
pub fn read_inotify_max_instances(max_user_instances: Result<String, String>) -> (r: u64)
    ensures
        r == limit_or(read_view(max_user_instances), 128),
{
    value_or("/proc/sys/fs/inotify/max_user_instances", max_user_instances, 128)
}

/// The fanotify limits `max_user_marks` (default 8192) and
/// `max_queued_events` (default 16384), from reading their files.
pub fn read_fanotify_limits(max_user_marks: Result<String, String>, max_queued_events: Result<String, String>) -> (r: (u64, u64))
    ensures
        r.0 == limit_or(read_view(max_user_marks), 8192),
        r.1 == limit_or(read_view(max_queued_events), 16384),
{
    let m = value_or("/proc/sys/fs/fanotify/max_user_marks", max_user_marks, 8192);
    let q = value_or("/proc/sys/fs/fanotify/max_queued_events", max_queued_events, 16384);
    (m, q)
}

/// The limits that bound monitoring.
#[derive(Debug, Clone)]
pub struct ResourceLimitsInfo {
    pub fd_soft_limit: u64,
    pub fd_hard_limit: u64,
    pub inotify_max_watches: u64,
    pub inotify_max_queued: u64,
    pub inotify_max_instances: u64,
    pub fanotify_max_marks: u64,
    pub fanotify_max_queued: u64,
}

impl ResourceLimitsInfo {
    /// The limits now: the file descriptor limits of the process (zero
    /// when they cannot be read), and the inotify and fanotify limits from
    /// reading their files (`max_user_watches`, `max_queued_events` and
    /// `max_user_instances` of inotify, `max_user_marks` and
    /// `max_queued_events` of fanotify), with their defaults.
    pub fn collect(
        inotify_watches: Result<String, String>,
        inotify_queued: Result<String, String>,
        inotify_instances: Result<String, String>,
        fanotify_marks: Result<String, String>,
        fanotify_queued: Result<String, String>,
    ) -> (r: Self)
        ensures
            r.inotify_max_watches == limit_or(read_view(inotify_watches), 8192),
            r.inotify_max_queued == limit_or(read_view(inotify_queued), 16384),
            r.inotify_max_instances == limit_or(read_view(inotify_instances), 128),
            r.fanotify_max_marks == limit_or(read_view(fanotify_marks), 8192),
            r.fanotify_max_queued == limit_or(read_view(fanotify_queued), 16384),
    {
        let (fd_soft, fd_hard) = match nofile_limits() {
            Ok(p) => p,
            Err(_) => (0, 0),
        };
        let (w, q) = read_inotify_limits(inotify_watches, inotify_queued);
        let n = read_inotify_max_instances(inotify_instances);
        let (m, fq) = read_fanotify_limits(fanotify_marks, fanotify_queued);
        ResourceLimitsInfo {
            fd_soft_limit: fd_soft,
            fd_hard_limit: fd_hard,
            inotify_max_watches: w,
            inotify_max_queued: q,
            inotify_max_instances: n,
            fanotify_max_marks: m,
            fanotify_max_queued: fq,
        }
    }
}

} // verus!
