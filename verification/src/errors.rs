//! Errors shared by the monitoring daemons, each with its message.
//!
//! The causes that come from the operating system (`std::io::Error`) are
//! carried by their message.
use vstd::prelude::*;
use vstd::std_specs::convert::FromSpecImpl;
use crate::text::{decimal, push_decimal, push_str, string_from_chars};

verus! {

/// What kind of failure a file read met.
#[derive(Debug, Clone, Copy, PartialEq, Eq, Structural)]
pub enum FailureKind {
    /// The file does not exist.
    NotFound,
    /// Access was denied.
    PermissionDenied,
    /// Any other failure.
    Other,
}

/// A failed file read: its kind and the error's message.
#[derive(Debug)]
pub struct ReadFailure {
    pub kind: FailureKind,
    pub message: String,
}

/// Errors of container runtime operations.
#[derive(Debug)]
pub enum RuntimeError {
    /// No supported runtime was found.
    NoRuntimeDetected,
    /// The container ID names no known runtime.
    UnknownRuntime { id: String },
    /// The container ID is malformed.
    InvalidContainerId { id: String, reason: String },
    /// The container's PID file does not exist.
    PidFileNotFound { container_id: String, path: String },
    /// The container's PID file could not be read.
    PidFileRead { path: String, source: String },
    /// The PID file does not hold an integer.
    InvalidPidContent { path: String, content: String },
    /// The container's root filesystem cannot be reached.
    ContainerRootNotAccessible { pid: u32 },
}

/// Errors of `/proc` parsing.
#[derive(Debug)]
pub enum ProcError {
    /// The process does not exist.
    ProcessNotFound { pid: u32 },
    /// `/proc/{pid}/stat` could not be read.
    StatReadError { pid: u32, source: String },
    /// `/proc/{pid}/stat` could not be parsed.
    StatParseError { pid: u32, reason: String },
    /// `/proc/{pid}/status` could not be read.
    StatusReadError { pid: u32, source: String },
    /// `/proc/{pid}/status` could not be parsed.
    StatusParseError { pid: u32, reason: String },
    /// A file descriptor could not be resolved.
    FdResolutionError { pid: u32, fd: i32, source: String },
    /// Access to a `/proc` file was denied.
    PermissionDenied { pid: u32, file: String },
}

/// Security-related errors.
#[derive(Debug)]
pub enum SecurityError {
    /// A required capability is missing.
    MissingCapability { capability: String },
    /// The capabilities could not be read.
    CapabilityReadError(String),
    /// A path tries to leave its directory.
    PathTraversal { path: String },
    /// A path lies outside the allowed root.
    OutsideAllowedRoot { path: String, root: String },
}

/// Any of the shared errors.
#[derive(Debug)]
pub enum CommonError {
    Runtime(RuntimeError),
    Proc(ProcError),
    Io(String),
    Security(SecurityError),
}

/// The decimal digits of a signed number, `-` first when negative.
pub open spec fn int_decimal(n: i32) -> Seq<char> {
    if n < 0 {
        seq!['-'] + decimal((-(n as int)) as nat)
    } else {
        decimal(n as nat)
    }
}

/// Append the decimal digits of a signed number.
pub fn push_int(v: &mut Vec<char>, n: i32)
    ensures
        final(v)@ == old(v)@ + int_decimal(n),
{
    if n < 0 {
        v.push('-');
        let m: u64 = if n == i32::MIN { 2147483648u64 } else { (-n) as u64 };
        assert(m == -(n as int));
        push_decimal(v, m);
        assert(v@ =~= old(v)@ + int_decimal(n));
    } else {
        push_decimal(v, n as u64);
    }
}

/// The message of a runtime error.
pub open spec fn runtime_error_text(e: RuntimeError) -> Seq<char> {
    match e {
        RuntimeError::NoRuntimeDetected => "no supported container runtime detected (checked containerd, CRI-O)"@,
        RuntimeError::UnknownRuntime { id } => "unknown container runtime in ID: "@ + id@,
        RuntimeError::InvalidContainerId { id, reason } => "invalid container ID '"@ + id@ + "': "@ + reason@,
        RuntimeError::PidFileNotFound { container_id, path } => "PID file not found for container "@ + container_id@ + ": "@ + path@,
        RuntimeError::PidFileRead { path, source } => "failed to read PID file "@ + path@ + ": "@ + source@,
        RuntimeError::InvalidPidContent { path, content } => "invalid PID in file "@ + path@ + ": expected integer, got '"@ + content@ + "'"@,
        RuntimeError::ContainerRootNotAccessible { pid } => "container root not accessible: /proc/"@ + decimal(pid as nat) + "/root"@,
    }
}

/// The message of a `/proc` error.
pub open spec fn proc_error_text(e: ProcError) -> Seq<char> {
    match e {
        ProcError::ProcessNotFound { pid } => "process "@ + decimal(pid as nat) + " not found (may have exited)"@,
        ProcError::StatReadError { pid, source } => "failed to read /proc/"@ + decimal(pid as nat) + "/stat: "@ + source@,
        ProcError::StatParseError { pid, reason } => "failed to parse /proc/"@ + decimal(pid as nat) + "/stat: "@ + reason@,
        ProcError::StatusReadError { pid, source } => "failed to read /proc/"@ + decimal(pid as nat) + "/status: "@ + source@,
        ProcError::StatusParseError { pid, reason } => "failed to parse /proc/"@ + decimal(pid as nat) + "/status: "@ + reason@,
        ProcError::FdResolutionError { pid, fd, source } => "failed to resolve fd "@ + int_decimal(fd) + " for pid "@ + decimal(pid as nat) + ": "@ + source@,
        ProcError::PermissionDenied { pid, file } => "permission denied accessing /proc/"@ + decimal(pid as nat) + "/"@ + file@
            + " (requires CAP_SYS_PTRACE)"@,
    }
}

/// The message of a security error.
pub open spec fn security_error_text(e: SecurityError) -> Seq<char> {
    match e {
        SecurityError::MissingCapability { capability } => "missing required capability: "@ + capability@,
        SecurityError::CapabilityReadError(m) => "failed to read capabilities: "@ + m@,
        SecurityError::PathTraversal { path } => "path traversal detected in: "@ + path@,
        SecurityError::OutsideAllowedRoot { path, root } => "path "@ + path@ + " is outside allowed root "@ + root@,
    }
}

/// The message of a shared error.
pub open spec fn common_error_text(e: CommonError) -> Seq<char> {
    match e {
        CommonError::Runtime(r) => "runtime error: "@ + runtime_error_text(r),
        CommonError::Proc(p) => "proc error: "@ + proc_error_text(p),
        CommonError::Io(m) => "I/O error: "@ + m@,
        CommonError::Security(s) => "security error: "@ + security_error_text(s),
    }
}

impl RuntimeError {
    /// Append the message to `v`.
    pub fn write_message(&self, v: &mut Vec<char>)
        ensures
            final(v)@ == old(v)@ + runtime_error_text(*self),
    {
        match self {
            RuntimeError::NoRuntimeDetected => {
                push_str(v, "no supported container runtime detected (checked containerd, CRI-O)");
            },
            RuntimeError::UnknownRuntime { id } => {
                push_str(v, "unknown container runtime in ID: ");
                push_str(v, id.as_str());
            },
            RuntimeError::InvalidContainerId { id, reason } => {
                push_str(v, "invalid container ID '");
                push_str(v, id.as_str());
                push_str(v, "': ");
                push_str(v, reason.as_str());
            },
            RuntimeError::PidFileNotFound { container_id, path } => {
                push_str(v, "PID file not found for container ");
                push_str(v, container_id.as_str());
                push_str(v, ": ");
                push_str(v, path.as_str());
            },
            RuntimeError::PidFileRead { path, source } => {
                push_str(v, "failed to read PID file ");
                push_str(v, path.as_str());
                push_str(v, ": ");
                push_str(v, source.as_str());
            },
            RuntimeError::InvalidPidContent { path, content } => {
                push_str(v, "invalid PID in file ");
                push_str(v, path.as_str());
                push_str(v, ": expected integer, got '");
                push_str(v, content.as_str());
                push_str(v, "'");
            },
            RuntimeError::ContainerRootNotAccessible { pid } => {
                push_str(v, "container root not accessible: /proc/");
                push_decimal(v, *pid as u64);
                push_str(v, "/root");
            },
        }
        assert(v@ =~= old(v)@ + runtime_error_text(*self));
    }

    /// The error's message.
    pub fn message(&self) -> (r: String)
        ensures
            r@ == runtime_error_text(*self),
    {
        let mut v: Vec<char> = Vec::new();
        self.write_message(&mut v);
        assert(v@ =~= runtime_error_text(*self));
        string_from_chars(&v)
    }
}

impl ProcError {
    /// Append the message to `v`.
    pub fn write_message(&self, v: &mut Vec<char>)
        ensures
            final(v)@ == old(v)@ + proc_error_text(*self),
    {
        match self {
            ProcError::ProcessNotFound { pid } => {
                push_str(v, "process ");
                push_decimal(v, *pid as u64);
                push_str(v, " not found (may have exited)");
            },
            ProcError::StatReadError { pid, source } => {
                push_str(v, "failed to read /proc/");
                push_decimal(v, *pid as u64);
                push_str(v, "/stat: ");
                push_str(v, source.as_str());
            },
            ProcError::StatParseError { pid, reason } => {
                push_str(v, "failed to parse /proc/");
                push_decimal(v, *pid as u64);
                push_str(v, "/stat: ");
                push_str(v, reason.as_str());
            },
            ProcError::StatusReadError { pid, source } => {
                push_str(v, "failed to read /proc/");
                push_decimal(v, *pid as u64);
                push_str(v, "/status: ");
                push_str(v, source.as_str());
            },
            ProcError::StatusParseError { pid, reason } => {
                push_str(v, "failed to parse /proc/");
                push_decimal(v, *pid as u64);
                push_str(v, "/status: ");
                push_str(v, reason.as_str());
            },
            ProcError::FdResolutionError { pid, fd, source } => {
                push_str(v, "failed to resolve fd ");
                push_int(v, *fd);
                push_str(v, " for pid ");
                push_decimal(v, *pid as u64);
                push_str(v, ": ");
                push_str(v, source.as_str());
            },
            ProcError::PermissionDenied { pid, file } => {
                push_str(v, "permission denied accessing /proc/");
                push_decimal(v, *pid as u64);
                push_str(v, "/");
                push_str(v, file.as_str());
                push_str(v, " (requires CAP_SYS_PTRACE)");
            },
        }
        assert(v@ =~= old(v)@ + proc_error_text(*self));
    }

    /// The error's message.
    pub fn message(&self) -> (r: String)
        ensures
            r@ == proc_error_text(*self),
    {
        let mut v: Vec<char> = Vec::new();
        self.write_message(&mut v);
        assert(v@ =~= proc_error_text(*self));
        string_from_chars(&v)
    }
}

impl SecurityError {
    /// Append the message to `v`.
    pub fn write_message(&self, v: &mut Vec<char>)
        ensures
            final(v)@ == old(v)@ + security_error_text(*self),
    {
        match self {
            SecurityError::MissingCapability { capability } => {
                push_str(v, "missing required capability: ");
                push_str(v, capability.as_str());
            },
            SecurityError::CapabilityReadError(m) => {
                push_str(v, "failed to read capabilities: ");
                push_str(v, m.as_str());
            },
            SecurityError::PathTraversal { path } => {
                push_str(v, "path traversal detected in: ");
                push_str(v, path.as_str());
            },
            SecurityError::OutsideAllowedRoot { path, root } => {
                push_str(v, "path ");
                push_str(v, path.as_str());
                push_str(v, " is outside allowed root ");
                push_str(v, root.as_str());
            },
        }
        assert(v@ =~= old(v)@ + security_error_text(*self));
    }

    /// The error's message.
    pub fn message(&self) -> (r: String)
        ensures
            r@ == security_error_text(*self),
    {
        let mut v: Vec<char> = Vec::new();
        self.write_message(&mut v);
        assert(v@ =~= security_error_text(*self));
        string_from_chars(&v)
    }
}

impl CommonError {
    /// The error's message.
    pub fn message(&self) -> (r: String)
        ensures
            r@ == common_error_text(*self),
    {
        let mut v: Vec<char> = Vec::new();
        match self {
            CommonError::Runtime(e) => {
                push_str(&mut v, "runtime error: ");
                e.write_message(&mut v);
            },
            CommonError::Proc(e) => {
                push_str(&mut v, "proc error: ");
                e.write_message(&mut v);
            },
            CommonError::Io(m) => {
                push_str(&mut v, "I/O error: ");
                push_str(&mut v, m.as_str());
            },
            CommonError::Security(e) => {
                push_str(&mut v, "security error: ");
                e.write_message(&mut v);
            },
        }
        assert(v@ =~= common_error_text(*self));
        string_from_chars(&v)
    }
}

impl From<RuntimeError> for CommonError {
    fn from(e: RuntimeError) -> (r: CommonError) {
        CommonError::Runtime(e)
    }
}

impl FromSpecImpl<RuntimeError> for CommonError {
    open spec fn obeys_from_spec() -> bool {
        true
    }

    open spec fn from_spec(e: RuntimeError) -> CommonError {
        CommonError::Runtime(e)
    }
}

impl From<ProcError> for CommonError {
    fn from(e: ProcError) -> (r: CommonError) {
        CommonError::Proc(e)
    }
}

impl FromSpecImpl<ProcError> for CommonError {
    open spec fn obeys_from_spec() -> bool {
        true
    }

    open spec fn from_spec(e: ProcError) -> CommonError {
        CommonError::Proc(e)
    }
}

impl From<SecurityError> for CommonError {
    fn from(e: SecurityError) -> (r: CommonError) {
        CommonError::Security(e)
    }
}

impl FromSpecImpl<SecurityError> for CommonError {
    open spec fn obeys_from_spec() -> bool {
        true
    }

    open spec fn from_spec(e: SecurityError) -> CommonError {
        CommonError::Security(e)
    }
}

} // verus!
