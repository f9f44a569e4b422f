//! Linux capabilities the daemons need, and the check of the effective set
//! against them.
//!
//! Reading the effective set from the kernel is the caller's; it hands the
//! capability numbers over.
use vstd::prelude::*;
use crate::text::{push_str, string_from_chars};

verus! {

/// A capability a daemon may need.
#[derive(Debug, Clone, Copy, PartialEq, Eq, Structural)]
pub enum RequiredCapability {
    /// `CAP_SYS_ADMIN`: fanotify.
    SysAdmin,
    /// `CAP_SYS_PTRACE`: container filesystems under `/proc/<pid>/root`.
    SysPtrace,
    /// `CAP_DAC_READ_SEARCH`: bypass file permission checks.
    DacReadSearch,
    /// `CAP_AUDIT_WRITE`.
    AuditWrite,
    /// `CAP_AUDIT_READ`.
    AuditRead,
    /// `CAP_AUDIT_CONTROL`.
    AuditControl,
    /// `CAP_BPF`.
    Bpf,
    /// `CAP_PERFMON`.
    Perfmon,
}

/// The kernel's number of a capability (its bit in the capability sets).
pub open spec fn cap_number(c: RequiredCapability) -> u8 {
    match c {
        RequiredCapability::SysAdmin => 21,
        RequiredCapability::SysPtrace => 19,
        RequiredCapability::DacReadSearch => 2,
        RequiredCapability::AuditWrite => 29,
        RequiredCapability::AuditRead => 37,
        RequiredCapability::AuditControl => 30,
        RequiredCapability::Bpf => 39,
        RequiredCapability::Perfmon => 38,
    }
}

/// The Kubernetes name of a capability.
pub open spec fn k8s_name_of(c: RequiredCapability) -> Seq<char> {
    match c {
        RequiredCapability::SysAdmin => "SYS_ADMIN"@,
        RequiredCapability::SysPtrace => "SYS_PTRACE"@,
        RequiredCapability::DacReadSearch => "DAC_READ_SEARCH"@,
        RequiredCapability::AuditWrite => "AUDIT_WRITE"@,
        RequiredCapability::AuditRead => "AUDIT_READ"@,
        RequiredCapability::AuditControl => "AUDIT_CONTROL"@,
        RequiredCapability::Bpf => "BPF"@,
        RequiredCapability::Perfmon => "PERFMON"@,
    }
}

/// What a capability is needed for.
pub open spec fn description_of(c: RequiredCapability) -> Seq<char> {
    match c {
        RequiredCapability::SysAdmin => "Required for fanotify file access monitoring"@,
        RequiredCapability::SysPtrace => "Required to access container filesystems via /proc/<pid>/root"@,
        RequiredCapability::DacReadSearch => "Bypass file permission checks (optional, enables broader access)"@,
        RequiredCapability::AuditWrite => "Write events to kernel audit log"@,
        RequiredCapability::AuditRead => "Read events from kernel audit subsystem"@,
        RequiredCapability::AuditControl => "Configure kernel audit rules"@,
        RequiredCapability::Bpf => "Load and run eBPF programs for kernel-level monitoring"@,
        RequiredCapability::Perfmon => "Attach eBPF programs to tracepoints and kprobes"@,
    }
}

/// The capability's name, `CAP_` and its Kubernetes name.
pub open spec fn cap_name_of(c: RequiredCapability) -> Seq<char> {
    "CAP_"@ + k8s_name_of(c)
}

impl RequiredCapability {
    /// The kernel's number of the capability.
    pub fn number(&self) -> (r: u8)
        ensures
            r == cap_number(*self),
    {
        match self {
            RequiredCapability::SysAdmin => 21,
            RequiredCapability::SysPtrace => 19,
            RequiredCapability::DacReadSearch => 2,
            RequiredCapability::AuditWrite => 29,
            RequiredCapability::AuditRead => 37,
            RequiredCapability::AuditControl => 30,
            RequiredCapability::Bpf => 39,
            RequiredCapability::Perfmon => 38,
        }
    }

    /// What the capability is needed for.
    pub fn description(&self) -> (r: &'static str)
        ensures
            r@ == description_of(*self),
    {
        match self {
            RequiredCapability::SysAdmin => "Required for fanotify file access monitoring",
            RequiredCapability::SysPtrace => "Required to access container filesystems via /proc/<pid>/root",
            RequiredCapability::DacReadSearch => "Bypass file permission checks (optional, enables broader access)",
            RequiredCapability::AuditWrite => "Write events to kernel audit log",
            RequiredCapability::AuditRead => "Read events from kernel audit subsystem",
            RequiredCapability::AuditControl => "Configure kernel audit rules",
            RequiredCapability::Bpf => "Load and run eBPF programs for kernel-level monitoring",
            RequiredCapability::Perfmon => "Attach eBPF programs to tracepoints and kprobes",
        }
    }

    /// The name Kubernetes uses in `securityContext.capabilities`.
    pub fn k8s_name(&self) -> (r: &'static str)
        ensures
            r@ == k8s_name_of(*self),
    {
        match self {
            RequiredCapability::SysAdmin => "SYS_ADMIN",
            RequiredCapability::SysPtrace => "SYS_PTRACE",
            RequiredCapability::DacReadSearch => "DAC_READ_SEARCH",
            RequiredCapability::AuditWrite => "AUDIT_WRITE",
            RequiredCapability::AuditRead => "AUDIT_READ",
            RequiredCapability::AuditControl => "AUDIT_CONTROL",
            RequiredCapability::Bpf => "BPF",
            RequiredCapability::Perfmon => "PERFMON",
        }
    }

    /// The capability's name, such as `CAP_SYS_ADMIN`.
    pub fn cap_name(&self) -> (r: String)
        ensures
            r@ == cap_name_of(*self),
    {
        let mut v: Vec<char> = Vec::new();
        push_str(&mut v, "CAP_");
        push_str(&mut v, self.k8s_name());
        string_from_chars(&v)
    }
}

/// Capabilities argusd needs.
pub fn argusd_required_caps() -> (r: Vec<RequiredCapability>)
    ensures
        r@ == seq![RequiredCapability::SysPtrace],
{
    vec![RequiredCapability::SysPtrace]
}

/// Capabilities argusd needs in eBPF mode.
pub fn argusd_required_caps_ebpf() -> (r: Vec<RequiredCapability>)
    ensures
        r@ == seq![RequiredCapability::SysPtrace, RequiredCapability::Bpf, RequiredCapability::Perfmon],
{
    vec![RequiredCapability::SysPtrace, RequiredCapability::Bpf, RequiredCapability::Perfmon]
}

/// Capabilities janusd needs.
pub fn janusd_required_caps() -> (r: Vec<RequiredCapability>)
    ensures
        r@ == seq![RequiredCapability::SysAdmin, RequiredCapability::SysPtrace],
{
    vec![RequiredCapability::SysAdmin, RequiredCapability::SysPtrace]
}

/// Capabilities janusd can use when present.
pub fn janusd_optional_caps() -> (r: Vec<RequiredCapability>)
    ensures
        r@ == seq![RequiredCapability::AuditWrite],
{
    vec![RequiredCapability::AuditWrite]
}

/// Capabilities janusd needs in eBPF mode.
pub fn janusd_required_caps_ebpf() -> (r: Vec<RequiredCapability>)
    ensures
        r@ == seq![RequiredCapability::SysAdmin, RequiredCapability::SysPtrace, RequiredCapability::Bpf, RequiredCapability::Perfmon],
{
    vec![RequiredCapability::SysAdmin, RequiredCapability::SysPtrace, RequiredCapability::Bpf, RequiredCapability::Perfmon]
}

/// Capability errors.
#[derive(Debug)]
pub enum CapabilityError {
    /// These capabilities are missing.
    MissingCapabilities(Vec<RequiredCapability>),
    /// This capability is missing.
    MissingCapability { capability: RequiredCapability },
    /// The capabilities could not be read.
    QueryFailed(String),
}

/// The names of the capabilities, separated by `, `.
pub open spec fn joined_names(caps: Seq<RequiredCapability>) -> Seq<char>
    decreases caps.len(),
{
    if caps.len() == 0 {
        Seq::<char>::empty()
    } else if caps.len() == 1 {
        cap_name_of(caps[0])
    } else {
        joined_names(caps.drop_last()) + ", "@ + cap_name_of(caps.last())
    }
}

/// The message of a capability error.
pub open spec fn capability_error_text(e: CapabilityError) -> Seq<char> {
    match e {
        CapabilityError::MissingCapabilities(caps) => "Missing required capabilities: "@ + joined_names(caps@),
        CapabilityError::MissingCapability { capability } => "Missing capability "@ + cap_name_of(capability) + ": "@
            + description_of(capability),
        CapabilityError::QueryFailed(m) => "Failed to query capabilities: "@ + m@,
    }
}

impl CapabilityError {
    /// The error's message.
    pub fn message(&self) -> (r: String)
        ensures
            r@ == capability_error_text(*self),
    {
        let mut v: Vec<char> = Vec::new();
        match self {
            CapabilityError::MissingCapabilities(caps) => {
                push_str(&mut v, "Missing required capabilities: ");
                let ghost start = v@;
                let mut i: usize = 0;
                while i < caps.len()
                    invariant
                        i <= caps@.len(),
                        v@ == start + joined_names(caps@.subrange(0, i as int)),
                    decreases caps.len() - i,
                {
                    let ghost pre = caps@.subrange(0, i as int);
                    let ghost next = caps@.subrange(0, i as int + 1);
                    assert(next.drop_last() =~= pre);
                    if i > 0 {
                        push_str(&mut v, ", ");
                    }
                    let n = caps[i].cap_name();
                    push_str(&mut v, n.as_str());
                    proof {
                        if i == 0 {
                            assert(pre =~= Seq::<RequiredCapability>::empty());
                            assert(v@ =~= start + joined_names(next));
                        } else {
                            assert(v@ =~= start + joined_names(next));
                        }
                    }
                    i = i + 1;
                }
                assert(caps@.subrange(0, caps@.len() as int) =~= caps@);
            },
            CapabilityError::MissingCapability { capability } => {
                push_str(&mut v, "Missing capability ");
                let n = capability.cap_name();
                push_str(&mut v, n.as_str());
                push_str(&mut v, ": ");
                push_str(&mut v, capability.description());
            },
            CapabilityError::QueryFailed(m) => {
                push_str(&mut v, "Failed to query capabilities: ");
                push_str(&mut v, m.as_str());
            },
        }
        assert(v@ =~= capability_error_text(*self));
        string_from_chars(&v)
    }
}

/// Checks of the capabilities the process holds.
pub trait CapabilityChecker {
    /// The capability is held.
    spec fn holds(&self, cap: RequiredCapability) -> bool;

    /// Whether the capability is held.
    fn has_capability(&self, cap: RequiredCapability) -> (r: bool)
        ensures
            r == self.holds(cap),
    ;

    /// The capability, or an error naming it.
    fn require(&self, cap: RequiredCapability) -> (r: Result<(), CapabilityError>)
        ensures
            self.holds(cap) ==> r is Ok,
            !self.holds(cap) ==> (r matches Err(CapabilityError::MissingCapability { capability }) && capability == cap),
    {
        if self.has_capability(cap) {
            Ok(())
        } else {
            Err(CapabilityError::MissingCapability { capability: cap })
        }
    }

    /// The capabilities of `caps` that are not held, in order.
    fn check_required(&self, caps: &Vec<RequiredCapability>) -> (r: Vec<RequiredCapability>)
        ensures
            r@ == caps@.filter(|c: RequiredCapability| !self.holds(c)),
    {
        let mut out: Vec<RequiredCapability> = Vec::new();
        let mut i: usize = 0;
        while i < caps.len()
            invariant
                i <= caps@.len(),
                out@ == caps@.subrange(0, i as int).filter(|c: RequiredCapability| !self.holds(c)),
            decreases caps.len() - i,
        {
            let c = caps[i];
            proof {
                let next = caps@.subrange(0, i as int + 1);
                assert(next.drop_last() =~= caps@.subrange(0, i as int));
                reveal(Seq::filter);
            }
            if !self.has_capability(c) {
                out.push(c);
            }
            i = i + 1;
        }
        assert(caps@.subrange(0, caps@.len() as int) =~= caps@);
        out
    }

    /// All of `caps`, or an error listing those missing.
    fn require_all(&self, caps: &Vec<RequiredCapability>) -> (r: Result<(), CapabilityError>)
        ensures
            caps@.filter(|c: RequiredCapability| !self.holds(c)).len() == 0 ==> r is Ok,
            caps@.filter(|c: RequiredCapability| !self.holds(c)).len() > 0 ==> (r matches Err(CapabilityError::MissingCapabilities(m))
                && m@ == caps@.filter(|c: RequiredCapability| !self.holds(c))),
    {
        let missing = self.check_required(caps);
        if missing.len() == 0 {
            Ok(())
        } else {
            Err(CapabilityError::MissingCapabilities(missing))
        }
    }
}

/// Checks against the process's effective capability set, given by the
/// kernel's capability numbers; without a set (it could not be read),
/// nothing is held.
#[derive(Debug)]
pub struct LinuxCapabilityChecker {
    effective: Option<Vec<u8>>,
}

/// `caps::read(None, CapSet::Effective)` (`caps`): the effective capability
/// set of the calling thread, each capability by its kernel number
/// (`Capability::index`), or none when the set cannot be read. The set is
/// the process's own, so nothing is stated of it.
#[verifier::external_body]
fn read_effective_set() -> Option<Vec<u8>> {
    match caps::read(None, caps::CapSet::Effective) {
        Ok(set) => Some(set.iter().map(|c| c.index()).collect()),
        Err(_) => None,
    }
}

impl LinuxCapabilityChecker {
    /// A checker over the effective set of the calling thread, read now;
    /// when the set cannot be read, no capability counts as held. The set
    /// is the process's own, so nothing is stated of it here;
    /// `with_effective` states the checker for each set read.
    pub fn new() -> (r: Self) {
        let effective = read_effective_set();
        Self::with_effective(effective)
    }

    /// A checker over a given effective set (none: unreadable).
    pub fn with_effective(effective: Option<Vec<u8>>) -> (r: Self)
        ensures
            r.effective_set() == match effective {
                Some(v) => Some(v@),
                None => None::<Seq<u8>>,
            },
    {
        LinuxCapabilityChecker { effective }
    }

    /// The effective set, by capability numbers.
    pub closed spec fn effective_set(&self) -> Option<Seq<u8>> {
        match self.effective {
            Some(v) => Some(v@),
            None => None,
        }
    }
}

impl CapabilityChecker for LinuxCapabilityChecker {
    open spec fn holds(&self, cap: RequiredCapability) -> bool {
        match self.effective_set() {
            Some(s) => s.contains(cap_number(cap)),
            None => false,
        }
    }

    fn has_capability(&self, cap: RequiredCapability) -> (r: bool) {
        match &self.effective {
            Some(v) => {
                let n = cap.number();
                let mut i: usize = 0;
                while i < v.len()
                    invariant
                        i <= v@.len(),
                        self.effective_set() == Some(v@),
                        n == cap_number(cap),
                        forall|j: int| 0 <= j < i ==> v@[j] != n,
                    decreases v.len() - i,
                {
                    if v[i] == n {
                        assert(v@[i as int] == n);
                        return true;
                    }
                    i = i + 1;
                }
                false
            },
            None => false,
        }
    }
}

/// The report of missing capabilities for the named daemon, with the
/// `securityContext` that grants them.
pub open spec fn missing_message_of(missing: Seq<RequiredCapability>, daemon: Seq<char>) -> Seq<char> {
    "ERROR: "@ + daemon + " requires the following Linux capabilities that are not available:\n\n"@
        + cap_lines(missing) + "\nTo fix this in Kubernetes, add to your DaemonSet spec:\n\n"@
        + "  securityContext:\n"@ + "    capabilities:\n"@ + "      add:\n"@ + k8s_lines(missing)
        + "\nOr run the container with --privileged for testing.\n"@
}

/// One line per capability: its name and what it is for.
pub open spec fn cap_lines(caps: Seq<RequiredCapability>) -> Seq<char>
    decreases caps.len(),
{
    if caps.len() == 0 {
        Seq::<char>::empty()
    } else {
        cap_lines(caps.drop_last()) + "  "@ + cap_name_of(caps.last()) + " - "@ + description_of(caps.last()) + "\n"@
    }
}

/// One list item per capability: its Kubernetes name.
pub open spec fn k8s_lines(caps: Seq<RequiredCapability>) -> Seq<char>
    decreases caps.len(),
{
    if caps.len() == 0 {
        Seq::<char>::empty()
    } else {
        k8s_lines(caps.drop_last()) + "        - "@ + k8s_name_of(caps.last()) + "\n"@
    }
}

/// The report of missing capabilities for the named daemon.
pub fn missing_capabilities_message(missing: &Vec<RequiredCapability>, daemon: &str) -> (r: String)
    ensures
        r@ == missing_message_of(missing@, daemon@),
{
    let mut v: Vec<char> = Vec::new();
    push_str(&mut v, "ERROR: ");
    push_str(&mut v, daemon);
    push_str(&mut v, " requires the following Linux capabilities that are not available:\n\n");
    let ghost a = v@;
    let mut i: usize = 0;
    while i < missing.len()
        invariant
            i <= missing@.len(),
            v@ == a + cap_lines(missing@.subrange(0, i as int)),
        decreases missing.len() - i,
    {
        assert(missing@.subrange(0, i as int + 1).drop_last() =~= missing@.subrange(0, i as int));
        push_str(&mut v, "  ");
        let n = missing[i].cap_name();
        push_str(&mut v, n.as_str());
        push_str(&mut v, " - ");
        push_str(&mut v, missing[i].description());
        push_str(&mut v, "\n");
        assert(v@ =~= a + cap_lines(missing@.subrange(0, i as int + 1)));
        i = i + 1;
    }
    push_str(&mut v, "\nTo fix this in Kubernetes, add to your DaemonSet spec:\n\n");
    push_str(&mut v, "  securityContext:\n");
    push_str(&mut v, "    capabilities:\n");
    push_str(&mut v, "      add:\n");
    let ghost b = v@;
    let mut k: usize = 0;
    while k < missing.len()
        invariant
            k <= missing@.len(),
            v@ == b + k8s_lines(missing@.subrange(0, k as int)),
        decreases missing.len() - k,
    {
        assert(missing@.subrange(0, k as int + 1).drop_last() =~= missing@.subrange(0, k as int));
        push_str(&mut v, "        - ");
        push_str(&mut v, missing[k].k8s_name());
        push_str(&mut v, "\n");
        assert(v@ =~= b + k8s_lines(missing@.subrange(0, k as int + 1)));
        k = k + 1;
    }
    push_str(&mut v, "\nOr run the container with --privileged for testing.\n");
    proof {
        assert(missing@.subrange(0, missing@.len() as int) =~= missing@);
        assert(v@ =~= missing_message_of(missing@, daemon@));
    }
    string_from_chars(&v)
}


/// Nothing of `caps` is missing exactly when every capability of `caps` is
/// held; so `require_all` succeeds exactly then.
pub proof fn law_nothing_missing_iff_all_held(checker: LinuxCapabilityChecker, caps: Seq<RequiredCapability>)
    ensures
        caps.filter(|c: RequiredCapability| !checker.holds(c)).len() == 0 <==> forall|i: int| 0 <= i < caps.len() ==> checker.holds(#[trigger] caps[i]),
    decreases caps.len(),
{
    reveal(Seq::filter);
    let p = |c: RequiredCapability| !checker.holds(c);
    if caps.len() > 0 {
        law_nothing_missing_iff_all_held(checker, caps.drop_last());
        let rest = caps.drop_last();
        assert(caps.filter(p) == (if p(caps.last()) { rest.filter(p).push(caps.last()) } else { rest.filter(p) }));
        if forall|i: int| 0 <= i < caps.len() ==> checker.holds(#[trigger] caps[i]) {
            assert forall|i: int| 0 <= i < rest.len() implies checker.holds(#[trigger] rest[i]) by {
                assert(rest[i] == caps[i]);
            }
            assert(checker.holds(caps[caps.len() - 1]));
        }
        if caps.filter(p).len() == 0 {
            assert forall|i: int| 0 <= i < caps.len() implies checker.holds(#[trigger] caps[i]) by {
                if i < caps.len() - 1 {
                    assert(rest[i] == caps[i]);
                }
            }
        }
    }
}

} // verus!
