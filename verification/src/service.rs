//! What the gRPC service decides: wire event types and their names, watch
//! configurations built from watch subjects, the conversion of file events
//! to wire events, update (pause/resume) decisions, watch-state filters and
//! the metrics response.
//!
//! The transport, the sessions' tasks and the container PID lookups are the
//! caller's.
use vstd::prelude::*;
use crate::stream_filter::Filterable;
use crate::ebpf_types::{FileEvent as RawFileEvent, FileEventType, buffer_text, type_of_code};
use crate::notify::{EventType, FileEvent, WatchConfig, clone_strings, join_path, opt_view, path_join, strings_view};
use crate::errors::{RuntimeError, runtime_error_text};
use crate::metrics::DaemonMetrics;
use crate::session::{Session, SessionRegistry, SessionState};
use crate::text::{decimal, owned, push_str, str_chars, string_from_chars};

verus! {

/// Event types on the wire.
#[derive(Debug, Clone, Copy, PartialEq, Eq, Structural)]
pub enum InotifyEvent {
    Unspecified,
    Access,
    Attrib,
    CloseWrite,
    CloseNowrite,
    Create,
    Delete,
    DeleteSelf,
    Modify,
    MoveSelf,
    MovedFrom,
    MovedTo,
    Open,
    All,
}

/// The wire code of an event type.
pub open spec fn wire_code(e: InotifyEvent) -> i32 {
    match e {
        InotifyEvent::Unspecified => 0,
        InotifyEvent::Access => 1,
        InotifyEvent::Attrib => 2,
        InotifyEvent::CloseWrite => 3,
        InotifyEvent::CloseNowrite => 4,
        InotifyEvent::Create => 5,
        InotifyEvent::Delete => 6,
        InotifyEvent::DeleteSelf => 7,
        InotifyEvent::Modify => 8,
        InotifyEvent::MoveSelf => 9,
        InotifyEvent::MovedFrom => 10,
        InotifyEvent::MovedTo => 11,
        InotifyEvent::Open => 12,
        InotifyEvent::All => 13,
    }
}

/// The event type with a wire code.
pub open spec fn wire_event(code: i32) -> Option<InotifyEvent> {
    if code == 0 {
        Some(InotifyEvent::Unspecified)
    } else if code == 1 {
        Some(InotifyEvent::Access)
    } else if code == 2 {
        Some(InotifyEvent::Attrib)
    } else if code == 3 {
        Some(InotifyEvent::CloseWrite)
    } else if code == 4 {
        Some(InotifyEvent::CloseNowrite)
    } else if code == 5 {
        Some(InotifyEvent::Create)
    } else if code == 6 {
        Some(InotifyEvent::Delete)
    } else if code == 7 {
        Some(InotifyEvent::DeleteSelf)
    } else if code == 8 {
        Some(InotifyEvent::Modify)
    } else if code == 9 {
        Some(InotifyEvent::MoveSelf)
    } else if code == 10 {
        Some(InotifyEvent::MovedFrom)
    } else if code == 11 {
        Some(InotifyEvent::MovedTo)
    } else if code == 12 {
        Some(InotifyEvent::Open)
    } else if code == 13 {
        Some(InotifyEvent::All)
    } else {
        None
    }
}

impl InotifyEvent {
    /// The wire code.
    pub fn code(&self) -> (r: i32)
        ensures
            r == wire_code(*self),
    {
        match self {
            InotifyEvent::Unspecified => 0,
            InotifyEvent::Access => 1,
            InotifyEvent::Attrib => 2,
            InotifyEvent::CloseWrite => 3,
            InotifyEvent::CloseNowrite => 4,
            InotifyEvent::Create => 5,
            InotifyEvent::Delete => 6,
            InotifyEvent::DeleteSelf => 7,
            InotifyEvent::Modify => 8,
            InotifyEvent::MoveSelf => 9,
            InotifyEvent::MovedFrom => 10,
            InotifyEvent::MovedTo => 11,
            InotifyEvent::Open => 12,
            InotifyEvent::All => 13,
        }
    }

    /// The event type with a wire code, if any.
    pub fn from_code(code: i32) -> (r: Option<Self>)
        ensures
            r == wire_event(code),
    {
        match code {
            0 => Some(InotifyEvent::Unspecified),
            1 => Some(InotifyEvent::Access),
            2 => Some(InotifyEvent::Attrib),
            3 => Some(InotifyEvent::CloseWrite),
            4 => Some(InotifyEvent::CloseNowrite),
            5 => Some(InotifyEvent::Create),
            6 => Some(InotifyEvent::Delete),
            7 => Some(InotifyEvent::DeleteSelf),
            8 => Some(InotifyEvent::Modify),
            9 => Some(InotifyEvent::MoveSelf),
            10 => Some(InotifyEvent::MovedFrom),
            11 => Some(InotifyEvent::MovedTo),
            12 => Some(InotifyEvent::Open),
            13 => Some(InotifyEvent::All),
            _ => None,
        }
    }
}

/// Every wire code names its event type again.
pub proof fn law_wire_code_roundtrip(e: InotifyEvent)
    ensures
        wire_event(wire_code(e)) == Some(e),
{
}

/// The name of a wire event type; empty for an unspecified or unknown one.
pub open spec fn wire_name(code: i32) -> Seq<char> {
    match wire_event(code) {
        Some(InotifyEvent::Access) => "access"@,
        Some(InotifyEvent::Attrib) => "attrib"@,
        Some(InotifyEvent::CloseWrite) => "closewrite"@,
        Some(InotifyEvent::CloseNowrite) => "closenowrite"@,
        Some(InotifyEvent::Create) => "create"@,
        Some(InotifyEvent::Delete) => "delete"@,
        Some(InotifyEvent::DeleteSelf) => "deleteself"@,
        Some(InotifyEvent::Modify) => "modify"@,
        Some(InotifyEvent::MoveSelf) => "moveself"@,
        Some(InotifyEvent::MovedFrom) => "movedfrom"@,
        Some(InotifyEvent::MovedTo) => "movedto"@,
        Some(InotifyEvent::Open) => "open"@,
        Some(InotifyEvent::All) => "all"@,
        _ => Seq::<char>::empty(),
    }
}

/// The name of a wire event type (empty when unspecified or unknown).
pub fn inotify_event_to_string(event: i32) -> (r: String)
    ensures
        r@ == wire_name(event),
{
    match InotifyEvent::from_code(event) {
        Some(InotifyEvent::Access) => owned("access"),
        Some(InotifyEvent::Attrib) => owned("attrib"),
        Some(InotifyEvent::CloseWrite) => owned("closewrite"),
        Some(InotifyEvent::CloseNowrite) => owned("closenowrite"),
        Some(InotifyEvent::Create) => owned("create"),
        Some(InotifyEvent::Delete) => owned("delete"),
        Some(InotifyEvent::DeleteSelf) => owned("deleteself"),
        Some(InotifyEvent::Modify) => owned("modify"),
        Some(InotifyEvent::MoveSelf) => owned("moveself"),
        Some(InotifyEvent::MovedFrom) => owned("movedfrom"),
        Some(InotifyEvent::MovedTo) => owned("movedto"),
        Some(InotifyEvent::Open) => owned("open"),
        Some(InotifyEvent::All) => owned("all"),
        _ => String::new(),
    }
}

/// The wire type of a file event type.
pub open spec fn wire_of(t: EventType) -> InotifyEvent {
    match t {
        EventType::Access => InotifyEvent::Access,
        EventType::Attrib => InotifyEvent::Attrib,
        EventType::CloseWrite => InotifyEvent::CloseWrite,
        EventType::CloseNoWrite => InotifyEvent::CloseNowrite,
        EventType::Create => InotifyEvent::Create,
        EventType::Delete => InotifyEvent::Delete,
        EventType::DeleteSelf => InotifyEvent::DeleteSelf,
        EventType::Modify => InotifyEvent::Modify,
        EventType::MoveSelf => InotifyEvent::MoveSelf,
        EventType::MovedFrom => InotifyEvent::MovedFrom,
        EventType::MovedTo => InotifyEvent::MovedTo,
        EventType::Open => InotifyEvent::Open,
        EventType::Unknown => InotifyEvent::Unspecified,
    }
}

/// The wire type of a file event type.
pub fn event_type_to_proto(event_type: &EventType) -> (r: InotifyEvent)
    ensures
        r == wire_of(*event_type),
{
    match event_type {
        EventType::Access => InotifyEvent::Access,
        EventType::Attrib => InotifyEvent::Attrib,
        EventType::CloseWrite => InotifyEvent::CloseWrite,
        EventType::CloseNoWrite => InotifyEvent::CloseNowrite,
        EventType::Create => InotifyEvent::Create,
        EventType::Delete => InotifyEvent::Delete,
        EventType::DeleteSelf => InotifyEvent::DeleteSelf,
        EventType::Modify => InotifyEvent::Modify,
        EventType::MoveSelf => InotifyEvent::MoveSelf,
        EventType::MovedFrom => InotifyEvent::MovedFrom,
        EventType::MovedTo => InotifyEvent::MovedTo,
        EventType::Open => InotifyEvent::Open,
        EventType::Unknown => InotifyEvent::Unspecified,
    }
}

/// A file event type named on the wire is named the same way in the
/// watcher's event masks, so a stream filter on wire names matches the
/// events of that type.
pub proof fn law_wire_names_agree(t: EventType)
    requires
        t != EventType::Unknown,
    ensures
        wire_name(wire_code(wire_of(t))) == crate::notify::event_name(t),
{
}

/// A point in time: seconds and nanoseconds since the Unix epoch.
#[derive(Debug, Clone, Copy, PartialEq, Eq, Structural)]
pub struct Timestamp {
    pub seconds: i64,
    pub nanos: i32,
}

/// The time of `ns` nanoseconds since the epoch.
pub open spec fn timestamp_of_ns(ns: u64) -> Timestamp {
    Timestamp { seconds: (ns / 1_000_000_000) as i64, nanos: (ns % 1_000_000_000) as i32 }
}

/// The timestamp of a kernel time in nanoseconds.
pub fn timestamp_from_ns(ns: u64) -> (r: Timestamp)
    ensures
        r == timestamp_of_ns(ns),
{
    Timestamp { seconds: (ns / 1_000_000_000) as i64, nanos: (ns % 1_000_000_000) as i32 }
}

/// `SystemTime::duration_since(UNIX_EPOCH)` (std): the span from the epoch
/// to the time, none for a time before the epoch. The time is the caller's,
/// so nothing is stated of the span.
#[verifier::external_body]
fn since_epoch(t: &crate::timing::SystemTime) -> Option<crate::timing::Duration> {
    match t.duration_since(std::time::UNIX_EPOCH) {
        Ok(d) => Some(d),
        Err(_) => None,
    }
}

/// The timestamp of a span since the epoch, given as whole seconds and the
/// nanoseconds below a second; none where there is no such span (a time
/// before the epoch).
pub open spec fn timestamp_of_parts(parts: Option<(u64, u32)>) -> Option<Timestamp> {
    match parts {
        Some((secs, nanos)) => Some(Timestamp { seconds: secs as i64, nanos: nanos as i32 }),
        None => None,
    }
}

/// The timestamp of a span since the epoch given by its parts.
pub fn timestamp_from_parts(parts: Option<(u64, u32)>) -> (r: Option<Timestamp>)
    ensures
        r == timestamp_of_parts(parts),
{
    match parts {
        Some((secs, nanos)) => Some(Timestamp { seconds: secs as i64, nanos: nanos as i32 }),
        None => None,
    }
}

/// The timestamp of a wall-clock time; none before the epoch. Whether the
/// time is before the epoch, and how far from it, `SystemTime` does not
/// show, so only the bound on the nanoseconds is stated here;
/// `timestamp_from_parts` states the timestamp for each span.
pub fn system_time_to_timestamp(time: &crate::timing::SystemTime) -> (r: Option<Timestamp>)
    ensures
        r matches Some(ts) ==> 0 <= ts.nanos < 1_000_000_000,
{
    let parts = match since_epoch(time) {
        Some(d) => Some((crate::timing::duration_secs(&d), crate::timing::duration_subsec_nanos(&d))),
        None => None,
    };
    timestamp_from_parts(parts)
}

/// What a watch resource asks to watch.
#[derive(Debug)]
pub struct WatchSubject {
    /// Paths inside the container.
    pub paths: Vec<String>,
    /// Wire event types.
    pub events: Vec<i32>,
    /// Patterns to ignore.
    pub ignore: Vec<String>,
    /// Watch subdirectories too.
    pub recursive: bool,
    /// Depth limit (0: none).
    pub max_depth: i32,
}

/// A container path under the container's root: one leading `/` dropped,
/// then joined.
pub open spec fn under_root(root: Seq<char>, p: Seq<char>) -> Seq<char> {
    if p.len() > 0 && p[0] == '/' {
        path_join(root, p.subrange(1, p.len() as int))
    } else {
        path_join(root, p)
    }
}

/// The host paths of a subject's paths.
pub open spec fn subject_paths(s: WatchSubject, root: Seq<char>) -> Seq<Seq<char>> {
    s.paths@.map_values(|p: String| under_root(root, p@))
}

/// The names of a subject's wire event types, unnamed ones left out.
pub open spec fn named_events(codes: Seq<i32>) -> Seq<Seq<char>>
    decreases codes.len(),
{
    if codes.len() == 0 {
        Seq::<Seq<char>>::empty()
    } else {
        let r = named_events(codes.drop_last());
        if wire_name(codes.last()).len() > 0 {
            r.push(wire_name(codes.last()))
        } else {
            r
        }
    }
}

/// Host paths of all subjects, in order.
pub open spec fn all_paths(subjects: Seq<WatchSubject>, root: Seq<char>) -> Seq<Seq<char>>
    decreases subjects.len(),
{
    if subjects.len() == 0 {
        Seq::<Seq<char>>::empty()
    } else {
        all_paths(subjects.drop_last(), root) + subject_paths(subjects.last(), root)
    }
}

/// Event names of all subjects, in order.
pub open spec fn all_events(subjects: Seq<WatchSubject>) -> Seq<Seq<char>>
    decreases subjects.len(),
{
    if subjects.len() == 0 {
        Seq::<Seq<char>>::empty()
    } else {
        all_events(subjects.drop_last()) + named_events(subjects.last().events@)
    }
}

/// Ignore patterns of all subjects, in order.
pub open spec fn all_ignores(subjects: Seq<WatchSubject>) -> Seq<Seq<char>>
    decreases subjects.len(),
{
    if subjects.len() == 0 {
        Seq::<Seq<char>>::empty()
    } else {
        all_ignores(subjects.drop_last()) + strings_view(subjects.last().ignore@)
    }
}

/// Some subject is recursive.
pub open spec fn any_recursive(subjects: Seq<WatchSubject>) -> bool {
    exists|i: int| 0 <= i < subjects.len() && #[trigger] subjects[i].recursive
}

/// The depth limit of the last subject that sets one.
pub open spec fn last_depth(subjects: Seq<WatchSubject>) -> Option<u32>
    decreases subjects.len(),
{
    if subjects.len() == 0 {
        None
    } else if subjects.last().max_depth > 0 {
        Some(subjects.last().max_depth as u32)
    } else {
        last_depth(subjects.drop_last())
    }
}

proof fn lemma_view_push(v: Seq<String>, x: String)
    ensures
        strings_view(v.push(x)) == strings_view(v).push(x@),
{
    assert(strings_view(v.push(x)) =~= strings_view(v).push(x@));
}

proof fn lemma_map_step<A, B>(s: Seq<A>, k: int, f: spec_fn(A) -> B)
    requires
        0 <= k < s.len(),
    ensures
        s.subrange(0, k + 1).map_values(f) == s.subrange(0, k).map_values(f).push(f(s[k])),
{
    assert(s.subrange(0, k + 1).map_values(f) =~= s.subrange(0, k).map_values(f).push(f(s[k])));
}

proof fn lemma_concat_push<T>(a: Seq<T>, b: Seq<T>, x: T)
    ensures
        a + b.push(x) == (a + b).push(x),
{
    assert(a + b.push(x) =~= (a + b).push(x));
}

/// The configuration of a container's watches: the subjects' paths under
/// the container root, their named event types (all events when none is
/// named), their ignore patterns, recursion when any subject asks for it,
/// the last depth limit set, and no path skipped when missing.
pub open spec fn config_matches(c: WatchConfig, subjects: Seq<WatchSubject>, root: Seq<char>) -> bool {
    let ev = all_events(subjects);
    &&& strings_view(c.paths@) == all_paths(subjects, root)
    &&& strings_view(c.events@) == (if ev.len() == 0 { seq!["all"@] } else { ev })
    &&& strings_view(c.ignore_patterns@) == all_ignores(subjects)
    &&& c.recursive == any_recursive(subjects)
    &&& c.max_depth == last_depth(subjects)
    &&& c.skip_if_missing@.len() == c.paths@.len()
    &&& forall|i: int| 0 <= i < c.skip_if_missing@.len() ==> !#[trigger] c.skip_if_missing@[i]
}

fn under_root_exec(root: &str, p: &str) -> (r: String)
    ensures
        r@ == under_root(root@, p@),
{
    let v = str_chars(p);
    if v.len() > 0 && v[0] == '/' {
        let n = p.unicode_len();
        let rest = p.substring_char(1, n);
        join_path(root, rest)
    } else {
        join_path(root, p)
    }
}

/// The watch configuration for a container whose root filesystem is
/// `container_root`.
pub fn build_watch_config(subjects: &Vec<WatchSubject>, container_root: &str) -> (r: WatchConfig)
    ensures
        config_matches(r, subjects@, container_root@),
{
    let mut paths: Vec<String> = Vec::new();
    let mut events: Vec<String> = Vec::new();
    let mut ignore_patterns: Vec<String> = Vec::new();
    let mut recursive = false;
    let mut max_depth: Option<u32> = None;
    let mut skip: Vec<bool> = Vec::new();
    let mut i: usize = 0;
    while i < subjects.len()
        invariant
            i <= subjects@.len(),
            strings_view(paths@) == all_paths(subjects@.subrange(0, i as int), container_root@),
            strings_view(events@) == all_events(subjects@.subrange(0, i as int)),
            strings_view(ignore_patterns@) == all_ignores(subjects@.subrange(0, i as int)),
            recursive == any_recursive(subjects@.subrange(0, i as int)),
            max_depth == last_depth(subjects@.subrange(0, i as int)),
            skip@.len() == paths@.len(),
            forall|k: int| 0 <= k < skip@.len() ==> !#[trigger] skip@[k],
        decreases subjects.len() - i,
    {
        let ghost pre = subjects@.subrange(0, i as int);
        let ghost next = subjects@.subrange(0, i as int + 1);
        assert(next.drop_last() =~= pre);
        assert(next.last() == subjects@[i as int]);
        let s = &subjects[i];
        let ghost p0 = strings_view(paths@);
        let mut k: usize = 0;
        while k < s.paths.len()
            invariant
                k <= s.paths@.len(),
                strings_view(paths@) == p0 + s.paths@.subrange(0, k as int).map_values(|p: String| under_root(container_root@, p@)),
                skip@.len() == paths@.len(),
                forall|t: int| 0 <= t < skip@.len() ==> !#[trigger] skip@[t],
            decreases s.paths.len() - k,
        {
            let full = under_root_exec(container_root, s.paths[k].as_str());
            let ghost before = paths@;
            let ghost fv = full@;
            paths.push(full);
            skip.push(false);
            proof {
                lemma_view_push(before, paths@.last());
                assert(paths@ == before.push(paths@.last()));
                lemma_map_step(s.paths@, k as int, |p: String| under_root(container_root@, p@));
                lemma_concat_push(p0, s.paths@.subrange(0, k as int).map_values(|p: String| under_root(container_root@, p@)), fv);
            }
            k = k + 1;
        }
        assert(s.paths@.subrange(0, s.paths@.len() as int) =~= s.paths@);
        let ghost e0 = strings_view(events@);
        let mut k2: usize = 0;
        while k2 < s.events.len()
            invariant
                k2 <= s.events@.len(),
                strings_view(events@) == e0 + named_events(s.events@.subrange(0, k2 as int)),
            decreases s.events.len() - k2,
        {
            assert(s.events@.subrange(0, k2 as int + 1).drop_last() =~= s.events@.subrange(0, k2 as int));
            let name = inotify_event_to_string(s.events[k2]);
            let ghost before = events@;
            let ghost nv = name@;
            if name.unicode_len() > 0 {
                events.push(name);
                proof {
                    lemma_view_push(before, events@.last());
                    assert(events@ == before.push(events@.last()));
                    lemma_concat_push(e0, named_events(s.events@.subrange(0, k2 as int)), nv);
                }
            }
            k2 = k2 + 1;
        }
        assert(s.events@.subrange(0, s.events@.len() as int) =~= s.events@);
        let ghost g0 = strings_view(ignore_patterns@);
        let mut k3: usize = 0;
        while k3 < s.ignore.len()
            invariant
                k3 <= s.ignore@.len(),
                strings_view(ignore_patterns@) == g0 + strings_view(s.ignore@.subrange(0, k3 as int)),
            decreases s.ignore.len() - k3,
        {
            let ghost before = ignore_patterns@;
            let c = s.ignore[k3].clone();
            let ghost cv = c@;
            ignore_patterns.push(c);
            proof {
                lemma_view_push(before, ignore_patterns@.last());
                assert(ignore_patterns@ == before.push(ignore_patterns@.last()));
                assert(s.ignore@.subrange(0, k3 as int + 1) == s.ignore@.subrange(0, k3 as int).push(s.ignore@[k3 as int]));
                lemma_view_push(s.ignore@.subrange(0, k3 as int), s.ignore@[k3 as int]);
                lemma_concat_push(g0, strings_view(s.ignore@.subrange(0, k3 as int)), cv);
            }
            k3 = k3 + 1;
        }
        assert(s.ignore@.subrange(0, s.ignore@.len() as int) =~= s.ignore@);
        proof {
            if recursive {
                let w = choose|w: int| 0 <= w < pre.len() && #[trigger] pre[w].recursive;
                assert(next[w].recursive);
            }
            if s.recursive {
                assert(next[i as int].recursive);
            }
            if any_recursive(next) && !s.recursive {
                let w = choose|w: int| 0 <= w < next.len() && #[trigger] next[w].recursive;
                assert(pre[w].recursive);
            }
        }
        if s.recursive {
            recursive = true;
        }
        if s.max_depth > 0 {
            max_depth = Some(s.max_depth as u32);
        }
        i = i + 1;
    }
    assert(subjects@.subrange(0, subjects@.len() as int) =~= subjects@);
    proof {
        reveal_strlit("all");
    }
    if events.len() == 0 {
        events.push(owned("all"));
        assert(strings_view(events@) =~= seq!["all"@]);
    }
    WatchConfig { paths, events, ignore_patterns, recursive, max_depth, skip_if_missing: skip }
}

/// The path prefixes the eBPF filter watches for a container whose root
/// filesystem is `container_root`: the subjects' paths under that root.
pub fn build_prefixes(subjects: &Vec<WatchSubject>, container_root: &str) -> (r: Vec<String>)
    ensures
        strings_view(r@) == all_paths(subjects@, container_root@),
{
    let mut prefixes: Vec<String> = Vec::new();
    let mut i: usize = 0;
    while i < subjects.len()
        invariant
            i <= subjects@.len(),
            strings_view(prefixes@) == all_paths(subjects@.subrange(0, i as int), container_root@),
        decreases subjects.len() - i,
    {
        let ghost pre = subjects@.subrange(0, i as int);
        assert(subjects@.subrange(0, i as int + 1).drop_last() =~= pre);
        let s = &subjects[i];
        let ghost p0 = strings_view(prefixes@);
        let mut k: usize = 0;
        while k < s.paths.len()
            invariant
                k <= s.paths@.len(),
                strings_view(prefixes@) == p0 + s.paths@.subrange(0, k as int).map_values(|p: String| under_root(container_root@, p@)),
            decreases s.paths.len() - k,
        {
            let full = under_root_exec(container_root, s.paths[k].as_str());
            let ghost before = prefixes@;
            let ghost fv = full@;
            prefixes.push(full);
            proof {
                lemma_view_push(before, prefixes@.last());
                assert(prefixes@ == before.push(prefixes@.last()));
                lemma_map_step(s.paths@, k as int, |p: String| under_root(container_root@, p@));
                lemma_concat_push(p0, s.paths@.subrange(0, k as int).map_values(|p: String| under_root(container_root@, p@)), fv);
            }
            k = k + 1;
        }
        assert(s.paths@.subrange(0, s.paths@.len() as int) =~= s.paths@);
        i = i + 1;
    }
    assert(subjects@.subrange(0, subjects@.len() as int) =~= subjects@);
    prefixes
}


/// A file event on the wire.
#[derive(Debug, Clone)]
pub struct WireFileEvent {
    pub timestamp: Option<Timestamp>,
    pub watcher_name: String,
    pub namespace: String,
    pub node_name: String,
    pub pod_name: String,
    pub container_id: String,
    /// Wire event type code.
    pub event_type: i32,
    pub path: String,
    pub filename: String,
    pub is_directory: bool,
    pub inode: u64,
    pub tags: Vec<(String, String)>,
    /// The process behind the event, when the source knows it.
    pub process_info: Option<WireProcessInfo>,
    pub cluster_name: String,
}

/// The process behind a file event, on the wire.
#[derive(Debug, Clone)]
pub struct WireProcessInfo {
    pub pid: i32,
    pub tid: i32,
    pub uid: i32,
    pub gid: i32,
    pub comm: String,
    pub exe: String,
    pub ppid: i32,
    pub cmdline: Vec<String>,
    pub cwd: String,
}

/// What the process cache holds of a process: its parent, its executable,
/// its command line (the arguments separated by NUL characters) and its
/// working directory.
#[derive(Debug)]
pub struct CachedProcess {
    pub ppid: u32,
    pub exe: String,
    pub cmdline: String,
    pub cwd: String,
}

/// The pieces that are not empty, in order.
pub open spec fn non_empty_pieces(s: Seq<Seq<char>>) -> Seq<Seq<char>>
    decreases s.len(),
{
    if s.len() == 0 {
        Seq::<Seq<char>>::empty()
    } else {
        let r = non_empty_pieces(s.drop_last());
        if s.last().len() > 0 {
            r.push(s.last())
        } else {
            r
        }
    }
}

/// The arguments of a cached command line: its NUL-separated pieces that
/// are not empty.
pub open spec fn cached_args(cmdline: Seq<char>) -> Seq<Seq<char>> {
    non_empty_pieces(crate::text::split_char(cmdline, '\0'))
}

/// The arguments of a cached command line.
pub fn cached_arguments(cmdline: &str) -> (r: Vec<String>)
    ensures
        strings_view(r@) == cached_args(cmdline@),
{
    let v = str_chars(cmdline);
    let parts = crate::text::split_on(&v, '\0');
    let ghost sp = crate::text::split_char(cmdline@, '\0');
    let mut out: Vec<String> = Vec::new();
    let mut i: usize = 0;
    while i < parts.len()
        invariant
            v@ == cmdline@,
            sp == crate::text::split_char(cmdline@, '\0'),
            parts@.len() == sp.len(),
            forall|j: int| 0 <= j < parts@.len() ==> #[trigger] parts@[j]@ == sp[j],
            i <= parts@.len(),
            strings_view(out@) == non_empty_pieces(sp.subrange(0, i as int)),
        decreases parts.len() - i,
    {
        let ghost before = out@;
        assert(sp.subrange(0, i as int + 1).drop_last() =~= sp.subrange(0, i as int));
        assert(sp.subrange(0, i as int + 1).last() == parts@[i as int]@);
        if parts[i].len() > 0 {
            out.push(string_from_chars(&parts[i]));
            assert(strings_view(out@) =~= strings_view(before).push(parts@[i as int]@));
        }
        i = i + 1;
    }
    assert(sp.subrange(0, sp.len() as int) =~= sp);
    out
}

/// Whether `p` is the process of an eBPF event: the IDs the probe recorded,
/// the command name `comm`, and what the process cache holds of it
/// (nothing when the cache has no entry).
pub open spec fn process_matches(p: WireProcessInfo, raw: RawFileEvent, comm: Seq<char>, cached: Option<&CachedProcess>) -> bool {
    &&& p.pid == raw.pid as i32
    &&& p.tid == raw.tgid as i32
    &&& p.uid == raw.uid as i32
    &&& p.gid == raw.gid as i32
    &&& p.comm@ == comm
    &&& match cached {
        Some(c) => p.exe@ == c.exe@ && p.ppid == c.ppid as i32 && strings_view(p.cmdline@) == cached_args(c.cmdline@)
            && p.cwd@ == c.cwd@,
        None => p.exe@.len() == 0 && p.ppid == 0 && p.cmdline@.len() == 0 && p.cwd@.len() == 0,
    }
}

/// The process of an eBPF event: the IDs the probe recorded, its command
/// name, and what the process cache holds of it (nothing when the cache
/// has no entry).
pub fn process_info_of(raw: &RawFileEvent, comm: &str, cached: Option<&CachedProcess>) -> (r: WireProcessInfo)
    ensures
        process_matches(r, *raw, comm@, cached),
{
    let (exe, ppid, cmdline, cwd) = match cached {
        Some(c) => (c.exe.clone(), c.ppid as i32, cached_arguments(c.cmdline.as_str()), c.cwd.clone()),
        None => (String::new(), 0i32, Vec::new(), String::new()),
    };
    WireProcessInfo {
        pid: raw.pid as i32,
        tid: raw.tgid as i32,
        uid: raw.uid as i32,
        gid: raw.gid as i32,
        comm: owned(comm),
        exe,
        ppid,
        cmdline,
        cwd,
    }
}

/// The container a session's eBPF events are attributed to: its first
/// container, or none.
pub fn first_container(container_ids: &Vec<String>) -> (r: String)
    ensures
        r@ == if container_ids@.len() > 0 {
            container_ids@[0]@
        } else {
            Seq::<char>::empty()
        },
{
    if container_ids.len() > 0 {
        container_ids[0].clone()
    } else {
        String::new()
    }
}

impl Filterable for WireFileEvent {
    open spec fn spec_filter_name(&self) -> Seq<char> {
        self.watcher_name@
    }

    open spec fn spec_filter_namespace(&self) -> Seq<char> {
        self.namespace@
    }

    open spec fn spec_filter_event_type(&self) -> Seq<char> {
        wire_name(self.event_type)
    }

    fn filter_name(&self) -> (r: &str) {
        self.watcher_name.as_str()
    }

    fn filter_namespace(&self) -> (r: &str) {
        self.namespace.as_str()
    }

    fn filter_event_type(&self) -> (r: String) {
        inotify_event_to_string(self.event_type)
    }
}

/// Where a session's events come from.
pub struct EventOrigin {
    pub watcher_name: String,
    pub namespace: String,
    pub node_name: String,
    pub pod_name: String,
    pub container_id: String,
    pub cluster_name: String,
}

/// The wire event of a watcher's file event: its type's wire code, its
/// path, its name (empty when it has none), and the session's names.
pub fn wire_event_of(event: &FileEvent, origin: &EventOrigin, timestamp: Option<Timestamp>) -> (r: WireFileEvent)
    ensures
        r.timestamp == timestamp,
        r.watcher_name@ == origin.watcher_name@,
        r.namespace@ == origin.namespace@,
        r.node_name@ == origin.node_name@,
        r.pod_name@ == origin.pod_name@,
        r.container_id@ == origin.container_id@,
        r.cluster_name@ == origin.cluster_name@,
        r.event_type == wire_code(wire_of(event.event_type)),
        r.path@ == event.path@,
        r.filename@ == match opt_view(event.filename) {
            Some(f) => f,
            None => Seq::<char>::empty(),
        },
        r.is_directory == event.is_dir,
        r.inode == 0,
        r.tags@.len() == 0,
        r.process_info is None,
{
    WireFileEvent {
        timestamp,
        watcher_name: origin.watcher_name.clone(),
        namespace: origin.namespace.clone(),
        node_name: origin.node_name.clone(),
        pod_name: origin.pod_name.clone(),
        container_id: origin.container_id.clone(),
        event_type: event_type_to_proto(&event.event_type).code(),
        path: event.path.clone(),
        filename: match &event.filename {
            Some(f) => f.clone(),
            None => String::new(),
        },
        is_directory: event.is_dir,
        inode: 0,
        tags: Vec::new(),
        process_info: None,
        cluster_name: origin.cluster_name.clone(),
    }
}

/// A file event from the eBPF probes.
#[derive(Debug)]
pub struct EbpfFileEvent {
    pub event_type: FileEventType,
    pub path: String,
    pub pid: u32,
    pub comm: String,
    pub timestamp_ns: u64,
}

/// The wire type of an eBPF event type: a rename arrives as a moved-to, an
/// open for writing as a close-write, accesses as modifications.
pub open spec fn ebpf_wire_type(t: FileEventType) -> InotifyEvent {
    match t {
        FileEventType::Create => InotifyEvent::Create,
        FileEventType::Modify => InotifyEvent::Modify,
        FileEventType::Delete => InotifyEvent::Delete,
        FileEventType::Rename => InotifyEvent::MovedTo,
        FileEventType::Attrib => InotifyEvent::Attrib,
        FileEventType::OpenWrite => InotifyEvent::CloseWrite,
        _ => InotifyEvent::Modify,
    }
}

/// The last `/`-separated piece of a path (`rsplit('/').next()`).
pub open spec fn last_piece(p: Seq<char>) -> Seq<char> {
    let pieces = crate::text::split_char(p, '/');
    pieces.last()
}

impl EbpfFileEvent {
    /// The event of a probe record; an unknown type code counts as a
    /// modification.
    pub fn from_raw(raw: &RawFileEvent) -> (r: Self)
        ensures
            r.event_type == match type_of_code(raw.event_type) {
                Some(t) => t,
                None => FileEventType::Modify,
            },
            r.path@ == buffer_text(raw.path@, "<invalid utf8>"@),
            r.comm@ == buffer_text(raw.comm@, "<invalid utf8>"@),
            r.pid == raw.pid,
            r.timestamp_ns == raw.timestamp_ns,
    {
        let t = match FileEventType::from_u32(raw.event_type) {
            Some(t) => t,
            None => FileEventType::Modify,
        };
        EbpfFileEvent { event_type: t, path: raw.path_str(), pid: raw.pid, comm: raw.comm_str(), timestamp_ns: raw.timestamp_ns }
    }

    /// The name of the event type.
    pub fn event_type_str(&self) -> (r: &'static str)
        ensures
            r@ == crate::ebpf_types::event_type_name(self.event_type),
    {
        self.event_type.as_str()
    }

    /// The wire type.
    pub fn to_inotify_event(&self) -> (r: InotifyEvent)
        ensures
            r == ebpf_wire_type(self.event_type),
    {
        match self.event_type {
            FileEventType::Create => InotifyEvent::Create,
            FileEventType::Modify => InotifyEvent::Modify,
            FileEventType::Delete => InotifyEvent::Delete,
            FileEventType::Rename => InotifyEvent::MovedTo,
            FileEventType::Attrib => InotifyEvent::Attrib,
            FileEventType::OpenWrite => InotifyEvent::CloseWrite,
            _ => InotifyEvent::Modify,
        }
    }

    /// The name of the file: the last piece of the path.
    pub fn filename(&self) -> (r: String)
        ensures
            r@ == last_piece(self.path@),
    {
        let v = str_chars(self.path.as_str());
        let pieces = crate::text::split_on(&v, '/');
        proof {
            crate::text::lemma_split_char_len(self.path@, '/');
        }
        string_from_chars(&pieces[pieces.len() - 1])
    }

    /// The wire event, stamped with the kernel time of the event, with the
    /// process behind it.
    pub fn to_wire(&self, origin: &EventOrigin, process_info: Option<WireProcessInfo>) -> (r: WireFileEvent)
        ensures
            r.timestamp == Some(timestamp_of_ns(self.timestamp_ns)),
            r.watcher_name@ == origin.watcher_name@,
            r.namespace@ == origin.namespace@,
            r.node_name@ == origin.node_name@,
            r.pod_name@ == origin.pod_name@,
            r.container_id@ == origin.container_id@,
            r.cluster_name@ == origin.cluster_name@,
            r.event_type == wire_code(ebpf_wire_type(self.event_type)),
            r.path@ == self.path@,
            r.filename@ == last_piece(self.path@),
            !r.is_directory,
            r.inode == 0,
            r.tags@.len() == 0,
            r.process_info == process_info,
    {
        WireFileEvent {
            timestamp: Some(timestamp_from_ns(self.timestamp_ns)),
            watcher_name: origin.watcher_name.clone(),
            namespace: origin.namespace.clone(),
            node_name: origin.node_name.clone(),
            pod_name: origin.pod_name.clone(),
            container_id: origin.container_id.clone(),
            event_type: self.to_inotify_event().code(),
            path: self.path.clone(),
            filename: self.filename(),
            is_directory: false,
            inode: 0,
            tags: Vec::new(),
            process_info,
            cluster_name: origin.cluster_name.clone(),
        }
    }
}

/// Whether a path lies under one of a session's watched prefixes (a plain
/// string prefix, as the eBPF filter compares).
pub fn matches_any_prefix(path: &str, prefixes: &Vec<String>) -> (r: bool)
    ensures
        r == exists|i: int| 0 <= i < prefixes@.len() && crate::text::is_prefix(#[trigger] prefixes@[i]@, path@),
{
    let mut i: usize = 0;
    while i < prefixes.len()
        invariant
            i <= prefixes@.len(),
            forall|j: int| 0 <= j < i ==> !crate::text::is_prefix(#[trigger] prefixes@[j]@, path@),
        decreases prefixes.len() - i,
    {
        if crate::text::starts_with(path, prefixes[i].as_str()) {
            return true;
        }
        i = i + 1;
    }
    false
}

/// The PIDs of a new watch: those resolved from the containers, or the
/// requested ones when none could be resolved.
pub fn choose_pids(resolved: Vec<i32>, requested: &Vec<i32>) -> (r: Vec<i32>)
    ensures
        resolved@.len() > 0 ==> r@ == resolved@,
        resolved@.len() == 0 ==> r@ == requested@,
{
    if resolved.len() > 0 {
        resolved
    } else {
        let mut out: Vec<i32> = Vec::new();
        let mut i: usize = 0;
        while i < requested.len()
            invariant
                i <= requested@.len(),
                out@ == requested@.subrange(0, i as int),
            decreases requested.len() - i,
        {
            out.push(requested[i]);
            assert(requested@.subrange(0, i as int + 1) =~= requested@.subrange(0, i as int).push(requested@[i as int]));
            i = i + 1;
        }
        assert(requested@.subrange(0, requested@.len() as int) =~= requested@);
        out
    }
}

/// Status codes of refused requests.
#[derive(Debug, Clone, Copy, PartialEq, Eq, Structural)]
pub enum StatusCode {
    NotFound,
    AlreadyExists,
    FailedPrecondition,
    InvalidArgument,
    Internal,
    ResourceExhausted,
}

/// A refused request: its status code and message.
#[derive(Debug)]
pub struct ServiceError {
    pub code: StatusCode,
    pub message: String,
}

/// Update actions on the wire.
#[derive(Debug, Clone, Copy, PartialEq, Eq, Structural)]
pub enum UpdateAction {
    Unspecified,
    Pause,
    Resume,
}

/// The update action of a wire code; unknown codes are unspecified.
pub open spec fn action_of(code: i32) -> UpdateAction {
    if code == 1 {
        UpdateAction::Pause
    } else if code == 2 {
        UpdateAction::Resume
    } else {
        UpdateAction::Unspecified
    }
}

/// The refusal an update meets, if any: pausing a paused watch, resuming
/// a running one, or an unspecified action.
pub open spec fn update_refusal(action: UpdateAction, paused: bool) -> Option<(StatusCode, Seq<char>)> {
    match action {
        UpdateAction::Pause => if paused {
            Some((StatusCode::FailedPrecondition, "Watch is already paused"@))
        } else {
            None
        },
        UpdateAction::Resume => if !paused {
            Some((StatusCode::FailedPrecondition, "Watch is not paused"@))
        } else {
            None
        },
        UpdateAction::Unspecified => Some((StatusCode::InvalidArgument, "Action must be PAUSE or RESUME"@)),
    }
}

/// Decide an update of a watch that is `paused`: the action to carry out,
/// or the refusal.
pub fn decide_update(action: i32, paused: bool) -> (r: Result<UpdateAction, ServiceError>)
    ensures
        match update_refusal(action_of(action), paused) {
            None => r == Ok::<UpdateAction, ServiceError>(action_of(action)),
            Some((code, message)) => r matches Err(e) && e.code == code && e.message@ == message,
        },
{
    let a = if action == 1 {
        UpdateAction::Pause
    } else if action == 2 {
        UpdateAction::Resume
    } else {
        UpdateAction::Unspecified
    };
    match a {
        UpdateAction::Pause => {
            if paused {
                Err(ServiceError { code: StatusCode::FailedPrecondition, message: owned("Watch is already paused") })
            } else {
                Ok(a)
            }
        },
        UpdateAction::Resume => {
            if !paused {
                Err(ServiceError { code: StatusCode::FailedPrecondition, message: owned("Watch is not paused") })
            } else {
                Ok(a)
            }
        },
        UpdateAction::Unspecified => Err(
            ServiceError { code: StatusCode::InvalidArgument, message: owned("Action must be PAUSE or RESUME") },
        ),
    }
}

/// A pause is refused exactly when the watch is paused, a resume exactly
/// when it is not; so a granted pause followed by a resume is granted too.
pub proof fn law_pause_resume_alternate(paused: bool)
    ensures
        update_refusal(UpdateAction::Pause, paused) is None <==> !paused,
        update_refusal(UpdateAction::Resume, paused) is None <==> paused,
        update_refusal(UpdateAction::Pause, paused) is None ==> update_refusal(UpdateAction::Resume, true) is None,
{
}

/// Why a new watch under `key` is refused, if it is: a key in use (checked
/// first), then a full registry, answered with the registry's message.
pub open spec fn admission_refusal(in_use: bool, count: nat, limit: usize, key: Seq<char>) -> Option<(StatusCode, Seq<char>)> {
    if in_use {
        Some((StatusCode::AlreadyExists, "Watch already exists: "@ + key))
    } else if count >= limit {
        Some((StatusCode::ResourceExhausted, "maximum sessions reached: "@ + decimal(limit as nat)))
    } else {
        None
    }
}

/// Refuse a new watch under a key already in use.
pub fn refuse_existing<T: SessionState, M: DaemonMetrics>(registry: &SessionRegistry<T, M>, key: &str) -> (r: Result<(), ServiceError>)
    requires
        registry.wf(),
    ensures
        registry.view_map().contains_key(key@) ==> (r matches Err(e) && e.code == StatusCode::AlreadyExists && e.message@
            == "Watch already exists: "@ + key@),
        !registry.view_map().contains_key(key@) ==> r is Ok,
{
    if registry.has_session(key) {
        let mut v: Vec<char> = Vec::new();
        push_str(&mut v, "Watch already exists: ");
        push_str(&mut v, key);
        return Err(ServiceError { code: StatusCode::AlreadyExists, message: string_from_chars(&v) });
    }
    Ok(())
}

/// Admit a new watch session under `key`, or answer why not; a refused
/// watch leaves the registry as it was.
pub fn register_watch<T: SessionState, M: DaemonMetrics>(
    registry: &mut SessionRegistry<T, M>,
    key: String,
    session: Session<T, M>,
) -> (r: Result<(), ServiceError>)
    requires
        old(registry).wf(),
    ensures
        final(registry).wf(),
        final(registry).limit() == old(registry).limit(),
        match admission_refusal(
            old(registry).view_map().contains_key(key@),
            old(registry).view_map().dom().len(),
            old(registry).limit(),
            key@,
        ) {
            Some((code, message)) => r matches Err(e) && e.code == code && e.message@ == message
                && final(registry).view_map() == old(registry).view_map(),
            None => r is Ok && final(registry).view_map() == old(registry).view_map().insert(key@, session),
        },
{
    match refuse_existing(registry, key.as_str()) {
        Ok(()) => {},
        Err(e) => {
            return Err(e);
        },
    }
    match registry.insert(key, session) {
        Ok(()) => Ok(()),
        Err(e) => Err(ServiceError { code: StatusCode::ResourceExhausted, message: e.message() }),
    }
}

/// Decide an update of the watch under `key`: an unknown watch is not
/// found; otherwise as `decide_update` on whether it is paused.
pub fn begin_update<T: SessionState, M: DaemonMetrics>(registry: &SessionRegistry<T, M>, key: &str, action: i32) -> (r: Result<UpdateAction, ServiceError>)
    requires
        registry.wf(),
    ensures
        !registry.view_map().contains_key(key@) ==> (r matches Err(e) && e.code == StatusCode::NotFound && e.message@ == "Watch not found: "@
            + key@),
        registry.view_map().contains_key(key@) ==> match update_refusal(action_of(action), registry.view_map()[key@].paused) {
            None => r == Ok::<UpdateAction, ServiceError>(action_of(action)),
            Some((code, message)) => r matches Err(e) && e.code == code && e.message@ == message,
        },
{
    match registry.get(key) {
        Some(s) => decide_update(action, s.paused),
        None => {
            let mut v: Vec<char> = Vec::new();
            push_str(&mut v, "Watch not found: ");
            push_str(&mut v, key);
            Err(ServiceError { code: StatusCode::NotFound, message: string_from_chars(&v) })
        },
    }
}

/// The reply to a carried-out update.
#[derive(Debug)]
pub struct UpdateReply {
    pub watch_id: String,
    pub paused: bool,
    /// Paths watched after the update.
    pub watched_paths: i32,
}

/// The reply to a carried-out update of the watch `key`: paused after a
/// pause, watching nothing; running after a resume, watching the paths of
/// its kept configuration (`config_paths`, none when it kept none).
pub fn update_reply(key: String, action: UpdateAction, config_paths: Option<usize>) -> (r: UpdateReply)
    requires
        action != UpdateAction::Unspecified,
    ensures
        r.watch_id == key,
        r.paused == (action == UpdateAction::Pause),
        r.watched_paths == if action == UpdateAction::Pause {
            0i32
        } else {
            match config_paths {
                Some(n) => n as i32,
                None => 0i32,
            }
        },
{
    match action {
        UpdateAction::Pause => UpdateReply { watch_id: key, paused: true, watched_paths: 0 },
        _ => UpdateReply {
            watch_id: key,
            paused: false,
            watched_paths: match config_paths {
                Some(n) => n as i32,
                None => 0,
            },
        },
    }
}

/// The answer to a container PID lookup: the PID, or not found with the
/// runtime's message.
pub fn pid_lookup_status(lookup: Result<u32, RuntimeError>) -> (r: Result<i32, ServiceError>)
    ensures
        match lookup {
            Ok(pid) => r == Ok::<i32, ServiceError>(pid as i32),
            Err(e) => r matches Err(s) && s.code == StatusCode::NotFound && s.message@ == "Failed to resolve container PID: "@
                + runtime_error_text(e),
        },
{
    match lookup {
        Ok(pid) => Ok(pid as i32),
        Err(e) => {
            let mut v: Vec<char> = Vec::new();
            push_str(&mut v, "Failed to resolve container PID: ");
            e.write_message(&mut v);
            Err(ServiceError { code: StatusCode::NotFound, message: string_from_chars(&v) })
        },
    }
}

/// A watch-state request selects a session: an empty name or namespace in
/// the request selects any.
pub open spec fn state_selected(req_name: Seq<char>, req_namespace: Seq<char>, name: Seq<char>, namespace: Seq<char>) -> bool {
    (req_name.len() == 0 || name == req_name) && (req_namespace.len() == 0 || namespace == req_namespace)
}

/// Which sessions a watch-state request selects: a session whose name is
/// not the requested (non-empty) watcher name, or whose namespace is not
/// the requested (non-empty) namespace, is left out; a session with the
/// requested name and namespace is selected, and an empty request, or one
/// that names only the session's own name or namespace, selects it.
pub proof fn law_state_selection(req_name: Seq<char>, req_namespace: Seq<char>, name: Seq<char>, namespace: Seq<char>)
    ensures
        req_name.len() > 0 && name != req_name ==> !state_selected(req_name, req_namespace, name, namespace),
        req_namespace.len() > 0 && namespace != req_namespace ==> !state_selected(req_name, req_namespace, name, namespace),
        state_selected(name, namespace, name, namespace),
        state_selected(Seq::<char>::empty(), Seq::<char>::empty(), name, namespace),
        state_selected(name, Seq::<char>::empty(), name, namespace),
        state_selected(Seq::<char>::empty(), namespace, name, namespace),
{
}

/// Whether a watch-state request selects a session with this name and
/// namespace.
pub fn select_state(req_name: &str, req_namespace: &str, name: &str, namespace: &str) -> (r: bool)
    ensures
        r == state_selected(req_name@, req_namespace@, name@, namespace@),
{
    if req_name.unicode_len() > 0 && !crate::text::str_eq(name, req_name) {
        return false;
    }
    if req_namespace.unicode_len() > 0 && !crate::text::str_eq(namespace, req_namespace) {
        return false;
    }
    true
}

/// The stream filter of an event stream request: the name and namespace
/// when given, and the named wire event types when any is given.
pub fn stream_filter_for(watcher_name: &str, namespace: &str, event_types: &Vec<i32>) -> (r: crate::stream_filter::StreamFilter)
    ensures
        opt_view(r.name) == (if watcher_name@.len() > 0 { Some(watcher_name@) } else { None::<Seq<char>> }),
        opt_view(r.namespace) == (if namespace@.len() > 0 { Some(namespace@) } else { None::<Seq<char>> }),
        strings_view(r.event_types@) == named_events(event_types@),
{
    let mut f = crate::stream_filter::StreamFilter::new();
    assert(strings_view(f.event_types@) =~= Seq::<Seq<char>>::empty());
    if watcher_name.unicode_len() > 0 {
        f = f.with_name(watcher_name);
    }
    if namespace.unicode_len() > 0 {
        f = f.with_namespace(namespace);
    }
    let mut names: Vec<String> = Vec::new();
    let mut i: usize = 0;
    while i < event_types.len()
        invariant
            i <= event_types@.len(),
            strings_view(names@) == named_events(event_types@.subrange(0, i as int)),
        decreases event_types.len() - i,
    {
        assert(event_types@.subrange(0, i as int + 1).drop_last() =~= event_types@.subrange(0, i as int));
        let n = inotify_event_to_string(event_types[i]);
        let ghost before = names@;
        if n.unicode_len() > 0 {
            names.push(n);
            proof {
                lemma_view_push(before, names@.last());
                assert(names@ == before.push(names@.last()));
            }
        }
        i = i + 1;
    }
    assert(event_types@.subrange(0, event_types@.len() as int) =~= event_types@);
    if event_types.len() > 0 {
        f = f.with_event_types(names);
    } else {
        assert(named_events(event_types@) =~= Seq::<Seq<char>>::empty());
    }
    f
}


/// Metrics of one watch on the wire.
#[derive(Debug)]
pub struct WatchMetrics {
    pub watcher_name: String,
    pub namespace: String,
    /// The snapshot's named values.
    pub event_counts: Vec<(String, i64)>,
}

/// The metrics response.
#[derive(Debug)]
pub struct MetricsResponse {
    pub active_watches: i32,
    pub total_watch_descriptors: i32,
    pub events_processed: i64,
    pub watch_metrics: Vec<WatchMetrics>,
}

/// A snapshot is reported for a request: no name asked for, or its name
/// contains the one asked for.
pub open spec fn reported(name: Seq<char>, wanted: Seq<char>) -> bool {
    wanted.len() == 0 || crate::text::contains_seq(name, wanted)
}

/// The active watch descriptors of a snapshot, as the response counts them.
pub open spec fn descriptors_of(s: crate::metrics::MetricsSnapshot) -> int {
    (if s.custom_map().contains_key("watches_active"@) { s.custom_map()["watches_active"@] } else { 0u64 }) as i32 as int
}

/// The active watch descriptors of the first `k` snapshots.
pub open spec fn descriptor_sum(snaps: Seq<crate::metrics::MetricsSnapshot>, k: int) -> int
    decreases k,
{
    if k <= 0 {
        0
    } else {
        descriptor_sum(snaps, k - 1) + descriptors_of(snaps[k - 1])
    }
}

/// Every partial sum of the descriptor counts fits in an `i32` (the sum is
/// taken in `i32` arithmetic).
pub open spec fn descriptor_sums_fit(snaps: Seq<crate::metrics::MetricsSnapshot>) -> bool {
    forall|k: int| 0 <= k <= snaps.len() ==> i32::MIN <= #[trigger] descriptor_sum(snaps, k) <= i32::MAX
}

/// The reported snapshots of the first `k`, in order.
pub open spec fn reported_snaps(snaps: Seq<crate::metrics::MetricsSnapshot>, wanted: Seq<char>, k: int) -> Seq<crate::metrics::MetricsSnapshot>
    decreases k,
{
    if k <= 0 {
        Seq::empty()
    } else {
        let r = reported_snaps(snaps, wanted, k - 1);
        if reported(snaps[k - 1].name@, wanted) {
            r.push(snaps[k - 1])
        } else {
            r
        }
    }
}

/// The wire metrics of a snapshot: its name, no namespace, and its named
/// values.
pub open spec fn watch_metrics_of(m: WatchMetrics, s: crate::metrics::MetricsSnapshot) -> bool {
    &&& m.watcher_name@ == s.name@
    &&& m.namespace@.len() == 0
    &&& m.event_counts@.len() == s.custom@.len()
    &&& forall|i: int| 0 <= i < s.custom@.len() ==> (#[trigger] m.event_counts@[i]).0@ == s.custom@[i].0@
        && m.event_counts@[i].1 == s.custom@[i].1 as i64
}

fn wire_metrics(s: &crate::metrics::MetricsSnapshot) -> (r: WatchMetrics)
    ensures
        watch_metrics_of(r, *s),
{
    let mut counts: Vec<(String, i64)> = Vec::new();
    let mut i: usize = 0;
    while i < s.custom.len()
        invariant
            i <= s.custom@.len(),
            counts@.len() == i,
            forall|j: int| 0 <= j < i ==> (#[trigger] counts@[j]).0@ == s.custom@[j].0@ && counts@[j].1 == s.custom@[j].1 as i64,
        decreases s.custom.len() - i,
    {
        counts.push((s.custom[i].0.clone(), s.custom[i].1 as i64));
        i = i + 1;
    }
    WatchMetrics { watcher_name: s.name.clone(), namespace: String::new(), event_counts: counts }
}

/// Whether the running sums of the snapshots' active watch descriptors
/// all stay within `i32`, as the metrics response adds them up.
pub fn descriptors_fit(snapshots: &Vec<crate::metrics::MetricsSnapshot>) -> (r: bool)
    requires
        forall|i: int| 0 <= i < snapshots@.len() ==> (#[trigger] snapshots@[i]).wf(),
    ensures
        r == descriptor_sums_fit(snapshots@),
{
    let mut total: i64 = 0;
    let mut i: usize = 0;
    while i < snapshots.len()
        invariant
            i <= snapshots@.len(),
            forall|j: int| 0 <= j < snapshots@.len() ==> (#[trigger] snapshots@[j]).wf(),
            total == descriptor_sum(snapshots@, i as int),
            forall|k: int| 0 <= k <= i ==> i32::MIN <= #[trigger] descriptor_sum(snapshots@, k) <= i32::MAX,
        decreases snapshots.len() - i,
    {
        let d = match snapshots[i].custom_value("watches_active") {
            Some(x) => x as i32,
            None => 0i32,
        };
        proof {
            assert(descriptor_sum(snapshots@, i + 1) == descriptor_sum(snapshots@, i as int) + descriptors_of(snapshots@[i as int]));
        }
        total = total + d as i64;
        if total < i32::MIN as i64 || total > i32::MAX as i64 {
            assert(!(i32::MIN <= descriptor_sum(snapshots@, i + 1) <= i32::MAX));
            return false;
        }
        i = i + 1;
    }
    true
}

/// The metrics response for a request naming `watcher_name` (empty: all):
/// the reported snapshots as wire metrics, the active sessions and events
/// of the totals, and the sum of the active watch descriptors of all
/// snapshots.
pub fn metrics_response(
    snapshots: &Vec<crate::metrics::MetricsSnapshot>,
    totals: &crate::metrics::AggregateTotals,
    watcher_name: &str,
) -> (r: MetricsResponse)
    requires
        forall|i: int| 0 <= i < snapshots@.len() ==> (#[trigger] snapshots@[i]).wf(),
        descriptor_sums_fit(snapshots@),
    ensures
        r.active_watches == totals.active_sessions as i32,
        r.events_processed == totals.events_total as i64,
        r.total_watch_descriptors == descriptor_sum(snapshots@, snapshots@.len() as int),
        r.watch_metrics@.len() == reported_snaps(snapshots@, watcher_name@, snapshots@.len() as int).len(),
        forall|i: int| 0 <= i < r.watch_metrics@.len() ==> watch_metrics_of(
            #[trigger] r.watch_metrics@[i],
            reported_snaps(snapshots@, watcher_name@, snapshots@.len() as int)[i],
        ),
{
    let mut out: Vec<WatchMetrics> = Vec::new();
    let mut total: i32 = 0;
    let wanted = str_chars(watcher_name);
    let mut i: usize = 0;
    while i < snapshots.len()
        invariant
            i <= snapshots@.len(),
            wanted@ == watcher_name@,
            forall|j: int| 0 <= j < snapshots@.len() ==> (#[trigger] snapshots@[j]).wf(),
            descriptor_sums_fit(snapshots@),
            total == descriptor_sum(snapshots@, i as int),
            out@.len() == reported_snaps(snapshots@, watcher_name@, i as int).len(),
            forall|j: int| 0 <= j < out@.len() ==> watch_metrics_of(#[trigger] out@[j], reported_snaps(snapshots@, watcher_name@, i as int)[j]),
        decreases snapshots.len() - i,
    {
        let s = &snapshots[i];
        let name = str_chars(s.name.as_str());
        let ghost old_out = out@;
        let take = wanted.len() == 0 || crate::text::contains(&name, watcher_name);
        if take {
            out.push(wire_metrics(s));
        }
        proof {
            assert forall|j: int| 0 <= j < out@.len() implies watch_metrics_of(#[trigger] out@[j], reported_snaps(snapshots@, watcher_name@, i + 1)[j]) by {
                if j < old_out.len() {
                    assert(out@[j] == old_out[j]);
                }
            }
        }
        let d = match s.custom_value("watches_active") {
            Some(x) => x as i32,
            None => 0i32,
        };
        proof {
            assert(descriptor_sum(snapshots@, i + 1) == descriptor_sum(snapshots@, i as int) + descriptors_of(snapshots@[i as int]));
            assert(i32::MIN <= descriptor_sum(snapshots@, i + 1) <= i32::MAX);
        }
        total = total + d;
        i = i + 1;
    }
    MetricsResponse {
        active_watches: totals.active_sessions as i32,
        total_watch_descriptors: total,
        events_processed: totals.events_total as i64,
        watch_metrics: out,
    }
}

/// What a watch subject asks for, by contents.
pub open spec fn subject_view(s: WatchSubject) -> (Seq<Seq<char>>, Seq<i32>, Seq<Seq<char>>, bool, i32) {
    (strings_view(s.paths@), s.events@, strings_view(s.ignore@), s.recursive, s.max_depth)
}

/// What watch subjects ask for, by contents.
pub open spec fn subjects_view(s: Seq<WatchSubject>) -> Seq<(Seq<Seq<char>>, Seq<i32>, Seq<Seq<char>>, bool, i32)> {
    s.map_values(|x: WatchSubject| subject_view(x))
}

fn copy_codes(v: &Vec<i32>) -> (r: Vec<i32>)
    ensures
        r@ == v@,
{
    let mut out: Vec<i32> = Vec::new();
    let mut i: usize = 0;
    while i < v.len()
        invariant
            i <= v@.len(),
            out@ == v@.subrange(0, i as int),
        decreases v.len() - i,
    {
        out.push(v[i]);
        assert(v@.subrange(0, i as int + 1) =~= v@.subrange(0, i as int).push(v@[i as int]));
        i = i + 1;
    }
    assert(v@.subrange(0, v@.len() as int) =~= v@);
    out
}

impl WatchSubject {
    /// A copy.
    pub fn duplicate(&self) -> (r: Self)
        ensures
            subject_view(r) == subject_view(*self),
    {
        WatchSubject {
            paths: clone_strings(&self.paths),
            events: copy_codes(&self.events),
            ignore: clone_strings(&self.ignore),
            recursive: self.recursive,
            max_depth: self.max_depth,
        }
    }
}

/// Copies of watch subjects.
pub fn copy_subjects(v: &Vec<WatchSubject>) -> (r: Vec<WatchSubject>)
    ensures
        subjects_view(r@) == subjects_view(v@),
{
    let mut out: Vec<WatchSubject> = Vec::new();
    let mut i: usize = 0;
    while i < v.len()
        invariant
            i <= v@.len(),
            subjects_view(out@) == subjects_view(v@.subrange(0, i as int)),
        decreases v.len() - i,
    {
        let ghost before = out@;
        out.push(v[i].duplicate());
        assert(subjects_view(out@) =~= subjects_view(before).push(subject_view(v@[i as int])));
        assert(subjects_view(v@.subrange(0, i as int + 1)) =~= subjects_view(v@.subrange(0, i as int)).push(
            subject_view(v@[i as int]),
        ));
        i = i + 1;
    }
    assert(v@.subrange(0, v@.len() as int) =~= v@);
    out
}

/// The state of a watch, on the wire.
#[derive(Debug)]
pub struct WireWatchState {
    pub watcher_name: String,
    pub namespace: String,
    pub node_name: String,
    pub pod_name: String,
    pub pids: Vec<i32>,
    pub watch_descriptors: i32,
    pub created_at: Option<Timestamp>,
    pub subjects: Vec<WatchSubject>,
    pub log_format: String,
    pub paused: bool,
    pub watches_ready: bool,
    pub ready_at: Option<Timestamp>,
    pub active_watch_descriptors: i32,
}

/// The state of a watch session on the wire: the session's names, PIDs and
/// pause flag, the subjects and log format it was created with, its count
/// of watch descriptors (inotify) or watched prefixes (eBPF), and whether
/// and when its watches became ready.
pub fn watch_state_of<T: SessionState, M: DaemonMetrics>(
    session: &Session<T, M>,
    subjects: &Vec<WatchSubject>,
    log_format: &str,
    descriptors: u64,
    watches_ready: bool,
    ready_at: Option<&crate::timing::SystemTime>,
) -> (r: WireWatchState)
    ensures
        r.watcher_name@ == session.name@,
        r.namespace@ == session.namespace@,
        r.node_name@ == session.node_name@,
        r.pod_name@ == session.pod_name@,
        r.pids@ == session.pids@,
        r.watch_descriptors == descriptors as i32,
        r.active_watch_descriptors == descriptors as i32,
        r.created_at matches Some(ts) ==> 0 <= ts.nanos < 1_000_000_000,
        subjects_view(r.subjects@) == subjects_view(subjects@),
        r.log_format@ == log_format@,
        r.paused == session.paused,
        r.watches_ready == watches_ready,
        ready_at is None ==> r.ready_at is None,
        r.ready_at matches Some(ts) ==> 0 <= ts.nanos < 1_000_000_000,
{
    WireWatchState {
        watcher_name: session.name.clone(),
        namespace: session.namespace.clone(),
        node_name: session.node_name.clone(),
        pod_name: session.pod_name.clone(),
        pids: copy_codes(&session.pids),
        watch_descriptors: descriptors as i32,
        created_at: system_time_to_timestamp(&session.created_at),
        subjects: copy_subjects(subjects),
        log_format: owned(log_format),
        paused: session.paused,
        watches_ready,
        ready_at: match ready_at {
            Some(t) => system_time_to_timestamp(t),
            None => None,
        },
        active_watch_descriptors: descriptors as i32,
    }
}

/// The state argusd keeps per watch session in inotify mode.
pub struct WatchSessionState {
    pub subjects: Vec<WatchSubject>,
    pub log_format: String,
    /// Active watch descriptors.
    pub watch_descriptors: u64,
    pub typed_metrics: crate::metrics::WatcherMetrics,
    /// The configuration, kept for resume.
    pub watch_config: Option<WatchConfig>,
    /// All watches are registered.
    pub watches_ready: bool,
    /// When they were.
    pub ready_at: Option<crate::timing::SystemTime>,
}

impl crate::session::SessionState for WatchSessionState {
    type Config = WatchSubject;
    type Event = WireFileEvent;
}

/// The state argusd keeps per watch session in eBPF mode.
pub struct EbpfWatchSessionState {
    pub subjects: Vec<WatchSubject>,
    pub log_format: String,
    /// Watched path prefixes in the eBPF map.
    pub watched_prefixes: u64,
    pub typed_metrics: crate::metrics::WatcherMetrics,
    /// The eBPF filters are configured.
    pub watches_ready: bool,
    /// When they were.
    pub ready_at: Option<crate::timing::SystemTime>,
    /// The prefixes to remove on destroy.
    pub active_prefixes: Vec<String>,
}

impl crate::session::SessionState for EbpfWatchSessionState {
    type Config = WatchSubject;
    type Event = WireFileEvent;
}

/// The text of a probe record's path.
pub open spec fn probe_path(raw: RawFileEvent) -> Seq<char> {
    buffer_text(raw.path@, "<invalid utf8>"@)
}

/// The type of a probe record; an unknown code counts as a modification.
pub open spec fn probe_type(raw: RawFileEvent) -> FileEventType {
    match type_of_code(raw.event_type) {
        Some(t) => t,
        None => FileEventType::Modify,
    }
}

/// Whether an eBPF session is handed events at `path`: one of its active
/// prefixes is a prefix of the path.
pub open spec fn routes_to<M: DaemonMetrics>(s: Session<EbpfWatchSessionState, M>, path: Seq<char>) -> bool {
    exists|j: int| 0 <= j < s.state.active_prefixes@.len() && crate::text::is_prefix(#[trigger] s.state.active_prefixes@[j]@, path)
}

/// The session at position `i` of a registry.
pub open spec fn session_at_pos<M: DaemonMetrics>(reg: SessionRegistry<EbpfWatchSessionState, M>, i: int) -> Session<EbpfWatchSessionState, M> {
    reg.view_map()[reg.key_at(i)]
}

/// How many of the sessions at positions below `i` are handed events at
/// `path`.
pub open spec fn routed_count<M: DaemonMetrics>(reg: SessionRegistry<EbpfWatchSessionState, M>, path: Seq<char>, i: int) -> nat
    decreases i,
{
    if i <= 0 {
        0
    } else {
        routed_count(reg, path, i - 1) + if routes_to(session_at_pos(reg, i - 1), path) {
            1nat
        } else {
            0nat
        }
    }
}

/// Whether `w` is the wire event a session gets of a probe record: stamped
/// with the kernel time, named by the session, its pod and first container,
/// the node and the cluster, with the record's wire type, path and file
/// name, and the process behind it.
pub open spec fn routed_event<M: DaemonMetrics>(
    w: WireFileEvent,
    raw: RawFileEvent,
    s: Session<EbpfWatchSessionState, M>,
    cached: Option<&CachedProcess>,
    node_name: Seq<char>,
    cluster_name: Seq<char>,
) -> bool {
    &&& w.timestamp == Some(timestamp_of_ns(raw.timestamp_ns))
    &&& w.watcher_name@ == s.name@
    &&& w.namespace@ == s.namespace@
    &&& w.node_name@ == node_name
    &&& w.pod_name@ == s.pod_name@
    &&& w.container_id@ == (if s.container_ids@.len() > 0 {
        s.container_ids@[0]@
    } else {
        Seq::<char>::empty()
    })
    &&& w.cluster_name@ == cluster_name
    &&& w.event_type == wire_code(ebpf_wire_type(probe_type(raw)))
    &&& w.path@ == probe_path(raw)
    &&& w.filename@ == last_piece(probe_path(raw))
    &&& !w.is_directory
    &&& w.inode == 0
    &&& w.tags@.len() == 0
    &&& w.process_info is Some
    &&& process_matches(w.process_info->0, raw, buffer_text(raw.comm@, "<invalid utf8>"@), cached)
}

/// The typed metrics `m1` are `m0` with one event of type `ty` counted.
pub open spec fn counted_one(m0: crate::metrics::WatcherMetrics, m1: crate::metrics::WatcherMetrics, ty: Seq<char>) -> bool {
    &&& m1.watcher() == m0.watcher()
    &&& m1.counts() == (crate::metrics::WatcherCounts { events_total: crate::metrics::wrap_inc(m0.counts().events_total), ..m0.counts() })
    &&& m1.by_type() == m0.by_type().insert(
        ty,
        if m0.by_type().contains_key(ty) {
            crate::metrics::wrap_inc(m0.by_type()[ty])
        } else {
            1
        },
    )
}

/// How routing an event at `path` of type `ty` changes a session: one that
/// is handed the event counts it in its typed metrics and is otherwise as
/// it was; any other stays as it was.
pub open spec fn routed_session<M: DaemonMetrics>(
    s0: Session<EbpfWatchSessionState, M>,
    s1: Session<EbpfWatchSessionState, M>,
    path: Seq<char>,
    ty: Seq<char>,
) -> bool {
    if routes_to(s0, path) {
        &&& s1 == Session { state: EbpfWatchSessionState { typed_metrics: s1.state.typed_metrics, ..s0.state }, ..s0 }
        &&& counted_one(s0.state.typed_metrics, s1.state.typed_metrics, ty)
    } else {
        s1 == s0
    }
}

/// Hand a probe record to the eBPF sessions: every session one of whose
/// active prefixes is a prefix of the record's path gets one wire event
/// of it, in registry order, and counts it by type in its typed metrics;
/// the other sessions are untouched. `cached` is what the process cache
/// holds of the record's process.
pub fn route_probe_event<M: DaemonMetrics>(
    registry: &mut SessionRegistry<EbpfWatchSessionState, M>,
    raw: &RawFileEvent,
    cached: Option<&CachedProcess>,
    node_name: &str,
    cluster_name: &str,
) -> (r: Vec<WireFileEvent>)
    requires
        old(registry).wf(),
    ensures
        final(registry).wf(),
        final(registry).limit() == old(registry).limit(),
        final(registry).view_map().dom() == old(registry).view_map().dom(),
        forall|i: int| 0 <= i < old(registry).view_map().dom().len() ==> #[trigger] final(registry).key_at(i) == old(registry).key_at(i),
        forall|i: int| 0 <= i < old(registry).view_map().dom().len() ==> routed_session(
            #[trigger] session_at_pos(*old(registry), i),
            session_at_pos(*final(registry), i),
            probe_path(*raw),
            crate::ebpf_types::event_type_name(probe_type(*raw)),
        ),
        r@.len() == routed_count(*old(registry), probe_path(*raw), old(registry).view_map().dom().len() as int),
        forall|i: int| 0 <= i < old(registry).view_map().dom().len() && routes_to(#[trigger] session_at_pos(*old(registry), i), probe_path(*raw)) ==> routed_event(
            r@[routed_count(*old(registry), probe_path(*raw), i) as int],
            *raw,
            session_at_pos(*old(registry), i),
            cached,
            node_name@,
            cluster_name@,
        ),
{
    let ghost reg0 = *registry;
    let ghost path = probe_path(*raw);
    let ghost ty = crate::ebpf_types::event_type_name(probe_type(*raw));
    let event = EbpfFileEvent::from_raw(raw);
    let n = registry.count();
    proof {
        reg0.lemma_positions();
    }
    let mut out: Vec<WireFileEvent> = Vec::new();
    let mut i: usize = 0;
    while i < n
        invariant
            registry.wf(),
            reg0.wf(),
            n == reg0.view_map().dom().len(),
            i <= n,
            registry.limit() == reg0.limit(),
            registry.view_map().dom() == reg0.view_map().dom(),
            event.path@ == path,
            path == probe_path(*raw),
            event.event_type == probe_type(*raw),
            event.comm@ == buffer_text(raw.comm@, "<invalid utf8>"@),
            event.timestamp_ns == raw.timestamp_ns,
            ty == crate::ebpf_types::event_type_name(probe_type(*raw)),
            forall|j: int| 0 <= j < n ==> #[trigger] registry.key_at(j) == reg0.key_at(j),
            forall|j: int, k: int| 0 <= j < k < n ==> #[trigger] reg0.key_at(j) != #[trigger] reg0.key_at(k),
            forall|j: int| 0 <= j < n ==> reg0.view_map().contains_key(#[trigger] reg0.key_at(j)),
            forall|j: int| 0 <= j < i ==> routed_session(#[trigger] session_at_pos(reg0, j), session_at_pos(*registry, j), path, ty),
            forall|j: int| i <= j < n ==> #[trigger] session_at_pos(*registry, j) == session_at_pos(reg0, j),
            out@.len() == routed_count(reg0, path, i as int),
            forall|j: int| 0 <= j < i && routes_to(#[trigger] session_at_pos(reg0, j), path) ==> routed_event(
                out@[routed_count(reg0, path, j) as int],
                *raw,
                session_at_pos(reg0, j),
                cached,
                node_name@,
                cluster_name@,
            ),
        decreases n - i,
    {
        let ghost reg1 = *registry;
        proof {
            crate::service::lemma_routed_count_mono(reg0, path, i as int);
            assert(session_at_pos(reg1, i as int) == session_at_pos(reg0, i as int));
            assert(reg1.key_at(i as int) == reg0.key_at(i as int));
        }
        let session = registry.session_at_mut(i);
        let ghost s0 = *session;
        assert(s0 == session_at_pos(reg0, i as int));
        if matches_any_prefix(&event.path, &session.state.active_prefixes) {
            let origin = EventOrigin {
                watcher_name: session.name.clone(),
                namespace: session.namespace.clone(),
                node_name: owned(node_name),
                pod_name: session.pod_name.clone(),
                container_id: first_container(&session.container_ids),
                cluster_name: owned(cluster_name),
            };
            let process = process_info_of(raw, event.comm.as_str(), cached);
            let wire = event.to_wire(&origin, Some(process));
            session.state.typed_metrics.record_event_typed(event.event_type_str());
            let ghost before = out@;
            out.push(wire);
            proof {
                assert(out@[routed_count(reg0, path, i as int) as int] == wire);
                assert forall|j: int| 0 <= j < i && routes_to(#[trigger] session_at_pos(reg0, j), path) implies out@[routed_count(reg0, path, j) as int] == before[routed_count(reg0, path, j) as int] by {
                    crate::service::lemma_routed_count_mono(reg0, path, j + 1);
                    crate::service::lemma_routed_count_le(reg0, path, j + 1, i as int);
                }
            }
        }
        proof {
            assert forall|j: int| 0 <= j < n && j != i implies #[trigger] session_at_pos(*registry, j) == session_at_pos(reg1, j) by {
                assert(reg0.key_at(j) != reg0.key_at(i as int));
            }
        }
        i = i + 1;
    }
    out
}

/// The count of routed sessions never falls as positions grow.
proof fn lemma_routed_count_le<M: DaemonMetrics>(reg: SessionRegistry<EbpfWatchSessionState, M>, path: Seq<char>, a: int, b: int)
    requires
        a <= b,
    ensures
        routed_count(reg, path, a) <= routed_count(reg, path, b),
    decreases b - a,
{
    if a < b {
        lemma_routed_count_le(reg, path, a, b - 1);
    }
}

/// One step of the routed count.
proof fn lemma_routed_count_mono<M: DaemonMetrics>(reg: SessionRegistry<EbpfWatchSessionState, M>, path: Seq<char>, i: int)
    requires
        i >= 0,
    ensures
        routed_count(reg, path, i + 1) == routed_count(reg, path, i) + if routes_to(session_at_pos(reg, i), path) {
            1nat
        } else {
            0nat
        },
{
}

/// The health service: always serving.
#[derive(Debug, Default)]
pub struct HealthServiceImpl;

/// The health status code of a serving service.
pub const SERVING: i32 = 1;

impl HealthServiceImpl {
    /// The status a health check answers.
    pub fn check(&self) -> (r: i32)
        ensures
            r == SERVING,
    {
        SERVING
    }
}


/// A kernel time splits into whole seconds and the nanoseconds below a
/// second, which together give the time back.
pub proof fn law_timestamp_splits_ns(ns: u64)
    ensures
        timestamp_of_ns(ns).seconds * 1_000_000_000 + timestamp_of_ns(ns).nanos == ns,
        0 <= timestamp_of_ns(ns).nanos < 1_000_000_000,
{
    let q = ns / 1_000_000_000;
    let r = ns % 1_000_000_000;
    assert(q * 1_000_000_000 + r == ns) by (nonlinear_arith)
        requires
            q == ns / 1_000_000_000,
            r == ns % 1_000_000_000,
    ;
    assert(q <= 18_446_744_074) by (nonlinear_arith)
        requires
            q == ns / 1_000_000_000,
            ns <= u64::MAX,
    ;
}

} // verus!
