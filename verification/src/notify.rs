//! inotify event handling: event types and masks, the rename pairing of
//! `IN_MOVED_FROM`/`IN_MOVED_TO` events by cookie, and the bookkeeping of a
//! watcher (watch descriptors, proxy watches on ancestors of paths that do
//! not exist yet, pause and overflow resets).
//!
//! The inotify instance itself and the filesystem checks belong to the
//! caller; this module decides what they mean.
use vstd::prelude::*;
use crate::assoc::{assoc_map, keys_unique, lemma_assoc_contains, lemma_assoc_index, lemma_assoc_push, lemma_assoc_remove, lemma_assoc_update};
use crate::errors::{int_decimal, push_int};
use crate::metrics::{opt_str_view, wrap_dec, wrap_inc, WatcherCounts, WatcherMetrics};
use crate::text::{ascii_lower, ascii_upper, chars_eq_str, decimal, is_ascii_char, owned, push_chars, push_decimal, push_str, spec_to_lowercase, str_chars, str_eq, string_from_chars, to_lowercase};
use crate::timing::{Duration, Instant, duration_from_millis, duration_nanos, instant_elapsed, instant_now};

verus! {

/// Time allowed for an `IN_MOVED_TO` to follow its `IN_MOVED_FROM`.
pub const MOVE_PAIR_TIMEOUT_MS: u64 = 2;

/// File was accessed.
pub const IN_ACCESS: u32 = 0x1;
/// File was modified.
pub const IN_MODIFY: u32 = 0x2;
/// Metadata changed.
pub const IN_ATTRIB: u32 = 0x4;
/// File opened for writing was closed.
pub const IN_CLOSE_WRITE: u32 = 0x8;
/// File not opened for writing was closed.
pub const IN_CLOSE_NOWRITE: u32 = 0x10;
/// File was opened.
pub const IN_OPEN: u32 = 0x20;
/// File moved out of a watched directory.
pub const IN_MOVED_FROM: u32 = 0x40;
/// File moved into a watched directory.
pub const IN_MOVED_TO: u32 = 0x80;
/// File created in a watched directory.
pub const IN_CREATE: u32 = 0x100;
/// File deleted from a watched directory.
pub const IN_DELETE: u32 = 0x200;
/// Watched file was deleted.
pub const IN_DELETE_SELF: u32 = 0x400;
/// Watched file was moved.
pub const IN_MOVE_SELF: u32 = 0x800;
/// Both close events.
pub const IN_CLOSE: u32 = 0x18;
/// Both move events.
pub const IN_MOVE: u32 = 0xc0;
/// Every event above.
pub const IN_ALL_EVENTS: u32 = 0xfff;
/// The event queue overflowed.
pub const IN_Q_OVERFLOW: u32 = 0x4000;
/// The watch was removed.
pub const IN_IGNORED: u32 = 0x8000;
/// The subject of the event is a directory.
pub const IN_ISDIR: u32 = 0x4000_0000;

/// File event types.
#[derive(Debug, Clone, PartialEq, Eq, Structural)]
pub enum EventType {
    Access,
    Attrib,
    CloseWrite,
    CloseNoWrite,
    Create,
    Delete,
    DeleteSelf,
    Modify,
    MoveSelf,
    MovedFrom,
    MovedTo,
    Open,
    Unknown,
}

/// The name of an event type.
pub open spec fn event_name(t: EventType) -> Seq<char> {
    match t {
        EventType::Access => "access"@,
        EventType::Attrib => "attrib"@,
        EventType::CloseWrite => "closewrite"@,
        EventType::CloseNoWrite => "closenowrite"@,
        EventType::Create => "create"@,
        EventType::Delete => "delete"@,
        EventType::DeleteSelf => "deleteself"@,
        EventType::Modify => "modify"@,
        EventType::MoveSelf => "moveself"@,
        EventType::MovedFrom => "movedfrom"@,
        EventType::MovedTo => "movedto"@,
        EventType::Open => "open"@,
        EventType::Unknown => "unknown"@,
    }
}

/// The event type named by an already lower-cased name; both the plain and
/// the underscored spellings are accepted.
pub open spec fn event_type_from_lower(s: Seq<char>) -> EventType {
    if s == "access"@ {
        EventType::Access
    } else if s == "attrib"@ {
        EventType::Attrib
    } else if s == "closewrite"@ || s == "close_write"@ {
        EventType::CloseWrite
    } else if s == "closenowrite"@ || s == "close_nowrite"@ {
        EventType::CloseNoWrite
    } else if s == "create"@ {
        EventType::Create
    } else if s == "delete"@ {
        EventType::Delete
    } else if s == "deleteself"@ || s == "delete_self"@ {
        EventType::DeleteSelf
    } else if s == "modify"@ {
        EventType::Modify
    } else if s == "moveself"@ || s == "move_self"@ {
        EventType::MoveSelf
    } else if s == "movedfrom"@ || s == "moved_from"@ {
        EventType::MovedFrom
    } else if s == "movedto"@ || s == "moved_to"@ {
        EventType::MovedTo
    } else if s == "open"@ {
        EventType::Open
    } else {
        EventType::Unknown
    }
}

/// Every character is ASCII.
pub open spec fn all_ascii(s: Seq<char>) -> bool {
    forall|i: int| 0 <= i < s.len() ==> is_ascii_char(#[trigger] s[i])
}

/// ASCII lower case of every character.
pub open spec fn lower_ascii(s: Seq<char>) -> Seq<char> {
    s.map_values(|c: char| ascii_lower(c))
}

fn event_type_of_lower(s: &Vec<char>) -> (r: EventType)
    ensures
        r == event_type_from_lower(s@),
{
    if chars_eq_str(s, "access") {
        EventType::Access
    } else if chars_eq_str(s, "attrib") {
        EventType::Attrib
    } else if chars_eq_str(s, "closewrite") || chars_eq_str(s, "close_write") {
        EventType::CloseWrite
    } else if chars_eq_str(s, "closenowrite") || chars_eq_str(s, "close_nowrite") {
        EventType::CloseNoWrite
    } else if chars_eq_str(s, "create") {
        EventType::Create
    } else if chars_eq_str(s, "delete") {
        EventType::Delete
    } else if chars_eq_str(s, "deleteself") || chars_eq_str(s, "delete_self") {
        EventType::DeleteSelf
    } else if chars_eq_str(s, "modify") {
        EventType::Modify
    } else if chars_eq_str(s, "moveself") || chars_eq_str(s, "move_self") {
        EventType::MoveSelf
    } else if chars_eq_str(s, "movedfrom") || chars_eq_str(s, "moved_from") {
        EventType::MovedFrom
    } else if chars_eq_str(s, "movedto") || chars_eq_str(s, "moved_to") {
        EventType::MovedTo
    } else if chars_eq_str(s, "open") {
        EventType::Open
    } else {
        EventType::Unknown
    }
}

impl EventType {
    /// The lower-case name of the event type.
    pub fn as_str(&self) -> (r: &'static str)
        ensures
            r@ == event_name(*self),
    {
        match self {
            EventType::Access => "access",
            EventType::Attrib => "attrib",
            EventType::CloseWrite => "closewrite",
            EventType::CloseNoWrite => "closenowrite",
            EventType::Create => "create",
            EventType::Delete => "delete",
            EventType::DeleteSelf => "deleteself",
            EventType::Modify => "modify",
            EventType::MoveSelf => "moveself",
            EventType::MovedFrom => "movedfrom",
            EventType::MovedTo => "movedto",
            EventType::Open => "open",
            EventType::Unknown => "unknown",
        }
    }

    /// The event type named by `s`, ignoring case; unknown names give
    /// `Unknown`.
    pub fn from_str(s: &str) -> (r: Self)
        ensures
            r == event_type_from_lower(spec_to_lowercase(s@)),
            all_ascii(s@) ==> r == event_type_from_lower(lower_ascii(s@)),
    {
        let l = to_lowercase(s);
        let v = str_chars(l.as_str());
        event_type_of_lower(&v)
    }
}

/// The name of every event type other than `Unknown` is written in
/// lower-case ASCII and names that type again.
pub proof fn law_event_type_name_roundtrip(t: EventType)
    requires
        t != EventType::Unknown,
    ensures
        all_ascii(event_name(t)),
        lower_ascii(event_name(t)) == event_name(t),
        event_type_from_lower(lower_ascii(event_name(t))) == t,
{
    let n = event_name(t);
    reveal_strlit("access");
    reveal_strlit("attrib");
    reveal_strlit("closewrite");
    reveal_strlit("close_write");
    reveal_strlit("closenowrite");
    reveal_strlit("close_nowrite");
    reveal_strlit("create");
    reveal_strlit("delete");
    reveal_strlit("deleteself");
    reveal_strlit("delete_self");
    reveal_strlit("modify");
    reveal_strlit("moveself");
    reveal_strlit("move_self");
    reveal_strlit("movedfrom");
    reveal_strlit("moved_from");
    reveal_strlit("movedto");
    reveal_strlit("moved_to");
    reveal_strlit("open");
    match t {
        EventType::Access => {
            assert(n.len() == 6 && n[0] == 'a' && n[1] == 'c' && n[2] == 'c' && n[3] == 'e' && n[4] == 's' && n[5] == 's');
        },
        EventType::Attrib => {
            assert(n.len() == 6 && n[0] == 'a' && n[1] == 't' && n[2] == 't' && n[3] == 'r' && n[4] == 'i' && n[5] == 'b');
        },
        EventType::CloseWrite => {
            assert(n.len() == 10 && n[0] == 'c' && n[1] == 'l' && n[2] == 'o' && n[3] == 's' && n[4] == 'e' && n[5] == 'w' && n[6] == 'r' && n[7] == 'i' && n[8] == 't' && n[9] == 'e');
        },
        EventType::CloseNoWrite => {
            assert(n.len() == 12 && n[0] == 'c' && n[1] == 'l' && n[2] == 'o' && n[3] == 's' && n[4] == 'e' && n[5] == 'n' && n[6] == 'o' && n[7] == 'w' && n[8] == 'r' && n[9] == 'i' && n[10] == 't' && n[11] == 'e');
        },
        EventType::Create => {
            assert(n.len() == 6 && n[0] == 'c' && n[1] == 'r' && n[2] == 'e' && n[3] == 'a' && n[4] == 't' && n[5] == 'e');
        },
        EventType::Delete => {
            assert(n.len() == 6 && n[0] == 'd' && n[1] == 'e' && n[2] == 'l' && n[3] == 'e' && n[4] == 't' && n[5] == 'e');
        },
        EventType::DeleteSelf => {
            assert(n.len() == 10 && n[0] == 'd' && n[1] == 'e' && n[2] == 'l' && n[3] == 'e' && n[4] == 't' && n[5] == 'e' && n[6] == 's' && n[7] == 'e' && n[8] == 'l' && n[9] == 'f');
        },
        EventType::Modify => {
            assert(n.len() == 6 && n[0] == 'm' && n[1] == 'o' && n[2] == 'd' && n[3] == 'i' && n[4] == 'f' && n[5] == 'y');
        },
        EventType::MoveSelf => {
            assert(n.len() == 8 && n[0] == 'm' && n[1] == 'o' && n[2] == 'v' && n[3] == 'e' && n[4] == 's' && n[5] == 'e' && n[6] == 'l' && n[7] == 'f');
        },
        EventType::MovedFrom => {
            assert(n.len() == 9 && n[0] == 'm' && n[1] == 'o' && n[2] == 'v' && n[3] == 'e' && n[4] == 'd' && n[5] == 'f' && n[6] == 'r' && n[7] == 'o' && n[8] == 'm');
        },
        EventType::MovedTo => {
            assert(n.len() == 7 && n[0] == 'm' && n[1] == 'o' && n[2] == 'v' && n[3] == 'e' && n[4] == 'd' && n[5] == 't' && n[6] == 'o');
        },
        EventType::Open => {
            assert(n.len() == 4 && n[0] == 'o' && n[1] == 'p' && n[2] == 'e' && n[3] == 'n');
        },
        EventType::Unknown => {},
    }
    assert(lower_ascii(n) =~= n);
}

/// ASCII upper case of every character.
pub open spec fn upper_ascii(s: Seq<char>) -> Seq<char> {
    s.map_values(|c: char| ascii_upper(c))
}

/// An ASCII string that is its own lower case comes back from its upper
/// case by lowering it again.
pub proof fn lemma_upper_then_lower(s: Seq<char>)
    requires
        all_ascii(s),
        lower_ascii(s) == s,
    ensures
        all_ascii(upper_ascii(s)),
        lower_ascii(upper_ascii(s)) == s,
{
    assert forall|i: int| 0 <= i < s.len() implies is_ascii_char(#[trigger] upper_ascii(s)[i]) && ascii_lower(upper_ascii(s)[i]) == s[i] by {
        let c = s[i];
        assert(is_ascii_char(c));
        assert(ascii_lower(c) == lower_ascii(s)[i]);
        if 'a' <= c <= 'z' {
            let u = ((c as u32) - 32) as char;
            assert(u as u32 == (c as u32) - 32);
            assert('A' <= u <= 'Z');
            assert(((u as u32) + 32) as char == c);
        }
    }
    assert(lower_ascii(upper_ascii(s)) =~= s);
}

/// Event type names are read ignoring ASCII case: the upper-case name of
/// every event type other than `Unknown` is ASCII and names that type
/// again, and the name of `Unknown` names `Unknown`.
pub proof fn law_event_type_name_any_case(t: EventType)
    ensures
        all_ascii(upper_ascii(event_name(t))),
        t != EventType::Unknown ==> event_type_from_lower(lower_ascii(upper_ascii(event_name(t)))) == t,
        t != EventType::Unknown ==> event_type_from_lower(lower_ascii(event_name(t))) == t,
        event_type_from_lower(event_name(EventType::Unknown)) == EventType::Unknown,
{
    if t != EventType::Unknown {
        law_event_type_name_roundtrip(t);
        lemma_upper_then_lower(event_name(t));
    } else {
        reveal_strlit("unknown");
        let n = event_name(t);
        assert(n.len() == 7 && n[0] == 'u' && n[1] == 'n' && n[2] == 'k' && n[3] == 'n' && n[4] == 'o' && n[5] == 'w' && n[6] == 'n');
        assert forall|i: int| 0 <= i < n.len() implies is_ascii_char(#[trigger] upper_ascii(n)[i]) by {
            let c = n[i];
            if 'a' <= c <= 'z' {
                let u = ((c as u32) - 32) as char;
                assert(u as u32 == (c as u32) - 32);
            }
        }
    }
    unknown_name_is_unknown();
}

proof fn unknown_name_is_unknown()
    ensures
        event_type_from_lower(event_name(EventType::Unknown)) == EventType::Unknown,
{
    reveal_strlit("unknown");
    reveal_strlit("access");
    reveal_strlit("attrib");
    reveal_strlit("closewrite");
    reveal_strlit("close_write");
    reveal_strlit("closenowrite");
    reveal_strlit("close_nowrite");
    reveal_strlit("create");
    reveal_strlit("delete");
    reveal_strlit("deleteself");
    reveal_strlit("delete_self");
    reveal_strlit("modify");
    reveal_strlit("moveself");
    reveal_strlit("move_self");
    reveal_strlit("movedfrom");
    reveal_strlit("moved_from");
    reveal_strlit("movedto");
    reveal_strlit("moved_to");
    reveal_strlit("open");
    let n = "unknown"@;
    assert(n.len() == 7 && n[0] == 'u');
    assert("movedto"@[0] == 'm');
    assert(n != "movedto"@);
}

/// A file system event.
///
/// `cookie` pairs the two halves of a rename (0 when the event is not one);
/// `move_peer` is the other path of a paired rename.
#[derive(Debug, Clone)]
pub struct FileEvent {
    /// Type of the event.
    pub event_type: EventType,
    /// Full path of the affected file or directory.
    pub path: String,
    /// Name within the watched directory, when the kernel gave one.
    pub filename: Option<String>,
    /// The subject is a directory.
    pub is_dir: bool,
    /// Rename cookie (0 when not a rename).
    pub cookie: u32,
    /// The other path of a paired rename.
    pub move_peer: Option<String>,
}

/// The contents of an optional string.
pub open spec fn opt_view(o: Option<String>) -> Option<Seq<char>> {
    match o {
        Some(s) => Some(s@),
        None => None,
    }
}

/// `e` has the given contents.
pub open spec fn event_matches(
    e: FileEvent,
    t: EventType,
    path: Seq<char>,
    filename: Option<Seq<char>>,
    is_dir: bool,
    cookie: u32,
    peer: Option<Seq<char>>,
) -> bool {
    &&& e.event_type == t
    &&& e.path@ == path
    &&& opt_view(e.filename) == filename
    &&& e.is_dir == is_dir
    &&& e.cookie == cookie
    &&& opt_view(e.move_peer) == peer
}

/// `p` appended to `base` as `PathBuf::join` does: an absolute `p`
/// replaces `base`, otherwise a separator is put between them when `base`
/// is not empty and does not end with one.
pub open spec fn path_join(base: Seq<char>, p: Seq<char>) -> Seq<char> {
    if p.len() > 0 && p[0] == '/' {
        p
    } else if base.len() == 0 || base.last() == '/' {
        base + p
    } else {
        base + seq!['/'] + p
    }
}

/// `p` appended to `base` (`PathBuf::join`).
pub fn join_path(base: &str, p: &str) -> (r: String)
    ensures
        r@ == path_join(base@, p@),
{
    let pv = str_chars(p);
    if pv.len() > 0 && pv[0] == '/' {
        return owned(p);
    }
    let mut v = str_chars(base);
    if v.len() > 0 && v[v.len() - 1] == '/' {
        push_chars(&mut v, &pv);
    } else if v.len() == 0 {
        push_chars(&mut v, &pv);
    } else {
        v.push('/');
        push_chars(&mut v, &pv);
    }
    string_from_chars(&v)
}

fn clone_opt(o: &Option<String>) -> (r: Option<String>)
    ensures
        opt_view(r) == opt_view(*o),
{
    match o {
        Some(s) => Some(s.clone()),
        None => None,
    }
}

// ---------------------------------------------------------------------------
// Event masks
// ---------------------------------------------------------------------------

/// The inotify mask bits of an already lower-cased event name (`close` and
/// `move` name both events of the pair, `all` every event; unknown names
/// none).
pub open spec fn flag_of_lower(s: Seq<char>) -> u32 {
    if s == "access"@ {
        IN_ACCESS
    } else if s == "attrib"@ {
        IN_ATTRIB
    } else if s == "closewrite"@ {
        IN_CLOSE_WRITE
    } else if s == "closenowrite"@ {
        IN_CLOSE_NOWRITE
    } else if s == "close"@ {
        IN_CLOSE
    } else if s == "create"@ {
        IN_CREATE
    } else if s == "delete"@ {
        IN_DELETE
    } else if s == "deleteself"@ {
        IN_DELETE_SELF
    } else if s == "modify"@ {
        IN_MODIFY
    } else if s == "moveself"@ {
        IN_MOVE_SELF
    } else if s == "movedfrom"@ {
        IN_MOVED_FROM
    } else if s == "movedto"@ {
        IN_MOVED_TO
    } else if s == "move"@ {
        IN_MOVE
    } else if s == "open"@ {
        IN_OPEN
    } else if s == "all"@ {
        IN_ALL_EVENTS
    } else {
        0
    }
}

/// The union of the mask bits named by the first `n` event names.
pub open spec fn fold_flags(events: Seq<Seq<char>>, n: int) -> u32
    decreases n,
{
    if n <= 0 {
        0
    } else {
        fold_flags(events, n - 1) | flag_of_lower(spec_to_lowercase(events[n - 1]))
    }
}

/// The mask of the first `n` event names, each taken in ASCII lower case.
pub open spec fn fold_flags_ascii(events: Seq<Seq<char>>, n: int) -> u32
    decreases n,
{
    if n <= 0 {
        0
    } else {
        fold_flags_ascii(events, n - 1) | flag_of_lower(lower_ascii(events[n - 1]))
    }
}

/// The watch mask for a list of ASCII event names: their ASCII lower case
/// decides; when no name is known, every event.
pub open spec fn flags_for_ascii(events: Seq<Seq<char>>) -> u32 {
    let f = fold_flags_ascii(events, events.len() as int);
    if f == 0 {
        IN_ALL_EVENTS
    } else {
        f
    }
}

/// The watch mask for a list of event names (names compared ignoring
/// case); when no name is known, every event.
pub open spec fn flags_for(events: Seq<Seq<char>>) -> u32 {
    let f = fold_flags(events, events.len() as int);
    if f == 0 {
        IN_ALL_EVENTS
    } else {
        f
    }
}

/// The contents of a list of strings.
pub open spec fn strings_view(v: Seq<String>) -> Seq<Seq<char>> {
    v.map_values(|s: String| s@)
}

fn flag_of_lower_exec(s: &Vec<char>) -> (r: u32)
    ensures
        r == flag_of_lower(s@),
{
    if chars_eq_str(s, "access") {
        IN_ACCESS
    } else if chars_eq_str(s, "attrib") {
        IN_ATTRIB
    } else if chars_eq_str(s, "closewrite") {
        IN_CLOSE_WRITE
    } else if chars_eq_str(s, "closenowrite") {
        IN_CLOSE_NOWRITE
    } else if chars_eq_str(s, "close") {
        IN_CLOSE
    } else if chars_eq_str(s, "create") {
        IN_CREATE
    } else if chars_eq_str(s, "delete") {
        IN_DELETE
    } else if chars_eq_str(s, "deleteself") {
        IN_DELETE_SELF
    } else if chars_eq_str(s, "modify") {
        IN_MODIFY
    } else if chars_eq_str(s, "moveself") {
        IN_MOVE_SELF
    } else if chars_eq_str(s, "movedfrom") {
        IN_MOVED_FROM
    } else if chars_eq_str(s, "movedto") {
        IN_MOVED_TO
    } else if chars_eq_str(s, "move") {
        IN_MOVE
    } else if chars_eq_str(s, "open") {
        IN_OPEN
    } else if chars_eq_str(s, "all") {
        IN_ALL_EVENTS
    } else {
        0
    }
}

/// Convert event names to an inotify watch mask.
pub fn events_to_flags(events: &Vec<String>) -> (r: u32)
    ensures
        r == flags_for(strings_view(events@)),
        r != 0,
        (forall|i: int| 0 <= i < events@.len() ==> all_ascii(#[trigger] events@[i]@)) ==> r == flags_for_ascii(
            strings_view(events@),
        ),
{
    let ghost ev = strings_view(events@);
    let mut flags: u32 = 0;
    let mut i: usize = 0;
    while i < events.len()
        invariant
            ev == strings_view(events@),
            i <= events@.len(),
            flags == fold_flags(ev, i as int),
            (forall|k: int| 0 <= k < events@.len() ==> all_ascii(#[trigger] events@[k]@)) ==> fold_flags(ev, i as int)
                == fold_flags_ascii(ev, i as int),
        decreases events.len() - i,
    {
        let l = to_lowercase(events[i].as_str());
        proof {
            if forall|k: int| 0 <= k < events@.len() ==> all_ascii(#[trigger] events@[k]@) {
                assert(all_ascii(events@[i as int]@));
                assert(l@ =~= lower_ascii(ev[i as int]));
            }
        }
        let v = str_chars(l.as_str());
        let f = flag_of_lower_exec(&v);
        assert(ev[i as int] == events@[i as int]@);
        flags = flags | f;
        i = i + 1;
    }
    if flags == 0 {
        flags = IN_ALL_EVENTS;
    }
    flags
}

/// The event type a mask reports: the first of its bits in the order
/// access, attrib, close-write, close-nowrite, create, delete, delete-self,
/// modify, move-self, moved-from, moved-to, open.
pub open spec fn event_type_of_mask(mask: u32) -> EventType {
    if mask & IN_ACCESS != 0 {
        EventType::Access
    } else if mask & IN_ATTRIB != 0 {
        EventType::Attrib
    } else if mask & IN_CLOSE_WRITE != 0 {
        EventType::CloseWrite
    } else if mask & IN_CLOSE_NOWRITE != 0 {
        EventType::CloseNoWrite
    } else if mask & IN_CREATE != 0 {
        EventType::Create
    } else if mask & IN_DELETE != 0 {
        EventType::Delete
    } else if mask & IN_DELETE_SELF != 0 {
        EventType::DeleteSelf
    } else if mask & IN_MODIFY != 0 {
        EventType::Modify
    } else if mask & IN_MOVE_SELF != 0 {
        EventType::MoveSelf
    } else if mask & IN_MOVED_FROM != 0 {
        EventType::MovedFrom
    } else if mask & IN_MOVED_TO != 0 {
        EventType::MovedTo
    } else if mask & IN_OPEN != 0 {
        EventType::Open
    } else {
        EventType::Unknown
    }
}

/// The event type an inotify mask reports.
pub fn mask_to_event_type(mask: u32) -> (r: EventType)
    ensures
        r == event_type_of_mask(mask),
{
    if mask & IN_ACCESS != 0 {
        EventType::Access
    } else if mask & IN_ATTRIB != 0 {
        EventType::Attrib
    } else if mask & IN_CLOSE_WRITE != 0 {
        EventType::CloseWrite
    } else if mask & IN_CLOSE_NOWRITE != 0 {
        EventType::CloseNoWrite
    } else if mask & IN_CREATE != 0 {
        EventType::Create
    } else if mask & IN_DELETE != 0 {
        EventType::Delete
    } else if mask & IN_DELETE_SELF != 0 {
        EventType::DeleteSelf
    } else if mask & IN_MODIFY != 0 {
        EventType::Modify
    } else if mask & IN_MOVE_SELF != 0 {
        EventType::MoveSelf
    } else if mask & IN_MOVED_FROM != 0 {
        EventType::MovedFrom
    } else if mask & IN_MOVED_TO != 0 {
        EventType::MovedTo
    } else if mask & IN_OPEN != 0 {
        EventType::Open
    } else {
        EventType::Unknown
    }
}

// ---------------------------------------------------------------------------
// Rename pairing
// ---------------------------------------------------------------------------

/// A `IN_MOVED_FROM` event waiting for its `IN_MOVED_TO`.
#[derive(Debug)]
pub struct PendingMove {
    /// Path the file was moved from.
    pub path: String,
    /// Name that was moved.
    pub filename: Option<String>,
    /// The subject is a directory.
    pub is_dir: bool,
    /// When the event was recorded: nanoseconds since the tracker was made.
    pub timestamp: u64,
}

/// Pairs `IN_MOVED_FROM` events with `IN_MOVED_TO` events by cookie.
///
/// A moved-from event is held until its moved-to event arrives or the
/// timeout passes; cookie 0 marks events that are not part of a rename.
pub struct MovePairTracker {
    pending: Vec<(u32, PendingMove)>,
    timeout: Duration,
    timeout_ns: u64,
    epoch: Instant,
}

/// Whether a move recorded at `m.timestamp` has, at time `now`, waited
/// longer than `timeout_ns` (all in nanoseconds on the tracker's clock; a
/// move recorded after `now` has not waited at all).
pub open spec fn waited_too_long(m: PendingMove, now: u64, timeout_ns: u64) -> bool {
    now as int - m.timestamp as int > timeout_ns as int
}

/// The cookies of the moves of `s` that, at `now`, have waited longer than
/// `timeout_ns`, in the order of `s`.
pub open spec fn expired_of(s: Seq<(u32, PendingMove)>, now: u64, timeout_ns: u64) -> Seq<u32>
    decreases s.len(),
{
    if s.len() == 0 {
        Seq::empty()
    } else {
        let r = expired_of(s.drop_last(), now, timeout_ns);
        if waited_too_long(s.last().1, now, timeout_ns) {
            r.push(s.last().0)
        } else {
            r
        }
    }
}

/// A cookie is among the expired ones of a list with distinct cookies
/// exactly when its move is listed and has waited too long.
pub proof fn lemma_expired_of(s: Seq<(u32, PendingMove)>, now: u64, timeout_ns: u64, c: u32)
    requires
        keys_unique(s),
    ensures
        expired_of(s, now, timeout_ns).contains(c) <==> (assoc_map(s).contains_key(c) && waited_too_long(
            assoc_map(s)[c],
            now,
            timeout_ns,
        )),
    decreases s.len(),
{
    if s.len() > 0 {
        let d = s.drop_last();
        assert(keys_unique(d)) by {
            assert forall|i: int, j: int| 0 <= i < j < d.len() implies d[i].0 != d[j].0 by {
                assert(d[i] == s[i] && d[j] == s[j]);
            }
        }
        lemma_expired_of(d, now, timeout_ns, c);
        lemma_assoc_contains(d, c);
        let r = expired_of(d, now, timeout_ns);
        if c == s.last().0 {
            if assoc_map(d).contains_key(c) {
                let i = choose|i: int| 0 <= i < d.len() && d[i].0 == c;
                assert(s[i].0 == s[s.len() - 1].0);
            }
            if waited_too_long(s.last().1, now, timeout_ns) {
                assert(r.push(c)[r.len() as int] == c);
            }
        } else if waited_too_long(s.last().1, now, timeout_ns) {
            let q = r.push(s.last().0);
            if q.contains(c) {
                let k = choose|k: int| 0 <= k < q.len() && q[k] == c;
                assert(r[k] == c);
            }
            if r.contains(c) {
                let k = choose|k: int| 0 <= k < r.len() && r[k] == c;
                assert(q[k] == c);
            }
        }
    }
}

/// The outcome of handing out expired rename halves at `now`: each event
/// is the moved-from event of a held half that waited too long, one per
/// such half, and exactly the other halves stay held, as they were.
pub open spec fn moves_expired_at(before: Watcher, after: Watcher, r: Seq<FileEvent>, now: u64) -> bool {
    let t = before.move_timeout_ns();
    let p = before.pending();
    &&& forall|i: int| 0 <= i < r.len() ==> {
        let e = #[trigger] r[i];
        &&& p.contains_key(e.cookie)
        &&& waited_too_long(p[e.cookie], now, t)
        &&& event_matches(e, EventType::MovedFrom, p[e.cookie].path@, opt_view(p[e.cookie].filename), p[e.cookie].is_dir, e.cookie, None)
    }
    &&& forall|i: int, j: int| 0 <= i < j < r.len() ==> r[i].cookie != r[j].cookie
    &&& forall|c: u32| #[trigger] p.contains_key(c) && waited_too_long(p[c], now, t) ==> exists|i: int| 0 <= i < r.len() && r[i].cookie == c
    &&& forall|c: u32| #[trigger] after.pending().contains_key(c) <==> p.contains_key(c) && !waited_too_long(p[c], now, t)
    &&& forall|c: u32| #[trigger] after.pending().contains_key(c) ==> after.pending()[c] == p[c]
}

/// The outcome of draining a tracker at `now`: the moves handed out are
/// pending ones that have waited too long, every such move is handed out
/// once, and exactly the others stay pending, as they were.
pub open spec fn drained_at(
    before: MovePairTracker,
    after: MovePairTracker,
    r: Seq<(u32, PendingMove)>,
    now: u64,
) -> bool {
    let t = before.timeout_ns();
    &&& keys_unique(r)
    &&& forall|i: int| 0 <= i < r.len() ==> {
        &&& before.pending().contains_key(#[trigger] r[i].0)
        &&& before.pending()[r[i].0] == r[i].1
        &&& waited_too_long(r[i].1, now, t)
    }
    &&& forall|c: u32| #[trigger] before.pending().contains_key(c) && waited_too_long(before.pending()[c], now, t)
        ==> exists|i: int| 0 <= i < r.len() && r[i].0 == c
    &&& forall|c: u32| #[trigger] after.pending().contains_key(c) <==> before.pending().contains_key(c)
        && !waited_too_long(before.pending()[c], now, t)
    &&& forall|c: u32| #[trigger] after.pending().contains_key(c) ==> after.pending()[c] == before.pending()[c]
}

/// The pending moves by cookie.
pub open spec fn pending_view(s: Seq<(u32, PendingMove)>) -> Map<u32, PendingMove> {
    assoc_map(s)
}

/// Whether `c` is listed in `v`.
fn list_has(v: &Vec<u32>, c: u32) -> (r: bool)
    ensures
        r == v@.contains(c),
{
    let mut i: usize = 0;
    while i < v.len()
        invariant
            i <= v@.len(),
            forall|j: int| 0 <= j < i ==> v@[j] != c,
        decreases v.len() - i,
    {
        if v[i] == c {
            return true;
        }
        i = i + 1;
    }
    false
}

impl MovePairTracker {
    /// The pending moves by cookie.
    pub closed spec fn pending(&self) -> Map<u32, PendingMove> {
        assoc_map(self.pending@)
    }

    /// One pending move per cookie, and never for cookie 0.
    pub closed spec fn wf(&self) -> bool {
        &&& keys_unique(self.pending@)
        &&& forall|i: int| 0 <= i < self.pending@.len() ==> #[trigger] self.pending@[i].0 != 0
    }

    /// How long a pending move waits for its pair.
    pub closed spec fn timeout(&self) -> Duration {
        self.timeout
    }

    /// The timeout in nanoseconds (`Duration::as_nanos` of `timeout()`,
    /// at most `u64::MAX`).
    pub closed spec fn timeout_ns(&self) -> u64 {
        self.timeout_ns
    }

    /// The pending moves in the order they were recorded.
    pub closed spec fn entries(&self) -> Seq<(u32, PendingMove)> {
        self.pending@
    }

    /// The pending moves are those listed by `entries()`, one per cookie,
    /// and there are finitely many of them.
    pub proof fn lemma_entries(&self)
        requires
            self.wf(),
        ensures
            self.pending() == assoc_map(self.entries()),
            keys_unique(self.entries()),
            self.pending().dom().finite(),
            self.pending().dom().len() == self.entries().len(),
    {
        crate::assoc::lemma_assoc_len(self.pending@);
    }

    /// A tracker with nothing pending that holds moves for `timeout`; its
    /// clock starts now.
    pub fn new(timeout: Duration) -> (r: Self)
        ensures
            r.wf(),
            r.pending() == Map::<u32, PendingMove>::empty(),
            r.timeout() == timeout,
    {
        let nanos = duration_nanos(&timeout);
        let timeout_ns: u64 = if nanos > 0xffff_ffff_ffff_ffffu128 {
            0xffff_ffff_ffff_ffffu64
        } else {
            nanos as u64
        };
        MovePairTracker { pending: Vec::new(), timeout, timeout_ns, epoch: instant_now() }
    }

    /// The tracker's clock: nanoseconds since it was made (at most
    /// `u64::MAX`), read now. What it reads depends on when it is called.
    pub fn now_ns(&self) -> u64 {
        let d = instant_elapsed(&self.epoch);
        let nanos = duration_nanos(&d);
        if nanos > 0xffff_ffff_ffff_ffffu128 {
            0xffff_ffff_ffff_ffffu64
        } else {
            nanos as u64
        }
    }

    fn position_of(&self, cookie: u32) -> (r: Option<usize>)
        ensures
            match r {
                Some(i) => i < self.pending@.len() && self.pending@[i as int].0 == cookie,
                None => forall|j: int| 0 <= j < self.pending@.len() ==> #[trigger] self.pending@[j].0 != cookie,
            },
    {
        let mut i: usize = 0;
        while i < self.pending.len()
            invariant
                i <= self.pending@.len(),
                forall|j: int| 0 <= j < i ==> #[trigger] self.pending@[j].0 != cookie,
            decreases self.pending.len() - i,
        {
            if self.pending[i].0 == cookie {
                return Some(i);
            }
            i = i + 1;
        }
        None
    }

    /// Record a moved-from event, stamped with the tracker's clock read
    /// now; cookie 0 is ignored. A pending move with the same cookie is
    /// replaced.
    pub fn record_moved_from(&mut self, cookie: u32, path: String, filename: Option<String>, is_dir: bool)
        requires
            old(self).wf(),
        ensures
            final(self).wf(),
            final(self).timeout() == old(self).timeout(),
            final(self).timeout_ns() == old(self).timeout_ns(),
            cookie != 0 ==> final(self).pending().dom().len() == old(self).pending().dom().len() + if old(self).pending().contains_key(cookie) {
                0nat
            } else {
                1nat
            },
            cookie == 0 ==> final(self).pending() == old(self).pending(),
            cookie != 0 ==> {
                &&& final(self).pending().contains_key(cookie)
                &&& final(self).pending()[cookie].path == path
                &&& final(self).pending()[cookie].filename == filename
                &&& final(self).pending()[cookie].is_dir == is_dir
                &&& final(self).pending().remove(cookie) == old(self).pending().remove(cookie)
            },
    {
        let now = self.now_ns();
        self.record_moved_from_at(cookie, path, filename, is_dir, now);
    }

    /// Record a moved-from event stamped `now`; cookie 0 is ignored. A
    /// pending move with the same cookie is replaced.
    pub fn record_moved_from_at(&mut self, cookie: u32, path: String, filename: Option<String>, is_dir: bool, now: u64)
        requires
            old(self).wf(),
        ensures
            final(self).wf(),
            final(self).timeout() == old(self).timeout(),
            final(self).timeout_ns() == old(self).timeout_ns(),
            cookie != 0 ==> final(self).pending()[cookie].timestamp == now,
            cookie != 0 ==> final(self).pending().dom().len() == old(self).pending().dom().len() + if old(self).pending().contains_key(cookie) {
                0nat
            } else {
                1nat
            },
            cookie == 0 ==> final(self).pending() == old(self).pending(),
            cookie != 0 ==> {
                &&& final(self).pending().contains_key(cookie)
                &&& final(self).pending()[cookie].path == path
                &&& final(self).pending()[cookie].filename == filename
                &&& final(self).pending()[cookie].is_dir == is_dir
                &&& final(self).pending().remove(cookie) == old(self).pending().remove(cookie)
            },
    {
        if cookie == 0 {
            return;
        }
        let ghost s0 = self.pending@;
        match self.position_of(cookie) {
            Some(i) => {
                proof {
                    lemma_assoc_remove(s0, i as int);
                }
                self.pending.remove(i);
                proof {
                    assert(self.pending@ =~= s0.remove(i as int));
                    assert forall|j: int| 0 <= j < self.pending@.len() implies #[trigger] self.pending@[j].0 != 0 by {
                        let j2 = if j < i { j } else { j + 1 };
                        assert(self.pending@[j] == s0[j2]);
                    }
                }
            },
            None => {
                proof {
                    lemma_assoc_contains(s0, cookie);
                    assert(assoc_map(s0).remove(cookie) =~= assoc_map(s0));
                }
            },
        }
        let ghost s1 = self.pending@;
        proof {
            assert(assoc_map(s1) == assoc_map(s0).remove(cookie));
            assert(!assoc_map(s1).contains_key(cookie));
        }
        let pm = PendingMove { path, filename, is_dir, timestamp: now };
        proof {
            lemma_assoc_push(s1, cookie, pm);
        }
        self.pending.push((cookie, pm));
        proof {
            crate::assoc::lemma_assoc_len(s0);
            crate::assoc::lemma_assoc_len(s1);
            crate::assoc::lemma_assoc_len(self.pending@);
            assert(self.pending@ == s1.push((cookie, pm)));
            assert(assoc_map(self.pending@).remove(cookie) =~= assoc_map(s0).remove(cookie));
        }
    }

    /// Take the pending move with the cookie of a moved-to event, if there
    /// is one; cookie 0 matches nothing.
    pub fn match_moved_to(&mut self, cookie: u32) -> (r: Option<PendingMove>)
        requires
            old(self).wf(),
        ensures
            final(self).wf(),
            cookie == 0 ==> r is None && final(self).pending() == old(self).pending(),
            cookie != 0 ==> r == (if old(self).pending().contains_key(cookie) {
                Some(old(self).pending()[cookie])
            } else {
                None::<PendingMove>
            }),
            cookie != 0 ==> final(self).pending() == old(self).pending().remove(cookie),
            final(self).pending().dom().len() == old(self).pending().dom().len() - if r is Some {
                1int
            } else {
                0int
            },
    {
        if cookie == 0 {
            return None;
        }
        let ghost s0 = self.pending@;
        match self.position_of(cookie) {
            Some(i) => {
                proof {
                    lemma_assoc_remove(s0, i as int);
                    lemma_assoc_index(s0, i as int);
                }
                let (_, pm) = self.pending.remove(i);
                proof {
                    crate::assoc::lemma_assoc_len(s0);
                    crate::assoc::lemma_assoc_len(self.pending@);
                    assert(self.pending@ =~= s0.remove(i as int));
                    assert forall|j: int| 0 <= j < self.pending@.len() implies #[trigger] self.pending@[j].0 != 0 by {
                        let j2 = if j < i { j } else { j + 1 };
                        assert(self.pending@[j] == s0[j2]);
                    }
                }
                Some(pm)
            },
            None => {
                proof {
                    lemma_assoc_contains(s0, cookie);
                    assert(assoc_map(s0).remove(cookie) =~= assoc_map(s0));
                }
                None
            },
        }
    }

    /// The cookies of the pending moves that, at `now` on the tracker's
    /// clock, have waited longer than the timeout, in the order they were
    /// recorded.
    pub fn expired_cookies_at(&self, now: u64) -> (r: Vec<u32>)
        ensures
            r@ == expired_of(self.entries(), now, self.timeout_ns()),
    {
        let mut out: Vec<u32> = Vec::new();
        let mut i: usize = 0;
        while i < self.pending.len()
            invariant
                i <= self.pending@.len(),
                out@ == expired_of(self.pending@.subrange(0, i as int), now, self.timeout_ns),
            decreases self.pending.len() - i,
        {
            let ghost s1 = self.pending@.subrange(0, i as int + 1);
            proof {
                assert(s1.drop_last() =~= self.pending@.subrange(0, i as int));
                assert(s1.last() == self.pending@[i as int]);
            }
            let ts = self.pending[i].1.timestamp;
            if now > ts && now - ts > self.timeout_ns {
                out.push(self.pending[i].0);
            }
            i = i + 1;
        }
        assert(self.pending@.subrange(0, self.pending@.len() as int) =~= self.pending@);
        out
    }

    /// Remove and return the pending moves whose cookies are listed, in the
    /// order they were recorded; the others stay pending as they were.
    pub fn take_moves(&mut self, cookies: &Vec<u32>) -> (r: Vec<(u32, PendingMove)>)
        requires
            old(self).wf(),
        ensures
            final(self).wf(),
            final(self).timeout() == old(self).timeout(),
            final(self).timeout_ns() == old(self).timeout_ns(),
            keys_unique(r@),
            forall|i: int| 0 <= i < r@.len() ==> {
                &&& old(self).pending().contains_key(#[trigger] r@[i].0)
                &&& old(self).pending()[r@[i].0] == r@[i].1
                &&& cookies@.contains(r@[i].0)
            },
            forall|c: u32| #[trigger] old(self).pending().contains_key(c) && cookies@.contains(c) ==> exists|i: int| 0 <= i < r@.len() && r@[i].0 == c,
            forall|c: u32| #[trigger] final(self).pending().contains_key(c) <==> old(self).pending().contains_key(c) && !cookies@.contains(c),
            forall|c: u32| #[trigger] final(self).pending().contains_key(c) ==> final(self).pending()[c] == old(self).pending()[c],
    {
        let ghost s0 = self.pending@;
        let mut kept: Vec<(u32, PendingMove)> = Vec::new();
        let mut out: Vec<(u32, PendingMove)> = Vec::new();
        let mut v: Vec<(u32, PendingMove)> = Vec::new();
        std::mem::swap(&mut v, &mut self.pending);
        let mut i: usize = 0;
        let n = v.len();
        while i < n
            invariant
                v@ == s0,
                n == s0.len(),
                keys_unique(s0),
                forall|j: int| 0 <= j < s0.len() ==> #[trigger] s0[j].0 != 0,
                i <= n,
                kept@.len() + out@.len() == i,
                forall|j: int| 0 <= j < kept@.len() ==> exists|k: int| 0 <= k < i && s0[k] == #[trigger] kept@[j],
                forall|j: int| 0 <= j < out@.len() ==> exists|k: int| 0 <= k < i && s0[k] == #[trigger] out@[j],
                forall|k: int| 0 <= k < i ==> (exists|j: int| 0 <= j < kept@.len() && kept@[j] == #[trigger] s0[k]) || (exists|j: int| 0 <= j < out@.len() && out@[j] == s0[k]),
                forall|a: int, b: int| 0 <= a < kept@.len() && 0 <= b < out@.len() ==> kept@[a].0 != out@[b].0,
                keys_unique(kept@),
                keys_unique(out@),
                forall|j: int| 0 <= j < kept@.len() ==> !cookies@.contains(#[trigger] kept@[j].0),
                forall|j: int| 0 <= j < out@.len() ==> cookies@.contains(#[trigger] out@[j].0),
            decreases n - i,
        {
            let e = clone_entry(&v[i]);
            let expired = list_has(cookies, e.0);
            proof {
                assert forall|j: int| 0 <= j < kept@.len() implies kept@[j].0 != s0[i as int].0 by {
                    let k = choose|k: int| 0 <= k < i && s0[k] == kept@[j];
                }
                assert forall|j: int| 0 <= j < out@.len() implies out@[j].0 != s0[i as int].0 by {
                    let k = choose|k: int| 0 <= k < i && s0[k] == out@[j];
                }
            }
            let ghost kept0 = kept@;
            let ghost out0 = out@;
            if expired {
                out.push(e);
            } else {
                kept.push(e);
            }
            proof {
                assert forall|k: int| 0 <= k < i + 1 implies (exists|j: int| 0 <= j < kept@.len() && kept@[j] == #[trigger] s0[k]) || (exists|j: int| 0 <= j < out@.len() && out@[j] == s0[k]) by {
                    if k < i {
                        if exists|j: int| 0 <= j < kept0.len() && kept0[j] == s0[k] {
                            let j = choose|j: int| 0 <= j < kept0.len() && kept0[j] == s0[k];
                            assert(kept@[j] == s0[k]);
                        } else {
                            let j = choose|j: int| 0 <= j < out0.len() && out0[j] == s0[k];
                            assert(out@[j] == s0[k]);
                        }
                    } else if expired {
                        assert(out@[out0.len() as int] == s0[k]);
                    } else {
                        assert(kept@[kept0.len() as int] == s0[k]);
                    }
                }
            }
            i = i + 1;
        }
        self.pending = kept;
        proof {
            let k = self.pending@;
            assert forall|j: int| 0 <= j < k.len() implies #[trigger] k[j].0 != 0 by {
                let kk = choose|kk: int| 0 <= kk < n && s0[kk] == k[j];
            }
            assert forall|t: int| 0 <= t < out@.len() implies {
                &&& assoc_map(s0).contains_key(#[trigger] out@[t].0)
                &&& assoc_map(s0)[out@[t].0] == out@[t].1
                &&& !assoc_map(k).contains_key(out@[t].0)
            } by {
                let kk = choose|kk: int| 0 <= kk < n && s0[kk] == out@[t];
                lemma_assoc_index(s0, kk);
                lemma_assoc_contains(k, out@[t].0);
                if assoc_map(k).contains_key(out@[t].0) {
                    let j = choose|j: int| 0 <= j < k.len() && k[j].0 == out@[t].0;
                }
            }
            assert forall|c: u32| #[trigger] assoc_map(k).contains_key(c) implies assoc_map(s0).contains_key(c) && assoc_map(k)[c] == assoc_map(s0)[c] by {
                lemma_assoc_contains(k, c);
                let j = choose|j: int| 0 <= j < k.len() && k[j].0 == c;
                let kk = choose|kk: int| 0 <= kk < n && s0[kk] == k[j];
                lemma_assoc_index(s0, kk);
                lemma_assoc_index(k, j);
            }
            assert forall|c: u32| #[trigger] assoc_map(s0).contains_key(c) implies assoc_map(k).contains_key(c) || exists|t: int| 0 <= t < out@.len() && out@[t].0 == c by {
                lemma_assoc_contains(s0, c);
                let kk = choose|kk: int| 0 <= kk < s0.len() && s0[kk].0 == c;
                if exists|j: int| 0 <= j < k.len() && k[j] == s0[kk] {
                    let j = choose|j: int| 0 <= j < k.len() && k[j] == s0[kk];
                    lemma_assoc_contains(k, c);
                } else {
                    let t = choose|t: int| 0 <= t < out@.len() && out@[t] == s0[kk];
                }
            }
            assert forall|c: u32| #[trigger] assoc_map(k).contains_key(c) implies !cookies@.contains(c) by {
                lemma_assoc_contains(k, c);
                let j = choose|j: int| 0 <= j < k.len() && k[j].0 == c;
            }
            assert forall|c: u32| #[trigger] assoc_map(s0).contains_key(c) && !cookies@.contains(c) implies assoc_map(k).contains_key(c) by {
                if !assoc_map(k).contains_key(c) {
                    let t = choose|t: int| 0 <= t < out@.len() && out@[t].0 == c;
                }
            }
            assert forall|c: u32| #[trigger] assoc_map(s0).contains_key(c) && cookies@.contains(c) implies exists|t: int| 0 <= t < out@.len() && out@[t].0 == c by {
                if assoc_map(k).contains_key(c) {
                    assert(!cookies@.contains(c));
                }
            }
        }
        out
    }

    /// Remove and return the pending moves that, at `now` on the tracker's
    /// clock, have waited longer than the timeout; the rest stay pending.
    pub fn drain_expired_at(&mut self, now: u64) -> (r: Vec<(u32, PendingMove)>)
        requires
            old(self).wf(),
        ensures
            final(self).wf(),
            final(self).timeout() == old(self).timeout(),
            final(self).timeout_ns() == old(self).timeout_ns(),
            drained_at(*old(self), *final(self), r@, now),
    {
        let ghost s0 = self.pending@;
        let ghost t = self.timeout_ns;
        let cookies = self.expired_cookies_at(now);
        proof {
            assert forall|c: u32| cookies@.contains(c) <==> (assoc_map(s0).contains_key(c) && waited_too_long(assoc_map(s0)[c], now, t)) by {
                lemma_expired_of(s0, now, t, c);
            }
        }
        self.take_moves(&cookies)
    }

    /// Remove and return the pending moves whose wait, read on the
    /// tracker's clock now, has exceeded the timeout; the rest stay
    /// pending. The reading is the clock's, so the contract states the
    /// outcome for some reading; `drain_expired_at` states it for each.
    pub fn drain_expired(&mut self) -> (r: Vec<(u32, PendingMove)>)
        requires
            old(self).wf(),
        ensures
            final(self).wf(),
            final(self).timeout() == old(self).timeout(),
            final(self).timeout_ns() == old(self).timeout_ns(),
            exists|now: u64| #[trigger] drained_at(*old(self), *final(self), r@, now),
    {
        let now = self.now_ns();
        let r = self.drain_expired_at(now);
        assert(drained_at(*old(self), *self, r@, now));
        r
    }

    /// Number of pending moves.
    pub fn pending_count(&self) -> (r: usize)
        requires
            self.wf(),
        ensures
            r == self.pending().dom().len(),
    {
        proof {
            crate::assoc::lemma_assoc_len(self.pending@);
        }
        self.pending.len()
    }

    /// Forget all pending moves.
    pub fn clear(&mut self)
        ensures
            final(self).wf(),
            final(self).pending() == Map::<u32, PendingMove>::empty(),
    {
        self.pending = Vec::new();
    }
}

/// A moved-from event recorded with a non-zero cookie is handed back, with
/// its path, name and kind, by the first moved-to event with that cookie,
/// and is no longer pending afterwards.
pub proof fn law_rename_pairing(
    before: Map<u32, PendingMove>,
    recorded: Map<u32, PendingMove>,
    matched: Option<PendingMove>,
    after: Map<u32, PendingMove>,
    cookie: u32,
    path: String,
    filename: Option<String>,
    is_dir: bool,
)
    requires
        cookie != 0,
        recorded.contains_key(cookie),
        recorded[cookie].path == path,
        recorded[cookie].filename == filename,
        recorded[cookie].is_dir == is_dir,
        recorded.remove(cookie) == before.remove(cookie),
        matched == (if recorded.contains_key(cookie) {
            Some(recorded[cookie])
        } else {
            None::<PendingMove>
        }),
        after == recorded.remove(cookie),
    ensures
        matched is Some,
        matched->0.path == path,
        matched->0.filename == filename,
        matched->0.is_dir == is_dir,
        !after.contains_key(cookie),
        after == before.remove(cookie),
{
}

impl PendingMove {
    /// A copy of the pending move.
    pub fn clone_move(&self) -> (r: Self)
        ensures
            r == *self,
    {
        PendingMove {
            path: self.path.clone(),
            filename: match &self.filename {
                Some(f) => Some(f.clone()),
                None => None,
            },
            is_dir: self.is_dir,
            timestamp: self.timestamp,
        }
    }
}

fn clone_entry(e: &(u32, PendingMove)) -> (r: (u32, PendingMove))
    ensures
        r == *e,
{
    (e.0, e.1.clone_move())
}


// ---------------------------------------------------------------------------
// Watcher configuration, state and errors
// ---------------------------------------------------------------------------

/// `errno` value of `ENOSPC`: the kernel's watch limit was reached.
pub const ENOSPC: i32 = 28;
/// `errno` value of `EINVAL`: the watch descriptor is not valid.
pub const EINVAL: i32 = 22;

/// What to watch.
#[derive(Debug)]
pub struct WatchConfig {
    /// Paths to watch.
    pub paths: Vec<String>,
    /// Event names (see `events_to_flags`).
    pub events: Vec<String>,
    /// Patterns to ignore.
    pub ignore_patterns: Vec<String>,
    /// Watch subdirectories too.
    pub recursive: bool,
    /// Depth limit of the recursion (none or 0: unlimited).
    pub max_depth: Option<u32>,
    /// Per path, parallel to `paths`: skip the path when it does not exist
    /// instead of watching its nearest existing ancestor.
    pub skip_if_missing: Vec<bool>,
}

/// The contents of a watch configuration.
pub struct ConfigView {
    pub paths: Seq<Seq<char>>,
    pub events: Seq<Seq<char>>,
    pub ignore_patterns: Seq<Seq<char>>,
    pub recursive: bool,
    pub max_depth: Option<u32>,
    pub skip_if_missing: Seq<bool>,
}

impl WatchConfig {
    /// The contents of the configuration.
    pub open spec fn view_of(&self) -> ConfigView {
        ConfigView {
            paths: strings_view(self.paths@),
            events: strings_view(self.events@),
            ignore_patterns: strings_view(self.ignore_patterns@),
            recursive: self.recursive,
            max_depth: self.max_depth,
            skip_if_missing: self.skip_if_missing@,
        }
    }

    /// A copy of the configuration.
    pub fn duplicate(&self) -> (r: Self)
        ensures
            r.view_of() == self.view_of(),
    {
        let mut skip: Vec<bool> = Vec::new();
        let mut i: usize = 0;
        while i < self.skip_if_missing.len()
            invariant
                i <= self.skip_if_missing@.len(),
                skip@ == self.skip_if_missing@.subrange(0, i as int),
            decreases self.skip_if_missing.len() - i,
        {
            skip.push(self.skip_if_missing[i]);
            i = i + 1;
        }
        assert(skip@ =~= self.skip_if_missing@);
        WatchConfig {
            paths: clone_strings(&self.paths),
            events: clone_strings(&self.events),
            ignore_patterns: clone_strings(&self.ignore_patterns),
            recursive: self.recursive,
            max_depth: self.max_depth,
            skip_if_missing: skip,
        }
    }
}

/// A copy of a list of strings.
pub fn clone_strings(v: &Vec<String>) -> (r: Vec<String>)
    ensures
        strings_view(r@) == strings_view(v@),
{
    let mut out: Vec<String> = Vec::new();
    let mut i: usize = 0;
    while i < v.len()
        invariant
            i <= v@.len(),
            out@.len() == i,
            forall|j: int| 0 <= j < i ==> #[trigger] out@[j]@ == v@[j]@,
        decreases v.len() - i,
    {
        out.push(v[i].clone());
        i = i + 1;
    }
    assert(strings_view(out@) =~= strings_view(v@));
    out
}

/// Watcher state, for pause and resume.
#[derive(Debug, Clone, Copy, PartialEq, Eq, Structural)]
pub enum WatchState {
    /// Monitoring.
    Running,
    /// Watches dropped, configuration kept.
    Paused,
    /// Not monitoring.
    Stopped,
}

/// Errors of the watcher.
#[derive(Debug)]
pub enum NotifyError {
    /// An inotify system call failed with this `errno`.
    Inotify(i32),
    /// An I/O operation failed.
    Io(String),
    /// The path does not exist or is not accessible.
    PathNotFound(String),
    /// The watcher's own limit of watches is reached.
    MaxWatchesExceeded { current: usize, limit: usize },
    /// The kernel's watch limit (`max_user_watches`) is reached.
    KernelWatchLimitReached,
    /// The kernel's event queue overflowed.
    QueueOverflow,
    /// The watch descriptor is not valid.
    InvalidWatchDescriptor(i32),
    /// The event channel closed.
    ChannelClosed,
}

/// The text `nix` gives for an `errno` value: its symbolic name and its
/// description.
pub uninterp spec fn errno_display(code: i32) -> Seq<char>;

/// `Errno::from_raw(code)` formatted with `Display` (`nix`): the symbolic
/// name, a colon and the description of the error.
#[verifier::external_body]
pub(crate) fn errno_string(code: i32) -> (r: String)
    ensures
        r@ == errno_display(code),
{
    format!("{}", nix::errno::Errno::from_raw(code))
}

/// The message of a watcher error.
pub open spec fn notify_error_text(e: NotifyError) -> Seq<char> {
    match e {
        NotifyError::Inotify(code) => "inotify error: "@ + errno_display(code),
        NotifyError::Io(m) => "I/O error: "@ + m@,
        NotifyError::PathNotFound(p) => "path not found: "@ + p@,
        NotifyError::MaxWatchesExceeded { current, limit } => "max watches exceeded (limit: "@ + decimal(limit as nat)
            + ", current: "@ + decimal(current as nat) + ")"@,
        NotifyError::KernelWatchLimitReached => "kernel watch limit reached (ENOSPC) - increase max_user_watches"@,
        NotifyError::QueueOverflow => "event queue overflow - events may have been lost"@,
        NotifyError::InvalidWatchDescriptor(wd) => "invalid watch descriptor: WatchDescriptor { wd: "@ + int_decimal(wd) + " }"@,
        NotifyError::ChannelClosed => "event channel closed"@,
    }
}

impl NotifyError {
    /// The error's message.
    pub fn message(&self) -> (r: String)
        ensures
            r@ == notify_error_text(*self),
    {
        let mut v: Vec<char> = Vec::new();
        match self {
            NotifyError::Inotify(code) => {
                push_str(&mut v, "inotify error: ");
                let t = errno_string(*code);
                push_str(&mut v, t.as_str());
            },
            NotifyError::Io(m) => {
                push_str(&mut v, "I/O error: ");
                push_str(&mut v, m.as_str());
            },
            NotifyError::PathNotFound(p) => {
                push_str(&mut v, "path not found: ");
                push_str(&mut v, p.as_str());
            },
            NotifyError::MaxWatchesExceeded { current, limit } => {
                push_str(&mut v, "max watches exceeded (limit: ");
                push_decimal(&mut v, *limit as u64);
                push_str(&mut v, ", current: ");
                push_decimal(&mut v, *current as u64);
                push_str(&mut v, ")");
            },
            NotifyError::KernelWatchLimitReached => {
                push_str(&mut v, "kernel watch limit reached (ENOSPC) - increase max_user_watches");
            },
            NotifyError::QueueOverflow => {
                push_str(&mut v, "event queue overflow - events may have been lost");
            },
            NotifyError::InvalidWatchDescriptor(wd) => {
                push_str(&mut v, "invalid watch descriptor: WatchDescriptor { wd: ");
                push_int(&mut v, *wd);
                push_str(&mut v, " }");
            },
            NotifyError::ChannelClosed => {
                push_str(&mut v, "event channel closed");
            },
        }
        proof {
            assert(v@ =~= notify_error_text(*self));
        }
        string_from_chars(&v)
    }
}


// ---------------------------------------------------------------------------
// Watch tables
// ---------------------------------------------------------------------------

/// Whether a recursive walk watches the subdirectories found at
/// `current_depth` below its root: always without a limit (0), else while
/// above the limit.
pub fn descend_allowed(max_depth: u32, current_depth: u32) -> (r: bool)
    ensures
        r == (max_depth == 0 || current_depth < max_depth),
{
    !(max_depth > 0 && current_depth >= max_depth)
}

/// Whether a failure to watch a subdirectory ends a recursive walk: a
/// watch limit (the watcher's or the kernel's) does; any other failure
/// skips that subdirectory.
pub fn stops_recursion(e: &NotifyError) -> (r: bool)
    ensures
        r == (*e is KernelWatchLimitReached || *e is MaxWatchesExceeded),
{
    match e {
        NotifyError::KernelWatchLimitReached => true,
        NotifyError::MaxWatchesExceeded { .. } => true,
        _ => false,
    }
}

/// The watch-descriptor table by contents.
pub open spec fn wd_entries(s: Seq<(i32, String)>) -> Seq<(i32, Seq<char>)> {
    s.map_values(|e: (i32, String)| (e.0, e.1@))
}

/// The path table by contents.
pub open spec fn path_entries(s: Seq<(String, i32)>) -> Seq<(Seq<char>, i32)> {
    s.map_values(|e: (String, i32)| (e.0@, e.1))
}

/// The proxy table by contents.
pub open spec fn proxy_entries(s: Seq<(i32, Vec<ProxyTarget>)>) -> Seq<(i32, Seq<ProxyTarget>)> {
    s.map_values(|e: (i32, Vec<ProxyTarget>)| (e.0, e.1@))
}

fn wd_position(v: &Vec<(i32, String)>, wd: i32) -> (r: Option<usize>)
    ensures
        match r {
            Some(i) => i < v@.len() && v@[i as int].0 == wd,
            None => forall|j: int| 0 <= j < v@.len() ==> #[trigger] v@[j].0 != wd,
        },
{
    let mut i: usize = 0;
    while i < v.len()
        invariant
            i <= v@.len(),
            forall|j: int| 0 <= j < i ==> #[trigger] v@[j].0 != wd,
        decreases v.len() - i,
    {
        if v[i].0 == wd {
            return Some(i);
        }
        i = i + 1;
    }
    None
}

fn path_position(v: &Vec<(String, i32)>, p: &str) -> (r: Option<usize>)
    ensures
        match r {
            Some(i) => i < v@.len() && v@[i as int].0@ == p@,
            None => forall|j: int| 0 <= j < v@.len() ==> #[trigger] v@[j].0@ != p@,
        },
{
    let mut i: usize = 0;
    while i < v.len()
        invariant
            i <= v@.len(),
            forall|j: int| 0 <= j < i ==> #[trigger] v@[j].0@ != p@,
        decreases v.len() - i,
    {
        if str_eq(v[i].0.as_str(), p) {
            return Some(i);
        }
        i = i + 1;
    }
    None
}

fn proxy_position(v: &Vec<(i32, Vec<ProxyTarget>)>, wd: i32) -> (r: Option<usize>)
    ensures
        match r {
            Some(i) => i < v@.len() && v@[i as int].0 == wd,
            None => forall|j: int| 0 <= j < v@.len() ==> #[trigger] v@[j].0 != wd,
        },
{
    let mut i: usize = 0;
    while i < v.len()
        invariant
            i <= v@.len(),
            forall|j: int| 0 <= j < i ==> #[trigger] v@[j].0 != wd,
        decreases v.len() - i,
    {
        if v[i].0 == wd {
            return Some(i);
        }
        i = i + 1;
    }
    None
}

proof fn lemma_wd_absent(s: Seq<(i32, String)>, wd: i32)
    requires
        forall|j: int| 0 <= j < s.len() ==> #[trigger] s[j].0 != wd,
    ensures
        !assoc_map(wd_entries(s)).contains_key(wd),
{
    lemma_assoc_contains(wd_entries(s), wd);
    if assoc_map(wd_entries(s)).contains_key(wd) {
        let j = choose|j: int| 0 <= j < wd_entries(s).len() && wd_entries(s)[j].0 == wd;
        assert(s[j].0 == wd);
    }
}

proof fn lemma_path_absent(s: Seq<(String, i32)>, p: Seq<char>)
    requires
        forall|j: int| 0 <= j < s.len() ==> #[trigger] s[j].0@ != p,
    ensures
        !assoc_map(path_entries(s)).contains_key(p),
{
    lemma_assoc_contains(path_entries(s), p);
    if assoc_map(path_entries(s)).contains_key(p) {
        let j = choose|j: int| 0 <= j < path_entries(s).len() && path_entries(s)[j].0 == p;
        assert(s[j].0@ == p);
    }
}

proof fn lemma_proxy_absent(s: Seq<(i32, Vec<ProxyTarget>)>, wd: i32)
    requires
        forall|j: int| 0 <= j < s.len() ==> #[trigger] s[j].0 != wd,
    ensures
        !assoc_map(proxy_entries(s)).contains_key(wd),
{
    lemma_assoc_contains(proxy_entries(s), wd);
    if assoc_map(proxy_entries(s)).contains_key(wd) {
        let j = choose|j: int| 0 <= j < proxy_entries(s).len() && proxy_entries(s)[j].0 == wd;
        assert(s[j].0 == wd);
    }
}

proof fn lemma_values_listed(s: Seq<(i32, String)>, out: Seq<String>)
    requires
        keys_unique(wd_entries(s)),
        out.len() == s.len(),
        forall|j: int| 0 <= j < s.len() ==> #[trigger] out[j]@ == s[j].1@,
    ensures
        out.len() == assoc_map(wd_entries(s)).dom().len(),
        forall|i: int| 0 <= i < out.len() ==> assoc_map(wd_entries(s)).values().contains(#[trigger] out[i]@),
        forall|wd: i32| #[trigger] assoc_map(wd_entries(s)).contains_key(wd) ==> strings_view(out).contains(assoc_map(wd_entries(s))[wd]),
{
    let m = assoc_map(wd_entries(s));
    crate::assoc::lemma_assoc_len(wd_entries(s));
    assert forall|i: int| 0 <= i < out.len() implies m.values().contains(#[trigger] out[i]@) by {
        lemma_assoc_index(wd_entries(s), i);
        assert(wd_entries(s)[i] == (s[i].0, s[i].1@));
        assert(m.contains_key(s[i].0) && m[s[i].0] == out[i]@);
    }
    assert forall|wd: i32| #[trigger] m.contains_key(wd) implies strings_view(out).contains(m[wd]) by {
        lemma_assoc_contains(wd_entries(s), wd);
        let j = choose|j: int| 0 <= j < wd_entries(s).len() && wd_entries(s)[j].0 == wd;
        lemma_assoc_index(wd_entries(s), j);
        assert(strings_view(out)[j] == m[wd]);
    }
}

fn wd_insert(v: &mut Vec<(i32, String)>, wd: i32, p: String)
    requires
        keys_unique(wd_entries(old(v)@)),
    ensures
        keys_unique(wd_entries(final(v)@)),
        assoc_map(wd_entries(final(v)@)) == assoc_map(wd_entries(old(v)@)).insert(wd, p@),
{
    let ghost s0 = v@;
    match wd_position(v, wd) {
        Some(i) => {
            proof {
                lemma_assoc_update(wd_entries(s0), i as int, p@);
            }
            v.set(i, (wd, p));
            assert(wd_entries(v@) =~= wd_entries(s0).update(i as int, (wd_entries(s0)[i as int].0, p@)));
        },
        None => {
            proof {
                lemma_wd_absent(s0, wd);
                lemma_assoc_push(wd_entries(s0), wd, p@);
            }
            v.push((wd, p));
            assert(wd_entries(v@) =~= wd_entries(s0).push((wd, p@)));
        },
    }
}

fn wd_remove(v: &mut Vec<(i32, String)>, wd: i32) -> (r: Option<String>)
    requires
        keys_unique(wd_entries(old(v)@)),
    ensures
        keys_unique(wd_entries(final(v)@)),
        assoc_map(wd_entries(final(v)@)) == assoc_map(wd_entries(old(v)@)).remove(wd),
        match r {
            Some(p) => assoc_map(wd_entries(old(v)@)).contains_key(wd) && assoc_map(wd_entries(old(v)@))[wd] == p@,
            None => !assoc_map(wd_entries(old(v)@)).contains_key(wd),
        },
{
    let ghost s0 = v@;
    match wd_position(v, wd) {
        Some(i) => {
            proof {
                lemma_assoc_remove(wd_entries(s0), i as int);
                lemma_assoc_index(wd_entries(s0), i as int);
            }
            let (_, p) = v.remove(i);
            assert(wd_entries(v@) =~= wd_entries(s0).remove(i as int));
            Some(p)
        },
        None => {
            proof {
                lemma_wd_absent(s0, wd);
                assert(assoc_map(wd_entries(s0)).remove(wd) =~= assoc_map(wd_entries(s0)));
            }
            None
        },
    }
}

fn path_insert(v: &mut Vec<(String, i32)>, p: String, wd: i32)
    requires
        keys_unique(path_entries(old(v)@)),
    ensures
        keys_unique(path_entries(final(v)@)),
        assoc_map(path_entries(final(v)@)) == assoc_map(path_entries(old(v)@)).insert(p@, wd),
{
    let ghost s0 = v@;
    match path_position(v, p.as_str()) {
        Some(i) => {
            proof {
                lemma_assoc_update(path_entries(s0), i as int, wd);
            }
            v.set(i, (p, wd));
            assert(path_entries(v@) =~= path_entries(s0).update(i as int, (path_entries(s0)[i as int].0, wd)));
        },
        None => {
            proof {
                lemma_path_absent(s0, p@);
                lemma_assoc_push(path_entries(s0), p@, wd);
            }
            let ghost pv = p@;
            v.push((p, wd));
            assert(path_entries(v@) =~= path_entries(s0).push((pv, wd)));
        },
    }
}

fn path_remove(v: &mut Vec<(String, i32)>, p: &str) -> (r: Option<i32>)
    requires
        keys_unique(path_entries(old(v)@)),
    ensures
        keys_unique(path_entries(final(v)@)),
        assoc_map(path_entries(final(v)@)) == assoc_map(path_entries(old(v)@)).remove(p@),
        match r {
            Some(wd) => assoc_map(path_entries(old(v)@)).contains_key(p@) && assoc_map(path_entries(old(v)@))[p@] == wd,
            None => !assoc_map(path_entries(old(v)@)).contains_key(p@),
        },
{
    let ghost s0 = v@;
    match path_position(v, p) {
        Some(i) => {
            proof {
                lemma_assoc_remove(path_entries(s0), i as int);
                lemma_assoc_index(path_entries(s0), i as int);
            }
            let (_, wd) = v.remove(i);
            assert(path_entries(v@) =~= path_entries(s0).remove(i as int));
            Some(wd)
        },
        None => {
            proof {
                lemma_path_absent(s0, p@);
                assert(assoc_map(path_entries(s0)).remove(p@) =~= assoc_map(path_entries(s0)));
            }
            None
        },
    }
}

/// A path that does not exist yet, watched through a watch on one of its
/// existing ancestors until the missing component appears.
#[derive(Debug)]
pub struct ProxyTarget {
    /// The configured path.
    pub configured_path: String,
    /// The name under the watched ancestor whose appearance is awaited.
    pub immediate_child: String,
    /// The watch mask for the configured path once it exists.
    pub flags: u32,
}

impl ProxyTarget {
    /// A copy of the target.
    pub fn duplicate(&self) -> (r: Self)
        ensures
            r == *self,
    {
        ProxyTarget {
            configured_path: self.configured_path.clone(),
            immediate_child: self.immediate_child.clone(),
            flags: self.flags,
        }
    }
}


// ---------------------------------------------------------------------------
// Watcher
// ---------------------------------------------------------------------------

/// The bookkeeping of an inotify watcher: which watch descriptor stands for
/// which path, the renames waiting for their second half, the proxy watches
/// of paths that do not exist yet, the state, the configuration kept for
/// resume, and the metrics.
///
/// The inotify instance and the filesystem belong to the caller, which
/// reports the outcome of each system call to the matching method.
pub struct Watcher {
    watches: Vec<(i32, String)>,
    path_to_wd: Vec<(String, i32)>,
    move_tracker: MovePairTracker,
    running: bool,
    state: WatchState,
    max_watches: usize,
    metrics: Option<WatcherMetrics>,
    config: Option<WatchConfig>,
    proxy_watches: Vec<(i32, Vec<ProxyTarget>)>,
}

/// Metrics `new` follow from metrics `old` by `step` of the counters; the
/// name and the per-type counts stay. Without metrics nothing is counted.
pub open spec fn metrics_step(
    old: Option<WatcherMetrics>,
    new: Option<WatcherMetrics>,
    step: spec_fn(WatcherCounts) -> WatcherCounts,
) -> bool {
    match old {
        None => new is None,
        Some(m) => {
            &&& new is Some
            &&& new->0.watcher() == m.watcher()
            &&& new->0.by_type() == m.by_type()
            &&& new->0.counts() == step(m.counts())
        },
    }
}

/// Counters after a watch was added.
pub open spec fn added_step(c: WatcherCounts) -> WatcherCounts {
    WatcherCounts { watches_active: wrap_inc(c.watches_active), watches_created: wrap_inc(c.watches_created), ..c }
}

/// Counters after a watch was removed.
pub open spec fn removed_step(c: WatcherCounts) -> WatcherCounts {
    WatcherCounts { watches_active: wrap_dec(c.watches_active), watches_removed: wrap_inc(c.watches_removed), ..c }
}

/// Counters after a rename pair was matched.
pub open spec fn matched_step(c: WatcherCounts) -> WatcherCounts {
    WatcherCounts { move_pairs_matched: wrap_inc(c.move_pairs_matched), ..c }
}

/// Counters after a rename half timed out.
pub open spec fn timeout_step(c: WatcherCounts) -> WatcherCounts {
    WatcherCounts { move_pairs_timeout: wrap_inc(c.move_pairs_timeout), ..c }
}

/// Counters after the active watch count was set.
pub open spec fn active_step(c: WatcherCounts, n: u64) -> WatcherCounts {
    WatcherCounts { watches_active: n, ..c }
}

/// The counters unchanged.
pub open spec fn same_step(c: WatcherCounts) -> WatcherCounts {
    c
}

impl Watcher {
    /// Watch descriptor to path.
    pub closed spec fn watches(&self) -> Map<i32, Seq<char>> {
        assoc_map(wd_entries(self.watches@))
    }

    /// Path to watch descriptor.
    pub closed spec fn path_index(&self) -> Map<Seq<char>, i32> {
        assoc_map(path_entries(self.path_to_wd@))
    }

    /// Proxy targets by the watch descriptor of the watched ancestor.
    pub closed spec fn proxies(&self) -> Map<i32, Seq<ProxyTarget>> {
        assoc_map(proxy_entries(self.proxy_watches@))
    }

    /// Renames waiting for their second half, by cookie.
    pub closed spec fn pending(&self) -> Map<u32, PendingMove> {
        self.move_tracker.pending()
    }

    /// How long, in nanoseconds, a held rename half waits for its pair.
    pub closed spec fn move_timeout_ns(&self) -> u64 {
        self.move_tracker.timeout_ns()
    }

    /// The running flag.
    pub closed spec fn is_running_spec(&self) -> bool {
        self.running
    }

    /// The state.
    pub closed spec fn state_spec(&self) -> WatchState {
        self.state
    }

    /// The watcher's own limit of watches.
    pub closed spec fn limit(&self) -> usize {
        self.max_watches
    }

    /// The metrics, when the watcher has them.
    pub closed spec fn metrics_spec(&self) -> Option<WatcherMetrics> {
        self.metrics
    }

    /// The configuration kept for resume.
    pub closed spec fn config_spec(&self) -> Option<ConfigView> {
        match self.config {
            Some(c) => Some(c.view_of()),
            None => None,
        }
    }

    /// Number of entries of the watch-descriptor table.
    pub closed spec fn watch_len(&self) -> nat {
        self.watches@.len()
    }

    /// The tables are keyed uniquely.
    pub closed spec fn wf(&self) -> bool {
        &&& keys_unique(wd_entries(self.watches@))
        &&& keys_unique(path_entries(self.path_to_wd@))
        &&& keys_unique(proxy_entries(self.proxy_watches@))
        &&& self.move_tracker.wf()
    }

    /// Everything but the metrics is unchanged.
    pub open spec fn same_tables(&self, other: &Watcher) -> bool {
        &&& self.watches() == other.watches()
        &&& self.path_index() == other.path_index()
        &&& self.proxies() == other.proxies()
        &&& self.pending() == other.pending()
        &&& self.is_running_spec() == other.is_running_spec()
        &&& self.state_spec() == other.state_spec()
        &&& self.limit() == other.limit()
        &&& self.config_spec() == other.config_spec()
    }

    /// A watcher with no watches, stopped, allowing `max_watches` watches.
    pub fn new(max_watches: usize) -> (r: Self)
        ensures
            r.wf(),
            r.watches() == Map::<i32, Seq<char>>::empty(),
            r.path_index() == Map::<Seq<char>, i32>::empty(),
            r.proxies() == Map::<i32, Seq<ProxyTarget>>::empty(),
            r.pending() == Map::<u32, PendingMove>::empty(),
            !r.is_running_spec(),
            r.state_spec() == WatchState::Stopped,
            r.limit() == max_watches,
            r.metrics_spec() is None,
            r.config_spec() is None,
    {
        let r = Watcher {
            watches: Vec::new(),
            path_to_wd: Vec::new(),
            move_tracker: MovePairTracker::new(duration_from_millis(MOVE_PAIR_TIMEOUT_MS)),
            running: false,
            state: WatchState::Stopped,
            max_watches,
            metrics: None,
            config: None,
            proxy_watches: Vec::new(),
        };
        proof {
            crate::assoc::lemma_assoc_empty(wd_entries(r.watches@));
            crate::assoc::lemma_assoc_empty(path_entries(r.path_to_wd@));
            crate::assoc::lemma_assoc_empty(proxy_entries(r.proxy_watches@));
        }
        r
    }

    /// A watcher as `new` makes it, counting into `metrics`.
    pub fn with_metrics(max_watches: usize, metrics: WatcherMetrics) -> (r: Self)
        ensures
            r.wf(),
            r.watches() == Map::<i32, Seq<char>>::empty(),
            r.path_index() == Map::<Seq<char>, i32>::empty(),
            r.proxies() == Map::<i32, Seq<ProxyTarget>>::empty(),
            r.pending() == Map::<u32, PendingMove>::empty(),
            !r.is_running_spec(),
            r.state_spec() == WatchState::Stopped,
            r.limit() == max_watches,
            r.metrics_spec() == Some(metrics),
            r.config_spec() is None,
    {
        let mut w = Self::new(max_watches);
        w.metrics = Some(metrics);
        w
    }

    /// The metrics, when the watcher has them.
    pub fn metrics(&self) -> (r: Option<&WatcherMetrics>)
        ensures
            r == match self.metrics_spec() {
                Some(m) => Some(&m),
                None => None::<&WatcherMetrics>,
            },
    {
        match &self.metrics {
            Some(m) => Some(m),
            None => None,
        }
    }

    /// Whether another watch may be added: an error when the watcher's own
    /// limit is reached. Called before the watch is asked of the kernel.
    pub fn check_capacity(&self) -> (r: Result<(), NotifyError>)
        ensures
            self.watch_len() < self.limit() <==> r is Ok,
            r matches Err(e) ==> e == (NotifyError::MaxWatchesExceeded { current: self.watch_len() as usize, limit: self.limit() }),
    {
        if self.watches.len() >= self.max_watches {
            Err(NotifyError::MaxWatchesExceeded { current: self.watches.len(), limit: self.max_watches })
        } else {
            Ok(())
        }
    }

    fn count_added(&mut self)
        ensures
            final(self).same_tables(old(self)),
            final(self).wf() == old(self).wf(),
            final(self).watch_len() == old(self).watch_len(),
            metrics_step(old(self).metrics_spec(), final(self).metrics_spec(), |c: WatcherCounts| added_step(c)),
    {
        match &mut self.metrics {
            Some(m) => m.record_watch_added(),
            None => {},
        }
    }

    fn count_removed(&mut self)
        ensures
            final(self).same_tables(old(self)),
            final(self).wf() == old(self).wf(),
            final(self).watch_len() == old(self).watch_len(),
            metrics_step(old(self).metrics_spec(), final(self).metrics_spec(), |c: WatcherCounts| removed_step(c)),
    {
        match &mut self.metrics {
            Some(m) => m.record_watch_removed(),
            None => {},
        }
    }

    /// Record the outcome of asking the kernel for a watch on the path whose
    /// canonical form is `canonical`: the descriptor it gave, or the `errno`
    /// it failed with. A descriptor is entered in both tables and counted;
    /// `ENOSPC` reports the kernel's limit.
    pub fn add_watch(&mut self, outcome: Result<i32, i32>, canonical: String) -> (r: Result<i32, NotifyError>)
        requires
            old(self).wf(),
        ensures
            final(self).wf(),
            match outcome {
                Ok(wd) => {
                    &&& r == Ok::<i32, NotifyError>(wd)
                    &&& final(self).watches() == old(self).watches().insert(wd, canonical@)
                    &&& final(self).path_index() == old(self).path_index().insert(canonical@, wd)
                    &&& final(self).proxies() == old(self).proxies()
                    &&& final(self).pending() == old(self).pending()
                    &&& final(self).is_running_spec() == old(self).is_running_spec()
                    &&& final(self).state_spec() == old(self).state_spec()
                    &&& final(self).limit() == old(self).limit()
                    &&& final(self).config_spec() == old(self).config_spec()
                    &&& metrics_step(old(self).metrics_spec(), final(self).metrics_spec(), |c: WatcherCounts| added_step(c))
                },
                Err(code) => {
                    &&& r == Err::<i32, NotifyError>(if code == ENOSPC {
                        NotifyError::KernelWatchLimitReached
                    } else {
                        NotifyError::Inotify(code)
                    })
                    &&& final(self).same_tables(old(self))
                    &&& final(self).metrics_spec() == old(self).metrics_spec()
                },
            },
    {
        match outcome {
            Ok(wd) => {
                let copy = canonical.clone();
                wd_insert(&mut self.watches, wd, canonical);
                path_insert(&mut self.path_to_wd, copy, wd);
                self.count_added();
                Ok(wd)
            },
            Err(code) => {
                if code == ENOSPC {
                    Err(NotifyError::KernelWatchLimitReached)
                } else {
                    Err(NotifyError::Inotify(code))
                }
            },
        }
    }

    /// Forget the watch `wd` (the kernel reported it removed, `IN_IGNORED`):
    /// its path leaves both tables and the removal is counted. An unknown
    /// descriptor changes nothing.
    pub fn handle_watch_removed(&mut self, wd: i32)
        requires
            old(self).wf(),
        ensures
            final(self).wf(),
            final(self).proxies() == old(self).proxies(),
            final(self).pending() == old(self).pending(),
            final(self).is_running_spec() == old(self).is_running_spec(),
            final(self).state_spec() == old(self).state_spec(),
            final(self).limit() == old(self).limit(),
            final(self).config_spec() == old(self).config_spec(),
            old(self).watches().contains_key(wd) ==> {
                &&& final(self).watches() == old(self).watches().remove(wd)
                &&& final(self).path_index() == old(self).path_index().remove(old(self).watches()[wd])
                &&& metrics_step(old(self).metrics_spec(), final(self).metrics_spec(), |c: WatcherCounts| removed_step(c))
            },
            !old(self).watches().contains_key(wd) ==> {
                &&& final(self).watches() == old(self).watches()
                &&& final(self).path_index() == old(self).path_index()
                &&& final(self).metrics_spec() == old(self).metrics_spec()
            },
    {
        match wd_remove(&mut self.watches, wd) {
            Some(p) => {
                let _ = path_remove(&mut self.path_to_wd, p.as_str());
                self.count_removed();
            },
            None => {},
        }
    }

    /// Record the outcome of asking the kernel to remove the watch `wd`:
    /// `EINVAL` (already gone) counts as success, any other `errno` is an
    /// error and changes nothing; on success the watch is forgotten as by
    /// `handle_watch_removed`.
    pub fn remove_watch(&mut self, wd: i32, outcome: Result<(), i32>) -> (r: Result<(), NotifyError>)
        requires
            old(self).wf(),
        ensures
            final(self).wf(),
            match outcome {
                Err(code) if code != EINVAL => {
                    &&& r == Err::<(), NotifyError>(NotifyError::Inotify(code))
                    &&& final(self).same_tables(old(self))
                    &&& final(self).metrics_spec() == old(self).metrics_spec()
                },
                _ => {
                    &&& r is Ok
                    &&& final(self).proxies() == old(self).proxies()
                    &&& final(self).pending() == old(self).pending()
                    &&& final(self).state_spec() == old(self).state_spec()
                    &&& final(self).config_spec() == old(self).config_spec()
                    &&& final(self).watches() == old(self).watches().remove(wd)
                    &&& (old(self).watches().contains_key(wd) ==> {
                        &&& final(self).path_index() == old(self).path_index().remove(old(self).watches()[wd])
                        &&& metrics_step(old(self).metrics_spec(), final(self).metrics_spec(), |c: WatcherCounts| removed_step(c))
                    })
                    &&& (!old(self).watches().contains_key(wd) ==> {
                        &&& final(self).path_index() == old(self).path_index()
                        &&& final(self).metrics_spec() == old(self).metrics_spec()
                    })
                },
            },
    {
        match outcome {
            Err(code) => {
                if code != EINVAL {
                    return Err(NotifyError::Inotify(code));
                }
            },
            Ok(()) => {},
        }
        proof {
            if !old(self).watches().contains_key(wd) {
                assert(old(self).watches().remove(wd) =~= old(self).watches());
            }
        }
        self.handle_watch_removed(wd);
        Ok(())
    }

    /// Take the path whose canonical form is `canonical` out of the path
    /// table, giving its watch descriptor; the caller then removes that
    /// watch from the kernel and reports it to `remove_watch`.
    pub fn remove_watch_by_path(&mut self, canonical: &str) -> (r: Option<i32>)
        requires
            old(self).wf(),
        ensures
            final(self).wf(),
            r == (if old(self).path_index().contains_key(canonical@) {
                Some(old(self).path_index()[canonical@])
            } else {
                None::<i32>
            }),
            final(self).path_index() == old(self).path_index().remove(canonical@),
            final(self).watches() == old(self).watches(),
            final(self).proxies() == old(self).proxies(),
            final(self).pending() == old(self).pending(),
            final(self).state_spec() == old(self).state_spec(),
            final(self).config_spec() == old(self).config_spec(),
            final(self).metrics_spec() == old(self).metrics_spec(),
    {
        path_remove(&mut self.path_to_wd, canonical)
    }

    /// The path watched by `wd`.
    pub fn get_path(&self, wd: i32) -> (r: Option<&String>)
        requires
            self.wf(),
        ensures
            match r {
                Some(p) => self.watches().contains_key(wd) && self.watches()[wd] == p@,
                None => !self.watches().contains_key(wd),
            },
    {
        match wd_position(&self.watches, wd) {
            Some(i) => {
                proof {
                    lemma_assoc_index(wd_entries(self.watches@), i as int);
                }
                Some(&self.watches[i].1)
            },
            None => {
                proof {
                    lemma_wd_absent(self.watches@, wd);
                }
                None
            },
        }
    }

    /// The watch descriptor of the path whose canonical form is `canonical`.
    pub fn get_wd(&self, canonical: &str) -> (r: Option<i32>)
        requires
            self.wf(),
        ensures
            r == (if self.path_index().contains_key(canonical@) {
                Some(self.path_index()[canonical@])
            } else {
                None::<i32>
            }),
    {
        match path_position(&self.path_to_wd, canonical) {
            Some(i) => {
                proof {
                    lemma_assoc_index(path_entries(self.path_to_wd@), i as int);
                }
                Some(self.path_to_wd[i].1)
            },
            None => {
                proof {
                    lemma_path_absent(self.path_to_wd@, canonical@);
                }
                None
            },
        }
    }

    /// Whether the path whose canonical form is `canonical` is watched.
    pub fn is_watching(&self, canonical: &str) -> (r: bool)
        requires
            self.wf(),
        ensures
            r == self.path_index().contains_key(canonical@),
    {
        self.get_wd(canonical).is_some()
    }

    /// Number of watch descriptors.
    pub fn watch_count(&self) -> (r: usize)
        requires
            self.wf(),
        ensures
            r == self.watches().dom().len(),
            r == self.watch_len(),
    {
        proof {
            crate::assoc::lemma_assoc_len(wd_entries(self.watches@));
        }
        self.watches.len()
    }

    /// The current state.
    pub fn state(&self) -> (r: &WatchState)
        ensures
            *r == self.state_spec(),
    {
        &self.state
    }

    /// Whether the event loop should go on.
    pub fn is_running(&self) -> (r: bool)
        ensures
            r == self.is_running_spec(),
    {
        self.running
    }

    /// Ask the event loop to stop.
    pub fn stop(&mut self)
        ensures
            !final(self).is_running_spec(),
            final(self).watches() == old(self).watches(),
            final(self).path_index() == old(self).path_index(),
            final(self).proxies() == old(self).proxies(),
            final(self).pending() == old(self).pending(),
            final(self).state_spec() == old(self).state_spec(),
            final(self).limit() == old(self).limit(),
            final(self).config_spec() == old(self).config_spec(),
            final(self).metrics_spec() == old(self).metrics_spec(),
            final(self).wf() == old(self).wf(),
    {
        self.running = false;
    }

    /// The watched paths, one per watch descriptor.
    pub fn watched_paths(&self) -> (r: Vec<String>)
        requires
            self.wf(),
        ensures
            r@.len() == self.watches().dom().len(),
            forall|i: int| 0 <= i < r@.len() ==> self.watches().values().contains(#[trigger] r@[i]@),
            forall|wd: i32| #[trigger] self.watches().contains_key(wd) ==> strings_view(r@).contains(self.watches()[wd]),
    {
        let ghost s = self.watches@;
        let mut out: Vec<String> = Vec::new();
        let mut i: usize = 0;
        while i < self.watches.len()
            invariant
                s == self.watches@,
                keys_unique(wd_entries(s)),
                i <= s.len(),
                out@.len() == i,
                forall|j: int| 0 <= j < i ==> #[trigger] out@[j]@ == s[j].1@,
            decreases self.watches.len() - i,
        {
            out.push(self.watches[i].1.clone());
            i = i + 1;
        }
        proof {
            lemma_values_listed(s, out@);
        }
        out
    }

    /// The watch descriptors, in table order (those the kernel must drop
    /// before `pause`).
    pub fn watch_descriptors(&self) -> (r: Vec<i32>)
        requires
            self.wf(),
        ensures
            r@.len() == self.watches().dom().len(),
            forall|i: int| 0 <= i < r@.len() ==> #[trigger] self.watches().contains_key(r@[i]),
            forall|wd: i32| #[trigger] self.watches().contains_key(wd) ==> r@.contains(wd),
    {
        let ghost s = self.watches@;
        let mut out: Vec<i32> = Vec::new();
        let mut i: usize = 0;
        while i < self.watches.len()
            invariant
                s == self.watches@,
                keys_unique(wd_entries(s)),
                i <= s.len(),
                out@.len() == i,
                forall|j: int| 0 <= j < i ==> #[trigger] out@[j] == s[j].0,
            decreases self.watches.len() - i,
        {
            out.push(self.watches[i].0);
            i = i + 1;
        }
        proof {
            crate::assoc::lemma_assoc_len(wd_entries(s));
            assert forall|j: int| 0 <= j < out@.len() implies #[trigger] self.watches().contains_key(out@[j]) by {
                lemma_assoc_index(wd_entries(s), j);
            }
            assert forall|wd: i32| #[trigger] self.watches().contains_key(wd) implies out@.contains(wd) by {
                lemma_assoc_contains(wd_entries(s), wd);
                let j = choose|j: int| 0 <= j < wd_entries(s).len() && wd_entries(s)[j].0 == wd;
                assert(out@[j] == wd);
            }
        }
        out
    }

    /// The watches with their paths, in table order.
    pub fn watch_entries(&self) -> (r: Vec<(i32, String)>)
        requires
            self.wf(),
        ensures
            keys_unique(wd_entries(r@)),
            assoc_map(wd_entries(r@)) == self.watches(),
    {
        let ghost s = self.watches@;
        let mut out: Vec<(i32, String)> = Vec::new();
        let mut i: usize = 0;
        while i < self.watches.len()
            invariant
                s == self.watches@,
                i <= s.len(),
                out@.len() == i,
                forall|j: int| 0 <= j < i ==> #[trigger] out@[j].0 == s[j].0 && out@[j].1@ == s[j].1@,
            decreases self.watches.len() - i,
        {
            out.push((self.watches[i].0, self.watches[i].1.clone()));
            i = i + 1;
        }
        assert(wd_entries(out@) =~= wd_entries(s));
        out
    }

    /// Turn one inotify event on the watch `wd` into file events.
    ///
    /// An event on an unknown watch is dropped (`None`). A moved-from half
    /// is held for its moved-to half and gives nothing yet; a moved-to half
    /// whose cookie matches a held half gives both events, each naming the
    /// other's path, and counts the pair; every other event gives itself.
    pub fn process_event(&mut self, wd: i32, mask: u32, cookie: u32, name: Option<String>) -> (r: Option<Vec<FileEvent>>)
        requires
            old(self).wf(),
        ensures
            final(self).wf(),
            final(self).watches() == old(self).watches(),
            final(self).path_index() == old(self).path_index(),
            final(self).proxies() == old(self).proxies(),
            final(self).is_running_spec() == old(self).is_running_spec(),
            final(self).state_spec() == old(self).state_spec(),
            final(self).limit() == old(self).limit(),
            final(self).config_spec() == old(self).config_spec(),
            event_step(*old(self), wd, mask, cookie, opt_view(name), match r {
                Some(v) => Some(v@),
                None => None::<Seq<FileEvent>>,
            }, *final(self)),
    {
        let dir = match self.get_path(wd) {
            Some(p) => p.clone(),
            None => {
                return None;
            },
        };
        let full = match &name {
            Some(n) => join_path(dir.as_str(), n.as_str()),
            None => dir,
        };
        let t = mask_to_event_type(mask);
        let is_dir = mask & IN_ISDIR != 0;
        match t {
            EventType::MovedFrom => {
                self.move_tracker.record_moved_from(cookie, full, name, is_dir);
                None
            },
            EventType::MovedTo => {
                match self.move_tracker.match_moved_to(cookie) {
                    Some(pending) => {
                        match &mut self.metrics {
                            Some(m) => m.record_move_pair_matched(),
                            None => {},
                        }
                        let pending_path = pending.path.clone();
                        let from = FileEvent {
                            event_type: EventType::MovedFrom,
                            path: pending.path,
                            filename: pending.filename,
                            is_dir: pending.is_dir,
                            cookie,
                            move_peer: Some(full.clone()),
                        };
                        let to = FileEvent {
                            event_type: EventType::MovedTo,
                            path: full,
                            filename: name,
                            is_dir,
                            cookie,
                            move_peer: Some(pending_path),
                        };
                        Some(vec![from, to])
                    },
                    None => {
                        proof {
                            if cookie != 0 {
                                assert(old(self).pending().remove(cookie) =~= old(self).pending());
                            }
                        }
                        Some(vec![FileEvent { event_type: t, path: full, filename: name, is_dir, cookie, move_peer: None }])
                    },
                }
            },
            _ => Some(vec![FileEvent { event_type: t, path: full, filename: name, is_dir, cookie, move_peer: None }]),
        }
    }
}

/// What one inotify event on the watch `wd` does to a watcher `old`,
/// leaving `new` and giving `r`: nothing on an unknown watch; on a
/// moved-from half, the half is held under its cookie (none for cookie 0)
/// and nothing is given; on a moved-to half whose cookie matches a held
/// half, both events are given, each naming the other's path, the half is
/// released and the pair counted; any other event is given as it is.
pub open spec fn event_step(
    old: Watcher,
    wd: i32,
    mask: u32,
    cookie: u32,
    name: Option<Seq<char>>,
    r: Option<Seq<FileEvent>>,
    new: Watcher,
) -> bool {
    if !old.watches().contains_key(wd) {
        &&& r is None
        &&& new.pending() == old.pending()
        &&& new.metrics_spec() == old.metrics_spec()
    } else {
        let full = event_full_path(old.watches()[wd], name);
        let t = event_type_of_mask(mask);
        let is_dir = mask & IN_ISDIR != 0;
        let paired = cookie != 0 && old.pending().contains_key(cookie);
        &&& (t == EventType::MovedFrom ==> {
            &&& r is None
            &&& new.metrics_spec() == old.metrics_spec()
            &&& (cookie == 0 ==> new.pending() == old.pending())
            &&& (cookie != 0 ==> {
                &&& new.pending().contains_key(cookie)
                &&& new.pending()[cookie].path@ == full
                &&& opt_view(new.pending()[cookie].filename) == name
                &&& new.pending()[cookie].is_dir == is_dir
                &&& new.pending().remove(cookie) == old.pending().remove(cookie)
            })
        })
        &&& (t == EventType::MovedTo && paired ==> {
            let p = old.pending()[cookie];
            &&& r is Some
            &&& r->0.len() == 2
            &&& event_matches(r->0[0], EventType::MovedFrom, p.path@, opt_view(p.filename), p.is_dir, cookie, Some(full))
            &&& event_matches(r->0[1], EventType::MovedTo, full, name, is_dir, cookie, Some(p.path@))
            &&& new.pending() == old.pending().remove(cookie)
            &&& metrics_step(old.metrics_spec(), new.metrics_spec(), |c: WatcherCounts| matched_step(c))
        })
        &&& (t != EventType::MovedFrom && !(t == EventType::MovedTo && paired) ==> {
            &&& r is Some
            &&& r->0.len() == 1
            &&& event_matches(r->0[0], t, full, name, is_dir, cookie, None)
            &&& new.pending() == old.pending()
            &&& new.metrics_spec() == old.metrics_spec()
        })
    }
}

/// A file renamed within the watched tree is reported as one pair: the
/// moved-from half gives nothing, and the moved-to half with the same
/// (non-zero) cookie gives the moved-from event at the old path and the
/// moved-to event at the new path, each naming the other; no half stays
/// held.
pub proof fn law_rename_reported_as_pair(
    w0: Watcher,
    w1: Watcher,
    w2: Watcher,
    from_wd: i32,
    from_mask: u32,
    from_name: Option<Seq<char>>,
    to_wd: i32,
    to_mask: u32,
    to_name: Option<Seq<char>>,
    cookie: u32,
    r1: Option<Seq<FileEvent>>,
    r2: Option<Seq<FileEvent>>,
)
    requires
        cookie != 0,
        w0.watches().contains_key(from_wd),
        w0.watches().contains_key(to_wd),
        event_type_of_mask(from_mask) == EventType::MovedFrom,
        event_type_of_mask(to_mask) == EventType::MovedTo,
        event_step(w0, from_wd, from_mask, cookie, from_name, r1, w1),
        w1.watches() == w0.watches(),
        event_step(w1, to_wd, to_mask, cookie, to_name, r2, w2),
    ensures
        r1 is None,
        r2 is Some,
        r2->0.len() == 2,
        ({
            let old_path = event_full_path(w0.watches()[from_wd], from_name);
            let new_path = event_full_path(w0.watches()[to_wd], to_name);
            &&& event_matches(r2->0[0], EventType::MovedFrom, old_path, from_name, from_mask & IN_ISDIR != 0, cookie, Some(new_path))
            &&& event_matches(r2->0[1], EventType::MovedTo, new_path, to_name, to_mask & IN_ISDIR != 0, cookie, Some(old_path))
        }),
        !w2.pending().contains_key(cookie),
        w2.pending() == w0.pending().remove(cookie),
{
    assert(w2.pending() =~= w1.pending().remove(cookie));
    assert(w1.pending().remove(cookie) =~= w0.pending().remove(cookie));
}

/// Each inotify event bit, alone or with `IN_ISDIR`, is reported as the
/// event type named after it (inotify(7)): 0x1 access, 0x2 modify, 0x4
/// attrib, 0x8 close-write, 0x10 close-nowrite, 0x20 open, 0x40 moved-from,
/// 0x80 moved-to, 0x100 create, 0x200 delete, 0x400 delete-self, 0x800
/// move-self. No two event bits are reported as the same type.
pub proof fn law_single_bit_masks(isdir: u32)
    requires
        isdir == 0 || isdir == 0x4000_0000u32,
    ensures
        event_type_of_mask(0x1u32 | isdir) == EventType::Access,
        event_type_of_mask(0x2u32 | isdir) == EventType::Modify,
        event_type_of_mask(0x4u32 | isdir) == EventType::Attrib,
        event_type_of_mask(0x8u32 | isdir) == EventType::CloseWrite,
        event_type_of_mask(0x10u32 | isdir) == EventType::CloseNoWrite,
        event_type_of_mask(0x20u32 | isdir) == EventType::Open,
        event_type_of_mask(0x40u32 | isdir) == EventType::MovedFrom,
        event_type_of_mask(0x80u32 | isdir) == EventType::MovedTo,
        event_type_of_mask(0x100u32 | isdir) == EventType::Create,
        event_type_of_mask(0x200u32 | isdir) == EventType::Delete,
        event_type_of_mask(0x400u32 | isdir) == EventType::DeleteSelf,
        event_type_of_mask(0x800u32 | isdir) == EventType::MoveSelf,
{
    let m: u32 = 0x1u32 | isdir;
    assert(m & 0x1u32 != 0) by (bit_vector)
        requires
            m == 0x1u32 | isdir,
            isdir == 0 || isdir == 0x4000_0000u32,
    ;
    let m: u32 = 0x2u32 | isdir;
    assert(m & 0x1u32 == 0 && m & 0x4u32 == 0 && m & 0x8u32 == 0 && m & 0x10u32 == 0 && m & 0x100u32 == 0 && m & 0x200u32 == 0 && m & 0x400u32 == 0 && m & 0x2u32 != 0) by (bit_vector)
        requires
            m == 0x2u32 | isdir,
            isdir == 0 || isdir == 0x4000_0000u32,
    ;
    let m: u32 = 0x4u32 | isdir;
    assert(m & 0x1u32 == 0 && m & 0x4u32 != 0) by (bit_vector)
        requires
            m == 0x4u32 | isdir,
            isdir == 0 || isdir == 0x4000_0000u32,
    ;
    let m: u32 = 0x8u32 | isdir;
    assert(m & 0x1u32 == 0 && m & 0x4u32 == 0 && m & 0x8u32 != 0) by (bit_vector)
        requires
            m == 0x8u32 | isdir,
            isdir == 0 || isdir == 0x4000_0000u32,
    ;
    let m: u32 = 0x10u32 | isdir;
    assert(m & 0x1u32 == 0 && m & 0x4u32 == 0 && m & 0x8u32 == 0 && m & 0x10u32 != 0) by (bit_vector)
        requires
            m == 0x10u32 | isdir,
            isdir == 0 || isdir == 0x4000_0000u32,
    ;
    let m: u32 = 0x20u32 | isdir;
    assert(m & 0x1u32 == 0 && m & 0x4u32 == 0 && m & 0x8u32 == 0 && m & 0x10u32 == 0 && m & 0x100u32 == 0 && m & 0x200u32 == 0 && m & 0x400u32 == 0 && m & 0x2u32 == 0 && m & 0x800u32 == 0 && m & 0x40u32 == 0 && m & 0x80u32 == 0 && m & 0x20u32 != 0) by (bit_vector)
        requires
            m == 0x20u32 | isdir,
            isdir == 0 || isdir == 0x4000_0000u32,
    ;
    let m: u32 = 0x40u32 | isdir;
    assert(m & 0x1u32 == 0 && m & 0x4u32 == 0 && m & 0x8u32 == 0 && m & 0x10u32 == 0 && m & 0x100u32 == 0 && m & 0x200u32 == 0 && m & 0x400u32 == 0 && m & 0x2u32 == 0 && m & 0x800u32 == 0 && m & 0x40u32 != 0) by (bit_vector)
        requires
            m == 0x40u32 | isdir,
            isdir == 0 || isdir == 0x4000_0000u32,
    ;
    let m: u32 = 0x80u32 | isdir;
    assert(m & 0x1u32 == 0 && m & 0x4u32 == 0 && m & 0x8u32 == 0 && m & 0x10u32 == 0 && m & 0x100u32 == 0 && m & 0x200u32 == 0 && m & 0x400u32 == 0 && m & 0x2u32 == 0 && m & 0x800u32 == 0 && m & 0x40u32 == 0 && m & 0x80u32 != 0) by (bit_vector)
        requires
            m == 0x80u32 | isdir,
            isdir == 0 || isdir == 0x4000_0000u32,
    ;
    let m: u32 = 0x100u32 | isdir;
    assert(m & 0x1u32 == 0 && m & 0x4u32 == 0 && m & 0x8u32 == 0 && m & 0x10u32 == 0 && m & 0x100u32 != 0) by (bit_vector)
        requires
            m == 0x100u32 | isdir,
            isdir == 0 || isdir == 0x4000_0000u32,
    ;
    let m: u32 = 0x200u32 | isdir;
    assert(m & 0x1u32 == 0 && m & 0x4u32 == 0 && m & 0x8u32 == 0 && m & 0x10u32 == 0 && m & 0x100u32 == 0 && m & 0x200u32 != 0) by (bit_vector)
        requires
            m == 0x200u32 | isdir,
            isdir == 0 || isdir == 0x4000_0000u32,
    ;
    let m: u32 = 0x400u32 | isdir;
    assert(m & 0x1u32 == 0 && m & 0x4u32 == 0 && m & 0x8u32 == 0 && m & 0x10u32 == 0 && m & 0x100u32 == 0 && m & 0x200u32 == 0 && m & 0x400u32 != 0) by (bit_vector)
        requires
            m == 0x400u32 | isdir,
            isdir == 0 || isdir == 0x4000_0000u32,
    ;
    let m: u32 = 0x800u32 | isdir;
    assert(m & 0x1u32 == 0 && m & 0x4u32 == 0 && m & 0x8u32 == 0 && m & 0x10u32 == 0 && m & 0x100u32 == 0 && m & 0x200u32 == 0 && m & 0x400u32 == 0 && m & 0x2u32 == 0 && m & 0x800u32 != 0) by (bit_vector)
        requires
            m == 0x800u32 | isdir,
            isdir == 0 || isdir == 0x4000_0000u32,
    ;
}

proof fn lemma_or_zero(x: u32)
    ensures
        0u32 | x == x,
        x | 0u32 == x,
{
    assert(0u32 | x == x && x | 0u32 == x) by (bit_vector);
}

/// The watch mask of a single event name is the bit of the event type that
/// name gives: `mask_to_event_type` reports that mask as the type that
/// `from_str` reads from the name, in lower or upper case.
pub proof fn law_name_flag_roundtrip(t: EventType)
    requires
        t != EventType::Unknown,
    ensures
        all_ascii(event_name(t)),
        all_ascii(upper_ascii(event_name(t))),
        event_type_from_lower(lower_ascii(event_name(t))) == t,
        event_type_of_mask(flags_for_ascii(seq![event_name(t)])) == t,
        flags_for_ascii(seq![upper_ascii(event_name(t))]) == flags_for_ascii(seq![event_name(t)]),
{
    law_event_type_name_roundtrip(t);
    lemma_upper_then_lower(event_name(t));
    law_single_bit_masks(0);
    let n = event_name(t);
    let s1 = seq![n];
    let s2 = seq![upper_ascii(n)];
    assert(s1.len() == 1 && s1[0] == n);
    assert(s2.len() == 1 && s2[0] == upper_ascii(n));
    assert(fold_flags_ascii(s1, 1) == fold_flags_ascii(s1, 0) | flag_of_lower(lower_ascii(s1[0])));
    assert(fold_flags_ascii(s2, 1) == fold_flags_ascii(s2, 0) | flag_of_lower(lower_ascii(s2[0])));
    lemma_or_zero(flag_of_lower(n));
    reveal_strlit("access");
    reveal_strlit("attrib");
    reveal_strlit("closewrite");
    reveal_strlit("closenowrite");
    reveal_strlit("close");
    reveal_strlit("create");
    reveal_strlit("delete");
    reveal_strlit("deleteself");
    reveal_strlit("modify");
    reveal_strlit("moveself");
    reveal_strlit("movedfrom");
    reveal_strlit("movedto");
    reveal_strlit("move");
    reveal_strlit("open");
    reveal_strlit("all");
    match t {
        EventType::Access => {
            assert(n.len() == 6 && n[0] == 'a' && n[1] == 'c');
        },
        EventType::Attrib => {
            assert(n.len() == 6 && n[0] == 'a' && n[1] == 't');
        },
        EventType::CloseWrite => {
            assert(n.len() == 10 && n[0] == 'c' && n[5] == 'w');
        },
        EventType::CloseNoWrite => {
            assert(n.len() == 12 && n[0] == 'c' && n[5] == 'n');
        },
        EventType::Create => {
            assert(n.len() == 6 && n[0] == 'c' && n[1] == 'r');
        },
        EventType::Delete => {
            assert(n.len() == 6 && n[0] == 'd' && n[1] == 'e');
        },
        EventType::DeleteSelf => {
            assert(n.len() == 10 && n[0] == 'd' && n[1] == 'e');
        },
        EventType::Modify => {
            assert(n.len() == 6 && n[0] == 'm' && n[1] == 'o');
        },
        EventType::MoveSelf => {
            assert(n.len() == 8 && n[0] == 'm' && n[4] == 's');
        },
        EventType::MovedFrom => {
            assert(n.len() == 9 && n[0] == 'm' && n[1] == 'o');
        },
        EventType::MovedTo => {
            assert(n.len() == 7 && n[0] == 'm' && n[1] == 'o');
        },
        EventType::Open => {
            assert(n.len() == 4 && n[0] == 'o');
        },
        EventType::Unknown => {},
    }
}

/// The masks of the two halves of a rename report them as such.
pub proof fn lemma_move_masks()
    ensures
        event_type_of_mask(IN_MOVED_FROM) == EventType::MovedFrom,
        event_type_of_mask(IN_MOVED_TO) == EventType::MovedTo,
        event_type_of_mask(IN_MOVED_FROM | IN_ISDIR) == EventType::MovedFrom,
        event_type_of_mask(IN_MOVED_TO | IN_ISDIR) == EventType::MovedTo,
{
    assert(0x40u32 & 0x1u32 == 0 && 0x40u32 & 0x4u32 == 0 && 0x40u32 & 0x8u32 == 0 && 0x40u32 & 0x10u32 == 0
        && 0x40u32 & 0x100u32 == 0 && 0x40u32 & 0x200u32 == 0 && 0x40u32 & 0x400u32 == 0 && 0x40u32 & 0x2u32 == 0
        && 0x40u32 & 0x800u32 == 0 && 0x40u32 & 0x40u32 != 0) by (bit_vector);
    assert(0x80u32 & 0x1u32 == 0 && 0x80u32 & 0x4u32 == 0 && 0x80u32 & 0x8u32 == 0 && 0x80u32 & 0x10u32 == 0
        && 0x80u32 & 0x100u32 == 0 && 0x80u32 & 0x200u32 == 0 && 0x80u32 & 0x400u32 == 0 && 0x80u32 & 0x2u32 == 0
        && 0x80u32 & 0x800u32 == 0 && 0x80u32 & 0x40u32 == 0 && 0x80u32 & 0x80u32 != 0) by (bit_vector);
    let a: u32 = 0x40u32 | 0x4000_0000u32;
    let b: u32 = 0x80u32 | 0x4000_0000u32;
    assert(a & 0x1u32 == 0 && a & 0x4u32 == 0 && a & 0x8u32 == 0 && a & 0x10u32 == 0 && a & 0x100u32 == 0
        && a & 0x200u32 == 0 && a & 0x400u32 == 0 && a & 0x2u32 == 0 && a & 0x800u32 == 0 && a & 0x40u32 != 0) by (bit_vector)
        requires
            a == 0x40u32 | 0x4000_0000u32,
    ;
    assert(b & 0x1u32 == 0 && b & 0x4u32 == 0 && b & 0x8u32 == 0 && b & 0x10u32 == 0 && b & 0x100u32 == 0
        && b & 0x200u32 == 0 && b & 0x400u32 == 0 && b & 0x2u32 == 0 && b & 0x800u32 == 0 && b & 0x40u32 == 0
        && b & 0x80u32 != 0) by (bit_vector)
        requires
            b == 0x80u32 | 0x4000_0000u32,
    ;
}

/// The path an event names: the watched path, joined with the name the
/// event carries.
pub open spec fn event_full_path(dir: Seq<char>, name: Option<Seq<char>>) -> Seq<char> {
    match name {
        Some(n) => path_join(dir, n),
        None => dir,
    }
}


/// `wrap_inc` applied `n` times.
pub open spec fn wrap_inc_n(x: u64, n: nat) -> u64
    decreases n,
{
    if n == 0 {
        x
    } else {
        wrap_inc(wrap_inc_n(x, (n - 1) as nat))
    }
}

/// Counters after `n` rename halves timed out.
pub open spec fn timeouts_step(c: WatcherCounts, n: nat) -> WatcherCounts {
    WatcherCounts { move_pairs_timeout: wrap_inc_n(c.move_pairs_timeout, n), ..c }
}

/// Counters after a queue overflow (also counted as an event).
pub open spec fn overflow_step(c: WatcherCounts) -> WatcherCounts {
    WatcherCounts { queue_overflows: wrap_inc(c.queue_overflows), events_total: wrap_inc(c.events_total), ..c }
}

/// What the event loop does with an inotify event, by its mask.
#[derive(Debug, Clone, Copy, PartialEq, Eq, Structural)]
pub enum EventDisposition {
    /// The kernel queue overflowed: count it and rebuild every watch.
    Overflow,
    /// The kernel dropped the watch: forget it.
    WatchRemoved,
    /// A file event: check proxies, then turn it into file events.
    Regular,
}

/// How the event loop handles a mask: overflow first, then watch removal.
pub open spec fn disposition_of(mask: u32) -> EventDisposition {
    if mask & IN_Q_OVERFLOW != 0 {
        EventDisposition::Overflow
    } else if mask & IN_IGNORED != 0 {
        EventDisposition::WatchRemoved
    } else {
        EventDisposition::Regular
    }
}

/// How the event loop handles an event with this mask.
pub fn event_disposition(mask: u32) -> (r: EventDisposition)
    ensures
        r == disposition_of(mask),
{
    if mask & IN_Q_OVERFLOW != 0 {
        EventDisposition::Overflow
    } else if mask & IN_IGNORED != 0 {
        EventDisposition::WatchRemoved
    } else {
        EventDisposition::Regular
    }
}

/// The mask of the ancestor watch that stands in for a missing path: the
/// path's own mask plus creation and arrival of entries.
pub open spec fn proxy_mask(flags: u32) -> u32 {
    flags | IN_CREATE | IN_MOVED_TO
}

/// The mask of the ancestor watch that stands in for a missing path.
pub fn proxy_flags(flags: u32) -> (r: u32)
    ensures
        r == proxy_mask(flags),
{
    flags | IN_CREATE | IN_MOVED_TO
}

/// The targets of `s` whose awaited name is `name` (`keep`), or whose
/// awaited name is another (`!keep`), in order.
pub open spec fn targets_named(s: Seq<ProxyTarget>, name: Seq<char>, keep: bool) -> Seq<ProxyTarget>
    decreases s.len(),
{
    if s.len() == 0 {
        Seq::<ProxyTarget>::empty()
    } else {
        let rest = targets_named(s.drop_last(), name, keep);
        if (s.last().immediate_child@ == name) == keep {
            rest.push(s.last())
        } else {
            rest
        }
    }
}

/// The proxy that stands in for a missing `path` at its nearest existing
/// ancestor directory `ancestor`: it awaits the first component of `path`
/// below `ancestor`, for a watch with `flags` once `path` exists. There is
/// none when `ancestor` does not lie above `path`.
pub fn proxy_for_missing(path: &str, ancestor: &str, flags: u32) -> (r: Option<ProxyTarget>)
    ensures
        match crate::pathname::component_after(path@, ancestor@) {
            Some(c) => r matches Some(t) && t.configured_path@ == path@ && t.immediate_child@ == c && t.flags == flags,
            None => r is None,
        },
{
    match crate::pathname::first_component_after(path, ancestor) {
        Some(c) => Some(ProxyTarget { configured_path: owned(path), immediate_child: c, flags }),
        None => None,
    }
}

/// What becomes of a proxy target whose awaited name appeared in its
/// watched ancestor.
#[derive(Debug)]
pub enum PromotionStep {
    /// The configured path exists now: watch it directly.
    Promote { path: String, flags: u32 },
    /// An intermediate directory appeared: watch it (with `watch_flags`) as
    /// the new proxy for `target`.
    Advance { dir: String, watch_flags: u32, target: ProxyTarget },
    /// Nothing more is awaited.
    Drop,
}

/// The step for a proxy target whose awaited name `name` appeared in its
/// ancestor (`ancestor`, none when that watch is gone): promotion when the
/// configured path exists; otherwise, when the new entry `ancestor/name`
/// is a directory above the configured path (`child_is_dir` tells the
/// former), a new proxy there awaiting the next component; otherwise
/// nothing.
pub fn promotion_step(target: &ProxyTarget, ancestor: Option<&str>, name: &str, target_exists: bool, child_is_dir: bool) -> (r: PromotionStep)
    ensures
        target_exists ==> (r matches PromotionStep::Promote { path, flags } && path@ == target.configured_path@ && flags
            == target.flags),
        !target_exists && ancestor is None ==> r is Drop,
        !target_exists && ancestor is Some ==> {
            let child = path_join(ancestor->0@, name@);
            if child_is_dir && crate::pathname::component_after(target.configured_path@, child) is Some {
                r matches PromotionStep::Advance { dir, watch_flags, target: t } && dir@ == child && watch_flags == proxy_mask(
                    target.flags,
                ) && t.configured_path@ == target.configured_path@ && Some(t.immediate_child@)
                    == crate::pathname::component_after(target.configured_path@, child) && t.flags == target.flags
            } else {
                r is Drop
            }
        },
{
    if target_exists {
        return PromotionStep::Promote { path: target.configured_path.clone(), flags: target.flags };
    }
    match ancestor {
        None => PromotionStep::Drop,
        Some(a) => {
            let child = join_path(a, name);
            if !child_is_dir {
                return PromotionStep::Drop;
            }
            match crate::pathname::first_component_after(target.configured_path.as_str(), child.as_str()) {
                Some(next) => PromotionStep::Advance {
                    dir: child,
                    watch_flags: proxy_flags(target.flags),
                    target: ProxyTarget { configured_path: target.configured_path.clone(), immediate_child: next, flags: target.flags },
                },
                None => PromotionStep::Drop,
            }
        },
    }
}

/// An event with this mask and name can make a proxy target appear.
pub open spec fn promotes(mask: u32, name: Option<Seq<char>>) -> bool {
    &&& (mask & IN_CREATE != 0 || mask & IN_MOVED_TO != 0)
    &&& name is Some
}

proof fn lemma_insert_back<T>(s: Seq<T>, i: int, x: T)
    requires
        0 <= i < s.len(),
    ensures
        s.remove(i).insert(i, x) == s.update(i, x),
        s.remove(i).insert(i, s[i]) == s,
{
    assert(s.remove(i).insert(i, x) =~= s.update(i, x));
    assert(s.remove(i).insert(i, s[i]) =~= s);
}

impl Watcher {
    /// Hand out the held rename halves whose cookies are listed, in the
    /// order they were recorded, as moved-from events without a peer,
    /// counting each as timed out; the other halves stay held.
    pub fn expire_moves(&mut self, cookies: &Vec<u32>) -> (r: Vec<FileEvent>)
        requires
            old(self).wf(),
        ensures
            final(self).wf(),
            final(self).watches() == old(self).watches(),
            final(self).path_index() == old(self).path_index(),
            final(self).proxies() == old(self).proxies(),
            final(self).is_running_spec() == old(self).is_running_spec(),
            final(self).state_spec() == old(self).state_spec(),
            final(self).limit() == old(self).limit(),
            final(self).move_timeout_ns() == old(self).move_timeout_ns(),
            final(self).config_spec() == old(self).config_spec(),
            forall|i: int| 0 <= i < r@.len() ==> {
                let e = #[trigger] r@[i];
                &&& old(self).pending().contains_key(e.cookie)
                &&& event_matches(e, EventType::MovedFrom, old(self).pending()[e.cookie].path@,
                    opt_view(old(self).pending()[e.cookie].filename), old(self).pending()[e.cookie].is_dir, e.cookie, None)
                &&& !final(self).pending().contains_key(e.cookie)
            },
            forall|i: int, j: int| 0 <= i < j < r@.len() ==> r@[i].cookie != r@[j].cookie,
            forall|i: int| 0 <= i < r@.len() ==> cookies@.contains(#[trigger] r@[i].cookie),
            forall|c: u32| #[trigger] old(self).pending().contains_key(c) && cookies@.contains(c) ==> exists|i: int| 0 <= i < r@.len() && r@[i].cookie == c,
            forall|c: u32| #[trigger] final(self).pending().contains_key(c) <==> old(self).pending().contains_key(c) && !cookies@.contains(c),
            forall|c: u32| #[trigger] final(self).pending().contains_key(c) ==> old(self).pending().contains_key(c) && final(self).pending()[c] == old(self).pending()[c],
            forall|c: u32| #[trigger] old(self).pending().contains_key(c) ==> final(self).pending().contains_key(c) || exists|i: int| 0 <= i < r@.len() && r@[i].cookie == c,
            metrics_step(old(self).metrics_spec(), final(self).metrics_spec(), |c: WatcherCounts| timeouts_step(c, r@.len())),
    {
        let ghost p0 = self.pending();
        let expired = self.move_tracker.take_moves(cookies);
        let ghost ex = expired@;
        let ghost p1 = self.pending();
        let ghost m0 = self.metrics;
        let mut out: Vec<FileEvent> = Vec::new();
        let mut i: usize = 0;
        while i < expired.len()
            invariant
                expired@ == ex,
                i <= ex.len(),
                out@.len() == i,
                forall|j: int| 0 <= j < i ==> {
                    let e = #[trigger] out@[j];
                    event_matches(e, EventType::MovedFrom, ex[j].1.path@, opt_view(ex[j].1.filename), ex[j].1.is_dir, ex[j].0, None)
                },
                metrics_step(m0, self.metrics, |c: WatcherCounts| timeouts_step(c, i as nat)),
                self.pending() == p1,
                self.wf(),
                self.watches() == old(self).watches(),
                self.path_index() == old(self).path_index(),
                self.proxies() == old(self).proxies(),
                self.is_running_spec() == old(self).is_running_spec(),
                self.state_spec() == old(self).state_spec(),
                self.limit() == old(self).limit(),
                self.config_spec() == old(self).config_spec(),
                forall|c: u32| #[trigger] p0.contains_key(c) ==> p1.contains_key(c) || exists|k: int| 0 <= k < ex.len() && ex[k].0 == c,
                self.move_tracker.timeout_ns() == old(self).move_tracker.timeout_ns(),
                forall|k: int| 0 <= k < ex.len() ==> cookies@.contains(#[trigger] ex[k].0),
                forall|c: u32| #[trigger] p0.contains_key(c) && cookies@.contains(c) ==> exists|k: int| 0 <= k < ex.len() && ex[k].0 == c,
            decreases expired.len() - i,
        {
            match &mut self.metrics {
                Some(m) => m.record_move_pair_timeout(),
                None => {},
            }
            let p = &expired[i].1;
            out.push(FileEvent {
                event_type: EventType::MovedFrom,
                path: p.path.clone(),
                filename: clone_opt(&p.filename),
                is_dir: p.is_dir,
                cookie: expired[i].0,
                move_peer: None,
            });
            i = i + 1;
        }
        proof {
            assert forall|j: int, k: int| 0 <= j < k < out@.len() implies out@[j].cookie != out@[k].cookie by {
                assert(out@[j].cookie == ex[j].0);
                assert(out@[k].cookie == ex[k].0);
            }
            assert forall|c: u32| #[trigger] old(self).pending().contains_key(c) implies self.pending().contains_key(c) || exists|j: int| 0 <= j < out@.len() && out@[j].cookie == c by {
                if !self.pending().contains_key(c) {
                    let j = choose|j: int| 0 <= j < ex.len() && ex[j].0 == c;
                    assert(out@[j].cookie == c);
                }
            }
            assert forall|j: int| 0 <= j < out@.len() implies {
                let e = #[trigger] out@[j];
                &&& old(self).pending().contains_key(e.cookie)
                &&& event_matches(e, EventType::MovedFrom, old(self).pending()[e.cookie].path@,
                    opt_view(old(self).pending()[e.cookie].filename), old(self).pending()[e.cookie].is_dir, e.cookie, None)
                &&& !self.pending().contains_key(e.cookie)
            } by {
                assert(out@[j].cookie == ex[j].0);
            }
            assert forall|j: int| 0 <= j < out@.len() implies cookies@.contains(#[trigger] out@[j].cookie) by {
                assert(out@[j].cookie == ex[j].0);
            }
            assert forall|c: u32| #[trigger] old(self).pending().contains_key(c) && cookies@.contains(c) implies exists|j: int| 0 <= j < out@.len() && out@[j].cookie == c by {
                let k = choose|k: int| 0 <= k < ex.len() && ex[k].0 == c;
                assert(out@[k].cookie == c);
            }
        }
        out
    }

    /// Hand out the rename halves that waited too long for their pair, as
    /// moved-from events without a peer, counting each as timed out. Which
    /// halves have waited too long depends on the clock: the contract says
    /// how the held halves are split for some reading of the clock;
    /// `drain_expired_moves_at` states it for each reading.
    pub fn drain_expired_moves(&mut self) -> (r: Vec<FileEvent>)
        requires
            old(self).wf(),
        ensures
            final(self).wf(),
            final(self).watches() == old(self).watches(),
            final(self).path_index() == old(self).path_index(),
            final(self).proxies() == old(self).proxies(),
            final(self).is_running_spec() == old(self).is_running_spec(),
            final(self).state_spec() == old(self).state_spec(),
            final(self).limit() == old(self).limit(),
            final(self).config_spec() == old(self).config_spec(),
            forall|i: int| 0 <= i < r@.len() ==> {
                let e = #[trigger] r@[i];
                &&& old(self).pending().contains_key(e.cookie)
                &&& event_matches(e, EventType::MovedFrom, old(self).pending()[e.cookie].path@,
                    opt_view(old(self).pending()[e.cookie].filename), old(self).pending()[e.cookie].is_dir, e.cookie, None)
                &&& !final(self).pending().contains_key(e.cookie)
            },
            forall|i: int, j: int| 0 <= i < j < r@.len() ==> r@[i].cookie != r@[j].cookie,
            forall|c: u32| #[trigger] final(self).pending().contains_key(c) ==> old(self).pending().contains_key(c) && final(self).pending()[c] == old(self).pending()[c],
            forall|c: u32| #[trigger] old(self).pending().contains_key(c) ==> final(self).pending().contains_key(c) || exists|i: int| 0 <= i < r@.len() && r@[i].cookie == c,
            final(self).move_timeout_ns() == old(self).move_timeout_ns(),
            exists|now: u64| #[trigger] moves_expired_at(*old(self), *final(self), r@, now),
            metrics_step(old(self).metrics_spec(), final(self).metrics_spec(), |c: WatcherCounts| timeouts_step(c, r@.len())),
    {
        let now = self.move_tracker.now_ns();
        let r = self.drain_expired_moves_at(now);
        assert(moves_expired_at(*old(self), *self, r@, now));
        r
    }

    /// Hand out the rename halves that, at `now` on the move clock, waited
    /// longer than the timeout for their pair, in the order they were
    /// recorded, as moved-from events without a peer, counting each as
    /// timed out; the other halves stay held.
    pub fn drain_expired_moves_at(&mut self, now: u64) -> (r: Vec<FileEvent>)
        requires
            old(self).wf(),
        ensures
            final(self).wf(),
            final(self).watches() == old(self).watches(),
            final(self).path_index() == old(self).path_index(),
            final(self).proxies() == old(self).proxies(),
            final(self).is_running_spec() == old(self).is_running_spec(),
            final(self).state_spec() == old(self).state_spec(),
            final(self).limit() == old(self).limit(),
            final(self).config_spec() == old(self).config_spec(),
            final(self).move_timeout_ns() == old(self).move_timeout_ns(),
            moves_expired_at(*old(self), *final(self), r@, now),
            metrics_step(old(self).metrics_spec(), final(self).metrics_spec(), |c: WatcherCounts| timeouts_step(c, r@.len())),
    {
        let ghost s0 = self.move_tracker.pending@;
        let ghost t = self.move_tracker.timeout_ns;
        let cookies = self.move_tracker.expired_cookies_at(now);
        proof {
            assert forall|c: u32| cookies@.contains(c) <==> (assoc_map(s0).contains_key(c) && waited_too_long(assoc_map(s0)[c], now, t)) by {
                lemma_expired_of(s0, now, t, c);
            }
        }
        self.expire_moves(&cookies)
    }

    /// Set the active watch gauge of the metrics to the number of watch
    /// descriptors.
    pub fn sync_watch_gauge(&mut self)
        requires
            old(self).wf(),
        ensures
            final(self).wf(),
            final(self).same_tables(old(self)),
            final(self).watch_len() == old(self).watch_len(),
            metrics_step(old(self).metrics_spec(), final(self).metrics_spec(), |c: WatcherCounts| active_step(c, old(self).watch_len() as u64)),
    {
        let n = self.watches.len() as u64;
        match &mut self.metrics {
            Some(m) => m.set_watches_active(n),
            None => {},
        }
    }

    /// Count a file event handed on, by the name of its type.
    pub fn record_emitted(&mut self, event: &FileEvent)
        ensures
            final(self).same_tables(old(self)),
            final(self).wf() == old(self).wf(),
            final(self).watch_len() == old(self).watch_len(),
            match old(self).metrics_spec() {
                None => final(self).metrics_spec() is None,
                Some(m) => {
                    let t = event_name(event.event_type);
                    &&& final(self).metrics_spec() is Some
                    &&& final(self).metrics_spec()->0.watcher() == m.watcher()
                    &&& final(self).metrics_spec()->0.counts() == (WatcherCounts { events_total: wrap_inc(m.counts().events_total), ..m.counts() })
                    &&& final(self).metrics_spec()->0.by_type() == m.by_type().insert(t,
                        if m.by_type().contains_key(t) { wrap_inc(m.by_type()[t]) } else { 1 })
                },
            },
    {
        match &mut self.metrics {
            Some(m) => m.record_event_typed(event.event_type.as_str()),
            None => {},
        }
    }

    /// Count a queue overflow and drop every watch, held rename half and
    /// proxy; the caller then rebuilds the watches from the configuration.
    pub fn reset_after_overflow(&mut self)
        requires
            old(self).wf(),
        ensures
            final(self).wf(),
            final(self).watches() == Map::<i32, Seq<char>>::empty(),
            final(self).path_index() == Map::<Seq<char>, i32>::empty(),
            final(self).proxies() == Map::<i32, Seq<ProxyTarget>>::empty(),
            final(self).pending() == Map::<u32, PendingMove>::empty(),
            final(self).is_running_spec() == old(self).is_running_spec(),
            final(self).state_spec() == old(self).state_spec(),
            final(self).limit() == old(self).limit(),
            final(self).config_spec() == old(self).config_spec(),
            match old(self).metrics_spec() {
                None => final(self).metrics_spec() is None,
                Some(m) => {
                    &&& final(self).metrics_spec() is Some
                    &&& final(self).metrics_spec()->0.watcher() == m.watcher()
                    &&& final(self).metrics_spec()->0.counts() == overflow_step(m.counts())
                    &&& final(self).metrics_spec()->0.by_type() == m.by_type().insert("overflow"@,
                        if m.by_type().contains_key("overflow"@) { wrap_inc(m.by_type()["overflow"@]) } else { 1 })
                },
            },
    {
        match &mut self.metrics {
            Some(m) => m.record_queue_overflow(),
            None => {},
        }
        self.clear_tables();
    }

    fn clear_tables(&mut self)
        requires
            old(self).wf(),
        ensures
            final(self).wf(),
            final(self).watches() == Map::<i32, Seq<char>>::empty(),
            final(self).path_index() == Map::<Seq<char>, i32>::empty(),
            final(self).proxies() == Map::<i32, Seq<ProxyTarget>>::empty(),
            final(self).pending() == Map::<u32, PendingMove>::empty(),
            final(self).is_running_spec() == old(self).is_running_spec(),
            final(self).state_spec() == old(self).state_spec(),
            final(self).limit() == old(self).limit(),
            final(self).config_spec() == old(self).config_spec(),
            final(self).metrics_spec() == old(self).metrics_spec(),
            final(self).watch_len() == 0,
    {
        self.watches = Vec::new();
        self.path_to_wd = Vec::new();
        self.move_tracker.clear();
        self.proxy_watches = Vec::new();
        proof {
            crate::assoc::lemma_assoc_empty(wd_entries(self.watches@));
            crate::assoc::lemma_assoc_empty(path_entries(self.path_to_wd@));
            crate::assoc::lemma_assoc_empty(proxy_entries(self.proxy_watches@));
        }
    }

    /// Pause: stop the loop, drop every watch, held rename half and proxy
    /// (the caller has removed the watches from the kernel), and hand back
    /// the configuration for resume; without one, an I/O error.
    pub fn pause(&mut self) -> (r: Result<WatchConfig, NotifyError>)
        requires
            old(self).wf(),
        ensures
            final(self).wf(),
            !final(self).is_running_spec(),
            final(self).state_spec() == WatchState::Paused,
            final(self).watches() == Map::<i32, Seq<char>>::empty(),
            final(self).path_index() == Map::<Seq<char>, i32>::empty(),
            final(self).proxies() == Map::<i32, Seq<ProxyTarget>>::empty(),
            final(self).pending() == Map::<u32, PendingMove>::empty(),
            final(self).limit() == old(self).limit(),
            final(self).config_spec() == old(self).config_spec(),
            final(self).metrics_spec() == old(self).metrics_spec(),
            match old(self).config_spec() {
                Some(c) => r matches Ok(k) && k.view_of() == c,
                None => r matches Err(e) && notify_error_text(e) == "I/O error: no config stored"@,
            },
    {
        self.running = false;
        self.clear_tables();
        self.state = WatchState::Paused;
        proof {
            reveal_strlit("I/O error: ");
            reveal_strlit("no config stored");
            reveal_strlit("I/O error: no config stored");
        }
        match &self.config {
            Some(c) => Ok(c.duplicate()),
            None => Err(NotifyError::Io(owned("no config stored"))),
        }
    }

    /// Keep `config` for pause and resume, and give the watch mask of its
    /// events.
    pub fn set_config(&mut self, config: &WatchConfig) -> (r: u32)
        requires
            old(self).wf(),
        ensures
            final(self).wf(),
            r == flags_for(config.view_of().events),
            final(self).config_spec() == Some(config.view_of()),
            final(self).watches() == old(self).watches(),
            final(self).path_index() == old(self).path_index(),
            final(self).proxies() == old(self).proxies(),
            final(self).pending() == old(self).pending(),
            final(self).is_running_spec() == old(self).is_running_spec(),
            final(self).state_spec() == old(self).state_spec(),
            final(self).limit() == old(self).limit(),
            final(self).metrics_spec() == old(self).metrics_spec(),
    {
        let flags = events_to_flags(&config.events);
        self.config = Some(config.duplicate());
        flags
    }

    /// The configuration kept for pause and resume.
    pub fn config(&self) -> (r: Option<&WatchConfig>)
        ensures
            match r {
                Some(c) => self.config_spec() == Some(c.view_of()),
                None => self.config_spec() is None,
            },
    {
        match &self.config {
            Some(c) => Some(c),
            None => None,
        }
    }

    /// Enter the event loop: the kept configuration, with the watcher
    /// running; without a configuration, an I/O error and no change.
    pub fn start_event_loop(&mut self) -> (r: Result<WatchConfig, NotifyError>)
        requires
            old(self).wf(),
        ensures
            final(self).wf(),
            final(self).watches() == old(self).watches(),
            final(self).path_index() == old(self).path_index(),
            final(self).proxies() == old(self).proxies(),
            final(self).pending() == old(self).pending(),
            final(self).limit() == old(self).limit(),
            final(self).config_spec() == old(self).config_spec(),
            final(self).metrics_spec() == old(self).metrics_spec(),
            match old(self).config_spec() {
                Some(c) => {
                    &&& r matches Ok(k) && k.view_of() == c
                    &&& final(self).is_running_spec()
                    &&& final(self).state_spec() == WatchState::Running
                },
                None => {
                    &&& r matches Err(e) && notify_error_text(e) == "I/O error: no config - call add_watches first"@
                    &&& final(self).is_running_spec() == old(self).is_running_spec()
                    &&& final(self).state_spec() == old(self).state_spec()
                },
            },
    {
        proof {
            reveal_strlit("I/O error: ");
            reveal_strlit("no config - call add_watches first");
            reveal_strlit("I/O error: no config - call add_watches first");
        }
        match &self.config {
            Some(c) => {
                let k = c.duplicate();
                self.running = true;
                self.state = WatchState::Running;
                Ok(k)
            },
            None => Err(NotifyError::Io(owned("no config - call add_watches first"))),
        }
    }

    /// Leave the event loop: the watcher is stopped.
    pub fn finish_event_loop(&mut self)
        ensures
            final(self).state_spec() == WatchState::Stopped,
            final(self).watches() == old(self).watches(),
            final(self).path_index() == old(self).path_index(),
            final(self).proxies() == old(self).proxies(),
            final(self).pending() == old(self).pending(),
            final(self).is_running_spec() == old(self).is_running_spec(),
            final(self).limit() == old(self).limit(),
            final(self).config_spec() == old(self).config_spec(),
            final(self).metrics_spec() == old(self).metrics_spec(),
            final(self).wf() == old(self).wf(),
    {
        self.state = WatchState::Stopped;
    }

    /// Watch, through the ancestor watch `wd`, for `target` to appear.
    pub fn add_proxy(&mut self, wd: i32, target: ProxyTarget)
        requires
            old(self).wf(),
        ensures
            final(self).wf(),
            final(self).proxies() == old(self).proxies().insert(wd,
                if old(self).proxies().contains_key(wd) { old(self).proxies()[wd] } else { Seq::<ProxyTarget>::empty() }.push(target)),
            final(self).watches() == old(self).watches(),
            final(self).path_index() == old(self).path_index(),
            final(self).pending() == old(self).pending(),
            final(self).is_running_spec() == old(self).is_running_spec(),
            final(self).state_spec() == old(self).state_spec(),
            final(self).limit() == old(self).limit(),
            final(self).config_spec() == old(self).config_spec(),
            final(self).metrics_spec() == old(self).metrics_spec(),
    {
        let ghost s0 = self.proxy_watches@;
        match proxy_position(&self.proxy_watches, wd) {
            Some(i) => {
                let (k, mut list) = self.proxy_watches.remove(i);
                proof {
                    lemma_assoc_index(proxy_entries(s0), i as int);
                }
                let ghost l0 = list@;
                list.push(target);
                let ghost l1 = list@;
                self.proxy_watches.insert(i, (k, list));
                proof {
                    lemma_assoc_update(proxy_entries(s0), i as int, l1);
                    assert(proxy_entries(self.proxy_watches@) =~= proxy_entries(s0).update(i as int, (wd, l1)));
                }
            },
            None => {
                proof {
                    lemma_proxy_absent(s0, wd);
                }
                let mut list: Vec<ProxyTarget> = Vec::new();
                list.push(target);
                let ghost l1 = list@;
                proof {
                    lemma_assoc_push(proxy_entries(s0), wd, l1);
                    assert(l1 =~= Seq::<ProxyTarget>::empty().push(target));
                }
                self.proxy_watches.push((wd, list));
                assert(proxy_entries(self.proxy_watches@) =~= proxy_entries(s0).push((wd, l1)));
            },
        }
    }

    /// When an entry named `name` appeared (`IN_CREATE` or `IN_MOVED_TO`)
    /// under the watch `wd`, take out the proxy targets awaiting that name,
    /// in order; the others stay, and an ancestor with none left is
    /// dropped from the proxy table. Other events take nothing.
    pub fn take_proxy_matches(&mut self, wd: i32, mask: u32, name: Option<&str>) -> (r: Vec<ProxyTarget>)
        requires
            old(self).wf(),
        ensures
            final(self).wf(),
            final(self).watches() == old(self).watches(),
            final(self).path_index() == old(self).path_index(),
            final(self).pending() == old(self).pending(),
            final(self).is_running_spec() == old(self).is_running_spec(),
            final(self).state_spec() == old(self).state_spec(),
            final(self).limit() == old(self).limit(),
            final(self).config_spec() == old(self).config_spec(),
            final(self).metrics_spec() == old(self).metrics_spec(),
            !(promotes(mask, opt_str_view(name)) && old(self).proxies().contains_key(wd)) ==> {
                &&& r@ == Seq::<ProxyTarget>::empty()
                &&& final(self).proxies() == old(self).proxies()
            },
            promotes(mask, opt_str_view(name)) && old(self).proxies().contains_key(wd) ==> {
                let list = old(self).proxies()[wd];
                let n = opt_str_view(name)->0;
                let rest = targets_named(list, n, false);
                &&& r@ == targets_named(list, n, true)
                &&& r@.len() == 0 ==> final(self).proxies() == old(self).proxies()
                &&& r@.len() > 0 && rest.len() == 0 ==> final(self).proxies() == old(self).proxies().remove(wd)
                &&& r@.len() > 0 && rest.len() > 0 ==> final(self).proxies() == old(self).proxies().insert(wd, rest)
            },
    {
        if mask & IN_CREATE == 0 && mask & IN_MOVED_TO == 0 {
            return Vec::new();
        }
        let n = match name {
            Some(n) => n,
            None => {
                return Vec::new();
            },
        };
        let ghost s0 = self.proxy_watches@;
        let i = match proxy_position(&self.proxy_watches, wd) {
            Some(i) => i,
            None => {
                proof {
                    lemma_proxy_absent(s0, wd);
                }
                return Vec::new();
            },
        };
        proof {
            lemma_assoc_index(proxy_entries(s0), i as int);
        }
        let (k, list) = self.proxy_watches.remove(i);
        let ghost l0 = list@;
        let mut matched: Vec<ProxyTarget> = Vec::new();
        let mut rest: Vec<ProxyTarget> = Vec::new();
        let mut j: usize = 0;
        while j < list.len()
            invariant
                list@ == l0,
                j <= l0.len(),
                matched@ == targets_named(l0.subrange(0, j as int), n@, true),
                rest@ == targets_named(l0.subrange(0, j as int), n@, false),
            decreases list.len() - j,
        {
            assert(l0.subrange(0, j as int + 1).drop_last() =~= l0.subrange(0, j as int));
            let t = list[j].duplicate();
            if str_eq(t.immediate_child.as_str(), n) {
                matched.push(t);
            } else {
                rest.push(t);
            }
            j = j + 1;
        }
        assert(l0.subrange(0, l0.len() as int) =~= l0);
        if matched.len() == 0 {
            self.proxy_watches.insert(i, (k, list));
            proof {
                lemma_insert_back(s0, i as int, (k, list));
                assert(self.proxy_watches@ =~= s0);
            }
        } else if rest.len() == 0 {
            proof {
                lemma_assoc_remove(proxy_entries(s0), i as int);
                assert(proxy_entries(self.proxy_watches@) =~= proxy_entries(s0).remove(i as int));
            }
        } else {
            let ghost r1 = rest@;
            self.proxy_watches.insert(i, (k, rest));
            proof {
                lemma_assoc_update(proxy_entries(s0), i as int, r1);
                assert(proxy_entries(self.proxy_watches@) =~= proxy_entries(s0).update(i as int, (wd, r1)));
            }
        }
        matched
    }

    /// The proxy targets awaiting appearance under the watch `wd`.
    pub fn proxy_targets(&self, wd: i32) -> (r: Option<&Vec<ProxyTarget>>)
        requires
            self.wf(),
        ensures
            match r {
                Some(l) => self.proxies().contains_key(wd) && self.proxies()[wd] == l@,
                None => !self.proxies().contains_key(wd),
            },
    {
        match proxy_position(&self.proxy_watches, wd) {
            Some(i) => {
                proof {
                    lemma_assoc_index(proxy_entries(self.proxy_watches@), i as int);
                }
                Some(&self.proxy_watches[i].1)
            },
            None => {
                proof {
                    lemma_proxy_absent(self.proxy_watches@, wd);
                }
                None
            },
        }
    }

    /// Number of ancestors watched for proxy targets.
    pub fn proxy_count(&self) -> (r: usize)
        requires
            self.wf(),
        ensures
            r == self.proxies().dom().len(),
    {
        proof {
            crate::assoc::lemma_assoc_len(proxy_entries(self.proxy_watches@));
        }
        self.proxy_watches.len()
    }
}

} // verus!
