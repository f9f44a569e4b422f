//! The event record the kernel probes submit to user space, and its event
//! types.
use vstd::prelude::*;
use crate::procfs::ascii_text;

verus! {

/// Size of the path buffer of an event.
pub const MAX_PATH_LEN: usize = 256;
/// Size of the command name buffer of an event.
pub const MAX_COMM_LEN: usize = 16;
/// Size of the container ID buffer of an event.
pub const MAX_CONTAINER_ID_LEN: usize = 64;

/// Type of a file event, as its numeric code in the record.
#[derive(Debug, Clone, Copy, PartialEq, Eq, Structural)]
pub enum FileEventType {
    Create,
    Modify,
    Delete,
    Rename,
    OpenWrite,
    Attrib,
    Access,
    OpenRead,
}

/// The numeric code of an event type.
pub open spec fn type_code(t: FileEventType) -> u32 {
    match t {
        FileEventType::Create => 1,
        FileEventType::Modify => 2,
        FileEventType::Delete => 3,
        FileEventType::Rename => 4,
        FileEventType::OpenWrite => 5,
        FileEventType::Attrib => 6,
        FileEventType::Access => 7,
        FileEventType::OpenRead => 8,
    }
}

/// The event type with a numeric code.
pub open spec fn type_of_code(v: u32) -> Option<FileEventType> {
    if v == 1 {
        Some(FileEventType::Create)
    } else if v == 2 {
        Some(FileEventType::Modify)
    } else if v == 3 {
        Some(FileEventType::Delete)
    } else if v == 4 {
        Some(FileEventType::Rename)
    } else if v == 5 {
        Some(FileEventType::OpenWrite)
    } else if v == 6 {
        Some(FileEventType::Attrib)
    } else if v == 7 {
        Some(FileEventType::Access)
    } else if v == 8 {
        Some(FileEventType::OpenRead)
    } else {
        None
    }
}

/// The name of an event type.
pub open spec fn event_type_name(t: FileEventType) -> Seq<char> {
    match t {
        FileEventType::Create => "create"@,
        FileEventType::Modify => "modify"@,
        FileEventType::Delete => "delete"@,
        FileEventType::Rename => "rename"@,
        FileEventType::OpenWrite => "open_write"@,
        FileEventType::Attrib => "attrib"@,
        FileEventType::Access => "access"@,
        FileEventType::OpenRead => "open_read"@,
    }
}

impl FileEventType {
    /// The event type with a numeric code.
    pub fn from_u32(val: u32) -> (r: Option<Self>)
        ensures
            r == type_of_code(val),
    {
        match val {
            1 => Some(FileEventType::Create),
            2 => Some(FileEventType::Modify),
            3 => Some(FileEventType::Delete),
            4 => Some(FileEventType::Rename),
            5 => Some(FileEventType::OpenWrite),
            6 => Some(FileEventType::Attrib),
            7 => Some(FileEventType::Access),
            8 => Some(FileEventType::OpenRead),
            _ => None,
        }
    }

    /// The numeric code.
    pub fn code(&self) -> (r: u32)
        ensures
            r == type_code(*self),
    {
        match self {
            FileEventType::Create => 1,
            FileEventType::Modify => 2,
            FileEventType::Delete => 3,
            FileEventType::Rename => 4,
            FileEventType::OpenWrite => 5,
            FileEventType::Attrib => 6,
            FileEventType::Access => 7,
            FileEventType::OpenRead => 8,
        }
    }

    /// The name.
    pub fn as_str(&self) -> (r: &'static str)
        ensures
            r@ == event_type_name(*self),
    {
        match self {
            FileEventType::Create => "create",
            FileEventType::Modify => "modify",
            FileEventType::Delete => "delete",
            FileEventType::Rename => "rename",
            FileEventType::OpenWrite => "open_write",
            FileEventType::Attrib => "attrib",
            FileEventType::Access => "access",
            FileEventType::OpenRead => "open_read",
        }
    }

    /// Whether the event concerns file integrity (a change).
    pub fn is_fim_event(&self) -> (r: bool)
        ensures
            r == (*self == FileEventType::Create || *self == FileEventType::Modify || *self == FileEventType::Delete
                || *self == FileEventType::Rename || *self == FileEventType::Attrib || *self == FileEventType::OpenWrite),
    {
        match self {
            FileEventType::Create | FileEventType::Modify | FileEventType::Delete | FileEventType::Rename
            | FileEventType::Attrib | FileEventType::OpenWrite => true,
            _ => false,
        }
    }

    /// Whether the event is an access.
    pub fn is_access_event(&self) -> (r: bool)
        ensures
            r == (*self == FileEventType::Access || *self == FileEventType::OpenRead || *self == FileEventType::OpenWrite),
    {
        match self {
            FileEventType::Access | FileEventType::OpenRead | FileEventType::OpenWrite => true,
            _ => false,
        }
    }
}

/// Every code names its type again.
pub proof fn law_type_code_roundtrip(t: FileEventType)
    ensures
        type_of_code(type_code(t)) == Some(t),
{
}

/// The text `core::str::from_utf8` decodes from some bytes, when they are
/// valid UTF-8.
pub uninterp spec fn utf8_decode(b: Seq<u8>) -> Option<Seq<char>>;

/// `core::str::from_utf8` (std): the text of the bytes when they are valid
/// UTF-8, nothing otherwise; ASCII bytes are valid UTF-8 and give their
/// own characters.
#[verifier::external_body]
fn decode_utf8(b: &Vec<u8>) -> (r: Option<String>)
    ensures
        r is Some <==> utf8_decode(b@) is Some,
        (r matches Some(s) ==> utf8_decode(b@) == Some(s@)),
        (forall|i: int| 0 <= i < b@.len() ==> #[trigger] b@[i] < 128) ==> r is Some && r->0@ == ascii_text(b@),
{
    match core::str::from_utf8(b.as_slice()) {
        Ok(s) => Some(s.to_string()),
        Err(_) => None,
    }
}

/// The bytes before the first zero byte (all of them without one).
pub open spec fn before_nul(b: Seq<u8>) -> Seq<u8> {
    if exists|i: int| 0 <= i < b.len() && b[i] == 0 {
        b.subrange(0, choose|i: int| 0 <= i < b.len() && b[i] == 0 && forall|k: int| 0 <= k < i ==> b[k] != 0)
    } else {
        b
    }
}

/// The text of a zero-terminated buffer, or `fallback` when it is not
/// valid UTF-8.
pub open spec fn buffer_text(b: Seq<u8>, fallback: Seq<char>) -> Seq<char> {
    match utf8_decode(before_nul(b)) {
        Some(s) => s,
        None => fallback,
    }
}

fn bytes_before_nul(b: &[u8]) -> (r: Vec<u8>)
    ensures
        r@ == before_nul(b@),
{
    let mut out: Vec<u8> = Vec::new();
    let mut i: usize = 0;
    while i < b.len()
        invariant
            i <= b@.len(),
            out@ == b@.subrange(0, i as int),
            forall|k: int| 0 <= k < i ==> b@[k] != 0,
        decreases b.len() - i,
    {
        if b[i] == 0 {
            proof {
                let w = choose|w: int| 0 <= w < b@.len() && b@[w] == 0 && forall|k: int| 0 <= k < w ==> b@[k] != 0;
                assert(w == i) by {
                    if w < i {
                        assert(b@[w] != 0);
                    }
                    if w > i {
                        assert(b@[i as int] != 0);
                    }
                }
            }
            return out;
        }
        out.push(b[i]);
        assert(b@.subrange(0, i + 1) =~= b@.subrange(0, i as int).push(b@[i as int]));
        i = i + 1;
    }
    assert(b@.subrange(0, b@.len() as int) =~= b@);
    out
}

/// Every byte is ASCII.
pub open spec fn ascii_bytes(b: Seq<u8>) -> bool {
    forall|i: int| 0 <= i < b.len() ==> #[trigger] b[i] < 128
}

/// A buffer whose first byte is zero holds no text.
pub proof fn lemma_empty_before_nul(b: Seq<u8>)
    requires
        b.len() > 0,
        b[0] == 0,
    ensures
        before_nul(b) == Seq::<u8>::empty(),
{
    let w = choose|i: int| 0 <= i < b.len() && b[i] == 0 && forall|k: int| 0 <= k < i ==> b[k] != 0;
    assert(b[0] == 0);
    assert(w == 0);
    assert(b.subrange(0, 0) =~= Seq::<u8>::empty());
}

fn buffer_string(b: &[u8], fallback: &str) -> (r: String)
    ensures
        r@ == buffer_text(b@, fallback@),
        ascii_bytes(before_nul(b@)) ==> r@ == ascii_text(before_nul(b@)),
{
    let bytes = bytes_before_nul(b);
    match decode_utf8(&bytes) {
        Some(s) => s,
        None => crate::text::owned(fallback),
    }
}

/// The record the probes submit for a file event.
#[derive(Clone, Copy)]
pub struct FileEvent {
    /// Numeric event type.
    pub event_type: u32,
    pub pid: u32,
    pub tgid: u32,
    pub uid: u32,
    pub gid: u32,
    pub _pad: u32,
    /// Kernel time of the event, in nanoseconds.
    pub timestamp_ns: u64,
    /// Zero-terminated path.
    pub path: [u8; 256],
    /// Zero-terminated command name.
    pub comm: [u8; 16],
    /// Zero-terminated container ID.
    pub container_id: [u8; 64],
}

impl FileEvent {
    /// The path, or `<invalid utf8>`.
    pub fn path_str(&self) -> (r: String)
        ensures
            r@ == buffer_text(self.path@, "<invalid utf8>"@),
            ascii_bytes(before_nul(self.path@)) ==> r@ == ascii_text(before_nul(self.path@)),
    {
        buffer_string(self.path.as_slice(), "<invalid utf8>")
    }

    /// The command name, or `<invalid utf8>`.
    pub fn comm_str(&self) -> (r: String)
        ensures
            r@ == buffer_text(self.comm@, "<invalid utf8>"@),
            ascii_bytes(before_nul(self.comm@)) ==> r@ == ascii_text(before_nul(self.comm@)),
    {
        buffer_string(self.comm.as_slice(), "<invalid utf8>")
    }

    /// The container ID, or empty.
    pub fn container_id_str(&self) -> (r: String)
        ensures
            r@ == buffer_text(self.container_id@, ""@),
            ascii_bytes(before_nul(self.container_id@)) ==> r@ == ascii_text(before_nul(self.container_id@)),
            self.container_id@[0] == 0 ==> r@ == Seq::<char>::empty(),
    {
        proof {
            if self.container_id@[0] == 0 {
                lemma_empty_before_nul(self.container_id@);
                assert(ascii_text(Seq::<u8>::empty()) =~= Seq::<char>::empty());
            }
        }
        buffer_string(self.container_id.as_slice(), "")
    }

    /// Whether the event names a container.
    pub fn has_container_id(&self) -> (r: bool)
        ensures
            r == (self.container_id@[0] != 0),
    {
        self.container_id[0] != 0
    }

    /// The event type, when the code is known.
    pub fn event_type(&self) -> (r: Option<FileEventType>)
        ensures
            r == type_of_code(self.event_type),
    {
        FileEventType::from_u32(self.event_type)
    }

    /// A record of zeros.
    pub fn zeroed() -> (r: Self)
        ensures
            r.event_type == 0 && r.pid == 0 && r.tgid == 0 && r.uid == 0 && r.gid == 0 && r._pad == 0,
            r.timestamp_ns == 0,
            forall|i: int| 0 <= i < 256 ==> r.path@[i] == 0,
            forall|i: int| 0 <= i < 16 ==> r.comm@[i] == 0,
            forall|i: int| 0 <= i < 64 ==> r.container_id@[i] == 0,
    {
        FileEvent {
            event_type: 0,
            pid: 0,
            tgid: 0,
            uid: 0,
            gid: 0,
            _pad: 0,
            timestamp_ns: 0,
            path: [0u8; 256],
            comm: [0u8; 16],
            container_id: [0u8; 64],
        }
    }
}

} // verus!
