//! eBPF support checks, loader errors, and the keys of the in-kernel
//! filter maps.
//!
//! Loading programs and updating maps are system calls and belong to the
//! caller.
use vstd::prelude::*;
use crate::environment::{check_kernel_version, version_at_least};
use crate::text::{push_str, string_from_chars};

verus! {

/// Whether eBPF LSM programs can be loaded: kernel 5.7 or later (from the
/// release, none when unreadable) and BTF present.
pub fn is_ebpf_supported(release: Option<&str>, btf_exists: bool) -> (r: bool)
    ensures
        r == (version_at_least(
            match release {
                Some(s) => Some(s@),
                None => None::<Seq<char>>,
            },
            5,
            7,
        ) && btf_exists),
{
    if !check_kernel_version(release, 5, 7) {
        return false;
    }
    btf_exists
}

/// eBPF errors.
#[derive(Debug)]
pub enum EbpfError {
    /// Loading failed; the loader's message.
    Load(String),
    /// Attaching a program failed.
    Attach(String),
    /// A map could not be used.
    MapAccess(String),
    /// The kernel cannot run the programs.
    NotSupported,
    /// Capabilities are missing.
    MissingCapabilities,
    /// The bytecode file could not be read.
    BytecodeRead { path: String, source: String },
    /// The event channel closed.
    ChannelClosed,
}

/// The message of an eBPF error.
pub open spec fn ebpf_error_text(e: EbpfError) -> Seq<char> {
    match e {
        EbpfError::Load(m) => "Failed to load eBPF program: "@ + m@,
        EbpfError::Attach(m) => "Failed to attach LSM program: "@ + m@,
        EbpfError::MapAccess(m) => "Failed to access map: "@ + m@,
        EbpfError::NotSupported => "eBPF not supported on this kernel (requires 5.7+ with BTF)"@,
        EbpfError::MissingCapabilities => "Missing required capabilities (need CAP_BPF + CAP_PERFMON or CAP_SYS_ADMIN)"@,
        EbpfError::BytecodeRead { path, source } => "Failed to read eBPF bytecode from "@ + path@ + ": "@ + source@,
        EbpfError::ChannelClosed => "Event channel closed"@,
    }
}

impl EbpfError {
    /// The error's message.
    pub fn message(&self) -> (r: String)
        ensures
            r@ == ebpf_error_text(*self),
    {
        let mut v: Vec<char> = Vec::new();
        match self {
            EbpfError::Load(m) => {
                push_str(&mut v, "Failed to load eBPF program: ");
                push_str(&mut v, m.as_str());
            },
            EbpfError::Attach(m) => {
                push_str(&mut v, "Failed to attach LSM program: ");
                push_str(&mut v, m.as_str());
            },
            EbpfError::MapAccess(m) => {
                push_str(&mut v, "Failed to access map: ");
                push_str(&mut v, m.as_str());
            },
            EbpfError::NotSupported => {
                push_str(&mut v, "eBPF not supported on this kernel (requires 5.7+ with BTF)");
            },
            EbpfError::MissingCapabilities => {
                push_str(&mut v, "Missing required capabilities (need CAP_BPF + CAP_PERFMON or CAP_SYS_ADMIN)");
            },
            EbpfError::BytecodeRead { path, source } => {
                push_str(&mut v, "Failed to read eBPF bytecode from ");
                push_str(&mut v, path.as_str());
                push_str(&mut v, ": ");
                push_str(&mut v, source.as_str());
            },
            EbpfError::ChannelClosed => {
                push_str(&mut v, "Event channel closed");
            },
        }
        assert(v@ =~= ebpf_error_text(*self));
        string_from_chars(&v)
    }
}

/// The key of a path in a filter map of `N`-byte keys: its first `N`
/// bytes, zero-filled.
pub open spec fn key_matches(key: Seq<u8>, path: Seq<u8>, n: int) -> bool {
    &&& key.len() == n
    &&& forall|i: int| 0 <= i < n ==> #[trigger] key[i] == if i < path.len() { path[i] } else { 0u8 }
}

/// The key of a path (its UTF-8 bytes) in a filter map of `N`-byte keys.
pub fn path_to_key<const N: usize>(path: &Vec<u8>) -> (r: [u8; N])
    ensures
        key_matches(r@, path@, N as int),
{
    let mut key = [0u8; N];
    let len = if path.len() < N { path.len() } else { N };
    let mut i: usize = 0;
    while i < len
        invariant
            len <= N,
            len <= path@.len(),
            len == path@.len() || len == N,
            i <= len,
            key@.len() == N,
            forall|k: int| 0 <= k < i ==> #[trigger] key@[k] == path@[k],
            forall|k: int| i <= k < N ==> #[trigger] key@[k] == 0u8,
        decreases len - i,
    {
        key[i] = path[i];
        i = i + 1;
    }
    key
}

} // verus!
