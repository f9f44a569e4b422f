//! Computations of the kernel-side event probes: assembling a path from the
//! dentry chain, rendering a command line, copying an executable name, and
//! the two-stage in-kernel path filter (discarders, then prefix approvers).
//!
//! The probes read kernel memory; what they read is handed to these
//! functions as plain byte sequences, and the fixed-size output buffers are
//! those the probes fill.
use vstd::prelude::*;

verus! {

/// Size of the path buffer of an event.
pub const MAX_PATH_LEN: usize = 256;

/// Largest number of dentries walked towards the root.
pub const MAX_DEPTH: usize = 20;

/// Largest number of bytes read of one path component.
pub const MAX_NAME: usize = 32;

/// Size of the keys of the prefix approver map.
pub const PREFIX_KEY_LEN: usize = 128;

/// Largest number of command-line bytes read from the process image.
pub const MAX_CMDLINE_READ: usize = 128;

/// A path component as the probe reads it: at most `MAX_NAME` bytes.
pub open spec fn clip_name(n: Seq<u8>) -> Seq<u8> {
    if n.len() <= MAX_NAME {
        n
    } else {
        n.subrange(0, MAX_NAME as int)
    }
}

/// The path assembled from component names `names[i..]` (leaf first) in
/// front of the already assembled `suffix`: each component is put in front
/// as `/name`, and the walk stops after `MAX_DEPTH` components, at an empty
/// component, or when the next component would not fit in the buffer.
pub open spec fn walk_path(names: Seq<Seq<u8>>, i: int, suffix: Seq<u8>) -> Seq<u8>
    decreases names.len() - i,
{
    if i < 0 || i >= names.len() || i >= MAX_DEPTH {
        suffix
    } else {
        let n = clip_name(names[i]);
        if n.len() == 0 || n.len() + 1 + suffix.len() > MAX_PATH_LEN {
            suffix
        } else {
            walk_path(names, i + 1, seq!['/' as u8] + n + suffix)
        }
    }
}

/// The path of a dentry whose chain of component names towards the root is
/// `names` (leaf first, the root itself not included): `/` for the root.
pub open spec fn dentry_path(names: Seq<Seq<u8>>) -> Seq<u8> {
    let p = walk_path(names, 0, Seq::empty());
    if p.len() == 0 {
        seq!['/' as u8]
    } else {
        p
    }
}

proof fn lemma_walk_path_len(names: Seq<Seq<u8>>, i: int, suffix: Seq<u8>)
    requires
        suffix.len() <= MAX_PATH_LEN,
    ensures
        walk_path(names, i, suffix).len() <= MAX_PATH_LEN,
        walk_path(names, i, suffix).len() >= suffix.len(),
    decreases names.len() - i,
{
    if !(i < 0 || i >= names.len() || i >= MAX_DEPTH) {
        let n = clip_name(names[i]);
        if !(n.len() == 0 || n.len() + 1 + suffix.len() > MAX_PATH_LEN) {
            lemma_walk_path_len(names, i + 1, seq!['/' as u8] + n + suffix);
        }
    }
}

/// Assemble the path of a dentry from its chain of component names (leaf
/// first, the root not included) into `out`, returning the path length.
/// The path is followed by a zero byte when it leaves room for one.
pub fn extract_path_from_names(names: &Vec<Vec<u8>>, out: &mut [u8; 256]) -> (len: usize)
    ensures
        len as int == dentry_path(names.deep_view()).len(),
        1 <= len <= MAX_PATH_LEN,
        final(out)@.subrange(0, len as int) == dentry_path(names.deep_view()),
        len < MAX_PATH_LEN ==> final(out)@[len as int] == 0,
{
    let ghost dv = names.deep_view();
    let mut suffix: Vec<u8> = Vec::new();
    let mut i: usize = 0;
    let mut done = false;
    while i < names.len() && i < MAX_DEPTH && !done
        invariant
            dv == names.deep_view(),
            i <= names.len(),
            suffix@.len() <= MAX_PATH_LEN,
            done ==> walk_path(dv, 0, Seq::empty()) == suffix@,
            !done ==> walk_path(dv, 0, Seq::empty()) == walk_path(dv, i as int, suffix@),
        decreases 2 * (names.len() - i) + (if done { 0int } else { 1int }),
    {
        let name = &names[i];
        let nlen: usize = if name.len() <= MAX_NAME {
            name.len()
        } else {
            MAX_NAME
        };
        assert(name@ == dv[i as int]);
        if nlen == 0 || nlen + 1 + suffix.len() > MAX_PATH_LEN {
            done = true;
        } else {
            let mut next: Vec<u8> = Vec::new();
            next.push(47u8);
            let mut k: usize = 0;
            while k < nlen
                invariant
                    nlen <= name@.len(),
                    k <= nlen,
                    next@ == seq![47u8] + name@.subrange(0, k as int),
                decreases nlen - k,
            {
                next.push(name[k]);
                assert(name@.subrange(0, k as int + 1) =~= name@.subrange(0, k as int).push(
                    name@[k as int],
                ));
                k = k + 1;
            }
            let mut j: usize = 0;
            let ghost base = next@;
            while j < suffix.len()
                invariant
                    j <= suffix@.len(),
                    next@ == base + suffix@.subrange(0, j as int),
                decreases suffix.len() - j,
            {
                next.push(suffix[j]);
                assert(suffix@.subrange(0, j as int + 1) =~= suffix@.subrange(0, j as int).push(
                    suffix@[j as int],
                ));
                j = j + 1;
            }
            proof {
                assert(clip_name(dv[i as int]) =~= name@.subrange(0, nlen as int));
                assert(next@ =~= seq!['/' as u8] + clip_name(dv[i as int]) + suffix@);
            }
            suffix = next;
            i = i + 1;
        }
    }
    proof {
        if !done {
            assert(walk_path(dv, i as int, suffix@) == suffix@);
        }
    }
    let mut len = suffix.len();
    if len == 0 {
        out.set(0, 47u8);
        out.set(1, 0u8);
        len = 1;
        assert(out@.subrange(0, 1) =~= seq!['/' as u8]);
        return len;
    }
    let mut m: usize = 0;
    while m < len
        invariant
            len == suffix@.len(),
            1 <= len <= MAX_PATH_LEN,
            m <= len,
            out@.len() == MAX_PATH_LEN,
            out@.subrange(0, m as int) == suffix@.subrange(0, m as int),
        decreases len - m,
    {
        out.set(m, suffix[m]);
        assert(out@.subrange(0, m as int + 1) =~= suffix@.subrange(0, m as int + 1));
        m = m + 1;
    }
    if len < MAX_PATH_LEN {
        out.set(len, 0u8);
        assert(out@.subrange(0, len as int) =~= suffix@.subrange(0, len as int));
    }
    assert(suffix@.subrange(0, len as int) =~= suffix@);
    len
}

/// Size of the working-directory buffer of the process cache.
pub const MAX_CWD_LEN: usize = 128;

/// The working directory of a process whose current directory has the
/// chain of component names `names` (leaf first, the root not included):
/// the dentry path, cut to leave room for the closing zero byte.
pub open spec fn cwd_path(names: Seq<Seq<u8>>) -> Seq<u8> {
    let p = dentry_path(names);
    if p.len() < MAX_CWD_LEN {
        p
    } else {
        p.subrange(0, MAX_CWD_LEN - 1)
    }
}

/// Write the working directory of a process into `out` from the chain of
/// component names of its current directory, followed by a zero byte;
/// returns its length.
pub fn extract_cwd_from_names(names: &Vec<Vec<u8>>, out: &mut [u8; 128]) -> (len: usize)
    ensures
        len as int == cwd_path(names.deep_view()).len(),
        len < MAX_CWD_LEN,
        final(out)@.subrange(0, len as int) == cwd_path(names.deep_view()),
        final(out)@[len as int] == 0,
{
    let mut path_buf = [0u8; 256];
    let plen = extract_path_from_names(names, &mut path_buf);
    let copy_len: usize = if plen < MAX_CWD_LEN - 1 {
        plen
    } else {
        MAX_CWD_LEN - 1
    };
    let ghost p = dentry_path(names.deep_view());
    let mut i: usize = 0;
    while i < copy_len
        invariant
            copy_len <= plen,
            copy_len < MAX_CWD_LEN,
            plen <= MAX_PATH_LEN,
            path_buf@.len() == MAX_PATH_LEN,
            path_buf@.subrange(0, plen as int) == p,
            out@.len() == MAX_CWD_LEN,
            i <= copy_len,
            out@.subrange(0, i as int) == p.subrange(0, i as int),
        decreases copy_len - i,
    {
        assert(path_buf@[i as int] == p[i as int]) by {
            assert(path_buf@.subrange(0, plen as int)[i as int] == path_buf@[i as int]);
        }
        out.set(i, path_buf[i]);
        assert(out@.subrange(0, i as int + 1) =~= p.subrange(0, i as int + 1));
        i = i + 1;
    }
    out.set(copy_len, 0u8);
    assert(out@.subrange(0, copy_len as int) =~= p.subrange(0, copy_len as int));
    assert(p.subrange(0, copy_len as int) =~= cwd_path(names.deep_view()));
    copy_len
}

// ---------------------------------------------------------------------------
// Command line and executable name
// ---------------------------------------------------------------------------

/// What the byte at position `i` of the command line contributes: a zero
/// separator becomes a space unless it is the last byte to be read, other
/// bytes are kept.
pub open spec fn cmdline_piece(raw: Seq<u8>, read_len: int, i: int) -> Seq<u8> {
    if raw[i] == 0 {
        if i + 1 < read_len {
            seq![' ' as u8]
        } else {
            Seq::empty()
        }
    } else {
        seq![raw[i]]
    }
}

/// The rendering of the first `m` bytes of the command line.
pub open spec fn cmdline_render(raw: Seq<u8>, read_len: int, m: int) -> Seq<u8>
    decreases m,
{
    if m <= 0 {
        Seq::empty()
    } else {
        cmdline_render(raw, read_len, m - 1) + cmdline_piece(raw, read_len, m - 1)
    }
}

/// The command line shown for a process: its argument bytes (those read,
/// at most `read_len`) with zero separators turned into spaces, cut to the
/// `cap` bytes that leave room for a terminating zero.
pub open spec fn cmdline_text(raw: Seq<u8>, read_len: int, cap: int) -> Seq<u8> {
    let m = if raw.len() < read_len {
        raw.len() as int
    } else {
        read_len
    };
    let full = cmdline_render(raw, read_len, m);
    if full.len() <= cap {
        full
    } else {
        full.subrange(0, cap)
    }
}

proof fn lemma_cmdline_render_prefix(raw: Seq<u8>, read_len: int, a: int, b: int)
    requires
        0 <= a <= b <= raw.len(),
    ensures
        cmdline_render(raw, read_len, a).len() <= cmdline_render(raw, read_len, b).len(),
        cmdline_render(raw, read_len, b).subrange(0, cmdline_render(raw, read_len, a).len() as int)
            == cmdline_render(raw, read_len, a),
    decreases b - a,
{
    if a < b {
        lemma_cmdline_render_prefix(raw, read_len, a, b - 1);
        let x = cmdline_render(raw, read_len, a);
        let y = cmdline_render(raw, read_len, b - 1);
        let z = cmdline_render(raw, read_len, b);
        assert(z =~= y + cmdline_piece(raw, read_len, b - 1));
        assert(z.subrange(0, x.len() as int) =~= y.subrange(0, x.len() as int));
    } else {
        assert(cmdline_render(raw, read_len, a).subrange(0, cmdline_render(raw, read_len, a).len() as int)
            =~= cmdline_render(raw, read_len, a));
    }
}

/// Render the argument bytes of a process (`raw`: the bytes read, at most
/// `read_len` of them) into `out`: zero separators become spaces except the
/// last byte, the text is cut to leave room for a terminating zero, and the
/// length of the text is returned.
pub fn render_cmdline<const N: usize>(raw: &Vec<u8>, read_len: usize, out: &mut [u8; N]) -> (len: usize)
    requires
        N >= 1,
        read_len <= MAX_CMDLINE_READ,
    ensures
        len as int == cmdline_text(raw@, read_len as int, N - 1).len(),
        final(out)@.subrange(0, len as int) == cmdline_text(raw@, read_len as int, N - 1),
        len < N ==> final(out)@[len as int] == 0,
{
    let ghost m = if raw@.len() < read_len as int {
        raw@.len() as int
    } else {
        read_len as int
    };
    let mut pos: usize = 0;
    let mut i: usize = 0;
    while i < read_len && i < raw.len() && pos < N - 1
        invariant
            N >= 1,
            read_len <= MAX_CMDLINE_READ,
            i <= read_len,
            i <= raw@.len(),
            out@.len() == N,
            pos <= N - 1,
            pos <= cmdline_render(raw@, read_len as int, i as int).len(),
            out@.subrange(0, pos as int) == cmdline_render(raw@, read_len as int, i as int).subrange(0, pos as int),
            pos < N - 1 ==> pos == cmdline_render(raw@, read_len as int, i as int).len(),
        decreases read_len - i,
    {
        let b = raw[i];
        let ghost before = cmdline_render(raw@, read_len as int, i as int);
        let ghost o = out@;
        proof {
            assert(cmdline_render(raw@, read_len as int, i as int + 1) =~= before + cmdline_piece(raw@, read_len as int, i as int));
            assert(pos == before.len());
            assert(o.subrange(0, pos as int) =~= before);
        }
        if b == 0 {
            if i + 1 < read_len {
                out.set(pos, 32u8);
                assert(out@.subrange(0, pos as int + 1) =~= o.subrange(0, pos as int).push(32u8));
                assert(before + cmdline_piece(raw@, read_len as int, i as int) =~= before.push(32u8));
                pos = pos + 1;
            } else {
                assert(before + cmdline_piece(raw@, read_len as int, i as int) =~= before);
            }
        } else {
            out.set(pos, b);
            assert(out@.subrange(0, pos as int + 1) =~= o.subrange(0, pos as int).push(b));
            assert(before + cmdline_piece(raw@, read_len as int, i as int) =~= before.push(b));
            pos = pos + 1;
        }
        i = i + 1;
    }
    proof {
        let full = cmdline_render(raw@, read_len as int, m);
        lemma_cmdline_render_prefix(raw@, read_len as int, i as int, m);
        let cur = cmdline_render(raw@, read_len as int, i as int);
        if pos < N - 1 {
            assert(i as int == m);
            assert(cur.subrange(0, pos as int) =~= cur);
        } else {
            assert(full.subrange(0, pos as int) =~= cur.subrange(0, pos as int));
        }
    }
    let ghost o2 = out@;
    if pos < N {
        out.set(pos, 0u8);
        assert(out@.subrange(0, pos as int) =~= o2.subrange(0, pos as int));
    }
    pos
}

/// The bytes up to the first zero byte of `raw` (all of `raw` without one),
/// cut to `cap` bytes.
pub open spec fn c_string_text(raw: Seq<u8>, cap: int) -> Seq<u8>
    decreases raw.len(),
{
    if raw.len() == 0 || cap <= 0 || raw[0] == 0 {
        Seq::empty()
    } else {
        seq![raw[0]] + c_string_text(raw.drop_first(), cap - 1)
    }
}

proof fn lemma_c_string_step(raw: Seq<u8>, cap: int, k: int)
    requires
        0 <= k < raw.len(),
        k < cap,
        forall|t: int| 0 <= t <= k ==> raw[t] != 0,
    ensures
        c_string_text(raw, cap).len() > k,
        c_string_text(raw, cap)[k] == raw[k],
    decreases k,
{
    if k > 0 {
        lemma_c_string_step(raw.drop_first(), cap - 1, k - 1);
    }
}

proof fn lemma_c_string_len(raw: Seq<u8>, cap: int, k: int)
    requires
        0 <= k <= raw.len(),
        k <= cap || cap <= 0,
        forall|t: int| 0 <= t < k ==> raw[t] != 0,
        k == raw.len() || k == cap || raw[k] == 0 || cap <= 0,
    ensures
        c_string_text(raw, cap).len() == (if cap <= 0 { 0 } else { k }),
    decreases k,
{
    if k > 0 && cap > 0 {
        lemma_c_string_len(raw.drop_first(), cap - 1, k - 1);
    }
}

/// Copy the executable name read from the process image (`raw`: the bytes
/// read) into `out` up to its terminating zero, keeping room for a zero,
/// and return its length.
pub fn copy_exe_name<const N: usize>(raw: &Vec<u8>, out: &mut [u8; N]) -> (len: usize)
    requires
        N >= 1,
    ensures
        len as int == c_string_text(raw@, N - 1).len(),
        final(out)@.subrange(0, len as int) == c_string_text(raw@, N - 1),
        len < N ==> final(out)@[len as int] == 0,
{
    let mut len: usize = 0;
    let mut i: usize = 0;
    let mut stop = false;
    while i < N - 1 && i < raw.len() && !stop
        invariant
            N >= 1,
            i <= N - 1,
            i <= raw@.len(),
            out@.len() == N,
            len == i,
            forall|t: int| 0 <= t < i ==> raw@[t] != 0,
            stop ==> i < raw@.len() && raw@[i as int] == 0,
            forall|t: int| 0 <= t < i ==> out@[t] == raw@[t],
        decreases N - i + (if stop { 0int } else { 1int }),
    {
        let b = raw[i];
        if b == 0 {
            stop = true;
        } else {
            out.set(i, b);
            i = i + 1;
            len = i;
        }
    }
    proof {
        lemma_c_string_len(raw@, N - 1, i as int);
        assert forall|t: int| 0 <= t < i implies out@.subrange(0, len as int)[t] == c_string_text(raw@, N - 1)[t] by {
            lemma_c_string_step(raw@, N - 1, t);
        }
        assert(out@.subrange(0, len as int) =~= c_string_text(raw@, N - 1));
    }
    if len < N {
        out.set(len, 0u8);
        assert(out@.subrange(0, len as int) =~= c_string_text(raw@, N - 1));
    }
    len
}

// ---------------------------------------------------------------------------
// In-kernel path filter
// ---------------------------------------------------------------------------

/// Length of the zero-terminated text in `path` (all of it without a zero).
pub open spec fn c_len(path: Seq<u8>) -> int {
    if exists|i: int| 0 <= i < path.len() && path[i] == 0 {
        choose|i: int| 0 <= i < path.len() && path[i] == 0 && forall|j: int| 0 <= j < i ==> path[j] != 0
    } else {
        path.len() as int
    }
}

/// The text of a zero-terminated buffer: its bytes before the first zero.
pub open spec fn c_text(b: Seq<u8>) -> Seq<u8> {
    b.subrange(0, c_len(b))
}

/// The contents of fixed-size approver keys.
pub open spec fn prefix_keys(v: Seq<[u8; 128]>) -> Seq<Seq<u8>> {
    v.map_values(|k: [u8; 128]| k@)
}

/// The contents of fixed-size discarder keys.
pub open spec fn path_keys(v: Seq<[u8; 256]>) -> Seq<Seq<u8>> {
    v.map_values(|k: [u8; 256]| k@)
}

/// Whether the in-kernel filter lets an event with `path` through: with
/// filtering disabled (no flag, or flag 0) every event passes; a path among
/// the ignored paths is dropped; otherwise the event passes when the text of
/// some approved prefix is a prefix of the path's text.
pub open spec fn filter_passes(
    path: Seq<u8>,
    prefixes: Seq<Seq<u8>>,
    ignored: Seq<Seq<u8>>,
    enabled: Option<u32>,
) -> bool {
    let flag = match enabled {
        Some(v) => v,
        None => 0u32,
    };
    if flag == 0 {
        true
    } else if ignored.contains(path) {
        false
    } else {
        exists|j: int| 0 <= j < prefixes.len() && #[trigger] c_text(prefixes[j]).is_prefix_of(c_text(path))
    }
}

proof fn lemma_c_len_bounds(b: Seq<u8>)
    ensures
        0 <= c_len(b) <= b.len(),
        forall|i: int| 0 <= i < c_len(b) ==> b[i] != 0,
        c_len(b) < b.len() ==> b[c_len(b)] == 0,
{
    if exists|i: int| 0 <= i < b.len() && b[i] == 0 {
        let c = choose|i: int| 0 <= i < b.len() && b[i] == 0 && forall|j: int| 0 <= j < i ==> b[j] != 0;
        let i0 = choose|i: int| 0 <= i < b.len() && b[i] == 0;
        lemma_first_zero(b, i0);
    }
}

proof fn lemma_first_zero(b: Seq<u8>, i0: int)
    requires
        0 <= i0 < b.len(),
        b[i0] == 0,
    ensures
        exists|i: int| 0 <= i < b.len() && b[i] == 0 && forall|j: int| 0 <= j < i ==> b[j] != 0,
    decreases i0,
{
    if exists|j: int| 0 <= j < i0 && b[j] == 0 {
        let j = choose|j: int| 0 <= j < i0 && b[j] == 0;
        lemma_first_zero(b, j);
    } else {
        assert(forall|j: int| 0 <= j < i0 ==> b[j] != 0);
    }
}

/// Index of the first zero byte of `path`, or its length.
pub fn zero_terminated_len(path: &[u8; 256]) -> (r: usize)
    ensures
        r == c_len(path@),
        r <= MAX_PATH_LEN,
{
    let mut i: usize = 0;
    while i < MAX_PATH_LEN && path[i] != 0
        invariant
            i <= MAX_PATH_LEN,
            path@.len() == MAX_PATH_LEN,
            forall|j: int| 0 <= j < i ==> path@[j] != 0,
        decreases MAX_PATH_LEN - i,
    {
        i = i + 1;
    }
    proof {
        if i < MAX_PATH_LEN {
            assert(exists|k: int| 0 <= k < path@.len() && path@[k] == 0);
            let c = choose|k: int| 0 <= k < path@.len() && path@[k] == 0 && forall|j: int| 0 <= j < k ==> path@[j] != 0;
            assert(path@[i as int] == 0);
            assert(c == i) by {
                if c < i {
                    assert(path@[c] != 0);
                } else if c > i {
                    assert(path@[i as int] != 0);
                }
            }
        } else {
            assert(!exists|k: int| 0 <= k < path@.len() && path@[k] == 0);
        }
    }
    i
}

fn key_eq_path(key: &[u8; 256], path: &[u8; 256]) -> (r: bool)
    ensures
        r == (key@ == path@),
{
    let mut k: usize = 0;
    while k < 256
        invariant
            k <= 256,
            key@.len() == 256,
            path@.len() == 256,
            forall|j: int| 0 <= j < k ==> key@[j] == path@[j],
        decreases 256 - k,
    {
        if key[k] != path[k] {
            return false;
        }
        k = k + 1;
    }
    assert(key@ =~= path@);
    true
}

/// Index of the first zero byte of an approver key, or its length.
fn key_text_len(key: &[u8; 128]) -> (r: usize)
    ensures
        r == c_len(key@),
        r <= PREFIX_KEY_LEN,
{
    let mut i: usize = 0;
    while i < PREFIX_KEY_LEN && key[i] != 0
        invariant
            i <= PREFIX_KEY_LEN,
            key@.len() == PREFIX_KEY_LEN,
            forall|j: int| 0 <= j < i ==> key@[j] != 0,
        decreases PREFIX_KEY_LEN - i,
    {
        i = i + 1;
    }
    proof {
        lemma_c_len_bounds(key@);
        let c = c_len(key@);
        if c < i {
            assert(key@[c] == 0);
        } else if c > i {
            assert(key@[i as int] == 0);
        }
    }
    i
}

/// Whether the text of `key` is a prefix of the text of `path`, whose text
/// is `plen` bytes long.
fn key_prefixes_path(key: &[u8; 128], path: &[u8; 256], plen: usize) -> (r: bool)
    requires
        plen == c_len(path@),
    ensures
        r == c_text(key@).is_prefix_of(c_text(path@)),
{
    proof {
        lemma_c_len_bounds(key@);
        lemma_c_len_bounds(path@);
    }
    let klen = key_text_len(key);
    if klen > plen {
        return false;
    }
    let mut k: usize = 0;
    while k < klen
        invariant
            k <= klen,
            klen <= plen,
            klen == c_len(key@),
            plen == c_len(path@),
            plen <= 256,
            klen <= 128,
            key@.len() == 128,
            path@.len() == 256,
            forall|j: int| 0 <= j < k ==> key@[j] == path@[j],
        decreases klen - k,
    {
        if key[k] != path[k] {
            assert(c_text(key@)[k as int] != c_text(path@).subrange(0, klen as int)[k as int]);
            return false;
        }
        k = k + 1;
    }
    assert(c_text(key@) =~= c_text(path@).subrange(0, klen as int));
    true
}

/// Whether the in-kernel filter lets an event with `path` through, given
/// the approved prefixes, the ignored paths and the global filter flag.
pub fn should_emit_event(
    path: &[u8; 256],
    prefixes: &Vec<[u8; 128]>,
    ignored: &Vec<[u8; 256]>,
    enabled: Option<u32>,
) -> (r: bool)
    ensures
        r == filter_passes(path@, prefix_keys(prefixes@), path_keys(ignored@), enabled),
{
    let ghost pv = prefix_keys(prefixes@);
    let ghost iv = path_keys(ignored@);
    let flag: u32 = match enabled {
        Some(v) => v,
        None => 0u32,
    };
    if flag == 0 {
        return true;
    }
    let mut t: usize = 0;
    while t < ignored.len()
        invariant
            iv == path_keys(ignored@),
            t <= ignored@.len(),
            enabled is Some && enabled->0 != 0,
            forall|j: int| 0 <= j < t ==> iv[j] != path@,
        decreases ignored.len() - t,
    {
        if key_eq_path(&ignored[t], path) {
            assert(iv[t as int] == path@);
            assert(iv.contains(path@));
            return false;
        }
        t = t + 1;
    }
    assert(!iv.contains(path@));
    let plen = zero_terminated_len(path);
    let mut j: usize = 0;
    while j < prefixes.len()
        invariant
            pv == prefix_keys(prefixes@),
            plen == c_len(path@),
            j <= prefixes@.len(),
            enabled is Some && enabled->0 != 0,
            iv == path_keys(ignored@),
            !iv.contains(path@),
            forall|jj: int| 0 <= jj < j ==> !(#[trigger] c_text(pv[jj])).is_prefix_of(c_text(path@)),
        decreases prefixes.len() - j,
    {
        if key_prefixes_path(&prefixes[j], path, plen) {
            assert(pv[j as int] == prefixes@[j as int]@);
            assert(c_text(pv[j as int]).is_prefix_of(c_text(path@)));
            return true;
        }
        assert(pv[j as int] == prefixes@[j as int]@);
        j = j + 1;
    }
    false
}

/// Whether an event is handed to user space: an event whose path is not
/// filled in yet always is; otherwise the in-kernel filter decides.
pub fn passes_submit_filter(
    path: &[u8; 256],
    prefixes: &Vec<[u8; 128]>,
    ignored: &Vec<[u8; 256]>,
    enabled: Option<u32>,
) -> (r: bool)
    ensures
        r == (path@[0] == 0 || filter_passes(path@, prefix_keys(prefixes@), path_keys(ignored@), enabled)),
{
    if path[0] == 0 {
        return true;
    }
    should_emit_event(path, prefixes, ignored, enabled)
}


/// With filtering disabled every event is handed to user space.
pub proof fn law_disabled_filter_passes_all(path: Seq<u8>, prefixes: Seq<Seq<u8>>, ignored: Seq<Seq<u8>>, flag: Option<u32>)
    requires
        flag is None || flag == Some(0u32),
    ensures
        filter_passes(path, prefixes, ignored, flag),
{
}

/// The discarders are consulted before the approvers: with filtering on,
/// an ignored path is dropped whatever prefixes are approved.
pub proof fn law_ignored_path_dropped(path: Seq<u8>, prefixes: Seq<Seq<u8>>, ignored: Seq<Seq<u8>>, flag: u32)
    requires
        flag != 0,
        ignored.contains(path),
    ensures
        !filter_passes(path, prefixes, ignored, Some(flag)),
{
}

} // verus!
