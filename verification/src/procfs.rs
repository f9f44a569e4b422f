//! Process information from `/proc`: the parsing of `stat`, `status` and
//! `cmdline`, and the paths of a process's files.
//!
//! The caller reads the files; this module turns their contents, or the
//! failure to read them, into process information or errors.
use vstd::prelude::*;
use crate::errors::{int_decimal, push_int, FailureKind, ProcError, ReadFailure};
use crate::notify::{join_path, path_join};
use crate::text::{
    decimal, is_ascii_char, is_prefix, owned, parse_unsigned, parse_unsigned_chars, push_decimal,
    push_str, split_char, split_on, split_ws_chars, str_chars, string_from_chars, words,
};

verus! {

/// Information about a process.
#[derive(Debug, Clone, PartialEq, Eq)]
pub struct ProcessInfo {
    pub pid: u32,
    pub ppid: u32,
    pub uid: u32,
    pub gid: u32,
    /// Command name.
    pub comm: String,
    /// Executable path (empty when unreadable).
    pub exe: String,
    /// Arguments.
    pub cmdline: Vec<String>,
    /// Working directory (empty when unreadable).
    pub cwd: String,
}

/// Index of the first `c` in `s`.
pub open spec fn first_index(s: Seq<char>, c: char) -> Option<int> {
    if exists|i: int| 0 <= i < s.len() && s[i] == c {
        Some(choose|i: int| 0 <= i < s.len() && s[i] == c && forall|k: int| 0 <= k < i ==> s[k] != c)
    } else {
        None
    }
}

/// Index of the last `c` in `s`.
pub open spec fn last_index(s: Seq<char>, c: char) -> Option<int> {
    if exists|i: int| 0 <= i < s.len() && s[i] == c {
        Some(choose|i: int| 0 <= i < s.len() && s[i] == c && forall|k: int| i < k < s.len() ==> s[k] != c)
    } else {
        None
    }
}

/// The slicing of a `stat` line around its command name stays inside the
/// line: when both parentheses are there, the last `)` comes after the
/// first `(` and is followed by an ASCII character. (Other lines make the
/// parser index outside the line.)
pub open spec fn stat_slices_ok(s: Seq<char>) -> bool {
    match (first_index(s, '('), last_index(s, ')')) {
        (Some(i), Some(j)) => i < j && j + 1 < s.len() && is_ascii_char(s[j + 1]),
        _ => true,
    }
}

/// The command name and parent PID a `stat` line gives, or why it gives
/// none.
pub open spec fn stat_outcome(s: Seq<char>) -> Result<(Seq<char>, nat), Seq<char>> {
    match first_index(s, '(') {
        None => Err("missing '(' for comm field"@),
        Some(i) => match last_index(s, ')') {
            None => Err("missing ')' for comm field"@),
            Some(j) => {
                let comm = s.subrange(i + 1, j);
                let fields = words(s.subrange(j + 2, s.len() as int));
                if fields.len() < 2 {
                    Err("expected at least 2 fields after comm, got "@ + decimal(fields.len()))
                } else {
                    match parse_unsigned(fields[1], 0xffff_ffff) {
                        None => Err("invalid ppid: '"@ + fields[1] + "'"@),
                        Some(ppid) => Ok((comm, ppid)),
                    }
                }
            },
        },
    }
}

fn find_first(v: &Vec<char>, c: char) -> (r: Option<usize>)
    ensures
        match r {
            Some(i) => first_index(v@, c) == Some(i as int) && i < v@.len(),
            None => first_index(v@, c) is None,
        },
{
    let mut i: usize = 0;
    while i < v.len()
        invariant
            i <= v@.len(),
            forall|k: int| 0 <= k < i ==> v@[k] != c,
        decreases v.len() - i,
    {
        if v[i] == c {
            proof {
                let w = choose|w: int| 0 <= w < v@.len() && v@[w] == c && forall|k: int| 0 <= k < w ==> v@[k] != c;
                assert(w == i) by {
                    if w < i {
                        assert(v@[w] != c);
                    }
                    if w > i {
                        assert(v@[i as int] != c);
                    }
                }
            }
            return Some(i);
        }
        i = i + 1;
    }
    None
}

fn find_last(v: &Vec<char>, c: char) -> (r: Option<usize>)
    ensures
        match r {
            Some(i) => last_index(v@, c) == Some(i as int) && i < v@.len(),
            None => last_index(v@, c) is None,
        },
{
    let mut i: usize = v.len();
    while i > 0
        invariant
            i <= v@.len(),
            forall|k: int| i <= k < v@.len() ==> v@[k] != c,
        decreases i,
    {
        if v[i - 1] == c {
            proof {
                let j = i - 1;
                let w = choose|w: int| 0 <= w < v@.len() && v@[w] == c && forall|k: int| w < k < v@.len() ==> v@[k] != c;
                assert(w == j) by {
                    if w < j {
                        assert(v@[j] != c);
                    }
                    if w > j {
                        assert(v@[w] != c);
                    }
                }
            }
            return Some(i - 1);
        }
        i = i - 1;
    }
    None
}

fn subrange_chars(v: &Vec<char>, from: usize, to: usize) -> (r: Vec<char>)
    requires
        from <= to <= v@.len(),
    ensures
        r@ == v@.subrange(from as int, to as int),
{
    let mut out: Vec<char> = Vec::new();
    let mut k = from;
    while k < to
        invariant
            from <= k <= to <= v@.len(),
            out@ == v@.subrange(from as int, k as int),
        decreases to - k,
    {
        out.push(v[k]);
        assert(v@.subrange(from as int, k + 1) =~= v@.subrange(from as int, k as int).push(v@[k as int]));
        k = k + 1;
    }
    out
}

/// Whether a `stat` line can be sliced around its command name (see
/// `stat_slices_ok`).
pub fn stat_line_sliceable(content: &str) -> (r: bool)
    ensures
        r == stat_slices_ok(content@),
{
    let v = str_chars(content);
    let first = find_first(&v, '(');
    let last = find_last(&v, ')');
    match first {
        Some(i) => match last {
            Some(j) => i < j && j < v.len() - 1 && (v[j + 1] as u32) < 128,
            None => true,
        },
        None => true,
    }
}

/// Parse a `/proc/{pid}/stat` line: the PID, the command name (between the
/// first `(` and the last `)`), and the parent PID (the second field after
/// the command name).
pub fn parse_stat_content(pid: u32, content: &str) -> (r: Result<(u32, String, u32), ProcError>)
    requires
        stat_slices_ok(content@),
    ensures
        match stat_outcome(content@) {
            Ok((comm, ppid)) => r matches Ok((p, c, pp)) && p == pid && c@ == comm && pp == ppid,
            Err(reason) => r matches Err(ProcError::StatParseError { pid: p, reason: m }) && p == pid && m@ == reason,
        },
{
    let v = str_chars(content);
    let i = match find_first(&v, '(') {
        Some(i) => i,
        None => {
            return Err(ProcError::StatParseError { pid, reason: owned("missing '(' for comm field") });
        },
    };
    let j = match find_last(&v, ')') {
        Some(j) => j,
        None => {
            return Err(ProcError::StatParseError { pid, reason: owned("missing ')' for comm field") });
        },
    };
    assert(i < j && j + 1 < v@.len());
    let comm = subrange_chars(&v, i + 1, j);
    let after = subrange_chars(&v, j + 2, v.len());
    let fields = split_ws_chars(&after);
    if fields.len() < 2 {
        let mut m: Vec<char> = Vec::new();
        push_str(&mut m, "expected at least 2 fields after comm, got ");
        push_decimal(&mut m, fields.len() as u64);
        return Err(ProcError::StatParseError { pid, reason: string_from_chars(&m) });
    }
    match parse_unsigned_chars(&fields[1], 0xffff_ffffu64) {
        Some(ppid) => Ok((pid, string_from_chars(&comm), ppid as u32)),
        None => {
            let mut m: Vec<char> = Vec::new();
            push_str(&mut m, "invalid ppid: '");
            let mut k: usize = 0;
            let ghost m0 = m@;
            while k < fields[1].len()
                invariant
                    1 < fields@.len(),
                    k <= fields@[1]@.len(),
                    m@ == m0 + fields@[1]@.subrange(0, k as int),
                decreases fields[1]@.len() - k,
            {
                m.push(fields[1][k]);
                assert(fields@[1]@.subrange(0, k + 1) =~= fields@[1]@.subrange(0, k as int).push(fields@[1]@[k as int]));
                k = k + 1;
            }
            assert(fields@[1]@.subrange(0, fields@[1]@.len() as int) =~= fields@[1]@);
            push_str(&mut m, "'");
            Err(ProcError::StatParseError { pid, reason: string_from_chars(&m) })
        },
    }
}

/// A line without one trailing `\r`.
pub open spec fn strip_cr(l: Seq<char>) -> Seq<char> {
    if l.len() > 0 && l.last() == '\r' {
        l.drop_last()
    } else {
        l
    }
}

/// The lines of `s` as `str::lines` gives them: split at `\n`, a `\r`
/// before the `\n` dropped, no empty line after a final `\n`.
pub open spec fn text_lines(s: Seq<char>) -> Seq<Seq<char>> {
    let p = split_char(s, '\n');
    let n = if p.last().len() == 0 { p.len() - 1 } else { p.len() as int };
    Seq::new(n as nat, |k: int| if k < p.len() - 1 { strip_cr(p[k]) } else { p[k] })
}

/// The first number of a `Uid:`/`Gid:` value.
pub open spec fn first_number(value: Seq<char>) -> Option<nat> {
    let w = words(value);
    if w.len() > 0 {
        parse_unsigned(w[0], 0xffff_ffff)
    } else {
        None
    }
}

/// The real UID and GID found in the first `k` lines of a `status` file;
/// a later line overwrites an earlier one until both are found.
pub open spec fn status_scan(lines: Seq<Seq<char>>, k: int) -> (Option<nat>, Option<nat>)
    decreases k,
{
    if k <= 0 {
        (None, None)
    } else {
        let (u, g) = status_scan(lines, k - 1);
        let l = lines[k - 1];
        if u is Some && g is Some {
            (u, g)
        } else if is_prefix("Uid:"@, l) {
            (first_number(l.subrange(4, l.len() as int)), g)
        } else if is_prefix("Gid:"@, l) {
            (u, first_number(l.subrange(4, l.len() as int)))
        } else {
            (u, g)
        }
    }
}

/// The UID and GID a `status` file gives, or why it gives none.
pub open spec fn status_outcome(s: Seq<char>) -> Result<(nat, nat), Seq<char>> {
    let lines = text_lines(s);
    let (u, g) = status_scan(lines, lines.len() as int);
    match u {
        None => Err("Uid field not found"@),
        Some(uid) => match g {
            None => Err("Gid field not found"@),
            Some(gid) => Ok((uid, gid)),
        },
    }
}

fn first_number_exec(v: &Vec<char>, from: usize) -> (r: Option<u32>)
    requires
        from <= v@.len(),
    ensures
        match r {
            Some(x) => first_number(v@.subrange(from as int, v@.len() as int)) == Some(x as nat),
            None => first_number(v@.subrange(from as int, v@.len() as int)) is None,
        },
{
    let rest = subrange_chars(v, from, v.len());
    let w = split_ws_chars(&rest);
    if w.len() == 0 {
        return None;
    }
    match parse_unsigned_chars(&w[0], 0xffff_ffffu64) {
        Some(x) => Some(x as u32),
        None => None,
    }
}

fn starts_with_chars(v: &Vec<char>, p: &str) -> (r: bool)
    ensures
        r == is_prefix(p@, v@),
{
    let pv = str_chars(p);
    if pv.len() > v.len() {
        return false;
    }
    let mut k: usize = 0;
    while k < pv.len()
        invariant
            pv@ == p@,
            pv@.len() <= v@.len(),
            k <= pv@.len(),
            forall|t: int| 0 <= t < k ==> v@[t] == pv@[t],
        decreases pv.len() - k,
    {
        if v[k] != pv[k] {
            assert(v@.subrange(0, pv@.len() as int)[k as int] != pv@[k as int]);
            return false;
        }
        k = k + 1;
    }
    assert(v@.subrange(0, pv@.len() as int) =~= pv@);
    true
}

/// Parse a `/proc/{pid}/status` file: the real UID (first value of
/// `Uid:`) and the real GID (first value of `Gid:`).
pub fn parse_status_content(pid: u32, content: &str) -> (r: Result<(u32, u32), ProcError>)
    ensures
        match status_outcome(content@) {
            Ok((uid, gid)) => r matches Ok((u, g)) && u == uid && g == gid,
            Err(reason) => r matches Err(ProcError::StatusParseError { pid: p, reason: m }) && p == pid && m@ == reason,
        },
{
    let v = str_chars(content);
    let pieces = split_on(&v, '\n');
    let ghost p = split_char(content@, '\n');
    let ghost lines = text_lines(content@);
    proof {
        crate::text::lemma_split_char_len(content@, '\n');
    }
    let n: usize = if pieces[pieces.len() - 1].len() == 0 { pieces.len() - 1 } else { pieces.len() };
    assert(n == lines.len());
    let mut uid: Option<u32> = None;
    let mut gid: Option<u32> = None;
    let mut k: usize = 0;
    while k < n
        invariant
            v@ == content@,
            p == split_char(content@, '\n'),
            lines == text_lines(content@),
            pieces@.len() == p.len(),
            forall|j: int| 0 <= j < pieces@.len() ==> #[trigger] pieces@[j]@ == p[j],
            n == lines.len(),
            n <= pieces@.len(),
            k <= n,
            (match uid { Some(x) => Some(x as nat), None => None::<nat> }, match gid { Some(x) => Some(x as nat), None => None::<nat> }) == status_scan(lines, k as int),
        decreases n - k,
    {
        if uid.is_some() && gid.is_some() {
            proof {
                assert forall|m: int| k <= m <= n implies status_scan(lines, m) == status_scan(lines, k as int) by {
                    lemma_scan_stops(lines, k as int, m);
                }
            }
            k = n;
        } else {
            let ghost line = lines[k as int];
            let mut l: Vec<char> = Vec::new();
            let src = &pieces[k];
            let mut t: usize = 0;
            while t < src.len()
                invariant
                    k < pieces@.len(),
                    *src == pieces@[k as int],
                    t <= src@.len(),
                    l@ == src@.subrange(0, t as int),
                decreases src@.len() - t,
            {
                l.push(src[t]);
                assert(src@.subrange(0, t + 1) =~= src@.subrange(0, t as int).push(src@[t as int]));
                t = t + 1;
            }
            assert(src@.subrange(0, src@.len() as int) =~= src@);
            if k + 1 < pieces.len() && l.len() > 0 && l[l.len() - 1] == '\r' {
                l.pop();
            }
            assert(l@ =~= line);
            if starts_with_chars(&l, "Uid:") {
                proof {
                    reveal_strlit("Uid:");
                }
                uid = first_number_exec(&l, 4);
            } else if starts_with_chars(&l, "Gid:") {
                proof {
                    reveal_strlit("Gid:");
                }
                gid = first_number_exec(&l, 4);
            }
            k = k + 1;
        }
    }
    match uid {
        None => Err(ProcError::StatusParseError { pid, reason: owned("Uid field not found") }),
        Some(u) => match gid {
            None => Err(ProcError::StatusParseError { pid, reason: owned("Gid field not found") }),
            Some(g) => Ok((u, g)),
        },
    }
}

proof fn lemma_scan_stops(lines: Seq<Seq<char>>, k: int, m: int)
    requires
        0 <= k <= m,
        status_scan(lines, k).0 is Some,
        status_scan(lines, k).1 is Some,
    ensures
        status_scan(lines, m) == status_scan(lines, k),
    decreases m - k,
{
    if m > k {
        lemma_scan_stops(lines, k, m - 1);
    }
}


/// The pieces of `b` between zero bytes, empty pieces included.
pub open spec fn split_nul(b: Seq<u8>) -> Seq<Seq<u8>>
    decreases b.len(),
{
    if b.len() == 0 {
        seq![Seq::<u8>::empty()]
    } else {
        let r = split_nul(b.drop_last());
        if b.last() == 0 {
            r.push(Seq::<u8>::empty())
        } else {
            r.update(r.len() - 1, r.last().push(b.last()))
        }
    }
}

/// The non-empty pieces of `s`, in order.
pub open spec fn non_empty(s: Seq<Seq<u8>>) -> Seq<Seq<u8>>
    decreases s.len(),
{
    if s.len() == 0 {
        Seq::<Seq<u8>>::empty()
    } else {
        let r = non_empty(s.drop_last());
        if s.last().len() > 0 {
            r.push(s.last())
        } else {
            r
        }
    }
}

/// The text `String::from_utf8_lossy` makes of some bytes.
pub uninterp spec fn utf8_lossy(b: Seq<u8>) -> Seq<char>;

/// The characters of ASCII bytes.
pub open spec fn ascii_text(b: Seq<u8>) -> Seq<char> {
    b.map_values(|x: u8| x as char)
}

/// `String::from_utf8_lossy` (std): the text of the bytes, each invalid
/// UTF-8 sequence replaced by U+FFFD; bytes that are all ASCII are valid
/// UTF-8 and give their own characters.
#[verifier::external_body]
fn lossy_string(b: &Vec<u8>) -> (r: String)
    ensures
        r@ == utf8_lossy(b@),
        (forall|i: int| 0 <= i < b@.len() ==> #[trigger] b@[i] < 128) ==> r@ == ascii_text(b@),
{
    String::from_utf8_lossy(b.as_slice()).into_owned()
}

/// The arguments in a `cmdline` file: the non-empty pieces between zero
/// bytes, each as text.
pub open spec fn cmdline_args(b: Seq<u8>) -> Seq<Seq<char>> {
    non_empty(split_nul(b)).map_values(|p: Seq<u8>| utf8_lossy(p))
}

/// Split the contents of `/proc/{pid}/cmdline` into the arguments.
pub fn split_cmdline(bytes: &Vec<u8>) -> (r: Vec<String>)
    ensures
        r@.len() == cmdline_args(bytes@).len(),
        forall|i: int| 0 <= i < r@.len() ==> #[trigger] r@[i]@ == cmdline_args(bytes@)[i],
{
    let mut out: Vec<String> = Vec::new();
    let mut cur: Vec<u8> = Vec::new();
    let mut i: usize = 0;
    assert(bytes@.subrange(0, 0) =~= Seq::<u8>::empty());
    while i < bytes.len()
        invariant
            i <= bytes@.len(),
            split_nul(bytes@.subrange(0, i as int)).len() >= 1,
            cur@ == split_nul(bytes@.subrange(0, i as int)).last(),
            out@.len() == non_empty(split_nul(bytes@.subrange(0, i as int)).drop_last()).len(),
            forall|j: int| 0 <= j < out@.len() ==> #[trigger] out@[j]@ == utf8_lossy(non_empty(split_nul(bytes@.subrange(0, i as int)).drop_last())[j]),
        decreases bytes.len() - i,
    {
        let ghost pre = bytes@.subrange(0, i as int);
        let ghost next = bytes@.subrange(0, i as int + 1);
        assert(next.drop_last() =~= pre);
        let ghost sp = split_nul(pre);
        let ghost old_out = out@;
        let b = bytes[i];
        if b == 0 {
            proof {
                assert(split_nul(next) == sp.push(Seq::<u8>::empty()));
                assert(split_nul(next).drop_last() =~= sp);
                assert(sp.drop_last().push(sp.last()) =~= sp);
            }
            if cur.len() > 0 {
                let s = lossy_string(&cur);
                out.push(s);
            }
            cur = Vec::new();
            proof {
                assert forall|j: int| 0 <= j < out@.len() implies #[trigger] out@[j]@ == utf8_lossy(non_empty(split_nul(next).drop_last())[j]) by {
                    if j < old_out.len() {
                        assert(out@[j] == old_out[j]);
                    }
                }
            }
        } else {
            cur.push(b);
            proof {
                let u = sp.update(sp.len() - 1, sp.last().push(b));
                assert(split_nul(next) == u);
                assert(u.drop_last() =~= sp.drop_last());
            }
        }
        i = i + 1;
    }
    proof {
        assert(bytes@.subrange(0, bytes@.len() as int) =~= bytes@);
        let sp = split_nul(bytes@);
        assert(sp.drop_last().push(sp.last()) =~= sp);
    }
    let ghost old_out = out@;
    if cur.len() > 0 {
        let s = lossy_string(&cur);
        out.push(s);
    }
    proof {
        let sp = split_nul(bytes@);
        assert forall|j: int| 0 <= j < out@.len() implies #[trigger] out@[j]@ == cmdline_args(bytes@)[j] by {
            if j < old_out.len() {
                assert(out@[j] == old_out[j]);
            }
        }
    }
    out
}

/// The error for a failed read of `/proc/{pid}/{file}`.
pub open spec fn read_error_matches(e: ProcError, pid: u32, file: Seq<char>, kind: FailureKind, message: Seq<char>, status_file: bool) -> bool {
    match kind {
        FailureKind::NotFound => e == ProcError::ProcessNotFound { pid },
        FailureKind::PermissionDenied => e matches ProcError::PermissionDenied { pid: p, file: f } && p == pid && f@ == file,
        FailureKind::Other => if status_file {
            e matches ProcError::StatusReadError { pid: p, source: m } && p == pid && m@ == message
        } else {
            e matches ProcError::StatReadError { pid: p, source: m } && p == pid && m@ == message
        },
    }
}

fn read_error(pid: u32, status_file: bool, f: ReadFailure) -> (r: ProcError)
    ensures
        read_error_matches(r, pid, if status_file { "status"@ } else { "stat"@ }, f.kind, f.message@, status_file),
{
    match f.kind {
        FailureKind::NotFound => ProcError::ProcessNotFound { pid },
        FailureKind::PermissionDenied => ProcError::PermissionDenied { pid, file: if status_file { owned("status") } else { owned("stat") } },
        FailureKind::Other => if status_file {
            ProcError::StatusReadError { pid, source: f.message }
        } else {
            ProcError::StatReadError { pid, source: f.message }
        },
    }
}

/// The file `name` of process `pid` under `proc_path`.
pub open spec fn proc_file(proc_path: Seq<char>, pid: u32, name: Seq<char>) -> Seq<char> {
    path_join(proc_path, decimal(pid as nat) + "/"@ + name)
}

/// Reads processes: from what a process's `/proc` files gave, its
/// information, its parent, and the targets of its file descriptors.
pub trait ProcessResolver {
    /// The information of process `pid` from what its files gave: `stat`
    /// and `status` (their errors come first, `stat`'s before `status`'s),
    /// the `exe` and `cwd` links (empty when unreadable) and `cmdline`
    /// (no arguments when unreadable).
    fn get_process_info(
        &self,
        pid: u32,
        stat: Result<String, ReadFailure>,
        status: Result<String, ReadFailure>,
        exe: Option<String>,
        cmdline: Option<Vec<u8>>,
        cwd: Option<String>,
    ) -> (r: Result<ProcessInfo, ProcError>)
        requires
            stat matches Ok(c) ==> stat_slices_ok(c@),
        ensures
            r matches Ok(info) ==> {
                &&& stat matches Ok(c) && stat_outcome(c@) matches Ok((comm, ppid)) && info.comm@ == comm && info.ppid == ppid
                &&& status matches Ok(c) && status_outcome(c@) matches Ok((uid, gid)) && info.uid == uid && info.gid == gid
                &&& info.pid == pid
                &&& info.exe@ == match exe { Some(e) => e@, None => Seq::<char>::empty() }
                &&& info.cwd@ == match cwd { Some(e) => e@, None => Seq::<char>::empty() }
                &&& info.cmdline@.len() == match cmdline { Some(b) => cmdline_args(b@).len(), None => 0 }
                &&& forall|i: int| 0 <= i < info.cmdline@.len() ==> #[trigger] info.cmdline@[i]@ == cmdline_args(cmdline->0@)[i]
            },
            r is Ok <==> ((stat matches Ok(c) && stat_outcome(c@) is Ok) && (status matches Ok(d) && status_outcome(d@) is Ok)),
            (stat matches Err(f) ==> (r matches Err(e) && read_error_matches(e, pid, "stat"@, f.kind, f.message@, false))),
    ;

    /// The parent PID of process `pid`, from the outcome of reading its
    /// `stat` file.
    fn get_parent_pid(&self, pid: u32, stat: Result<String, ReadFailure>) -> (r: Result<u32, ProcError>)
        requires
            stat matches Ok(c) ==> stat_slices_ok(c@),
        ensures
            match stat {
                Err(f) => r matches Err(e) && read_error_matches(e, pid, "stat"@, f.kind, f.message@, false),
                Ok(c) => match stat_outcome(c@) {
                    Ok((_comm, ppid)) => r == Ok::<u32, ProcError>(ppid as u32),
                    Err(reason) => r matches Err(ProcError::StatParseError { pid: p, reason: m }) && p == pid && m@ == reason,
                },
            },
    ;

    /// The target of a file descriptor link from the outcome of reading it:
    /// a missing link means the process is gone when its directory is gone
    /// too; other failures are resolution errors.
    fn resolve_fd_path(&self, pid: u32, fd: i32, read: Result<String, ReadFailure>, process_exists: bool) -> (r: Result<String, ProcError>)
        ensures
            match read {
                Ok(t) => r matches Ok(p) && p@ == t@,
                Err(f) => if f.kind == FailureKind::NotFound && !process_exists {
                    r == Err::<String, ProcError>(ProcError::ProcessNotFound { pid })
                } else {
                    r matches Err(ProcError::FdResolutionError { pid: p, fd: d, source: m }) && p == pid && d == fd && m@ == f.message@
                },
            },
    ;
}

/// Reads processes from a `/proc` directory.
#[derive(Debug)]
pub struct ProcfsProcessResolver {
    proc_path: String,
}

impl ProcfsProcessResolver {
    /// The `/proc` directory read from.
    pub closed spec fn spec_proc_path(&self) -> Seq<char> {
        self.proc_path@
    }

    /// A resolver over `/proc`.
    pub fn new() -> (r: Self)
        ensures
            r.spec_proc_path() == "/proc"@,
    {
        ProcfsProcessResolver { proc_path: owned("/proc") }
    }

    /// A resolver over another `/proc` directory.
    pub fn with_proc_path(proc_path: String) -> (r: Self)
        ensures
            r.spec_proc_path() == proc_path@,
    {
        ProcfsProcessResolver { proc_path }
    }

    /// The file `name` of process `pid`.
    pub fn file_path(&self, pid: u32, name: &str) -> (r: String)
        ensures
            r@ == proc_file(self.spec_proc_path(), pid, name@),
    {
        let mut v: Vec<char> = Vec::new();
        push_decimal(&mut v, pid as u64);
        push_str(&mut v, "/");
        push_str(&mut v, name);
        let rel = string_from_chars(&v);
        join_path(self.proc_path.as_str(), rel.as_str())
    }

    /// The directory of process `pid`; the process exists when it does.
    pub fn process_dir(&self, pid: u32) -> (r: String)
        ensures
            r@ == path_join(self.spec_proc_path(), decimal(pid as nat)),
    {
        let mut v: Vec<char> = Vec::new();
        push_decimal(&mut v, pid as u64);
        let rel = string_from_chars(&v);
        join_path(self.proc_path.as_str(), rel.as_str())
    }

    /// The link of file descriptor `fd` of process `pid`.
    pub fn fd_path(&self, pid: u32, fd: i32) -> (r: String)
        ensures
            r@ == path_join(self.spec_proc_path(), decimal(pid as nat) + "/fd/"@ + int_decimal(fd)),
    {
        let mut v: Vec<char> = Vec::new();
        push_decimal(&mut v, pid as u64);
        push_str(&mut v, "/fd/");
        push_int(&mut v, fd);
        let rel = string_from_chars(&v);
        join_path(self.proc_path.as_str(), rel.as_str())
    }

    /// The PID, command name and parent PID from the outcome of reading
    /// `/proc/{pid}/stat`.
    pub fn parse_stat(&self, pid: u32, read: Result<String, ReadFailure>) -> (r: Result<(u32, String, u32), ProcError>)
        requires
            read matches Ok(c) ==> stat_slices_ok(c@),
        ensures
            match read {
                Err(f) => r matches Err(e) && read_error_matches(e, pid, "stat"@, f.kind, f.message@, false),
                Ok(c) => match stat_outcome(c@) {
                    Ok((comm, ppid)) => r matches Ok((p, cm, pp)) && p == pid && cm@ == comm && pp == ppid,
                    Err(reason) => r matches Err(ProcError::StatParseError { pid: p, reason: m }) && p == pid && m@ == reason,
                },
            },
    {
        match read {
            Err(f) => Err(read_error(pid, false, f)),
            Ok(c) => parse_stat_content(pid, c.as_str()),
        }
    }

    /// The UID and GID from the outcome of reading `/proc/{pid}/status`.
    pub fn parse_status(&self, pid: u32, read: Result<String, ReadFailure>) -> (r: Result<(u32, u32), ProcError>)
        ensures
            match read {
                Err(f) => r matches Err(e) && read_error_matches(e, pid, "status"@, f.kind, f.message@, true),
                Ok(c) => match status_outcome(c@) {
                    Ok((uid, gid)) => r matches Ok((u, g)) && u == uid && g == gid,
                    Err(reason) => r matches Err(ProcError::StatusParseError { pid: p, reason: m }) && p == pid && m@ == reason,
                },
            },
    {
        match read {
            Err(f) => Err(read_error(pid, true, f)),
            Ok(c) => parse_status_content(pid, c.as_str()),
        }
    }

}

impl ProcessResolver for ProcfsProcessResolver {
    fn get_process_info(
        &self,
        pid: u32,
        stat: Result<String, ReadFailure>,
        status: Result<String, ReadFailure>,
        exe: Option<String>,
        cmdline: Option<Vec<u8>>,
        cwd: Option<String>,
    ) -> (r: Result<ProcessInfo, ProcError>) {
        let (p, comm, ppid) = match self.parse_stat(pid, stat) {
            Ok(t) => t,
            Err(e) => {
                return Err(e);
            },
        };
        let (uid, gid) = match self.parse_status(pid, status) {
            Ok(t) => t,
            Err(e) => {
                return Err(e);
            },
        };
        let args = match &cmdline {
            Some(b) => split_cmdline(b),
            None => Vec::new(),
        };
        Ok(ProcessInfo {
            pid: p,
            ppid,
            uid,
            gid,
            comm,
            exe: match exe {
                Some(e) => e,
                None => String::new(),
            },
            cmdline: args,
            cwd: match cwd {
                Some(c) => c,
                None => String::new(),
            },
        })
    }

    fn get_parent_pid(&self, pid: u32, stat: Result<String, ReadFailure>) -> (r: Result<u32, ProcError>) {
        match self.parse_stat(pid, stat) {
            Ok((_, _, ppid)) => Ok(ppid),
            Err(e) => Err(e),
        }
    }

    fn resolve_fd_path(&self, pid: u32, fd: i32, read: Result<String, ReadFailure>, process_exists: bool) -> (r: Result<String, ProcError>) {
        match read {
            Ok(t) => Ok(t),
            Err(f) => {
                if f.kind == FailureKind::NotFound && !process_exists {
                    Err(ProcError::ProcessNotFound { pid })
                } else {
                    Err(ProcError::FdResolutionError { pid, fd, source: f.message })
                }
            },
        }
    }
}

impl Default for ProcfsProcessResolver {
    fn default() -> (r: Self)
        ensures
            r.spec_proc_path() == Seq::<char>::empty(),
    {
        ProcfsProcessResolver { proc_path: String::new() }
    }
}

} // verus!
