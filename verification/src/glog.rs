//! Log lines in the Google logging (glog) format:
//! `I20260112 02:57:55.426868 123456 main.rs:99] message key=value`.
//!
//! The subscriber plumbing that collects an event's level, location and
//! fields belongs to the caller; this module writes the line.
use vstd::prelude::*;
use crate::text::{decimal, parse_unsigned, parse_unsigned_chars, push_decimal, push_str, split_char, split_on, str_chars, string_from_chars, owned};

verus! {

/// Log levels.
#[derive(Debug, Clone, Copy, PartialEq, Eq, Structural)]
pub enum LogLevel {
    Error,
    Warn,
    Info,
    Debug,
    Trace,
}

/// The glog character of a level.
pub open spec fn level_char_of(l: LogLevel) -> char {
    match l {
        LogLevel::Error => 'E',
        LogLevel::Warn => 'W',
        LogLevel::Info => 'I',
        LogLevel::Debug => 'D',
        LogLevel::Trace => 'T',
    }
}

impl LogLevel {
    /// The glog character of the level.
    pub fn level_char(&self) -> (r: char)
        ensures
            r == level_char_of(*self),
    {
        match self {
            LogLevel::Error => 'E',
            LogLevel::Warn => 'W',
            LogLevel::Info => 'I',
            LogLevel::Debug => 'D',
            LogLevel::Trace => 'T',
        }
    }
}

/// `s` without its leading repetitions of `pat` (`str::trim_start_matches`).
pub open spec fn strip_leading(s: Seq<char>, pat: Seq<char>) -> Seq<char>
    decreases s.len(),
{
    if pat.len() > 0 && pat.len() <= s.len() && s.subrange(0, pat.len() as int) == pat {
        strip_leading(s.subrange(pat.len() as int, s.len() as int), pat)
    } else {
        s
    }
}

/// `s` without its trailing occurrences of `c` (`str::trim_end_matches`).
pub open spec fn strip_trailing(s: Seq<char>, c: char) -> Seq<char>
    decreases s.len(),
{
    if s.len() > 0 && s.last() == c {
        strip_trailing(s.drop_last(), c)
    } else {
        s
    }
}

/// The number in a thread's debug text `ThreadId(N)`, or 0.
pub open spec fn thread_number_of(debug_text: Seq<char>) -> u64 {
    match parse_unsigned(strip_trailing(strip_leading(debug_text, "ThreadId("@), ')'), u64::MAX as nat) {
        Some(n) => n as u64,
        None => 0,
    }
}

/// The number in a thread's debug text `ThreadId(N)`, or 0 when there is
/// none.
pub fn thread_number(debug_text: &str) -> (r: u64)
    ensures
        r == thread_number_of(debug_text@),
{
    let v = str_chars(debug_text);
    let p = str_chars("ThreadId(");
    proof {
        reveal_strlit("ThreadId(");
    }
    let m = p.len();
    let n = v.len();
    let mut i: usize = 0;
    assert(v@.subrange(0, n as int) =~= v@);
    loop
        invariant
            n == v@.len(),
            m == p@.len(),
            m == 9,
            p@ == "ThreadId("@,
            i <= n,
            strip_leading(v@, p@) == strip_leading(v@.subrange(i as int, n as int), p@),
        ensures
            i <= n,
            strip_leading(v@, p@) == v@.subrange(i as int, n as int),
        decreases n - i,
    {
        if n - i < m {
            break;
        }
        let mut k: usize = 0;
        let mut same = true;
        while k < m
            invariant
                n == v@.len(),
                m == p@.len(),
                i + m <= n,
                k <= m,
                same == (forall|t: int| 0 <= t < k ==> v@[i + t] == p@[t]),
            decreases m - k,
        {
            if v[i + k] != p[k] {
                same = false;
            }
            k = k + 1;
        }
        let ghost rest = v@.subrange(i as int, n as int);
        if !same {
            proof {
                let t = choose|t: int| 0 <= t < m && v@[i + t] != p@[t];
                assert(rest.subrange(0, m as int)[t] != p@[t]);
            }
            break;
        }
        proof {
            assert(rest.subrange(0, m as int) =~= p@);
            assert(rest.subrange(m as int, rest.len() as int) =~= v@.subrange(i + m, n as int));
        }
        i = i + m;
    }
    let mut j = n;
    assert(v@.subrange(i as int, n as int) =~= v@.subrange(i as int, j as int));
    while j > i && v[j - 1] == ')'
        invariant
            i <= j <= n,
            n == v@.len(),
            strip_trailing(strip_leading(v@, p@), ')') == strip_trailing(v@.subrange(i as int, j as int), ')'),
        decreases j,
    {
        assert(v@.subrange(i as int, j as int).drop_last() =~= v@.subrange(i as int, j - 1));
        j = j - 1;
    }
    let mut body: Vec<char> = Vec::new();
    let mut k = i;
    while k < j
        invariant
            i <= k <= j <= n,
            n == v@.len(),
            body@ == v@.subrange(i as int, k as int),
        decreases j - k,
    {
        body.push(v[k]);
        assert(v@.subrange(i as int, k + 1) =~= v@.subrange(i as int, k as int).push(v@[k as int]));
        k = k + 1;
    }
    match parse_unsigned_chars(&body, u64::MAX) {
        Some(x) => x,
        None => 0,
    }
}

/// The file name of a source path: its last `/`-separated piece; without
/// a path, `unknown`.
pub open spec fn source_name(file: Option<Seq<char>>) -> Seq<char> {
    match file {
        Some(f) => split_char(f, '/').last(),
        None => "unknown"@,
    }
}

/// The file name of an event's source path.
pub fn source_file(file: Option<&str>) -> (r: String)
    ensures
        r@ == source_name(match file {
            Some(f) => Some(f@),
            None => None::<Seq<char>>,
        }),
{
    match file {
        Some(f) => {
            let v = str_chars(f);
            let pieces = split_on(&v, '/');
            proof {
                crate::text::lemma_split_char_len(f@, '/');
            }
            string_from_chars(&pieces[pieces.len() - 1])
        },
        None => owned("unknown"),
    }
}

/// The line prefix: level character, time, thread number, source file and
/// line, then `] `.
pub open spec fn prefix_of(level: LogLevel, time: Seq<char>, thread: u64, file: Seq<char>, line: u32) -> Seq<char> {
    seq![level_char_of(level)] + time + " "@ + decimal(thread as nat) + " "@ + file + ":"@ + decimal(line as nat) + "] "@
}

/// Writes glog lines.
#[derive(Debug)]
pub struct GlogLayer {
    buf: Vec<char>,
    first: bool,
}

impl GlogLayer {
    /// The text written so far.
    pub closed spec fn text(&self) -> Seq<char> {
        self.buf@
    }

    /// No field has been written yet.
    pub closed spec fn at_first(&self) -> bool {
        self.first
    }

    /// Start a line: `time` is the local time formatted `%Y%m%d
    /// %H:%M:%S%.6f`.
    pub fn new(level: LogLevel, time: &str, thread: u64, file: &str, line: u32) -> (r: Self)
        ensures
            r.text() == prefix_of(level, time@, thread, file@, line),
            r.at_first(),
    {
        let mut v: Vec<char> = Vec::new();
        v.push(level.level_char());
        push_str(&mut v, time);
        push_str(&mut v, " ");
        push_decimal(&mut v, thread);
        push_str(&mut v, " ");
        push_str(&mut v, file);
        push_str(&mut v, ":");
        push_decimal(&mut v, line as u64);
        push_str(&mut v, "] ");
        assert(v@ =~= prefix_of(level, time@, thread, file@, line));
        GlogLayer { buf: v, first: true }
    }

    /// Write a field: the message as it is, any other as `name=value`,
    /// separated by a space from an earlier field.
    pub fn record(&mut self, name: &str, value: &str)
        ensures
            !final(self).at_first(),
            name@ == "message"@ ==> final(self).text() == old(self).text() + value@,
            name@ != "message"@ ==> final(self).text() == old(self).text() + (if old(self).at_first() { Seq::<char>::empty() } else { " "@ })
                + name@ + "="@ + value@,
    {
        if crate::text::str_eq(name, "message") {
            push_str(&mut self.buf, value);
        } else {
            let ghost before = self.buf@;
            if !self.first {
                push_str(&mut self.buf, " ");
            }
            push_str(&mut self.buf, name);
            push_str(&mut self.buf, "=");
            push_str(&mut self.buf, value);
            assert(self.buf@ =~= before + (if self.first { Seq::<char>::empty() } else { " "@ }) + name@ + "="@ + value@);
        }
        self.first = false;
    }

    /// Write a numeric or boolean field, always as `name=value`.
    pub fn record_value(&mut self, name: &str, value: &str)
        ensures
            !final(self).at_first(),
            final(self).text() == old(self).text() + (if old(self).at_first() { Seq::<char>::empty() } else { " "@ }) + name@ + "="@
                + value@,
    {
        let ghost before = self.buf@;
        if !self.first {
            push_str(&mut self.buf, " ");
        }
        push_str(&mut self.buf, name);
        push_str(&mut self.buf, "=");
        push_str(&mut self.buf, value);
        assert(self.buf@ =~= before + (if self.first { Seq::<char>::empty() } else { " "@ }) + name@ + "="@ + value@);
        self.first = false;
    }

    /// The finished line, with its newline.
    pub fn finish(self) -> (r: String)
        ensures
            r@ == self.text() + "\n"@,
    {
        let mut v = self.buf;
        push_str(&mut v, "\n");
        string_from_chars(&v)
    }
}

} // verus!
