//! Character-level text utilities with exact specifications: whitespace
//! trimming and splitting, decimal parsing and formatting, prefix tests and
//! case folding.
use vstd::prelude::*;

verus! {

// ---------------------------------------------------------------------------
// Conversions between `str`/`String` and character vectors
// ---------------------------------------------------------------------------

/// The characters of a string slice, in order.
pub(crate) fn str_chars(s: &str) -> (r: Vec<char>)
    ensures
        r@ == s@,
{
    broadcast use vstd::string::axiom_spec_iter;
    let mut out: Vec<char> = Vec::new();
    for c in it: s.chars()
        invariant
            it.seq() == s@,
            out@ == s@.take(it.index() as int),
    {
        assert(s@.take(it.index() as int + 1) =~= s@.take(it.index() as int).push(c));
        out.push(c);
    }
    assert(s@.take(s@.len() as int) =~= s@);
    out
}

/// A `String` made of the given characters, in order (`FromIterator<char>`).
#[verifier::external_body]
pub(crate) fn string_from_chars(v: &Vec<char>) -> (r: String)
    ensures
        r@ == v@,
{
    v.iter().collect()
}

/// A `String` holding a copy of a string slice.
pub fn owned(s: &str) -> (r: String)
    ensures
        r@ == s@,
{
    String::from_str(s)
}

/// Append the characters of `s` to `v`.
pub fn push_str(v: &mut Vec<char>, s: &str)
    ensures
        final(v)@ == old(v)@ + s@,
{
    let n = s.unicode_len();
    let mut i: usize = 0;
    while i < n
        invariant
            n == s@.len(),
            i <= n,
            v@ == old(v)@ + s@.subrange(0, i as int),
        decreases n - i,
    {
        let c = s.get_char(i);
        v.push(c);
        assert(s@.subrange(0, i as int + 1) =~= s@.subrange(0, i as int).push(c));
        i = i + 1;
    }
    assert(s@.subrange(0, n as int) =~= s@);
}

/// Append the characters of `w` to `v`.
pub fn push_chars(v: &mut Vec<char>, w: &Vec<char>)
    ensures
        final(v)@ == old(v)@ + w@,
{
    let mut i: usize = 0;
    while i < w.len()
        invariant
            i <= w.len(),
            v@ == old(v)@ + w@.subrange(0, i as int),
        decreases w.len() - i,
    {
        v.push(w[i]);
        assert(w@.subrange(0, i as int + 1) =~= w@.subrange(0, i as int).push(w@[i as int]));
        i = i + 1;
    }
    assert(w@.subrange(0, w.len() as int) =~= w@);
}

/// Whether a character vector spells exactly the given string slice.
pub fn chars_eq_str(v: &Vec<char>, s: &str) -> (r: bool)
    ensures
        r == (v@ == s@),
{
    let n = s.unicode_len();
    if v.len() != n {
        return false;
    }
    let mut i: usize = 0;
    while i < n
        invariant
            n == s@.len(),
            v@.len() == n,
            i <= n,
            forall|k: int| 0 <= k < i ==> v@[k] == s@[k],
        decreases n - i,
    {
        if v[i] != s.get_char(i) {
            return false;
        }
        i = i + 1;
    }
    assert(v@ =~= s@);
    true
}

/// Whether two string slices hold the same characters.
pub fn str_eq(a: &str, b: &str) -> (r: bool)
    ensures
        r == (a@ == b@),
{
    let v = str_chars(a);
    chars_eq_str(&v, b)
}

/// Whether `s` begins with `prefix`.
pub fn starts_with(s: &str, prefix: &str) -> (r: bool)
    ensures
        r == is_prefix(prefix@, s@),
{
    let n = s.unicode_len();
    let m = prefix.unicode_len();
    if m > n {
        return false;
    }
    let mut i: usize = 0;
    while i < m
        invariant
            n == s@.len(),
            m == prefix@.len(),
            m <= n,
            i <= m,
            forall|k: int| 0 <= k < i ==> s@[k] == prefix@[k],
        decreases m - i,
    {
        if s.get_char(i) != prefix.get_char(i) {
            assert(s@.subrange(0, m as int)[i as int] != prefix@[i as int]);
            return false;
        }
        i = i + 1;
    }
    assert(s@.subrange(0, m as int) =~= prefix@);
    true
}

/// `p` is a prefix of `s`.
pub open spec fn is_prefix(p: Seq<char>, s: Seq<char>) -> bool {
    p.len() <= s.len() && s.subrange(0, p.len() as int) == p
}

/// `needle` occurs somewhere in `hay` as a contiguous run.
pub open spec fn contains_seq(hay: Seq<char>, needle: Seq<char>) -> bool {
    exists|i: int|
        0 <= i && i + needle.len() <= hay.len() && #[trigger] hay.subrange(i, i + needle.len())
            == needle
}

/// Whether `needle` occurs in `hay`.
pub fn contains(hay: &Vec<char>, needle: &str) -> (r: bool)
    ensures
        r == contains_seq(hay@, needle@),
{
    let nd = str_chars(needle);
    let n = hay.len();
    let m = nd.len();
    if m > n {
        assert forall|i: int|
            0 <= i && i + m <= n implies #[trigger] hay@.subrange(i, i + m) != nd@ by {}
        return false;
    }
    let mut i: usize = 0;
    while i <= n - m
        invariant
            n == hay@.len(),
            m == nd@.len(),
            nd@ == needle@,
            m <= n,
            i <= n - m + 1,
            forall|j: int| 0 <= j < i ==> #[trigger] hay@.subrange(j, j + m) != nd@,
        decreases n - i,
    {
        let mut k: usize = 0;
        let mut ok = true;
        while k < m
            invariant
                n == hay@.len(),
                m == nd@.len(),
                i + m <= n,
                k <= m,
                ok == (forall|t: int| 0 <= t < k ==> hay@[i + t] == nd@[t]),
            decreases m - k,
        {
            if hay[i + k] != nd[k] {
                ok = false;
            }
            k = k + 1;
        }
        if ok {
            assert(hay@.subrange(i as int, i + m) =~= nd@);
            return true;
        }
        assert(hay@.subrange(i as int, i + m) != nd@) by {
            let t = choose|t: int| 0 <= t < m && hay@[i + t] != nd@[t];
            assert(hay@.subrange(i as int, i + m)[t] == hay@[i + t]);
        }
        i = i + 1;
    }
    false
}

// ---------------------------------------------------------------------------
// Whitespace
// ---------------------------------------------------------------------------

/// Unicode `White_Space`, the property `char::is_whitespace` tests.
pub open spec fn is_ws(c: char) -> bool {
    let u = c as u32;
    (0x09 <= u <= 0x0d) || u == 0x20 || u == 0x85 || u == 0xa0 || u == 0x1680 || (0x2000 <= u
        <= 0x200a) || u == 0x2028 || u == 0x2029 || u == 0x202f || u == 0x205f || u == 0x3000
}

/// Whether `c` is Unicode whitespace.
pub fn char_is_ws(c: char) -> (r: bool)
    ensures
        r == is_ws(c),
{
    let u = c as u32;
    (0x09 <= u && u <= 0x0d) || u == 0x20 || u == 0x85 || u == 0xa0 || u == 0x1680 || (0x2000
        <= u && u <= 0x200a) || u == 0x2028 || u == 0x2029 || u == 0x202f || u == 0x205f || u
        == 0x3000
}

/// `s` without its leading whitespace.
pub open spec fn trim_start(s: Seq<char>) -> Seq<char>
    decreases s.len(),
{
    if s.len() > 0 && is_ws(s[0]) {
        trim_start(s.drop_first())
    } else {
        s
    }
}

/// `s` without its trailing whitespace.
pub open spec fn trim_end(s: Seq<char>) -> Seq<char>
    decreases s.len(),
{
    if s.len() > 0 && is_ws(s.last()) {
        trim_end(s.drop_last())
    } else {
        s
    }
}

/// `s` without leading and trailing whitespace (`str::trim`).
pub open spec fn trim(s: Seq<char>) -> Seq<char> {
    trim_end(trim_start(s))
}

proof fn lemma_trim_start_step(s: Seq<char>, i: int)
    requires
        0 <= i < s.len(),
        is_ws(s[i]),
    ensures
        trim_start(s.subrange(i, s.len() as int)) == trim_start(s.subrange(i + 1, s.len() as int)),
{
    assert(s.subrange(i, s.len() as int).drop_first() =~= s.subrange(i + 1, s.len() as int));
}

proof fn lemma_trim_end_step(s: Seq<char>, j: int)
    requires
        0 < j <= s.len(),
        is_ws(s[j - 1]),
    ensures
        trim_end(s.subrange(0, j)) == trim_end(s.subrange(0, j - 1)),
{
    assert(s.subrange(0, j).drop_last() =~= s.subrange(0, j - 1));
}

/// Index of the first non-whitespace character of `v`, or `v.len()`.
pub fn skip_ws(v: &Vec<char>, from: usize) -> (r: usize)
    requires
        from <= v.len(),
    ensures
        from <= r <= v.len(),
        trim_start(v@.subrange(from as int, v.len() as int)) == v@.subrange(r as int, v.len() as int),
        forall|k: int| from <= k < r ==> is_ws(#[trigger] v@[k]),
        r < v.len() ==> !is_ws(v@[r as int]),
{
    let mut i = from;
    while i < v.len() && char_is_ws(v[i])
        invariant
            from <= i <= v.len(),
            trim_start(v@.subrange(from as int, v.len() as int)) == trim_start(
                v@.subrange(i as int, v.len() as int),
            ),
            forall|k: int| from <= k < i ==> is_ws(#[trigger] v@[k]),
        decreases v.len() - i,
    {
        proof {
            lemma_trim_start_step(v@, i as int);
        }
        i = i + 1;
    }
    i
}

/// The characters of `v` without leading and trailing whitespace.
pub fn trim_chars(v: &Vec<char>) -> (r: Vec<char>)
    ensures
        r@ == trim(v@),
{
    let a = skip_ws(v, 0);
    assert(v@.subrange(0, v.len() as int) =~= v@);
    let ghost t = v@.subrange(a as int, v.len() as int);
    let mut b = v.len();
    assert(t.subrange(0, b - a) =~= t);
    while b > a && char_is_ws(v[b - 1])
        invariant
            a <= b <= v.len(),
            t == v@.subrange(a as int, v.len() as int),
            trim_end(t) == trim_end(t.subrange(0, b - a)),
        decreases b,
    {
        proof {
            lemma_trim_end_step(t, b - a);
            assert(t.subrange(0, b - a) =~= t.subrange(0, b - a));
        }
        b = b - 1;
    }
    let mut r: Vec<char> = Vec::new();
    let mut k = a;
    while k < b
        invariant
            a <= k <= b <= v.len(),
            r@ == v@.subrange(a as int, k as int),
        decreases b - k,
    {
        r.push(v[k]);
        assert(v@.subrange(a as int, k as int + 1) =~= v@.subrange(a as int, k as int).push(
            v@[k as int],
        ));
        k = k + 1;
    }
    proof {
        assert(t.subrange(0, b - a) =~= v@.subrange(a as int, b as int));
        let u = t.subrange(0, b - a);
        if u.len() > 0 {
            assert(u.last() == v@[b - 1]);
        }
    }
    r
}

/// The string slice without leading and trailing whitespace.
pub fn trim_str(s: &str) -> (r: Vec<char>)
    ensures
        r@ == trim(s@),
{
    let v = str_chars(s);
    trim_chars(&v)
}

// ---------------------------------------------------------------------------
// Splitting on whitespace
// ---------------------------------------------------------------------------

/// The longest prefix of `s` holding no whitespace.
pub open spec fn take_word(s: Seq<char>) -> Seq<char>
    decreases s.len(),
{
    if s.len() > 0 && !is_ws(s[0]) {
        seq![s[0]] + take_word(s.drop_first())
    } else {
        Seq::empty()
    }
}

/// The whitespace-separated words of `s` (`str::split_whitespace`).
pub open spec fn words(s: Seq<char>) -> Seq<Seq<char>>
    decreases s.len(),
{
    let t = trim_start(s);
    if t.len() == 0 {
        Seq::empty()
    } else {
        let w = take_word(t);
        proof {
            lemma_trim_start_len(s);
        }
        if 0 < w.len() <= t.len() {
            seq![w] + words(t.subrange(w.len() as int, t.len() as int))
        } else {
            Seq::empty()
        }
    }
}

pub proof fn lemma_trim_start_len(s: Seq<char>)
    ensures
        trim_start(s).len() <= s.len(),
        trim_start(s).len() > 0 ==> !is_ws(trim_start(s)[0]),
    decreases s.len(),
{
    if s.len() > 0 && is_ws(s[0]) {
        lemma_trim_start_len(s.drop_first());
    }
}

proof fn lemma_take_word_len(s: Seq<char>)
    ensures
        take_word(s).len() <= s.len(),
        s.len() > 0 && !is_ws(s[0]) ==> take_word(s).len() > 0,
    decreases s.len(),
{
    if s.len() > 0 && !is_ws(s[0]) {
        lemma_take_word_len(s.drop_first());
    }
}

proof fn lemma_take_word_scan(s: Seq<char>, i: int, k: int)
    requires
        0 <= i <= k <= s.len(),
        forall|t: int| i <= t < k ==> !is_ws(#[trigger] s[t]),
        k == s.len() || is_ws(s[k]),
    ensures
        take_word(s.subrange(i, s.len() as int)) == s.subrange(i, k),
    decreases k - i,
{
    let x = s.subrange(i, s.len() as int);
    if i < k {
        lemma_take_word_scan(s, i + 1, k);
        assert(x.drop_first() =~= s.subrange(i + 1, s.len() as int));
        assert(seq![s[i]] + s.subrange(i + 1, k) =~= s.subrange(i, k));
    } else {
        assert(s.subrange(i, k) =~= Seq::<char>::empty());
    }
}

/// The whitespace-separated words of `v`.
pub fn split_ws_chars(v: &Vec<char>) -> (r: Vec<Vec<char>>)
    ensures
        r@.len() == words(v@).len(),
        forall|j: int| 0 <= j < r@.len() ==> #[trigger] r@[j]@ == words(v@)[j],
{
    let n = v.len();
    let mut acc: Vec<Vec<char>> = Vec::new();
    let ghost accv: Seq<Seq<char>> = Seq::empty();
    let mut i: usize = 0;
    assert(v@.subrange(0, n as int) =~= v@);
    while i < n
        invariant
            n == v@.len(),
            i <= n,
            acc@.len() == accv.len(),
            forall|j: int| 0 <= j < acc@.len() ==> #[trigger] acc@[j]@ == accv[j],
            words(v@) == accv + words(v@.subrange(i as int, n as int)),
        decreases n - i,
    {
        let a = skip_ws(v, i);
        proof {
            lemma_trim_start_len(v@.subrange(i as int, n as int));
        }
        if a == n {
            assert(trim_start(v@.subrange(i as int, n as int)).len() == 0);
            assert(words(v@.subrange(i as int, n as int)) =~= Seq::<Seq<char>>::empty());
            assert(accv + Seq::<Seq<char>>::empty() =~= accv);
            assert(words(v@.subrange(n as int, n as int)) =~= Seq::<Seq<char>>::empty()) by {
                assert(v@.subrange(n as int, n as int).len() == 0);
                assert(trim_start(v@.subrange(n as int, n as int)).len() == 0);
            }
            i = n;
        } else {
        let mut b = a;
        let mut w: Vec<char> = Vec::new();
        while b < n && !char_is_ws(v[b])
            invariant
                n == v@.len(),
                a <= b <= n,
                w@ == v@.subrange(a as int, b as int),
                forall|t: int| a <= t < b ==> !is_ws(#[trigger] v@[t]),
            decreases n - b,
        {
            w.push(v[b]);
            assert(v@.subrange(a as int, b as int + 1) =~= v@.subrange(a as int, b as int).push(
                v@[b as int],
            ));
            b = b + 1;
        }
        proof {
            let t = v@.subrange(a as int, n as int);
            lemma_take_word_scan(v@, a as int, b as int);
            assert(take_word(t) == v@.subrange(a as int, b as int));
            assert(t.subrange(b - a, t.len() as int) =~= v@.subrange(b as int, n as int));
            assert(words(v@.subrange(i as int, n as int)) == seq![w@] + words(
                v@.subrange(b as int, n as int),
            ));
            accv = accv.push(w@);
            assert(accv.drop_last() + (seq![w@] + words(v@.subrange(b as int, n as int)))
                =~= accv + words(v@.subrange(b as int, n as int)));
        }
        acc.push(w);
        i = b;
        }
    }
    proof {
        assert(v@.subrange(n as int, n as int).len() == 0);
        assert(trim_start(v@.subrange(n as int, n as int)).len() == 0);
        assert(words(v@.subrange(n as int, n as int)) =~= Seq::<Seq<char>>::empty());
        assert(accv + Seq::<Seq<char>>::empty() =~= accv);
    }
    acc
}

// ---------------------------------------------------------------------------
// Decimal numbers
// ---------------------------------------------------------------------------

/// `c` is an ASCII decimal digit.
pub open spec fn is_digit(c: char) -> bool {
    '0' <= c <= '9'
}

/// The value of ASCII digit `c`.
pub open spec fn digit_value(c: char) -> int {
    (c as u32) - ('0' as u32)
}

/// Every character of `s` is an ASCII digit.
pub open spec fn all_digits(s: Seq<char>) -> bool {
    forall|i: int| 0 <= i < s.len() ==> is_digit(#[trigger] s[i])
}

/// The number written by the decimal digits `s` (most significant first).
pub open spec fn digits_value(s: Seq<char>) -> nat
    decreases s.len(),
{
    if s.len() == 0 {
        0
    } else {
        (digits_value(s.drop_last()) * 10 + digit_value(s.last())) as nat
    }
}

/// The digits after an optional leading `+`.
pub open spec fn unsigned_body(s: Seq<char>) -> Seq<char> {
    if s.len() > 0 && s[0] == '+' {
        s.drop_first()
    } else {
        s
    }
}

/// What `str::parse` gives for an unsigned integer type whose largest
/// value is `max`: an optional `+`, then at least one ASCII digit, with a
/// value that fits.
pub open spec fn parse_unsigned(s: Seq<char>, max: nat) -> Option<nat> {
    let d = unsigned_body(s);
    if d.len() > 0 && all_digits(d) && digits_value(d) <= max {
        Some(digits_value(d))
    } else {
        None
    }
}

proof fn lemma_digits_value_mono(s: Seq<char>, k: int)
    requires
        0 <= k <= s.len(),
        all_digits(s),
    ensures
        digits_value(s.subrange(0, k)) <= digits_value(s),
    decreases s.len(),
{
    if k < s.len() {
        assert(s.drop_last() =~= s.subrange(0, s.len() - 1));
        lemma_digits_value_mono(s.drop_last(), k);
        assert(s.drop_last().subrange(0, k) =~= s.subrange(0, k));
    } else {
        assert(s.subrange(0, k) =~= s);
    }
}

/// Parse an unsigned decimal number no larger than `max`, as `str::parse`
/// does for an unsigned integer type with that largest value.
pub fn parse_unsigned_chars(s: &Vec<char>, max: u64) -> (r: Option<u64>)
    ensures
        match r {
            Some(x) => parse_unsigned(s@, max as nat) == Some(x as nat),
            None => parse_unsigned(s@, max as nat) is None,
        },
{
    let n = s.len();
    let start: usize = if n > 0 && s[0] == '+' {
        1
    } else {
        0
    };
    let ghost d = unsigned_body(s@);
    assert(d =~= s@.subrange(start as int, n as int));
    if start == n {
        return None;
    }
    let mut acc: u64 = 0;
    let mut i = start;
    while i < n
        invariant
            n == s@.len(),
            start <= i <= n,
            d == s@.subrange(start as int, n as int),
            d == unsigned_body(s@),
            all_digits(d.subrange(0, i - start)),
            acc as nat == digits_value(d.subrange(0, i - start)),
            acc <= max,
        decreases n - i,
    {
        let c = s[i];
        if !('0' <= c && c <= '9') {
            assert(!all_digits(d)) by {
                assert(d[i - start] == c);
            }
            return None;
        }
        let dv = (c as u32 - '0' as u32) as u64;
        let ghost p = d.subrange(0, i - start + 1);
        proof {
            assert(p.drop_last() =~= d.subrange(0, i - start));
            assert(p.last() == c);
            assert(all_digits(p));
            assert(digits_value(p) == acc * 10 + dv);
        }
        if dv > max || acc > (max - dv) / 10 {
            proof {
                if dv > max {
                    assert(acc * 10 + dv > max) by (nonlinear_arith)
                        requires
                            dv > max,
                    ;
                } else {
                    assert(acc * 10 + dv > max) by (nonlinear_arith)
                        requires
                            acc > (max - dv) / 10,
                            dv <= max,
                    ;
                }
                if all_digits(d) {
                    lemma_digits_value_mono(d, i - start + 1);
                }
            }
            return None;
        }
        proof {
            assert(acc * 10 + dv <= max) by (nonlinear_arith)
                requires
                    acc <= (max - dv) / 10,
                    dv <= max,
            ;
        }
        acc = acc * 10 + dv;
        i = i + 1;
    }
    assert(d.subrange(0, n - start) =~= d);
    Some(acc)
}

/// Parse an unsigned decimal number no larger than `max` from a string slice.
pub fn parse_unsigned_str(s: &str, max: u64) -> (r: Option<u64>)
    ensures
        match r {
            Some(x) => parse_unsigned(s@, max as nat) == Some(x as nat),
            None => parse_unsigned(s@, max as nat) is None,
        },
{
    let v = str_chars(s);
    parse_unsigned_chars(&v, max)
}

/// The ASCII digit of `d`.
pub open spec fn digit_char(d: nat) -> char {
    ((d % 10) + ('0' as u32)) as char
}

/// Decimal representation of `n` (`n.to_string()` for unsigned integers).
pub open spec fn decimal(n: nat) -> Seq<char>
    decreases n,
{
    if n < 10 {
        seq![digit_char(n)]
    } else {
        decimal(n / 10).push(digit_char(n % 10))
    }
}

/// The ASCII digit for `d < 10`.
pub fn digit_to_char(d: u64) -> (c: char)
    requires
        d < 10,
    ensures
        c == digit_char(d as nat),
{
    match d {
        0 => '0',
        1 => '1',
        2 => '2',
        3 => '3',
        4 => '4',
        5 => '5',
        6 => '6',
        7 => '7',
        8 => '8',
        _ => '9',
    }
}

/// Append the decimal representation of `n` to `v`.
pub fn push_decimal(v: &mut Vec<char>, n: u64)
    ensures
        final(v)@ == old(v)@ + decimal(n as nat),
    decreases n,
{
    let c = digit_to_char(n % 10);
    if n >= 10 {
        push_decimal(v, n / 10);
    }
    v.push(c);
    proof {
        if n < 10 {
            assert(decimal(n as nat) =~= seq![digit_char(n as nat)]);
        }
    }
}

// ---------------------------------------------------------------------------
// Case folding
// ---------------------------------------------------------------------------

/// `c` is an ASCII character.
pub open spec fn is_ascii_char(c: char) -> bool {
    (c as u32) < 128
}

/// ASCII upper case of `c` (other characters are unchanged).
pub open spec fn ascii_upper(c: char) -> char {
    if 'a' <= c <= 'z' {
        ((c as u32) - 32) as char
    } else {
        c
    }
}

/// ASCII lower case of `c` (other characters are unchanged).
pub open spec fn ascii_lower(c: char) -> char {
    if 'A' <= c <= 'Z' {
        ((c as u32) + 32) as char
    } else {
        c
    }
}

/// The Unicode lower case of a string, as `str::to_lowercase` computes it.
pub uninterp spec fn spec_to_lowercase(s: Seq<char>) -> Seq<char>;

/// `str::to_lowercase`: the result is named `spec_to_lowercase` of the
/// input; on input made only of ASCII characters the Unicode lower case is
/// the ASCII lower case of each character, as the `str::to_lowercase`
/// documentation states by referring to the Unicode case mapping.
#[verifier::external_body]
pub(crate) fn to_lowercase(s: &str) -> (r: String)
    ensures
        r@ == spec_to_lowercase(s@),
        (forall|i: int| 0 <= i < s@.len() ==> is_ascii_char(#[trigger] s@[i])) ==> r@ =~= s@.map_values(
            |c: char| ascii_lower(c),
        ),
{
    s.to_lowercase()
}


// ---------------------------------------------------------------------------
// Replacement
// ---------------------------------------------------------------------------

/// `s` with every occurrence of `pat` replaced by `rep`, scanning from the
/// left without overlaps (`str::replace`).
pub open spec fn replace_all(s: Seq<char>, pat: Seq<char>, rep: Seq<char>) -> Seq<char>
    decreases s.len(),
{
    if pat.len() == 0 || s.len() < pat.len() {
        s
    } else if s.subrange(0, pat.len() as int) == pat {
        rep + replace_all(s.subrange(pat.len() as int, s.len() as int), pat, rep)
    } else {
        seq![s[0]] + replace_all(s.drop_first(), pat, rep)
    }
}

fn matches_at(s: &Vec<char>, i: usize, pat: &Vec<char>) -> (r: bool)
    requires
        i + pat@.len() <= s@.len(),
    ensures
        r == (s@.subrange(i as int, i + pat@.len()) == pat@),
{
    let mut k: usize = 0;
    while k < pat.len()
        invariant
            i + pat@.len() <= s@.len(),
            k <= pat@.len(),
            forall|j: int| 0 <= j < k ==> s@[i + j] == pat@[j],
        decreases pat.len() - k,
    {
        let len = s.len();
        assert(i + k < len);
        let idx: usize = i + k;
        if s[idx] != pat[k] {
            assert(s@.subrange(i as int, i + pat@.len())[k as int] != pat@[k as int]);
            return false;
        }
        k = k + 1;
    }
    assert(s@.subrange(i as int, i + pat@.len()) =~= pat@);
    true
}

/// `s` with every occurrence of the non-empty `pat` replaced by `rep`.
pub fn replace_str(s: &str, pat: &str, rep: &str) -> (r: String)
    requires
        pat@.len() > 0,
    ensures
        r@ == replace_all(s@, pat@, rep@),
{
    let v = str_chars(s);
    let p = str_chars(pat);
    let n = v.len();
    let m = p.len();
    let mut out: Vec<char> = Vec::new();
    let mut i: usize = 0;
    assert(v@.subrange(0, n as int) =~= v@);
    while i < n && n - i >= m
        invariant
            n == v@.len(),
            m == p@.len(),
            v@ == s@,
            p@ == pat@,
            m > 0,
            i <= n,
            out@ + replace_all(v@.subrange(i as int, n as int), p@, rep@) == replace_all(v@, p@, rep@),
        decreases n - i,
    {
        let ghost rest = v@.subrange(i as int, n as int);
        if matches_at(&v, i, &p) {
            proof {
                assert(rest.subrange(0, m as int) =~= v@.subrange(i as int, i + m));
                assert(rest.subrange(m as int, rest.len() as int) =~= v@.subrange(i + m, n as int));
                assert(out@ + rep@ + replace_all(v@.subrange(i + m, n as int), p@, rep@) =~= out@ + replace_all(rest, p@, rep@));
            }
            push_str(&mut out, rep);
            i = i + m;
        } else {
            proof {
                assert(rest.subrange(0, m as int) =~= v@.subrange(i as int, i + m));
                assert(rest.drop_first() =~= v@.subrange(i + 1, n as int));
                assert(rest[0] == v@[i as int]);
                assert(out@.push(v@[i as int]) + replace_all(v@.subrange(i + 1, n as int), p@, rep@) =~= out@ + replace_all(rest, p@, rep@));
            }
            out.push(v[i]);
            i = i + 1;
        }
    }
    let ghost rest = v@.subrange(i as int, n as int);
    proof {
        if i < n {
            assert(rest.len() < m);
        }
        assert(rest.subrange(0, rest.len() as int) =~= rest);
    }
    let mut k = i;
    while k < n
        invariant
            i <= k <= n,
            n == v@.len(),
            rest == v@.subrange(i as int, n as int),
            out@ + rest.subrange(k - i, rest.len() as int) == replace_all(v@, p@, rep@),
        decreases n - k,
    {
        proof {
            assert(rest.subrange(k - i, rest.len() as int) =~= seq![v@[k as int]] + rest.subrange(k - i + 1, rest.len() as int));
            assert(out@.push(v@[k as int]) + rest.subrange(k - i + 1, rest.len() as int) =~= out@ + rest.subrange(k - i, rest.len() as int));
        }
        out.push(v[k]);
        k = k + 1;
    }
    proof {
        assert(rest.subrange(n - i, rest.len() as int) =~= Seq::<char>::empty());
        assert(out@ =~= out@ + rest.subrange(n - i, rest.len() as int));
    }
    string_from_chars(&out)
}

/// `s` without its leading occurrences of `c` (`str::trim_start_matches`).
pub open spec fn trim_leading(s: Seq<char>, c: char) -> Seq<char>
    decreases s.len(),
{
    if s.len() > 0 && s[0] == c {
        trim_leading(s.drop_first(), c)
    } else {
        s
    }
}

/// The characters of `s` without its leading occurrences of `c`.
pub fn trim_leading_char(s: &str, c: char) -> (r: Vec<char>)
    ensures
        r@ == trim_leading(s@, c),
{
    let v = str_chars(s);
    let n = v.len();
    let mut i: usize = 0;
    assert(v@.subrange(0, n as int) =~= v@);
    while i < n && v[i] == c
        invariant
            n == v@.len(),
            i <= n,
            trim_leading(v@, c) == trim_leading(v@.subrange(i as int, n as int), c),
        decreases n - i,
    {
        assert(v@.subrange(i as int, n as int).drop_first() =~= v@.subrange(i + 1, n as int));
        i = i + 1;
    }
    let mut out: Vec<char> = Vec::new();
    let mut k = i;
    while k < n
        invariant
            i <= k <= n,
            n == v@.len(),
            out@ == v@.subrange(i as int, k as int),
        decreases n - k,
    {
        out.push(v[k]);
        assert(v@.subrange(i as int, k + 1) =~= v@.subrange(i as int, k as int).push(v@[k as int]));
        k = k + 1;
    }
    proof {
        assert(v@.subrange(0, n as int) =~= v@);
        assert(trim_leading(v@, c) == v@.subrange(i as int, n as int));
    }
    out
}


// ---------------------------------------------------------------------------
// Splitting on a character
// ---------------------------------------------------------------------------

/// The pieces of `s` between occurrences of `sep`, empty pieces included
/// (`str::split` with a character).
pub open spec fn split_char(s: Seq<char>, sep: char) -> Seq<Seq<char>>
    decreases s.len(),
{
    if s.len() == 0 {
        seq![Seq::<char>::empty()]
    } else {
        let r = split_char(s.drop_last(), sep);
        if s.last() == sep {
            r.push(Seq::<char>::empty())
        } else {
            r.update(r.len() - 1, r.last().push(s.last()))
        }
    }
}

pub proof fn lemma_split_char_len(s: Seq<char>, sep: char)
    ensures
        split_char(s, sep).len() >= 1,
    decreases s.len(),
{
    if s.len() > 0 {
        lemma_split_char_len(s.drop_last(), sep);
    }
}

/// The pieces of `v` between occurrences of `sep`.
pub fn split_on(v: &Vec<char>, sep: char) -> (r: Vec<Vec<char>>)
    ensures
        r@.len() == split_char(v@, sep).len(),
        forall|i: int| 0 <= i < r@.len() ==> #[trigger] r@[i]@ == split_char(v@, sep)[i],
{
    let mut done: Vec<Vec<char>> = Vec::new();
    let mut cur: Vec<char> = Vec::new();
    let mut i: usize = 0;
    assert(v@.subrange(0, 0) =~= Seq::<char>::empty());
    while i < v.len()
        invariant
            i <= v@.len(),
            split_char(v@.subrange(0, i as int), sep).len() == done@.len() + 1,
            cur@ == split_char(v@.subrange(0, i as int), sep).last(),
            forall|j: int| 0 <= j < done@.len() ==> #[trigger] done@[j]@ == split_char(v@.subrange(0, i as int), sep)[j],
        decreases v.len() - i,
    {
        let ghost pre = v@.subrange(0, i as int);
        let ghost next = v@.subrange(0, i as int + 1);
        assert(next.drop_last() =~= pre);
        let ghost sp = split_char(pre, sep);
        let ghost old_done = done@;
        let c = v[i];
        if c == sep {
            let mut piece: Vec<char> = Vec::new();
            std::mem::swap(&mut piece, &mut cur);
            done.push(piece);
            proof {
                assert(split_char(next, sep) == sp.push(Seq::<char>::empty()));
                assert forall|j: int| 0 <= j < done@.len() implies #[trigger] done@[j]@ == split_char(next, sep)[j] by {
                    if j < old_done.len() {
                        assert(done@[j] == old_done[j]);
                    }
                }
            }
        } else {
            cur.push(c);
            proof {
                assert(split_char(next, sep) == sp.update(sp.len() - 1, sp.last().push(c)));
            }
        }
        i = i + 1;
    }
    assert(v@.subrange(0, v@.len() as int) =~= v@);
    let ghost old_done = done@;
    done.push(cur);
    proof {
        let sp = split_char(v@, sep);
        assert forall|j: int| 0 <= j < done@.len() implies #[trigger] done@[j]@ == sp[j] by {
            if j < old_done.len() {
                assert(done@[j] == old_done[j]);
            }
        }
    }
    done
}

} // verus!
