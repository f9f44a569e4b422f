//! Path components, as `std::path::Path` splits a path: a leading `/` is
//! the root component, a leading `.` the current directory, and the rest are
//! the names between separators, with empty names and inner `.` dropped.
use vstd::prelude::*;
use crate::text::{str_chars, string_from_chars};

verus! {

/// The pieces of `p` between `/` separators, empty pieces included.
pub open spec fn split_slash(p: Seq<char>) -> Seq<Seq<char>>
    decreases p.len(),
{
    if p.len() == 0 {
        seq![Seq::<char>::empty()]
    } else {
        let r = split_slash(p.drop_last());
        if p.last() == '/' {
            r.push(Seq::<char>::empty())
        } else {
            r.update(r.len() - 1, r.last().push(p.last()))
        }
    }
}

/// A piece names a component: it is neither empty nor `.`.
pub open spec fn is_name(piece: Seq<char>) -> bool {
    piece.len() > 0 && piece != seq!['.']
}

/// The pieces of `s` that name components, in order.
pub open spec fn names_of(s: Seq<Seq<char>>) -> Seq<Seq<char>>
    decreases s.len(),
{
    if s.len() == 0 {
        Seq::<Seq<char>>::empty()
    } else {
        let r = names_of(s.drop_last());
        if is_name(s.last()) {
            r.push(s.last())
        } else {
            r
        }
    }
}

/// The leading component: `/` for an absolute path, `.` for a path that
/// starts with the current directory, none otherwise.
pub open spec fn lead_of(p: Seq<char>) -> Seq<Seq<char>> {
    if p.len() > 0 && p[0] == '/' {
        seq![seq!['/']]
    } else if p.len() > 0 && p[0] == '.' && (p.len() == 1 || p[1] == '/') {
        seq![seq!['.']]
    } else {
        Seq::<Seq<char>>::empty()
    }
}

/// The components of a path, each by its text.
pub open spec fn components(p: Seq<char>) -> Seq<Seq<char>> {
    lead_of(p) + names_of(split_slash(p))
}

fn is_name_exec(piece: &Vec<char>) -> (r: bool)
    ensures
        r == is_name(piece@),
{
    if piece.len() == 0 {
        false
    } else if piece.len() == 1 && piece[0] == '.' {
        assert(piece@ =~= seq!['.']);
        false
    } else {
        proof {
            if piece@ == seq!['.'] {
                assert(piece@.len() == 1);
            }
        }
        true
    }
}

/// The component names of `p` after its leading component.
fn names_exec(p: &Vec<char>) -> (r: Vec<Vec<char>>)
    ensures
        r@.len() == names_of(split_slash(p@)).len(),
        forall|i: int| 0 <= i < r@.len() ==> #[trigger] r@[i]@ == names_of(split_slash(p@))[i],
{
    let mut done: Vec<Vec<char>> = Vec::new();
    let mut cur: Vec<char> = Vec::new();
    let mut i: usize = 0;
    proof {
        assert(p@.subrange(0, 0) =~= Seq::<char>::empty());
    }
    while i < p.len()
        invariant
            i <= p@.len(),
            split_slash(p@.subrange(0, i as int)).len() >= 1,
            cur@ == split_slash(p@.subrange(0, i as int)).last(),
            done@.len() == names_of(split_slash(p@.subrange(0, i as int)).drop_last()).len(),
            forall|j: int| 0 <= j < done@.len() ==> #[trigger] done@[j]@ == names_of(split_slash(p@.subrange(0, i as int)).drop_last())[j],
        decreases p.len() - i,
    {
        let ghost pre = p@.subrange(0, i as int);
        let ghost next = p@.subrange(0, i as int + 1);
        assert(next.drop_last() =~= pre);
        let ghost sp = split_slash(pre);
        let c = p[i];
        if c == '/' {
            let keep = is_name_exec(&cur);
            assert(split_slash(next) == sp.push(Seq::<char>::empty()));
            assert(split_slash(next).drop_last() =~= sp);
            assert(sp.drop_last().push(sp.last()) =~= sp);
            assert(sp == sp.drop_last().push(sp.last()));
            let ghost old_done = done@;
            if keep {
                let mut piece: Vec<char> = Vec::new();
                std::mem::swap(&mut piece, &mut cur);
                done.push(piece);
            } else {
                cur = Vec::new();
            }
            proof {
                let n0 = names_of(sp.drop_last());
                assert(names_of(sp) == (if is_name(sp.last()) { n0.push(sp.last()) } else { n0 }));
                assert forall|j: int| 0 <= j < done@.len() implies #[trigger] done@[j]@ == names_of(split_slash(next).drop_last())[j] by {
                    if j < old_done.len() {
                        assert(done@[j] == old_done[j]);
                    }
                }
            }
            assert(cur@ =~= split_slash(next).last());
        } else {
            cur.push(c);
            proof {
                let u = sp.update(sp.len() - 1, sp.last().push(c));
                assert(split_slash(next) == u);
                assert(u.drop_last() =~= sp.drop_last());
            }
        }
        i = i + 1;
    }
    proof {
        assert(p@.subrange(0, p@.len() as int) =~= p@);
        let sp = split_slash(p@);
        assert(sp == sp.drop_last().push(sp.last())) by {
            assert(sp.drop_last().push(sp.last()) =~= sp);
        }
    }
    let ghost old_done = done@;
    let ghost sp = split_slash(p@);
    if is_name_exec(&cur) {
        done.push(cur);
    }
    proof {
        assert forall|j: int| 0 <= j < done@.len() implies #[trigger] done@[j]@ == names_of(sp)[j] by {
            if j < old_done.len() {
                assert(done@[j] == old_done[j]);
            }
        }
    }
    done
}

/// The components of `p`, each by its text.
pub fn path_components(p: &str) -> (r: Vec<Vec<char>>)
    ensures
        r@.len() == components(p@).len(),
        forall|i: int| 0 <= i < r@.len() ==> #[trigger] r@[i]@ == components(p@)[i],
{
    let v = str_chars(p);
    let names = names_exec(&v);
    let mut out: Vec<Vec<char>> = Vec::new();
    if v.len() > 0 && v[0] == '/' {
        let mut root: Vec<char> = Vec::new();
        root.push('/');
        out.push(root);
        assert(lead_of(p@) == seq![seq!['/']]);
        assert(out@[0]@ =~= seq!['/']);
    } else if v.len() > 0 && v[0] == '.' && (v.len() == 1 || v[1] == '/') {
        let mut cur: Vec<char> = Vec::new();
        cur.push('.');
        out.push(cur);
        assert(out@[0]@ =~= seq!['.']);
    }
    let ghost lead_len = out@.len();
    assert(lead_len == lead_of(p@).len());
    let mut i: usize = 0;
    while i < names.len()
        invariant
            lead_len == lead_of(p@).len(),
            names@.len() == names_of(split_slash(p@)).len(),
            forall|j: int| 0 <= j < names@.len() ==> #[trigger] names@[j]@ == names_of(split_slash(p@))[j],
            i <= names@.len(),
            out@.len() == lead_len + i,
            forall|j: int| 0 <= j < out@.len() ==> #[trigger] out@[j]@ == components(p@)[j],
        decreases names.len() - i,
    {
        let mut piece: Vec<char> = Vec::new();
        let mut k: usize = 0;
        while k < names[i].len()
            invariant
                i < names@.len(),
                k <= names@[i as int]@.len(),
                piece@ == names@[i as int]@.subrange(0, k as int),
            decreases names[i as int]@.len() - k,
        {
            piece.push(names[i][k]);
            k = k + 1;
        }
        assert(piece@ =~= names@[i as int]@);
        out.push(piece);
        i = i + 1;
    }
    out
}

/// `a` is a prefix of `b`.
pub open spec fn parts_prefix(a: Seq<Seq<char>>, b: Seq<Seq<char>>) -> bool {
    a.len() <= b.len() && forall|i: int| 0 <= i < a.len() ==> #[trigger] a[i] == b[i]
}

/// The first component of `path` below `base`, as `Path::strip_prefix`
/// followed by the first component of the rest gives it: none when `base`
/// is not a leading part of `path` or is all of it.
pub open spec fn component_after(path: Seq<char>, base: Seq<char>) -> Option<Seq<char>> {
    let pc = components(path);
    let bc = components(base);
    if parts_prefix(bc, pc) && bc.len() < pc.len() {
        Some(pc[bc.len() as int])
    } else {
        None
    }
}

fn chars_equal(a: &Vec<char>, b: &Vec<char>) -> (r: bool)
    ensures
        r == (a@ == b@),
{
    if a.len() != b.len() {
        return false;
    }
    let mut i: usize = 0;
    while i < a.len()
        invariant
            a@.len() == b@.len(),
            i <= a@.len(),
            forall|j: int| 0 <= j < i ==> a@[j] == b@[j],
        decreases a.len() - i,
    {
        if a[i] != b[i] {
            return false;
        }
        i = i + 1;
    }
    assert(a@ =~= b@);
    true
}

/// The first component of `path` below `base` (`Path::strip_prefix`, then
/// the first component of what is left).
pub fn first_component_after(path: &str, base: &str) -> (r: Option<String>)
    ensures
        match r {
            Some(c) => component_after(path@, base@) == Some(c@),
            None => component_after(path@, base@) is None,
        },
{
    let pc = path_components(path);
    let bc = path_components(base);
    if bc.len() >= pc.len() {
        return None;
    }
    let mut i: usize = 0;
    while i < bc.len()
        invariant
            bc@.len() < pc@.len(),
            bc@.len() == components(base@).len(),
            pc@.len() == components(path@).len(),
            forall|j: int| 0 <= j < bc@.len() ==> #[trigger] bc@[j]@ == components(base@)[j],
            forall|j: int| 0 <= j < pc@.len() ==> #[trigger] pc@[j]@ == components(path@)[j],
            i <= bc@.len(),
            forall|j: int| 0 <= j < i ==> components(base@)[j] == #[trigger] components(path@)[j],
        decreases bc.len() - i,
    {
        if !chars_equal(&bc[i], &pc[i]) {
            assert(bc@[i as int]@ != pc@[i as int]@);
            return None;
        }
        i = i + 1;
    }
    let n = bc.len();
    let s = string_from_chars(&pc[n]);
    Some(s)
}


/// The text of a path made of `cs`: the components joined with `/`, a
/// leading root `/` joined directly to the name after it.
pub open spec fn join_components(cs: Seq<Seq<char>>) -> Seq<char>
    decreases cs.len(),
{
    if cs.len() == 0 {
        Seq::<char>::empty()
    } else if cs.len() == 1 {
        cs[0]
    } else {
        let r = join_components(cs.drop_last());
        if r == seq!['/'] {
            r + cs.last()
        } else {
            r + seq!['/'] + cs.last()
        }
    }
}

/// The ancestors of a path, nearest first: the path of all its components
/// but the last, then of all but the last two, down to its first
/// component alone (`std::path::Path::parent`, repeated, up to a path with
/// no components left).
pub open spec fn ancestors(p: Seq<char>) -> Seq<Seq<char>> {
    let cs = components(p);
    let n: int = if cs.len() > 0 {
        cs.len() - 1
    } else {
        0
    };
    Seq::new(n as nat, |i: int| join_components(cs.subrange(0, cs.len() - 1 - i)))
}

/// The ancestors of a path, nearest first.
pub fn ancestor_paths(path: &str) -> (r: Vec<String>)
    ensures
        r@.len() == ancestors(path@).len(),
        forall|i: int| 0 <= i < r@.len() ==> #[trigger] r@[i]@ == ancestors(path@)[i],
{
    let comps = path_components(path);
    let ghost cs = components(path@);
    let n = comps.len();
    let mut fwd: Vec<Vec<char>> = Vec::new();
    if n > 1 {
        let mut cur: Vec<char> = comps[0].clone();
        assert(cs.subrange(0, 1) =~= seq![cs[0]]);
        fwd.push(cur.clone());
        let mut k: usize = 1;
        while k < n - 1
            invariant
                n == cs.len(),
                comps@.len() == n,
                forall|i: int| 0 <= i < n ==> #[trigger] comps@[i]@ == cs[i],
                1 <= k <= n - 1,
                cur@ == join_components(cs.subrange(0, k as int)),
                fwd@.len() == k,
                forall|j: int| 0 <= j < k ==> #[trigger] fwd@[j]@ == join_components(cs.subrange(0, j + 1)),
            decreases n - 1 - k,
        {
            let ghost prev = cur@;
            assert(cs.subrange(0, k as int + 1).drop_last() =~= cs.subrange(0, k as int));
            assert(cs.subrange(0, k as int + 1).last() == cs[k as int]);
            let is_root = cur.len() == 1 && cur[0] == '/';
            assert(is_root == (prev == seq!['/'])) by {
                if prev == seq!['/'] {
                    assert(prev.len() == 1 && prev[0] == '/');
                }
                if is_root {
                    assert(prev =~= seq!['/']);
                }
            }
            if !is_root {
                cur.push('/');
            }
            let mut t: usize = 0;
            let ghost base = cur@;
            while t < comps[k].len()
                invariant
                    k < comps@.len(),
                    t <= comps@[k as int]@.len(),
                    cur@ == base + comps@[k as int]@.subrange(0, t as int),
                decreases comps@[k as int]@.len() - t,
            {
                cur.push(comps[k][t]);
                assert(comps@[k as int]@.subrange(0, t as int + 1) =~= comps@[k as int]@.subrange(0, t as int).push(comps@[k as int]@[t as int]));
                t = t + 1;
            }
            assert(comps@[k as int]@.subrange(0, comps@[k as int]@.len() as int) =~= comps@[k as int]@);
            if is_root {
                assert(cur@ =~= prev + cs[k as int]);
            } else {
                assert(cur@ =~= prev + seq!['/'] + cs[k as int]);
            }
            fwd.push(cur.clone());
            k = k + 1;
        }
    }
    let mut out: Vec<String> = Vec::new();
    let m: usize = if n > 0 { n - 1 } else { 0 };
    assert(ancestors(path@).len() == m);
    let mut i: usize = 0;
    while i < m
        invariant
            m == (if cs.len() > 0 { cs.len() - 1 } else { 0 }),
            cs == components(path@),
            ancestors(path@).len() == m,
            n == cs.len(),
            m > 0 ==> fwd@.len() == m,
            m > 0 ==> forall|j: int| 0 <= j < m ==> #[trigger] fwd@[j]@ == join_components(cs.subrange(0, j + 1)),
            i <= m,
            out@.len() == i,
            forall|j: int| 0 <= j < i ==> #[trigger] out@[j]@ == ancestors(path@)[j],
        decreases m - i,
    {
        let s = string_from_chars(&fwd[m - 1 - i]);
        assert(fwd@[(m - 1 - i) as int]@ == join_components(cs.subrange(0, (m - i) as int)));
        assert(s@ == ancestors(path@)[i as int]);
        out.push(s);
        i = i + 1;
    }
    out
}

} // verus!
