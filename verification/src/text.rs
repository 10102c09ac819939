//! Character-level helpers on strings: conversion between strings and
//! character vectors, replacement of a pattern, joining and searching.
use vstd::prelude::*;
use vstd::string::StringExecFns;

verus! {

/// `std::string::String::push`: the character is appended at the end and
/// nothing else changes.
#[verifier::external_body]
pub(crate) fn push_char(s: &mut String, c: char)
    ensures
        final(s)@ == old(s)@.push(c),
{
    s.push(c)
}

/// The characters of `s`, in order.
pub fn chars_of(s: &str) -> (r: Vec<char>)
    ensures
        r@ == s@,
{
    let mut out: Vec<char> = Vec::new();
    for c in it: s.chars()
        invariant
            it.seq() == s@,
            out@ == s@.take(it.index() as int),
    {
        proof {
            let i = it.index() as int;
            assert(s@.take(i + 1) =~= s@.take(i).push(s@[i]));
        }
        out.push(c);
    }
    proof {
        assert(s@.take(s@.len() as int) =~= s@);
    }
    out
}

/// The string made of the characters `v[from..]`.
pub fn string_from(v: &Vec<char>, from: usize) -> (r: String)
    requires
        from <= v.len(),
    ensures
        r@ == v@.subrange(from as int, v@.len() as int),
{
    let mut out = String::new();
    let mut i: usize = from;
    while i < v.len()
        invariant
            from <= i <= v.len(),
            out@ == v@.subrange(from as int, i as int),
        decreases v.len() - i,
    {
        push_char(&mut out, v[i]);
        proof {
            assert(v@.subrange(from as int, i + 1) =~= v@.subrange(from as int, i as int).push(
                v@[i as int],
            ));
        }
        i += 1;
    }
    out
}

/// Whether `pat` occurs in `s` at position `i`.
pub open spec fn occurs_at(s: Seq<char>, i: int, pat: Seq<char>) -> bool {
    0 <= i && i + pat.len() <= s.len() && s.subrange(i, i + pat.len()) == pat
}

/// `s` with every occurrence of `pat` replaced by `rep`; occurrences are
/// found from the left and do not overlap. An empty pattern leaves `s`
/// unchanged.
pub open spec fn replaced(s: Seq<char>, pat: Seq<char>, rep: Seq<char>) -> Seq<char>
    decreases s.len(),
{
    if pat.len() == 0 || s.len() < pat.len() {
        s
    } else if occurs_at(s, 0, pat) {
        rep + replaced(s.subrange(pat.len() as int, s.len() as int), pat, rep)
    } else {
        seq![s[0]] + replaced(s.subrange(1, s.len() as int), pat, rep)
    }
}

/// Whether `pat` occurs in `s` at position `i`.
pub fn matches_at(s: &Vec<char>, i: usize, pat: &Vec<char>) -> (r: bool)
    requires
        i <= s.len(),
    ensures
        r == occurs_at(s@, i as int, pat@),
{
    if pat.len() > s.len() - i {
        return false;
    }
    let mut k: usize = 0;
    while k < pat.len()
        invariant
            i + pat.len() <= s.len(),
            k <= pat.len(),
            forall|j: int| 0 <= j < k ==> s@[i + j] == pat@[j],
        decreases pat.len() - k,
    {
        if s[i + k] != pat[k] {
            proof {
                assert(s@.subrange(i as int, i + pat.len())[k as int] == s@[i + k]);
            }
            return false;
        }
        k += 1;
    }
    proof {
        assert(s@.subrange(i as int, i + pat.len()) =~= pat@);
    }
    true
}

/// Replaces every occurrence of `pat` in `s` by `rep`.
pub fn replace_all(s: &str, pat: &str, rep: &str) -> (r: String)
    ensures
        r@ == replaced(s@, pat@, rep@),
{
    let sc = chars_of(s);
    let pc = chars_of(pat);
    if pc.len() == 0 {
        return String::from_str(s);
    }
    let n = sc.len();
    let mut out = String::new();
    let mut i: usize = 0;
    proof {
        assert(sc@.subrange(0, n as int) =~= sc@);
        assert(out@ + replaced(sc@, pc@, rep@) =~= replaced(sc@, pc@, rep@));
    }
    while i < n
        invariant
            n == sc.len(),
            sc@ == s@,
            pc@ == pat@,
            pc.len() > 0,
            i <= n,
            out@ + replaced(sc@.subrange(i as int, n as int), pc@, rep@) == replaced(
                sc@,
                pc@,
                rep@,
            ),
        decreases n - i,
    {
        let ghost rest = sc@.subrange(i as int, n as int);
        let ghost before = out@;
        if matches_at(&sc, i, &pc) {
            out.append(rep);
            proof {
                assert(rest.subrange(0, pc@.len() as int) =~= sc@.subrange(
                    i as int,
                    i + pc@.len(),
                ));
                assert(rest.subrange(pc@.len() as int, rest.len() as int) =~= sc@.subrange(
                    i + pc@.len(),
                    n as int,
                ));
                assert(before + (rep@ + replaced(
                    sc@.subrange(i + pc@.len(), n as int),
                    pc@,
                    rep@,
                )) =~= (before + rep@) + replaced(
                    sc@.subrange(i + pc@.len(), n as int),
                    pc@,
                    rep@,
                ));
            }
            i += pc.len();
        } else {
            push_char(&mut out, sc[i]);
            proof {
                let tail = sc@.subrange(i + 1, n as int);
                assert(rest.subrange(1, rest.len() as int) =~= tail);
                assert(rest[0] == sc@[i as int]);
                if rest.len() < pc@.len() {
                    assert(replaced(tail, pc@, rep@) == tail);
                    assert(rest =~= seq![rest[0]] + tail);
                } else {
                    assert(rest.subrange(0, pc@.len() as int) =~= sc@.subrange(
                        i as int,
                        i + pc@.len(),
                    ));
                }
                assert(before + (seq![rest[0]] + replaced(tail, pc@, rep@)) =~= before.push(
                    sc@[i as int],
                ) + replaced(tail, pc@, rep@));
            }
            i += 1;
        }
    }
    proof {
        assert(sc@.subrange(n as int, n as int) =~= Seq::<char>::empty());
        assert(out@ + Seq::<char>::empty() =~= out@);
    }
    out
}

/// Whether the character `c` occurs in `s`.
pub fn contains_char(s: &str, c: char) -> (r: bool)
    ensures
        r == s@.contains(c),
{
    let mut found = false;
    for x in it: s.chars()
        invariant
            it.seq() == s@,
            found == s@.take(it.index() as int).contains(c),
    {
        proof {
            let i = it.index() as int;
            let t0 = s@.take(i);
            let t1 = s@.take(i + 1);
            assert(t1 =~= t0.push(s@[i]));
            if t0.contains(c) {
                let j = choose|j: int| 0 <= j < t0.len() && t0[j] == c;
                assert(t1[j] == c);
            }
            if t1.contains(c) && s@[i] != c {
                let j = choose|j: int| 0 <= j < t1.len() && t1[j] == c;
                assert(t0[j] == c);
            }
            if s@[i] == c {
                assert(t1[i] == c);
            }
        }
        if x == c {
            found = true;
        }
    }
    proof {
        assert(s@.take(s@.len() as int) =~= s@);
    }
    found
}

/// The parts joined with `sep` between each two neighbours.
pub open spec fn joined(parts: Seq<Seq<char>>, sep: Seq<char>) -> Seq<char>
    decreases parts.len(),
{
    if parts.len() == 0 {
        Seq::<char>::empty()
    } else if parts.len() == 1 {
        parts[0]
    } else {
        joined(parts.drop_last(), sep) + sep + parts.last()
    }
}

/// The views of a sequence of strings.
pub open spec fn texts(v: Seq<String>) -> Seq<Seq<char>> {
    v.map_values(|s: String| s@)
}

/// Joins the strings of `parts` with `sep` between each two neighbours.
pub fn join(parts: &Vec<String>, sep: &str) -> (r: String)
    ensures
        r@ == joined(texts(parts@), sep@),
{
    let mut out = String::new();
    let mut i: usize = 0;
    while i < parts.len()
        invariant
            i <= parts.len(),
            out@ == joined(texts(parts@).take(i as int), sep@),
        decreases parts.len() - i,
    {
        proof {
            let t = texts(parts@);
            assert(t.take(i + 1).drop_last() =~= t.take(i as int));
            assert(t.take(i + 1).last() == parts@[i as int]@);
            if i == 0 {
                assert(Seq::<char>::empty() + parts@[i as int]@ =~= parts@[i as int]@);
            }
        }
        if i > 0 {
            out.append(sep);
        }
        out.append(parts[i].as_str());
        i += 1;
    }
    proof {
        assert(texts(parts@).take(parts@.len() as int) =~= texts(parts@));
    }
    out
}

/// A copy of a vector of strings.
pub fn clone_strings(v: &Vec<String>) -> (r: Vec<String>)
    ensures
        texts(r@) == texts(v@),
{
    let mut out: Vec<String> = Vec::new();
    let mut i: usize = 0;
    while i < v.len()
        invariant
            i <= v.len(),
            texts(out@) == texts(v@).take(i as int),
        decreases v.len() - i,
    {
        let ghost before = out@;
        let c = v[i].clone();
        out.push(c);
        proof {
            assert(c@ == v@[i as int]@);
            assert(texts(out@) =~= texts(before).push(c@));
            assert(texts(v@).take(i + 1) =~= texts(v@).take(i as int).push(v@[i as int]@));
        }
        i += 1;
    }
    proof {
        assert(texts(v@).take(v@.len() as int) =~= texts(v@));
    }
    out
}

/// Whether two vectors hold the same strings in the same order.
pub fn same_strings(a: &Vec<String>, b: &Vec<String>) -> (r: bool)
    ensures
        r == (texts(a@) == texts(b@)),
{
    if a.len() != b.len() {
        proof {
            assert(texts(a@).len() != texts(b@).len());
        }
        return false;
    }
    let mut i: usize = 0;
    while i < a.len()
        invariant
            a.len() == b.len(),
            i <= a.len(),
            forall|j: int| 0 <= j < i ==> a@[j]@ == b@[j]@,
        decreases a.len() - i,
    {
        if a[i] != b[i] {
            proof {
                assert(texts(a@)[i as int] == a@[i as int]@);
                assert(texts(b@)[i as int] == b@[i as int]@);
            }
            return false;
        }
        i += 1;
    }
    proof {
        assert(texts(a@) =~= texts(b@));
    }
    true
}

} // verus!
