//! Byte-level helpers over source text.
//!
//! Source files are handled as byte vectors; every edit is described exactly
//! as a concatenation of slices of the original text.

use vstd::prelude::*;

verus! {

/// ASCII whitespace: space, tab, line feed, carriage return, form feed.
pub open spec fn spec_is_ws(b: u8) -> bool {
    b == 32 || b == 9 || b == 10 || b == 13 || b == 12
}

pub fn is_ws(b: u8) -> (r: bool)
    ensures
        r == spec_is_ws(b),
{
    b == 32 || b == 9 || b == 10 || b == 13 || b == 12
}

/// First position at or after `from` holding a non-whitespace byte
/// (or the end of the text).
pub open spec fn spec_skip_ws(s: Seq<u8>, from: int) -> int
    decreases s.len() - from,
{
    if from < 0 || from >= s.len() {
        if from < 0 {
            0
        } else {
            s.len() as int
        }
    } else if !spec_is_ws(s[from]) {
        from
    } else {
        spec_skip_ws(s, from + 1)
    }
}

/// Position just after the last non-whitespace byte strictly before `to`
/// (or zero when everything before `to` is whitespace).
pub open spec fn spec_rskip_ws(s: Seq<u8>, to: int) -> int
    decreases to,
{
    if to <= 0 || to > s.len() {
        if to <= 0 {
            0
        } else {
            s.len() as int
        }
    } else if !spec_is_ws(s[to - 1]) {
        to
    } else {
        spec_rskip_ws(s, to - 1)
    }
}

pub fn skip_ws(s: &Vec<u8>, from: usize) -> (r: usize)
    requires
        from <= s.len(),
    ensures
        r == spec_skip_ws(s@, from as int),
        from <= r <= s.len(),
    decreases s.len() - from,
{
    if from == s.len() {
        from
    } else if !is_ws(s[from]) {
        from
    } else {
        skip_ws(s, from + 1)
    }
}

pub fn rskip_ws(s: &Vec<u8>, to: usize) -> (r: usize)
    requires
        to <= s.len(),
    ensures
        r == spec_rskip_ws(s@, to as int),
        r <= to,
    decreases to,
{
    if to == 0 {
        0
    } else if !is_ws(s[to - 1]) {
        to
    } else {
        rskip_ws(s, to - 1)
    }
}

/// Copy of the byte range `[start, end)` of `s`.
pub fn subvec(s: &Vec<u8>, start: usize, end: usize) -> (r: Vec<u8>)
    requires
        start <= end <= s.len(),
    ensures
        r@ == s@.subrange(start as int, end as int),
{
    let mut r: Vec<u8> = Vec::new();
    let mut i: usize = start;
    while i < end
        invariant
            start <= i <= end <= s.len(),
            r@ == s@.subrange(start as int, i as int),
        decreases end - i,
    {
        r.push(s[i]);
        proof {
            assert(s@.subrange(start as int, i + 1 as int) == s@.subrange(
                start as int,
                i as int,
            ).push(s@[i as int]));
        }
        i += 1;
    }
    r
}

/// The text with `[start, end)` replaced by `rep`.
pub open spec fn spec_splice(s: Seq<u8>, start: int, end: int, rep: Seq<u8>) -> Seq<u8> {
    s.subrange(0, start) + rep + s.subrange(end, s.len() as int)
}

/// Build a copy of `s` with the byte range `[start, end)` replaced by `rep`.
pub fn splice(s: &Vec<u8>, start: usize, end: usize, rep: &Vec<u8>) -> (r: Vec<u8>)
    requires
        start <= end <= s.len(),
    ensures
        r@ == spec_splice(s@, start as int, end as int, rep@),
{
    let mut r = subvec(s, 0, start);
    let mut i: usize = 0;
    while i < rep.len()
        invariant
            i <= rep.len(),
            r@ == s@.subrange(0, start as int) + rep@.subrange(0, i as int),
        decreases rep.len() - i,
    {
        r.push(rep[i]);
        proof {
            assert(rep@.subrange(0, i + 1 as int) == rep@.subrange(0, i as int).push(
                rep@[i as int],
            ));
            assert(s@.subrange(0, start as int) + rep@.subrange(0, i + 1 as int) == (s@.subrange(
                0,
                start as int,
            ) + rep@.subrange(0, i as int)).push(rep@[i as int]));
        }
        i += 1;
    }
    proof {
        assert(rep@.subrange(0, rep@.len() as int) == rep@);
    }
    let mut j: usize = end;
    while j < s.len()
        invariant
            end <= j <= s.len(),
            r@ == s@.subrange(0, start as int) + rep@ + s@.subrange(end as int, j as int),
        decreases s.len() - j,
    {
        r.push(s[j]);
        proof {
            assert(s@.subrange(end as int, j + 1 as int) == s@.subrange(end as int, j as int).push(
                s@[j as int],
            ));
            assert(s@.subrange(0, start as int) + rep@ + s@.subrange(end as int, j + 1 as int) == (
            s@.subrange(0, start as int) + rep@ + s@.subrange(end as int, j as int)).push(
                s@[j as int],
            ));
        }
        j += 1;
    }
    r
}

/// Decimal rendering of a number, most significant digit first.
pub open spec fn spec_decimal(n: nat) -> Seq<u8>
    decreases n,
{
    if n < 10 {
        seq![(48 + n) as u8]
    } else {
        spec_decimal(n / 10).push((48 + n % 10) as u8)
    }
}

pub fn decimal_bytes(n: u128) -> (r: Vec<u8>)
    ensures
        r@ == spec_decimal(n as nat),
    decreases n,
{
    if n < 10 {
        let mut r: Vec<u8> = Vec::new();
        r.push(48 + n as u8);
        r
    } else {
        let mut r = decimal_bytes(n / 10);
        r.push(48 + (n % 10) as u8);
        r
    }
}

/// Equality of two string slices, stated over their character views.
pub fn str_eq(a: &str, b: &str) -> (r: bool)
    ensures
        r == (a@ == b@),
{
    let x = a.to_owned();
    let y = b.to_owned();
    x == y
}

/// The parts joined with the separator between consecutive parts.
pub open spec fn spec_join(parts: Seq<Seq<char>>, sep: Seq<char>) -> Seq<char>
    decreases parts,
{
    if parts.len() == 0 {
        Seq::empty()
    } else if parts.len() == 1 {
        parts[0]
    } else {
        parts[0] + sep + spec_join(parts.drop_first(), sep)
    }
}

proof fn lemma_join_push(parts: Seq<Seq<char>>, sep: Seq<char>, x: Seq<char>)
    ensures
        spec_join(parts.push(x), sep) == if parts.len() == 0 {
            x
        } else {
            spec_join(parts, sep) + sep + x
        },
    decreases parts,
{
    if parts.len() == 0 {
        assert(parts.push(x)[0] == x);
    } else {
        assert(parts.push(x)[0] == parts[0]);
        assert(parts.push(x).drop_first() =~= parts.drop_first().push(x));
        lemma_join_push(parts.drop_first(), sep, x);
        if parts.len() == 1 {
            assert(parts.drop_first().len() == 0);
            assert(spec_join(parts.push(x), sep) == parts[0] + sep + x);
            assert(spec_join(parts, sep) == parts[0]);
        } else {
            assert(spec_join(parts, sep) + sep + x =~= parts[0] + sep + (spec_join(
                parts.drop_first(),
                sep,
            ) + sep + x));
        }
    }
}

/// Copy a list of strings, keeping every element.
pub fn clone_strings(v: &Vec<String>) -> (r: Vec<String>)
    ensures
        r@ == v@,
{
    let r = v.clone();
    proof {
        assert forall|i: int| 0 <= i < v@.len() implies r@[i] == v@[i] by {
            assert(vstd::pervasive::cloned::<String>(v@[i], r@[i]));
        }
        assert(r@ =~= v@);
    }
    r
}

/// Join the strings with the separator between consecutive entries.
pub fn join_strings(parts: &Vec<String>, sep: &str) -> (r: String)
    ensures
        r@ == spec_join(parts@.map_values(|s: String| s@), sep@),
{
    let mut r = String::new();
    let mut i: usize = 0;
    proof {
        assert(parts@.map_values(|s: String| s@).take(0) =~= Seq::<Seq<char>>::empty());
    }
    while i < parts.len()
        invariant
            i <= parts.len(),
            r@ == spec_join(parts@.map_values(|s: String| s@).take(i as int), sep@),
        decreases parts.len() - i,
    {
        if i > 0 {
            r.append(sep);
        }
        r.append(parts[i].as_str());
        proof {
            let views = parts@.map_values(|s: String| s@);
            assert(views.take(i + 1) =~= views.take(i as int).push(views[i as int]));
            lemma_join_push(views.take(i as int), sep@, views[i as int]);
            assert(views[i as int] == parts@[i as int]@);
        }
        i += 1;
    }
    proof {
        assert(parts@.map_values(|s: String| s@).take(parts@.len() as int) =~= parts@.map_values(
            |s: String| s@,
        ));
    }
    r
}

} // verus!
