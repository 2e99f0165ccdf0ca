//! The coverage filter: per-function indexes of covered source spans, built
//! from an execution-count map, and point-in-span queries.
//!
//! The index uses covered-span semantics and is fail-closed: a function with
//! no entry has nothing covered, so nothing in it is mutated when coverage
//! filtering is active.

use vstd::prelude::*;

use crate::span::{spec_spans_overlap, spans_overlap, Span};
use crate::text::{is_ws, spec_is_ws};

verus! {

/// A point of the file lies inside one of the spans.
pub open spec fn spec_point_covered(spans: Seq<Span>, p: int) -> bool {
    exists|i: int| 0 <= i < spans.len() && #[trigger] spans[i].spec_contains(p)
}

/// A point is covered by the raw coverage data: some bytecode offset with a
/// positive execution count translates to a source span holding the point.
pub open spec fn spec_raw_covered(counts: Seq<u64>, sp: Seq<Option<Span>>, p: int) -> bool {
    exists|i: int|
        0 <= i < counts.len() && counts[i] > 0 && sp[i] is Some && #[trigger] sp[i]->0.spec_contains(
            p,
        )
}

/// Every point strictly between `lo` and `hi` is unmarked whitespace.
pub open spec fn spec_ws_gap(marked: Seq<bool>, src: Seq<u8>, lo: int, hi: int) -> bool {
    forall|q: int| lo < q < hi ==> !(#[trigger] marked[q]) && spec_is_ws(src[q])
}

/// Every point strictly between `lo` and `hi` is whitespace not covered by
/// the raw coverage data.
pub open spec fn spec_raw_ws_gap(
    counts: Seq<u64>,
    sp: Seq<Option<Span>>,
    src: Seq<u8>,
    lo: int,
    hi: int,
) -> bool {
    forall|q: int|
        lo < q < hi ==> !(#[trigger] spec_raw_covered(counts, sp, q)) && spec_is_ws(src[q])
}

proof fn lemma_ws_gap_point(marked: Seq<bool>, src: Seq<u8>, lo: int, hi: int, t: int)
    requires
        spec_ws_gap(marked, src, lo, hi),
        lo < t < hi,
    ensures
        !marked[t] && spec_is_ws(src[t]),
{
}

proof fn lemma_raw_ws_gap_point(
    counts: Seq<u64>,
    sp: Seq<Option<Span>>,
    src: Seq<u8>,
    lo: int,
    hi: int,
    t: int,
)
    requires
        spec_raw_ws_gap(counts, sp, src, lo, hi),
        lo < t < hi,
    ensures
        !spec_raw_covered(counts, sp, t) && spec_is_ws(src[t]),
{
}

/// A whitespace point lying in a gap between two raw-covered points, with
/// nothing but whitespace between it and each of them: such gaps are bridged
/// so that covered regions separated purely by formatting are not split.
pub open spec fn spec_gap_bridged(
    counts: Seq<u64>,
    sp: Seq<Option<Span>>,
    src: Seq<u8>,
    p: int,
) -> bool {
    &&& 0 <= p < src.len()
    &&& spec_is_ws(src[p])
    &&& exists|a: int|
        0 <= a < p && #[trigger] spec_raw_covered(counts, sp, a) && spec_raw_ws_gap(
            counts,
            sp,
            src,
            a,
            p,
        )
    &&& exists|b: int|
        p < b < src.len() && #[trigger] spec_raw_covered(counts, sp, b) && spec_raw_ws_gap(
            counts,
            sp,
            src,
            p,
            b,
        )
}

/// A sorted list of non-empty, non-overlapping, non-adjacent spans.
pub open spec fn spec_span_list_wf(spans: Seq<Span>) -> bool {
    &&& forall|i: int| 0 <= i < spans.len() ==> (#[trigger] spans[i]).start < spans[i].end
    &&& forall|i: int| 0 <= i < spans.len() - 1 ==> (#[trigger] spans[i]).end < spans[i + 1].start
}

/// Appending a span extends the covered points by exactly that span.
proof fn lemma_covered_push(rs: Seq<Span>, s: Span, p: int)
    ensures
        spec_point_covered(rs.push(s), p) == (spec_point_covered(rs, p) || s.spec_contains(p)),
{
    if spec_point_covered(rs.push(s), p) {
        let k = choose|k: int| 0 <= k < rs.push(s).len() && #[trigger] rs.push(s)[k].spec_contains(
            p,
        );
        if k < rs.len() {
            assert(rs[k].spec_contains(p));
        } else {
            assert(rs.push(s)[k] == s);
        }
    }
    if spec_point_covered(rs, p) {
        let k = choose|k: int| 0 <= k < rs.len() && #[trigger] rs[k].spec_contains(p);
        assert(rs.push(s)[k].spec_contains(p));
    }
    if s.spec_contains(p) {
        assert(rs.push(s)[rs.len() as int].spec_contains(p));
    }
}

/// Mark every point covered by the raw data.
fn mark_covered(counts: &Vec<u64>, offset_spans: &Vec<Option<Span>>, n: usize) -> (r: Vec<bool>)
    requires
        counts.len() == offset_spans.len(),
        forall|i: int|
            0 <= i < offset_spans.len() && offset_spans@[i] is Some ==> (
            #[trigger] offset_spans@[i])->0.within(n as nat),
    ensures
        r@.len() == n,
        forall|p: int|
            0 <= p < n ==> ((#[trigger] r@[p]) <==> spec_raw_covered(counts@, offset_spans@, p)),
{
    let mut r: Vec<bool> = Vec::new();
    let mut k: usize = 0;
    while k < n
        invariant
            r@.len() == k <= n,
            forall|p: int| 0 <= p < k ==> !(#[trigger] r@[p]),
        decreases n - k,
    {
        r.push(false);
        k += 1;
    }
    let mut i: usize = 0;
    while i < counts.len()
        invariant
            counts.len() == offset_spans.len(),
            forall|j: int|
                0 <= j < offset_spans.len() && offset_spans@[j] is Some ==> (
                #[trigger] offset_spans@[j])->0.within(n as nat),
            i <= counts.len(),
            r@.len() == n,
            forall|p: int|
                0 <= p < n ==> ((#[trigger] r@[p]) <==> exists|j: int|
                    0 <= j < i && counts@[j] > 0 && offset_spans@[j] is Some && (
                    #[trigger] offset_spans@[j])->0.spec_contains(p)),
        decreases counts.len() - i,
    {
        if counts[i] > 0 {
            if let Some(span) = offset_spans[i] {
                let mut p: usize = span.start;
                while p < span.end
                    invariant
                        counts.len() == offset_spans.len(),
                        i < counts.len(),
                        counts@[i as int] > 0,
                        offset_spans@[i as int] is Some,
                        offset_spans@[i as int]->0 == span,
                        span.start <= p <= span.end <= n,
                        r@.len() == n,
                        forall|q: int|
                            0 <= q < n ==> ((#[trigger] r@[q]) <==> (exists|j: int|
                                0 <= j < i && counts@[j] > 0 && offset_spans@[j] is Some && (
                                #[trigger] offset_spans@[j])->0.spec_contains(q)) || (span.start
                                <= q < p)),
                    decreases span.end - p,
                {
                    r[p] = true;
                    p += 1;
                }
            }
        }
        i += 1;
        proof {
            assert forall|p: int| 0 <= p < n implies ((#[trigger] r@[p]) <==> exists|j: int|
                0 <= j < i && counts@[j] > 0 && offset_spans@[j] is Some && (
                #[trigger] offset_spans@[j])->0.spec_contains(p)) by {
                if r@[p] {
                    let j = choose|j: int|
                        0 <= j < i - 1 && counts@[j] > 0 && offset_spans@[j] is Some && (
                        #[trigger] offset_spans@[j])->0.spec_contains(p) || (j == i - 1
                            && counts@[j] > 0 && offset_spans@[j] is Some
                            && offset_spans@[j]->0.spec_contains(p));
                }
                if exists|j: int|
                    0 <= j < i && counts@[j] > 0 && offset_spans@[j] is Some && (
                    #[trigger] offset_spans@[j])->0.spec_contains(p) {
                    let j = choose|j: int|
                        0 <= j < i && counts@[j] > 0 && offset_spans@[j] is Some && (
                        #[trigger] offset_spans@[j])->0.spec_contains(p);
                    assert(j < i - 1 || j == i - 1);
                }
            }
        }
    }
    proof {
        assert forall|p: int| 0 <= p < n implies ((#[trigger] r@[p]) <==> spec_raw_covered(
            counts@,
            offset_spans@,
            p,
        )) by {
            if r@[p] {
                let j = choose|j: int|
                    0 <= j < counts@.len() && counts@[j] > 0 && offset_spans@[j] is Some && (
                    #[trigger] offset_spans@[j])->0.spec_contains(p);
                assert(offset_spans@[j]->0.spec_contains(p));
            }
            if spec_raw_covered(counts@, offset_spans@, p) {
                let j = choose|j: int|
                    0 <= j < counts@.len() && counts@[j] > 0 && offset_spans@[j] is Some && (
                    #[trigger] offset_spans@[j]->0.spec_contains(p));
                assert(offset_spans@[j]->0.spec_contains(p));
            }
        }
    }
    r
}

/// Walk left from `p` through whitespace; report whether a marked point is
/// reached before anything else.
fn ws_linked_left(marked: &Vec<bool>, src: &Vec<u8>, p: usize) -> (r: bool)
    requires
        marked.len() == src.len(),
        p < src.len(),
    ensures
        r <==> exists|a: int|
            0 <= a < p && (#[trigger] marked@[a]) && spec_ws_gap(marked@, src@, a, p as int),
{
    let mut j: usize = p;
    while j > 0
        invariant
            marked.len() == src.len(),
            p < src.len(),
            j <= p,
            spec_ws_gap(marked@, src@, j - 1, p as int),
        decreases j,
    {
        let q = j - 1;
        if marked[q] {
            proof {
                assert(marked@[q as int]);
            }
            return true;
        }
        if !is_ws(src[q]) {
            proof {
                assert forall|a: int|
                    0 <= a < p && (#[trigger] marked@[a]) implies !spec_ws_gap(
                    marked@,
                    src@,
                    a,
                    p as int,
                ) by {
                    if a < q {
                        assert(!(!marked@[q as int] && spec_is_ws(src@[q as int])));
                    } else {
                        assert(!marked@[a]);
                    }
                }
            }
            return false;
        }
        proof {
            assert(!marked@[q as int] && spec_is_ws(src@[q as int]));
            assert forall|t: int| q - 1 < t < p implies !(#[trigger] marked@[t]) && spec_is_ws(
                src@[t],
            ) by {
                if t > q {
                    lemma_ws_gap_point(marked@, src@, j - 1, p as int, t);
                }
            }
        }
        j = q;
    }
    proof {
        assert forall|a: int|
            0 <= a < p && (#[trigger] marked@[a]) implies !spec_ws_gap(
            marked@,
            src@,
            a,
            p as int,
        ) by {
            assert(!marked@[a]);
        }
    }
    false
}

/// Walk right from `p` through whitespace; report whether a marked point is
/// reached before anything else.
fn ws_linked_right(marked: &Vec<bool>, src: &Vec<u8>, p: usize) -> (r: bool)
    requires
        marked.len() == src.len(),
        p < src.len(),
    ensures
        r <==> exists|b: int|
            p < b < src.len() && (#[trigger] marked@[b]) && spec_ws_gap(marked@, src@, p as int, b),
{
    let mut j: usize = p + 1;
    while j < src.len()
        invariant
            marked.len() == src.len(),
            p < src.len(),
            p + 1 <= j <= src.len(),
            spec_ws_gap(marked@, src@, p as int, j as int),
        decreases src.len() - j,
    {
        if marked[j] {
            proof {
                assert(marked@[j as int]);
            }
            return true;
        }
        if !is_ws(src[j]) {
            proof {
                assert forall|b: int|
                    p < b < src@.len() && (#[trigger] marked@[b]) implies !spec_ws_gap(
                    marked@,
                    src@,
                    p as int,
                    b,
                ) by {
                    if b > j {
                        assert(!(!marked@[j as int] && spec_is_ws(src@[j as int])));
                    } else {
                        assert(!marked@[b]);
                    }
                }
            }
            return false;
        }
        proof {
            assert(!marked@[j as int] && spec_is_ws(src@[j as int]));
            assert forall|t: int| p < t < j + 1 implies !(#[trigger] marked@[t]) && spec_is_ws(
                src@[t],
            ) by {
                if t < j {
                    lemma_ws_gap_point(marked@, src@, p as int, j as int, t);
                }
            }
        }
        j += 1;
    }
    proof {
        assert forall|b: int|
            p < b < src@.len() && (#[trigger] marked@[b]) implies !spec_ws_gap(
            marked@,
            src@,
            p as int,
            b,
        ) by {
            assert(!marked@[b]);
        }
    }
    false
}

/// Push one run onto a well-formed span list lying strictly before it.
fn push_run(r: &mut Vec<Span>, s: Span)
    requires
        spec_span_list_wf(old(r)@),
        s.start < s.end,
        old(r)@.len() > 0 ==> old(r)@[old(r)@.len() - 1].end < s.start,
    ensures
        final(r)@ == old(r)@.push(s),
        spec_span_list_wf(final(r)@),
{
    let ghost old_r = r@;
    r.push(s);
    proof {
        assert forall|i: int| 0 <= i < r@.len() - 1 implies (#[trigger] r@[i]).end < r@[i
            + 1].start by {
            if i + 1 < r@.len() - 1 {
                assert(old_r[i].end < old_r[i + 1].start);
            } else {
                assert(old_r[old_r.len() - 1].end < s.start);
            }
        }
        assert forall|i: int| 0 <= i < r@.len() implies (#[trigger] r@[i]).start < r@[i].end by {
            if i < r@.len() - 1 {
                assert(old_r[i].start < old_r[i].end);
            }
        }
    }
}

/// Extract the maximal runs of `true` points as spans.
fn extract_runs(c: &Vec<bool>) -> (r: Vec<Span>)
    ensures
        spec_span_list_wf(r@),
        forall|p: int| 0 <= p < c@.len() ==> (spec_point_covered(r@, p) <==> c@[p]),
        forall|p: int| spec_point_covered(r@, p) ==> 0 <= p < c@.len(),
{
    let mut r: Vec<Span> = Vec::new();
    let mut i: usize = 0;
    let mut run_start: usize = 0;
    let mut in_run = false;
    while i < c.len()
        invariant
            i <= c.len(),
            spec_span_list_wf(r@),
            in_run ==> run_start < i,
            forall|p: int|
                0 <= p < i ==> ((#[trigger] c@[p]) <==> (spec_point_covered(r@, p) || (in_run
                    && run_start <= p))),
            forall|p: int|
                spec_point_covered(r@, p) ==> 0 <= p && p < (if in_run {
                    run_start as int
                } else {
                    i as int
                }),
            r@.len() > 0 ==> r@[r@.len() - 1].end < c@.len() && !c@[r@[r@.len() - 1].end as int]
                && r@[r@.len() - 1].end <= (if in_run {
                run_start as int
            } else {
                i as int
            }),
        decreases c.len() - i,
    {
        if c[i] {
            if !in_run {
                proof {
                    if r@.len() > 0 {
                        assert(!c@[r@[r@.len() - 1].end as int]);
                        assert(c@[i as int]);
                        assert(r@[r@.len() - 1].end < i);
                    }
                }
                run_start = i;
                in_run = true;
            }
        } else {
            if in_run {
                proof {
                    assert(c@[run_start as int]);
                    if r@.len() > 0 {
                        assert(!c@[r@[r@.len() - 1].end as int]);
                        assert(r@[r@.len() - 1].end < run_start);
                    }
                }
                let ghost pre = r@;
                let ghost s = Span { start: run_start, end: i };
                push_run(&mut r, Span { start: run_start, end: i });
                in_run = false;
                proof {
                    assert forall|p: int|
                        0 <= p < i + 1 implies ((#[trigger] c@[p]) <==> spec_point_covered(r@, p))
                        by {
                        lemma_covered_push(pre, s, p);
                        if p < i {
                            if run_start <= p {
                                assert(s.spec_contains(p));
                            } else {
                                assert(!s.spec_contains(p));
                            }
                        } else {
                            assert(!c@[p]);
                            assert(!s.spec_contains(p));
                            assert(!spec_point_covered(pre, p));
                        }
                    }
                    assert forall|p: int| spec_point_covered(r@, p) implies 0 <= p && p < i
                        + 1 by {
                        lemma_covered_push(pre, s, p);
                        if spec_point_covered(pre, p) {
                            assert(p < run_start);
                        } else {
                            assert(s.spec_contains(p));
                        }
                    }
                }
            } else {
                proof {
                    assert forall|p: int|
                        0 <= p < i + 1 implies ((#[trigger] c@[p]) <==> spec_point_covered(r@, p))
                        by {
                        if p == i {
                            assert(!(spec_point_covered(r@, p)));
                            assert(!c@[p]);
                        }
                    }
                }
            }
        }
        i += 1;
    }
    if in_run {
        proof {
            assert(c@[run_start as int]);
            if r@.len() > 0 {
                assert(!c@[r@[r@.len() - 1].end as int]);
                assert(r@[r@.len() - 1].end < run_start);
            }
        }
        let ghost pre = r@;
        let ghost s = Span { start: run_start, end: c.len() };
        push_run(&mut r, Span { start: run_start, end: c.len() });
        proof {
            assert forall|p: int|
                0 <= p < c@.len() implies ((#[trigger] c@[p]) <==> spec_point_covered(r@, p)) by {
                lemma_covered_push(pre, s, p);
                if run_start <= p {
                    assert(s.spec_contains(p));
                } else {
                    assert(!s.spec_contains(p));
                }
            }
            assert forall|p: int| spec_point_covered(r@, p) implies 0 <= p < c@.len() by {
                lemma_covered_push(pre, s, p);
                if spec_point_covered(pre, p) {
                    assert(p < run_start);
                }
            }
        }
    }
    r
}

/// Collect, for one function, the covered source spans: every point reached
/// by an offset with a positive execution count, with whitespace-only gaps
/// between covered points bridged, merged into minimal sorted
/// non-overlapping runs.
///
/// `counts[i]` is the execution count of bytecode offset `i`;
/// `offset_spans[i]` is the source span that offset translates to, when the
/// source map has one; `source` is the file text.
#[verifier::rlimit(60)]
pub fn compute_function_covered_spans(
    counts: &Vec<u64>,
    offset_spans: &Vec<Option<Span>>,
    source: &Vec<u8>,
) -> (r: Vec<Span>)
    requires
        counts.len() == offset_spans.len(),
        forall|i: int|
            0 <= i < offset_spans.len() && offset_spans@[i] is Some ==> (
            #[trigger] offset_spans@[i])->0.within(source@.len()),
    ensures
        spec_span_list_wf(r@),
        forall|p: int|
            0 <= p < source@.len() ==> (spec_point_covered(r@, p) <==> spec_raw_covered(
                counts@,
                offset_spans@,
                p,
            ) || spec_gap_bridged(counts@, offset_spans@, source@, p)),
        forall|p: int| spec_point_covered(r@, p) ==> 0 <= p < source@.len(),
{
    let marked = mark_covered(counts, offset_spans, source.len());
    let mut c: Vec<bool> = Vec::new();
    let mut p: usize = 0;
    while p < source.len()
        invariant
            marked@.len() == source@.len(),
            counts.len() == offset_spans.len(),
            forall|q: int|
                0 <= q < source@.len() ==> ((#[trigger] marked@[q]) <==> spec_raw_covered(
                    counts@,
                    offset_spans@,
                    q,
                )),
            p <= source.len(),
            c@.len() == p,
            forall|q: int|
                0 <= q < p ==> ((#[trigger] c@[q]) <==> spec_raw_covered(counts@, offset_spans@, q)
                    || spec_gap_bridged(counts@, offset_spans@, source@, q)),
        decreases source.len() - p,
    {
        let covered = if marked[p] {
            proof {
                assert(spec_raw_covered(counts@, offset_spans@, p as int));
            }
            true
        } else if is_ws(source[p]) {
            let left = ws_linked_left(&marked, source, p);
            let right = ws_linked_right(&marked, source, p);
            let linked = left && right;
            proof {
                if linked {
                    let a = choose|a: int|
                        0 <= a < p && (#[trigger] marked@[a]) && spec_ws_gap(
                            marked@,
                            source@,
                            a,
                            p as int,
                        );
                    let b = choose|b: int|
                        p < b < source@.len() && (#[trigger] marked@[b]) && spec_ws_gap(
                            marked@,
                            source@,
                            p as int,
                            b,
                        );
                    assert(spec_raw_covered(counts@, offset_spans@, a));
                    assert(spec_raw_covered(counts@, offset_spans@, b));
                    assert forall|q: int|
                        a < q < p implies !(#[trigger] spec_raw_covered(counts@, offset_spans@, q))
                            && spec_is_ws(source@[q]) by {
                        lemma_ws_gap_point(marked@, source@, a, p as int, q);
                    }
                    assert forall|q: int|
                        (p as int) < q < b implies !(#[trigger] spec_raw_covered(
                        counts@,
                        offset_spans@,
                        q,
                    )) && spec_is_ws(source@[q]) by {
                        lemma_ws_gap_point(marked@, source@, p as int, b, q);
                    }
                    assert(spec_raw_ws_gap(counts@, offset_spans@, source@, a, p as int));
                    assert(spec_raw_ws_gap(counts@, offset_spans@, source@, p as int, b));
                    assert(spec_gap_bridged(counts@, offset_spans@, source@, p as int));
                } else {
                    if spec_gap_bridged(counts@, offset_spans@, source@, p as int) {
                        let a = choose|a: int|
                            0 <= a < p && (#[trigger] spec_raw_covered(counts@, offset_spans@, a))
                                && spec_raw_ws_gap(counts@, offset_spans@, source@, a, p as int);
                        let b = choose|b: int|
                            p < b < source@.len() && (#[trigger] spec_raw_covered(
                                counts@,
                                offset_spans@,
                                b,
                            )) && spec_raw_ws_gap(counts@, offset_spans@, source@, p as int, b);
                        assert(marked@[a]);
                        assert(marked@[b]);
                        assert forall|q: int|
                            a < q < p implies !(#[trigger] marked@[q]) && spec_is_ws(source@[q]) by {
                            lemma_raw_ws_gap_point(
                                counts@,
                                offset_spans@,
                                source@,
                                a,
                                p as int,
                                q,
                            );
                        }
                        assert forall|q: int|
                            (p as int) < q < b implies !(#[trigger] marked@[q]) && spec_is_ws(
                            source@[q],
                        ) by {
                            lemma_raw_ws_gap_point(
                                counts@,
                                offset_spans@,
                                source@,
                                p as int,
                                b,
                                q,
                            );
                        }
                        assert(spec_ws_gap(marked@, source@, a, p as int));
                        assert(spec_ws_gap(marked@, source@, p as int, b));
                        assert(false);
                    }
                }
            }
            linked
        } else {
            proof {
                assert(!spec_gap_bridged(counts@, offset_spans@, source@, p as int));
                assert(!spec_raw_covered(counts@, offset_spans@, p as int));
            }
            false
        };
        c.push(covered);
        p += 1;
    }
    let runs = extract_runs(&c);
    proof {
        assert forall|p: int|
            0 <= p < source@.len() implies (spec_point_covered(runs@, p) <==> spec_raw_covered(
            counts@,
            offset_spans@,
            p,
        ) || spec_gap_bridged(counts@, offset_spans@, source@, p)) by {
            assert(spec_point_covered(runs@, p) <==> c@[p]);
        }
    }
    runs
}

/// Contains all covered spans of the project, keyed by qualified function
/// name (`module::function`).
#[derive(Debug)]
pub struct Coverage {
    entries: Vec<(String, Vec<Span>)>,
}

/// The spans recorded for a qualified function name: the first entry under
/// that name, if any.
pub open spec fn spec_lookup(es: Seq<(String, Vec<Span>)>, q: Seq<char>) -> Option<Seq<Span>>
    decreases es,
{
    if es.len() == 0 {
        None
    } else if es[0].0@ == q {
        Some(es[0].1@)
    } else {
        spec_lookup(es.drop_first(), q)
    }
}

/// The location strictly overlaps one of the spans.
pub open spec fn spec_any_overlap(spans: Seq<Span>, loc: Span) -> bool {
    exists|i: int| 0 <= i < spans.len() && #[trigger] spec_spans_overlap(loc, spans[i])
}

/// A location is covered when its function has an entry and the location
/// strictly overlaps one of the entry's spans; a function with no entry has
/// nothing covered.
pub open spec fn spec_is_covered(es: Seq<(String, Vec<Span>)>, q: Seq<char>, loc: Span) -> bool {
    match spec_lookup(es, q) {
        None => false,
        Some(spans) => spec_any_overlap(spans, loc),
    }
}

impl Coverage {
    pub closed spec fn spec_entries(self) -> Seq<(String, Vec<Span>)> {
        self.entries@
    }

    /// An empty index: with it, nothing is ever reported covered.
    pub fn new() -> (r: Coverage)
        ensures
            r.spec_entries() == Seq::<(String, Vec<Span>)>::empty(),
    {
        Coverage { entries: Vec::new() }
    }

    /// Whether the index holds an entry for the qualified function name.
    pub fn has_function(&self, qname: &str) -> (r: bool)
        ensures
            r == (spec_lookup(self.spec_entries(), qname@) is Some),
    {
        proof {
            assert(self.spec_entries().skip(0) =~= self.spec_entries());
        }
        let mut i: usize = 0;
        while i < self.entries.len()
            invariant
                i <= self.entries.len(),
                spec_lookup(self.spec_entries(), qname@) == spec_lookup(
                    self.spec_entries().skip(i as int),
                    qname@,
                ),
            decreases self.entries.len() - i,
        {
            proof {
                assert(self.spec_entries().skip(i as int).drop_first() =~= self.spec_entries().skip(
                    i + 1,
                ));
                assert(self.spec_entries().skip(i as int)[0] == self.spec_entries()[i as int]);
            }
            if crate::text::str_eq(self.entries[i].0.as_str(), qname) {
                return true;
            }
            i += 1;
        }
        false
    }

    /// Record the covered spans of one function. The name must not be
    /// recorded yet: the index is built once, one entry per function.
    pub fn add_function(&mut self, qname: String, spans: Vec<Span>)
        requires
            spec_lookup(old(self).spec_entries(), qname@) is None,
        ensures
            final(self).spec_entries() == old(self).spec_entries().push((qname, spans)),
            forall|q: Seq<char>, loc: Span|
                #[trigger] spec_is_covered(final(self).spec_entries(), q, loc) == if q == qname@ {
                    spec_any_overlap(spans@, loc)
                } else {
                    spec_is_covered(old(self).spec_entries(), q, loc)
                },
    {
        let ghost old_es = self.entries@;
        let ghost qv = qname@;
        let ghost sv = spans@;
        self.entries.push((qname, spans));
        proof {
            assert forall|q: Seq<char>|
                #[trigger] spec_lookup(self.entries@, q) == (if q == qv {
                    Some(sv)
                } else {
                    spec_lookup(old_es, q)
                }) by {
                Self::lemma_lookup_push(old_es, (qname, spans), q);
            }
            assert forall|q: Seq<char>, loc: Span|
                #[trigger] spec_is_covered(self.entries@, q, loc) == (if q == qv {
                    spec_any_overlap(sv, loc)
                } else {
                    spec_is_covered(old_es, q, loc)
                }) by {
                assert(spec_lookup(self.entries@, q) == (if q == qv {
                    Some(sv)
                } else {
                    spec_lookup(old_es, q)
                }));
            }
        }
    }

    proof fn lemma_lookup_push(es: Seq<(String, Vec<Span>)>, e: (String, Vec<Span>), q: Seq<char>)
        requires
            spec_lookup(es, e.0@) is None,
        ensures
            spec_lookup(es.push(e), q) == (if q == e.0@ {
                Some(e.1@)
            } else {
                spec_lookup(es, q)
            }),
        decreases es,
    {
        if es.len() == 0 {
            assert(es.push(e)[0] == e);
            assert(es.push(e).drop_first() =~= Seq::<(String, Vec<Span>)>::empty());
            assert(spec_lookup(Seq::<(String, Vec<Span>)>::empty(), q) is None);
        } else {
            assert(es.push(e)[0] == es[0]);
            assert(es.push(e).drop_first() =~= es.drop_first().push(e));
            Self::lemma_lookup_push(es.drop_first(), e, q);
        }
    }

    /// Check if the location is covered by a unit test.
    /// Returns true if the location is covered, false if uncovered; a
    /// function without recorded spans has nothing covered.
    pub fn check_location(&self, associated_fn_name: &str, loc: Span) -> (r: bool)
        ensures
            r == spec_is_covered(self.spec_entries(), associated_fn_name@, loc),
    {
        proof {
            assert(self.spec_entries().skip(0) =~= self.spec_entries());
        }
        let mut i: usize = 0;
        while i < self.entries.len()
            invariant
                i <= self.entries.len(),
                spec_lookup(self.spec_entries(), associated_fn_name@) == spec_lookup(
                    self.spec_entries().skip(i as int),
                    associated_fn_name@,
                ),
            decreases self.entries.len() - i,
        {
            proof {
                assert(self.spec_entries().skip(i as int).drop_first() =~= self.spec_entries().skip(
                    i + 1,
                ));
                assert(self.spec_entries().skip(i as int)[0] == self.spec_entries()[i as int]);
            }
            if crate::text::str_eq(self.entries[i].0.as_str(), associated_fn_name) {
                let spans = &self.entries[i].1;
                proof {
                    assert(spec_lookup(self.spec_entries(), associated_fn_name@) == Some(spans@));
                }
                let mut j: usize = 0;
                while j < spans.len()
                    invariant
                        i < self.entries.len(),
                        j <= spans.len(),
                        spans == &self.entries[i as int].1,
                        spec_lookup(self.spec_entries(), associated_fn_name@) == Some(spans@),
                        forall|k: int|
                            0 <= k < j ==> !(#[trigger] spec_spans_overlap(loc, spans@[k])),
                    decreases spans.len() - j,
                {
                    if spans_overlap(loc, spans[j]) {
                        proof {
                            assert(spec_spans_overlap(loc, spans@[j as int]));
                            assert(spec_any_overlap(spans@, loc));
                        }
                        return true;
                    }
                    j += 1;
                }
                proof {
                    assert(!spec_any_overlap(spans@, loc));
                }
                return false;
            }
            i += 1;
        }
        false
    }
}

} // verus!
