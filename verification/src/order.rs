//! Source order: spans ordered by where they start, then by where they end,
//! and lists put in that order.

use vstd::prelude::*;
use crate::ast::Span;
use crate::diagnostic::{Diagnostic, DiagnosticView};

verus! {

/// Source order: by start, then by end.
pub open spec fn span_before(a: Span, b: Span) -> bool {
    a.lo < b.lo || (a.lo == b.lo && a.hi <= b.hi)
}

/// `x` put into a list in source order, after every span that comes before
/// it or with it.
pub open spec fn insert_sorted(s: Seq<Span>, x: Span) -> Seq<Span>
    decreases s.len(),
{
    if s.len() == 0 {
        seq![x]
    } else if span_before(s.last(), x) {
        s.push(x)
    } else {
        insert_sorted(s.drop_last(), x).push(s.last())
    }
}

/// A list of spans in source order.
pub open spec fn sort_spans(s: Seq<Span>) -> Seq<Span>
    decreases s.len(),
{
    if s.len() == 0 {
        s
    } else {
        insert_sorted(sort_spans(s.drop_last()), s.last())
    }
}

/// Whether `a` comes before `b` in source order, or with it.
pub fn span_before_exec(a: Span, b: Span) -> (r: bool)
    ensures
        r == span_before(a, b),
{
    a.lo < b.lo || (a.lo == b.lo && a.hi <= b.hi)
}

/// Puts a span into a list in source order.
pub fn insert_sorted_exec(v: &mut Vec<Span>, x: Span)
    ensures
        final(v)@ == insert_sorted(old(v)@, x),
    decreases old(v)@.len(),
{
    if v.len() == 0 {
        v.push(x);
        assert(v@ =~= seq![x]);
        return;
    }
    let last = v[v.len() - 1];
    if span_before_exec(last, x) {
        v.push(x);
    } else {
        v.pop();
        insert_sorted_exec(v, x);
        v.push(last);
    }
}

/// A list of spans in source order.
pub fn sort_spans_exec(s: &Vec<Span>) -> (r: Vec<Span>)
    ensures
        r@ == sort_spans(s@),
{
    let mut out: Vec<Span> = Vec::new();
    let mut i: usize = 0;
    assert(s@.take(0) =~= Seq::<Span>::empty());
    while i < s.len()
        invariant
            i <= s@.len(),
            out@ == sort_spans(s@.take(i as int)),
        decreases s@.len() - i,
    {
        assert(s@.take(i + 1).drop_last() =~= s@.take(i as int));
        insert_sorted_exec(&mut out, s[i]);
        i = i + 1;
    }
    assert(s@.take(i as int) =~= s@);
    out
}

/// A list of diagnostics keyed by span, as values.
pub open spec fn keyed_view(v: Seq<(Span, Diagnostic)>) -> Seq<(Span, DiagnosticView)> {
    v.map_values(|e: (Span, Diagnostic)| (e.0, e.1@))
}

/// `x` put into a keyed list in source order, after every entry whose span
/// comes before its own or with it.
pub open spec fn insert_keyed<T>(s: Seq<(Span, T)>, x: (Span, T)) -> Seq<(Span, T)>
    decreases s.len(),
{
    if s.len() == 0 {
        seq![x]
    } else if span_before(s.last().0, x.0) {
        s.push(x)
    } else {
        insert_keyed(s.drop_last(), x).push(s.last())
    }
}

/// A keyed list in source order of its spans.
pub open spec fn sort_keyed<T>(s: Seq<(Span, T)>) -> Seq<(Span, T)>
    decreases s.len(),
{
    if s.len() == 0 {
        s
    } else {
        insert_keyed(sort_keyed(s.drop_last()), s.last())
    }
}

/// Puts a keyed diagnostic into a list in source order.
pub fn insert_keyed_exec(v: &mut Vec<(Span, Diagnostic)>, x: (Span, Diagnostic))
    ensures
        keyed_view(final(v)@) == insert_keyed(keyed_view(old(v)@), (x.0, x.1@)),
    decreases old(v)@.len(),
{
    let ghost o = keyed_view(v@);
    let ghost xv = (x.0, x.1@);
    if v.len() == 0 {
        v.push(x);
        assert(keyed_view(v@) =~= seq![xv]);
        return;
    }
    let last_span = v[v.len() - 1].0;
    if span_before_exec(last_span, x.0) {
        v.push(x);
        assert(keyed_view(v@) =~= o.push(xv));
    } else {
        let last = v.pop().unwrap();
        let ghost lv = (last.0, last.1@);
        assert(keyed_view(v@) =~= o.drop_last());
        insert_keyed_exec(v, x);
        let ghost mid = keyed_view(v@);
        v.push(last);
        assert(keyed_view(v@) =~= mid.push(lv));
    }
}

/// A keyed list of diagnostics in source order of its spans.
pub fn sort_keyed_exec(v: Vec<(Span, Diagnostic)>) -> (r: Vec<(Span, Diagnostic)>)
    ensures
        keyed_view(r@) == sort_keyed(keyed_view(v@)),
{
    let ghost o = keyed_view(v@);
    assert(o.len() == v.len());
    let mut rest = v;
    let mut out: Vec<(Span, Diagnostic)> = Vec::new();
    let mut k: usize = 0;
    assert(keyed_view(out@) =~= sort_keyed(o.take(0)));
    assert(keyed_view(rest@) =~= o.skip(0));
    while rest.len() > 0
        invariant
            k + rest@.len() == o.len(),
            o.len() <= usize::MAX,
            keyed_view(rest@) == o.skip(k as int),
            keyed_view(out@) == sort_keyed(o.take(k as int)),
        decreases rest@.len(),
    {
        let ghost before = keyed_view(rest@);
        let ghost rest_before = rest@;
        let x = rest.remove(0);
        assert(before[0] == o[k as int]);
        assert(o.take(k + 1).drop_last() =~= o.take(k as int));
        assert(o.take(k + 1).last() == o[k as int]);
        insert_keyed_exec(&mut out, x);
        assert forall|j: int| 0 <= j < rest@.len() implies keyed_view(rest@)[j] == o.skip(k + 1)[j] by {
            assert(rest@[j] == rest_before[j + 1]);
            assert(before[j + 1] == o[k + 1 + j]);
        }
        assert(keyed_view(rest@) =~= o.skip(k + 1));
        k = k + 1;
    }
    assert(o.take(k as int) =~= o);
    out
}

/// Whether a list of spans is in source order.
pub open spec fn spans_sorted(s: Seq<Span>) -> bool {
    forall|i: int, j: int| 0 <= i < j < s.len() ==> span_before(#[trigger] s[i], #[trigger] s[j])
}

/// Whether a keyed list is in source order of its spans.
pub open spec fn keyed_sorted<T>(s: Seq<(Span, T)>) -> bool {
    forall|i: int, j: int| 0 <= i < j < s.len() ==> span_before(#[trigger] s[i].0, #[trigger] s[j].0)
}

proof fn lemma_insert_sorted(s: Seq<Span>, x: Span)
    requires
        spans_sorted(s),
    ensures
        spans_sorted(insert_sorted(s, x)),
        insert_sorted(s, x).len() == s.len() + 1,
        forall|k: int| 0 <= k < s.len() + 1 ==> #[trigger] insert_sorted(s, x)[k] == x || s.contains(insert_sorted(s, x)[k]),
    decreases s.len(),
{
    if s.len() == 0 {
    } else if span_before(s.last(), x) {
        let r = s.push(x);
        assert forall|k: int| 0 <= k < s.len() + 1 implies #[trigger] r[k] == x || s.contains(r[k]) by {
            if k < s.len() {
                assert(r[k] == s[k]);
            }
        }
    } else {
        let d = s.drop_last();
        assert(spans_sorted(d)) by {
            assert forall|i: int, j: int| 0 <= i < j < d.len() implies span_before(#[trigger] d[i], #[trigger] d[j]) by {
                assert(d[i] == s[i] && d[j] == s[j]);
            }
        }
        lemma_insert_sorted(d, x);
        let m = insert_sorted(d, x);
        let r = m.push(s.last());
        assert forall|k: int| 0 <= k < m.len() implies span_before(#[trigger] m[k], s.last()) by {
            if m[k] != x {
                let j = choose|j: int| 0 <= j < d.len() && d[j] == m[k];
                assert(s[j] == d[j]);
                assert(span_before(s[j], s[s.len() - 1]));
            }
        }
        assert forall|i: int, j: int| 0 <= i < j < r.len() implies span_before(#[trigger] r[i], #[trigger] r[j]) by {
            if j == r.len() - 1 {
                assert(r[i] == m[i]);
                assert(span_before(m[i], s.last()));
            } else {
                assert(r[i] == m[i] && r[j] == m[j]);
            }
        }
        assert forall|k: int| 0 <= k < s.len() + 1 implies #[trigger] r[k] == x || s.contains(r[k]) by {
            if k == s.len() {
                assert(r[k] == s[s.len() - 1]);
            } else {
                assert(r[k] == m[k]);
                if m[k] != x {
                    let j = choose|j: int| 0 <= j < d.len() && d[j] == m[k];
                    assert(s[j] == d[j]);
                }
            }
        }
    }
}

/// A list of spans put in source order is in source order.
pub proof fn lemma_sort_spans_sorted(s: Seq<Span>)
    ensures
        spans_sorted(sort_spans(s)),
        sort_spans(s).len() == s.len(),
    decreases s.len(),
{
    if s.len() > 0 {
        lemma_sort_spans_sorted(s.drop_last());
        lemma_insert_sorted(sort_spans(s.drop_last()), s.last());
    }
}

proof fn lemma_insert_keyed<T>(s: Seq<(Span, T)>, x: (Span, T))
    requires
        keyed_sorted(s),
    ensures
        keyed_sorted(insert_keyed(s, x)),
        insert_keyed(s, x).len() == s.len() + 1,
        forall|k: int| 0 <= k < s.len() + 1 ==> #[trigger] insert_keyed(s, x)[k] == x || s.contains(insert_keyed(s, x)[k]),
    decreases s.len(),
{
    if s.len() == 0 {
    } else if span_before(s.last().0, x.0) {
        let r = s.push(x);
        assert forall|k: int| 0 <= k < s.len() + 1 implies #[trigger] r[k] == x || s.contains(r[k]) by {
            if k < s.len() {
                assert(r[k] == s[k]);
            }
        }
    } else {
        let d = s.drop_last();
        assert(keyed_sorted(d)) by {
            assert forall|i: int, j: int| 0 <= i < j < d.len() implies span_before(#[trigger] d[i].0, #[trigger] d[j].0) by {
                assert(d[i] == s[i] && d[j] == s[j]);
            }
        }
        lemma_insert_keyed(d, x);
        let m = insert_keyed(d, x);
        let r = m.push(s.last());
        assert forall|k: int| 0 <= k < m.len() implies span_before(#[trigger] m[k].0, s.last().0) by {
            if m[k] != x {
                let j = choose|j: int| 0 <= j < d.len() && d[j] == m[k];
                assert(s[j] == d[j]);
                assert(span_before(s[j].0, s[s.len() - 1].0));
            }
        }
        assert forall|i: int, j: int| 0 <= i < j < r.len() implies span_before(#[trigger] r[i].0, #[trigger] r[j].0) by {
            if j == r.len() - 1 {
                assert(r[i] == m[i]);
                assert(span_before(m[i].0, s.last().0));
            } else {
                assert(r[i] == m[i] && r[j] == m[j]);
            }
        }
        assert forall|k: int| 0 <= k < s.len() + 1 implies #[trigger] r[k] == x || s.contains(r[k]) by {
            if k == s.len() {
                assert(r[k] == s[s.len() - 1]);
            } else {
                assert(r[k] == m[k]);
                if m[k] != x {
                    let j = choose|j: int| 0 <= j < d.len() && d[j] == m[k];
                    assert(s[j] == d[j]);
                }
            }
        }
    }
}

/// A keyed list put in source order is in source order.
pub proof fn lemma_sort_keyed_sorted<T>(s: Seq<(Span, T)>)
    ensures
        keyed_sorted(sort_keyed(s)),
        sort_keyed(s).len() == s.len(),
    decreases s.len(),
{
    if s.len() > 0 {
        lemma_sort_keyed_sorted(s.drop_last());
        lemma_insert_keyed(sort_keyed(s.drop_last()), s.last());
    }
}

/// Strictly before in source order.
pub open spec fn span_lt(a: Span, b: Span) -> bool {
    a.lo < b.lo || (a.lo == b.lo && a.hi < b.hi)
}

/// Whether no two entries of a keyed list stand at the same place.
pub open spec fn keys_distinct<T>(s: Seq<(Span, T)>) -> bool {
    forall|i: int, j: int| 0 <= i < j < s.len() ==> #[trigger] s[i].0 != #[trigger] s[j].0
}

/// Whether the spans of a keyed list strictly increase.
pub open spec fn keyed_strictly_sorted<T>(s: Seq<(Span, T)>) -> bool {
    forall|i: int, j: int| 0 <= i < j < s.len() ==> span_lt(#[trigger] s[i].0, #[trigger] s[j].0)
}

proof fn lemma_insert_keyed_strict<T>(s: Seq<(Span, T)>, x: (Span, T))
    requires
        keyed_strictly_sorted(s),
        forall|k: int| 0 <= k < s.len() ==> #[trigger] s[k].0 != x.0,
    ensures
        keyed_strictly_sorted(insert_keyed(s, x)),
        insert_keyed(s, x).len() == s.len() + 1,
        forall|k: int| 0 <= k < s.len() + 1 ==> #[trigger] insert_keyed(s, x)[k] == x || s.contains(insert_keyed(s, x)[k]),
    decreases s.len(),
{
    if s.len() == 0 {
    } else if span_before(s.last().0, x.0) {
        let r = s.push(x);
        assert(s[s.len() - 1].0 != x.0);
        assert forall|i: int, j: int| 0 <= i < j < r.len() implies span_lt(#[trigger] r[i].0, #[trigger] r[j].0) by {
            if j == r.len() - 1 {
                assert(r[i] == s[i]);
                if i < s.len() - 1 {
                    assert(span_lt(s[i].0, s[s.len() - 1].0));
                }
            } else {
                assert(r[i] == s[i] && r[j] == s[j]);
            }
        }
        assert forall|k: int| 0 <= k < s.len() + 1 implies #[trigger] r[k] == x || s.contains(r[k]) by {
            if k < s.len() {
                assert(r[k] == s[k]);
            }
        }
    } else {
        let d = s.drop_last();
        assert(keyed_strictly_sorted(d)) by {
            assert forall|i: int, j: int| 0 <= i < j < d.len() implies span_lt(#[trigger] d[i].0, #[trigger] d[j].0) by {
                assert(d[i] == s[i] && d[j] == s[j]);
            }
        }
        assert forall|k: int| 0 <= k < d.len() implies #[trigger] d[k].0 != x.0 by {
            assert(d[k] == s[k]);
        }
        lemma_insert_keyed_strict(d, x);
        let m = insert_keyed(d, x);
        let r = m.push(s.last());
        assert forall|k: int| 0 <= k < m.len() implies span_lt(#[trigger] m[k].0, s.last().0) by {
            if m[k] != x {
                let j = choose|j: int| 0 <= j < d.len() && d[j] == m[k];
                assert(s[j] == d[j]);
                assert(span_lt(s[j].0, s[s.len() - 1].0));
            }
        }
        assert forall|i: int, j: int| 0 <= i < j < r.len() implies span_lt(#[trigger] r[i].0, #[trigger] r[j].0) by {
            if j == r.len() - 1 {
                assert(r[i] == m[i]);
                assert(span_lt(m[i].0, s.last().0));
            } else {
                assert(r[i] == m[i] && r[j] == m[j]);
            }
        }
        assert forall|k: int| 0 <= k < s.len() + 1 implies #[trigger] r[k] == x || s.contains(r[k]) by {
            if k == s.len() {
                assert(r[k] == s[s.len() - 1]);
            } else {
                assert(r[k] == m[k]);
                if m[k] != x {
                    let j = choose|j: int| 0 <= j < d.len() && d[j] == m[k];
                    assert(s[j] == d[j]);
                }
            }
        }
    }
}

/// A keyed list whose entries stand at distinct places, put in source order,
/// has strictly increasing spans, and holds only its entries.
pub proof fn lemma_sort_keyed_strict<T>(s: Seq<(Span, T)>)
    requires
        keys_distinct(s),
    ensures
        keyed_strictly_sorted(sort_keyed(s)),
        sort_keyed(s).len() == s.len(),
        forall|k: int| 0 <= k < s.len() ==> s.contains(#[trigger] sort_keyed(s)[k]),
    decreases s.len(),
{
    if s.len() > 0 {
        let d = s.drop_last();
        assert(keys_distinct(d)) by {
            assert forall|i: int, j: int| 0 <= i < j < d.len() implies #[trigger] d[i].0 != #[trigger] d[j].0 by {
                assert(d[i] == s[i] && d[j] == s[j]);
            }
        }
        lemma_sort_keyed_strict(d);
        let m = sort_keyed(d);
        assert forall|k: int| 0 <= k < m.len() implies #[trigger] m[k].0 != s.last().0 by {
            let j = choose|j: int| 0 <= j < d.len() && d[j] == m[k];
            assert(s[j] == d[j]);
            assert(s[j].0 != s[s.len() - 1].0);
        }
        lemma_insert_keyed_strict(m, s.last());
        let r = sort_keyed(s);
        assert forall|k: int| 0 <= k < s.len() implies s.contains(#[trigger] r[k]) by {
            if r[k] == s.last() {
                assert(s[s.len() - 1] == r[k]);
            } else {
                let j = choose|j: int| 0 <= j < m.len() && m[j] == r[k];
                let q = choose|q: int| 0 <= q < d.len() && d[q] == m[j];
                assert(s[q] == d[q]);
            }
        }
    }
}


/// A list with each run of equal neighbours kept once.
pub open spec fn dedup(s: Seq<Span>) -> Seq<Span>
    decreases s.len(),
{
    if s.len() == 0 {
        s
    } else {
        let d = dedup(s.drop_last());
        if d.len() > 0 && d.last() == s.last() {
            d
        } else {
            d.push(s.last())
        }
    }
}

/// Whether a list of spans strictly increases in source order.
pub open spec fn spans_strictly_sorted(s: Seq<Span>) -> bool {
    forall|i: int, j: int| 0 <= i < j < s.len() ==> span_lt(#[trigger] s[i], #[trigger] s[j])
}

/// Keeps each run of equal neighbours of a list once.
pub fn dedup_exec(v: &Vec<Span>) -> (r: Vec<Span>)
    ensures
        r@ == dedup(v@),
{
    let mut out: Vec<Span> = Vec::new();
    let mut i: usize = 0;
    assert(v@.take(0) =~= Seq::<Span>::empty());
    while i < v.len()
        invariant
            i <= v@.len(),
            out@ == dedup(v@.take(i as int)),
        decreases v@.len() - i,
    {
        assert(v@.take(i + 1).drop_last() =~= v@.take(i as int));
        assert(v@.take(i + 1).last() == v@[i as int]);
        if out.len() > 0 && out[out.len() - 1] == v[i] {
        } else {
            out.push(v[i]);
        }
        i = i + 1;
    }
    assert(v@.take(i as int) =~= v@);
    out
}

/// A list in source order, with equal neighbours kept once, strictly
/// increases, and holds only spans of the list; its last span is the list's.
pub proof fn lemma_dedup_strict(s: Seq<Span>)
    requires
        spans_sorted(s),
    ensures
        spans_strictly_sorted(dedup(s)),
        forall|k: int| 0 <= k < dedup(s).len() ==> s.contains(#[trigger] dedup(s)[k]),
        s.len() > 0 ==> dedup(s).len() > 0 && dedup(s).last() == s.last(),
    decreases s.len(),
{
    if s.len() > 0 {
        let p = s.drop_last();
        assert(spans_sorted(p)) by {
            assert forall|i: int, j: int| 0 <= i < j < p.len() implies span_before(#[trigger] p[i], #[trigger] p[j]) by {
                assert(p[i] == s[i] && p[j] == s[j]);
            }
        }
        lemma_dedup_strict(p);
        let d = dedup(p);
        let r = dedup(s);
        assert forall|k: int| 0 <= k < d.len() implies span_before(#[trigger] d[k], s.last()) by {
            let j = choose|j: int| 0 <= j < p.len() && p[j] == d[k];
            assert(s[j] == p[j]);
            assert(span_before(s[j], s[s.len() - 1]));
        }
        if d.len() > 0 && d.last() == s.last() {
            assert forall|k: int| 0 <= k < r.len() implies s.contains(#[trigger] r[k]) by {
                let j = choose|j: int| 0 <= j < p.len() && p[j] == d[k];
                assert(s[j] == p[j]);
            }
        } else {
            assert forall|i: int, j: int| 0 <= i < j < r.len() implies span_lt(#[trigger] r[i], #[trigger] r[j]) by {
                if j == r.len() - 1 {
                    assert(r[i] == d[i]);
                    if i < d.len() - 1 {
                        assert(span_lt(d[i], d[d.len() - 1]));
                        assert(span_before(d[d.len() - 1], s.last()));
                    } else {
                        assert(span_before(d[i], s.last()));
                        assert(d[i] != s.last());
                    }
                } else {
                    assert(r[i] == d[i] && r[j] == d[j]);
                }
            }
            assert forall|k: int| 0 <= k < r.len() implies s.contains(#[trigger] r[k]) by {
                if k == r.len() - 1 {
                    assert(s[s.len() - 1] == r[k]);
                } else {
                    assert(r[k] == d[k]);
                    let j = choose|j: int| 0 <= j < p.len() && p[j] == d[k];
                    assert(s[j] == p[j]);
                }
            }
        }
    }
}

} // verus!
