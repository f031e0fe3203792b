//! What the linter decides around the rules: which rules run, and the order in
//! which their diagnostics are reported (by where they start; diagnostics
//! that start at the same place keep the order in which they came).

use vstd::prelude::*;
use crate::ast::Span;
use crate::diagnostic::{Diagnostic, DiagnosticView, diag_views};
use crate::order::{keyed_sorted, keyed_view, lemma_sort_keyed_sorted, sort_keyed, sort_keyed_exec, span_before};
use crate::tags::{RECOMMENDED, tag_views};
use crate::text::str_eq;

verus! {

/// Whether a rule runs: the rules whose codes are given, or, where none is
/// given, the rules of the recommended set.
pub open spec fn is_enabled(code: Seq<char>, tags: Seq<Seq<char>>, codes: Seq<Seq<char>>) -> bool {
    if codes.len() == 0 {
        tags.contains(RECOMMENDED@)
    } else {
        codes.contains(code)
    }
}

pub open spec fn code_views(v: Seq<&str>) -> Seq<Seq<char>> {
    v.map_values(|c: &str| c@)
}

/// Whether a rule of the given code and tags runs.
pub fn rule_enabled(code: &str, tags: &Vec<&'static str>, codes: &Vec<&str>) -> (r: bool)
    ensures
        r == is_enabled(code@, tag_views(tags@), code_views(codes@)),
{
    assert(code_views(codes@).len() == codes@.len());
    assert(tag_views(tags@).len() == tags@.len());
    if codes.len() == 0 {
        let mut i: usize = 0;
        while i < tags.len()
            invariant
                i <= tags@.len(),
                codes@.len() == 0,
                code_views(codes@).len() == 0,
                tag_views(tags@).len() == tags@.len(),
                forall|j: int| 0 <= j < i ==> tags@[j]@ != RECOMMENDED@,
            decreases tags@.len() - i,
        {
            if str_eq(tags[i], RECOMMENDED) {
                assert(tag_views(tags@)[i as int] == RECOMMENDED@);
                return true;
            }
            i = i + 1;
        }
        assert(!tag_views(tags@).contains(RECOMMENDED@)) by {
            if tag_views(tags@).contains(RECOMMENDED@) {
                let j = choose|j: int| 0 <= j < tag_views(tags@).len() && tag_views(tags@)[j] == RECOMMENDED@;
                assert(tags@[j]@ == RECOMMENDED@);
            }
        }
        false
    } else {
        let mut i: usize = 0;
        while i < codes.len()
            invariant
                i <= codes@.len(),
                codes@.len() > 0,
                code_views(codes@).len() == codes@.len(),
                forall|j: int| 0 <= j < i ==> codes@[j]@ != code@,
            decreases codes@.len() - i,
        {
            if str_eq(codes[i], code) {
                assert(code_views(codes@)[i as int] == code@);
                return true;
            }
            i = i + 1;
        }
        assert(!code_views(codes@).contains(code@)) by {
            if code_views(codes@).contains(code@) {
                let j = choose|j: int| 0 <= j < code_views(codes@).len() && code_views(codes@)[j] == code@;
                assert(codes@[j]@ == code@);
            }
        }
        false
    }
}

/// The key by which a diagnostic is ordered: where it starts.
pub open spec fn start_key(d: DiagnosticView) -> Span {
    Span { lo: d.range.lo, hi: 0 }
}

pub open spec fn keyed_by_start(s: Seq<DiagnosticView>) -> Seq<(Span, DiagnosticView)> {
    s.map_values(|d: DiagnosticView| (start_key(d), d))
}

pub open spec fn unkeyed(s: Seq<(Span, DiagnosticView)>) -> Seq<DiagnosticView> {
    s.map_values(|e: (Span, DiagnosticView)| e.1)
}

/// Diagnostics ordered by where they start; those that start at the same
/// place keep their order.
pub open spec fn by_start(s: Seq<DiagnosticView>) -> Seq<DiagnosticView> {
    unkeyed(sort_keyed(keyed_by_start(s)))
}

/// Diagnostics in the order in which the linter reports them.
pub fn sort_by_start(v: Vec<Diagnostic>) -> (r: Vec<Diagnostic>)
    ensures
        diag_views(r@) == by_start(diag_views(v@)),
{
    let ghost dv = diag_views(v@);
    let n0 = v.len();
    assert(dv.len() == n0);
    let mut keyed: Vec<(Span, Diagnostic)> = Vec::new();
    let mut rest = v;
    let mut k: usize = 0;
    assert(keyed_view(keyed@) =~= keyed_by_start(dv.take(0)));
    assert(diag_views(rest@) =~= dv.skip(0));
    while rest.len() > 0
        invariant
            k + rest@.len() == dv.len(),
            dv.len() == n0,
            diag_views(rest@) == dv.skip(k as int),
            keyed_view(keyed@) == keyed_by_start(dv.take(k as int)),
        decreases rest@.len(),
    {
        let ghost before = diag_views(rest@);
        let ghost rest_before = rest@;
        let d = rest.remove(0);
        assert(d == rest_before[0]);
        assert(before[0] == rest_before[0]@);
        assert(before[0] == dv[k as int]);
        let key = Span { lo: d.range.lo, hi: 0 };
        let ghost kb = keyed_view(keyed@);
        keyed.push((key, d));
        assert(keyed_view(keyed@) =~= kb.push((start_key(dv[k as int]), dv[k as int])));
        assert(keyed_by_start(dv.take(k + 1)) =~= keyed_by_start(dv.take(k as int)).push(
            (start_key(dv[k as int]), dv[k as int]),
        ));
        assert forall|j: int| 0 <= j < rest@.len() implies diag_views(rest@)[j] == dv.skip(k + 1)[j] by {
            assert(rest@[j] == rest_before[j + 1]);
            assert(before[j + 1] == dv[k + 1 + j]);
        }
        assert(diag_views(rest@) =~= dv.skip(k + 1));
        k = k + 1;
    }
    assert(dv.take(k as int) =~= dv);
    let sorted = sort_keyed_exec(keyed);
    let ghost sv = keyed_view(sorted@);
    let n1 = sorted.len();
    let mut out: Vec<Diagnostic> = Vec::new();
    let mut rest2 = sorted;
    let mut m: usize = 0;
    let ghost n = sv.len();
    assert(n == n1);
    assert(diag_views(out@) =~= unkeyed(sv.take(0)));
    assert(keyed_view(rest2@) =~= sv.skip(0));
    while rest2.len() > 0
        invariant
            m + rest2@.len() == n,
            n == n1,
            n == sv.len(),
            keyed_view(rest2@) == sv.skip(m as int),
            diag_views(out@) == unkeyed(sv.take(m as int)),
        decreases rest2@.len(),
    {
        let ghost before = keyed_view(rest2@);
        let ghost rest_before = rest2@;
        let e = rest2.remove(0);
        assert(e == rest_before[0]);
        assert(before[0] == (rest_before[0].0, rest_before[0].1@));
        assert(before[0] == sv[m as int]);
        let ghost ob = diag_views(out@);
        out.push(e.1);
        assert(diag_views(out@) =~= ob.push(sv[m as int].1));
        assert(unkeyed(sv.take(m + 1)) =~= unkeyed(sv.take(m as int)).push(sv[m as int].1));
        assert forall|j: int| 0 <= j < rest2@.len() implies keyed_view(rest2@)[j] == sv.skip(m + 1)[j] by {
            assert(rest2@[j] == rest_before[j + 1]);
            assert(before[j + 1] == sv[m + 1 + j]);
        }
        assert(keyed_view(rest2@) =~= sv.skip(m + 1));
        m = m + 1;
    }
    assert(sv.take(m as int) =~= sv);
    out
}

/// The linter's order: diagnostics by where they start, none left out.
pub proof fn lemma_by_start_sorted(s: Seq<DiagnosticView>)
    ensures
        by_start(s).len() == s.len(),
        forall|i: int, j: int|
            0 <= i < j < s.len() ==> (#[trigger] by_start(s)[i]).range.lo <= (#[trigger] by_start(s)[j]).range.lo,
{
    let k = keyed_by_start(s);
    lemma_sort_keyed_sorted(k);
    let t = sort_keyed(k);
    assert(keys_ok(k)) by {
        assert forall|i: int| 0 <= i < k.len() implies key_ok(#[trigger] k[i]) by {}
    }
    lemma_sort_keyed_keys(k);
    assert forall|i: int, j: int|
        0 <= i < j < s.len() implies (#[trigger] by_start(s)[i]).range.lo <= (#[trigger] by_start(s)[j]).range.lo by {
        assert(span_before(t[i].0, t[j].0));
        assert(key_ok(t[i]) && key_ok(t[j]));
        assert(by_start(s)[i] == t[i].1);
        assert(by_start(s)[j] == t[j].1);
    }
}

pub open spec fn key_ok(e: (Span, DiagnosticView)) -> bool {
    e.0 == start_key(e.1)
}

pub open spec fn keys_ok(k: Seq<(Span, DiagnosticView)>) -> bool {
    forall|i: int| 0 <= i < k.len() ==> key_ok(#[trigger] k[i])
}

proof fn lemma_insert_keys(s: Seq<(Span, DiagnosticView)>, x: (Span, DiagnosticView))
    requires
        keys_ok(s),
        key_ok(x),
    ensures
        keys_ok(crate::order::insert_keyed(s, x)),
    decreases s.len(),
{
    if s.len() > 0 && !span_before(s.last().0, x.0) {
        lemma_insert_keys(s.drop_last(), x);
        let r = crate::order::insert_keyed(s, x);
        let m = crate::order::insert_keyed(s.drop_last(), x);
        assert forall|i: int| 0 <= i < r.len() implies key_ok(#[trigger] r[i]) by {
            if i < m.len() {
                assert(r[i] == m[i]);
            } else {
                assert(r[i] == s.last());
            }
        }
    } else if s.len() > 0 {
        let r = crate::order::insert_keyed(s, x);
        assert forall|i: int| 0 <= i < r.len() implies key_ok(#[trigger] r[i]) by {
            if i < s.len() {
                assert(r[i] == s[i]);
            }
        }
    } else {
        assert(crate::order::insert_keyed(s, x)[0] == x);
    }
}

/// Sorting keeps each entry's key its own.
proof fn lemma_sort_keyed_keys(k: Seq<(Span, DiagnosticView)>)
    requires
        keys_ok(k),
    ensures
        keys_ok(sort_keyed(k)),
    decreases k.len(),
{
    if k.len() > 0 {
        assert(keys_ok(k.drop_last())) by {
            assert forall|i: int| 0 <= i < k.drop_last().len() implies key_ok(#[trigger] k.drop_last()[i]) by {
                assert(k.drop_last()[i] == k[i]);
            }
        }
        lemma_sort_keyed_keys(k.drop_last());
        assert(key_ok(k[k.len() - 1]));
        lemma_insert_keys(sort_keyed(k.drop_last()), k.last());
    }
}

} // verus!
