//! The rules, and the two ways in which they read a program: node by node,
//! or as a state that each event of the walk updates.

use vstd::prelude::*;
use crate::ast::Program;
use crate::diagnostic::{Diagnostic, DiagnosticView, diag_views};
use crate::walk::{Event, Node, NodeRef, SEvent, event_views, program_events, walk_program};

pub mod no_self_assign;
pub mod no_self_compare;
pub mod no_setter_return;
pub mod no_shadow_restricted_names;
pub mod no_single_promise_in_promise_methods;
pub mod no_sparse_array;
pub mod no_sparse_arrays;
pub mod no_string_refs;
pub mod no_thenable;
pub mod no_sync_fn_in_async_fn;
pub mod no_this_alias;
pub mod no_this_before_super;
pub mod no_throw_literal;
pub mod no_top_level_await;
pub mod no_ts_ignore;
pub mod no_undef;
pub mod no_unexpected_multiline;
pub mod no_unnecessary_await;
pub mod no_unneeded_ternary;
pub mod no_unsafe_finally;
pub mod no_unsafe_negation;
pub mod no_unused_labels;
pub mod no_unversioned_import;
pub mod no_useless_fallback_in_spread;
pub mod no_useless_length_check;
pub mod no_useless_rename;
pub mod no_var;
pub mod no_window;
pub mod no_window_global;
pub mod no_window_prefix;
pub mod no_with;
pub mod node_builtin_specifier;
pub mod non_generic_typed_array;
pub mod number_arg_out_of_range;
pub mod require_await;
pub mod require_jsdoc;
pub mod require_yield;
pub mod rust_style;
pub mod prefer_as_const;
pub mod prefer_ascii;
pub mod prefer_const;
pub mod prefer_namespace_keyword;
pub mod prefer_object_shorthand;
pub mod prefer_primordials;
pub mod prefer_set_size;
pub mod quotes;
pub mod react_no_danger;
pub mod react_no_danger_with_children;
pub mod react_rules_of_hooks;
pub mod react_use_jsx_in_jsx;

verus! {

/// A rule that decides on each node alone, whatever surrounds it.
pub trait NodeRule {
    /// The diagnostics that the rule reports on entering `n`.
    spec fn node_diags(&self, n: Node) -> Seq<DiagnosticView>;

    /// Appends the diagnostics that the rule reports on entering `n`.
    fn check_node<'a>(&self, n: NodeRef<'a>, out: &mut Vec<Diagnostic>)
        ensures
            diag_views(final(out)@) == diag_views(old(out)@) + self.node_diags(n@),
    ;
}

/// The diagnostics of a node rule over a list of events, in order.
pub open spec fn nodes_diags<R: NodeRule>(r: R, evs: Seq<SEvent>) -> Seq<DiagnosticView>
    decreases evs.len(),
{
    if evs.len() == 0 {
        Seq::empty()
    } else {
        nodes_diags(r, evs.drop_last()) + match evs.last() {
            SEvent::Enter(n) => r.node_diags(n),
            SEvent::Exit(_) => Seq::empty(),
        }
    }
}

/// Runs a node rule over every node of a program, in source order.
pub fn lint_nodes<R: NodeRule>(r: &R, p: &Program) -> (res: Vec<Diagnostic>)
    ensures
        diag_views(res@) == nodes_diags(*r, program_events(*p)),
{
    let events = walk_program(p);
    let ghost evs = event_views(events@);
    let mut out: Vec<Diagnostic> = Vec::new();
    assert(diag_views(out@) =~= Seq::<DiagnosticView>::empty());
    let mut i: usize = 0;
    while i < events.len()
        invariant
            evs == event_views(events@),
            i <= events.len(),
            diag_views(out@) == nodes_diags(*r, evs.take(i as int)),
        decreases events.len() - i,
    {
        match events[i] {
            Event::Enter(n) => r.check_node(n, &mut out),
            Event::Exit(_) => {},
        }
        assert(evs.take(i + 1).drop_last() =~= evs.take(i as int));
        i = i + 1;
    }
    assert(evs.take(events.len() as int) =~= evs);
    out
}

/// The diagnostics of each item of a list, in order.
pub open spec fn flat_map_diags<T>(s: Seq<T>, f: spec_fn(T) -> Seq<DiagnosticView>) -> Seq<
    DiagnosticView,
>
    decreases s.len(),
{
    if s.len() == 0 {
        Seq::empty()
    } else {
        flat_map_diags(s.drop_last(), f) + f(s.last())
    }
}

/// One more item of a list.
pub proof fn lemma_flat_map_diags_step<T>(
    s: Seq<T>,
    i: int,
    f: spec_fn(T) -> Seq<DiagnosticView>,
)
    requires
        0 <= i < s.len(),
    ensures
        flat_map_diags(s.take(i + 1), f) == flat_map_diags(s.take(i), f) + f(s[i]),
{
    assert(s.take(i + 1).drop_last() =~= s.take(i));
}

/// The state and the diagnostics after folding `step` over a list of events.
pub open spec fn fold_events<S>(
    evs: Seq<SEvent>,
    init: S,
    step: spec_fn(S, SEvent) -> (S, Seq<DiagnosticView>),
) -> (S, Seq<DiagnosticView>)
    decreases evs.len(),
{
    if evs.len() == 0 {
        (init, Seq::empty())
    } else {
        let (s, d) = fold_events(evs.drop_last(), init, step);
        let (s2, d2) = step(s, evs.last());
        (s2, d + d2)
    }
}

/// One more event of a fold.
pub proof fn lemma_fold_events_step<S>(
    evs: Seq<SEvent>,
    i: int,
    init: S,
    step: spec_fn(S, SEvent) -> (S, Seq<DiagnosticView>),
)
    requires
        0 <= i < evs.len(),
    ensures
        fold_events(evs.take(i + 1), init, step) == ({
            let (s, d) = fold_events(evs.take(i), init, step);
            let (s2, d2) = step(s, evs[i]);
            (s2, d + d2)
        }),
{
    assert(evs.take(i + 1).drop_last() =~= evs.take(i));
}

/// A property that every diagnostic of every node has holds of every
/// diagnostic of a walk.
pub proof fn lemma_nodes_diags_all<R: NodeRule>(
    r: R,
    evs: Seq<SEvent>,
    prop: spec_fn(DiagnosticView) -> bool,
)
    requires
        forall|n: Node, i: int| 0 <= i < r.node_diags(n).len() ==> prop(#[trigger] r.node_diags(n)[i]),
    ensures
        forall|i: int| 0 <= i < nodes_diags(r, evs).len() ==> prop(#[trigger] nodes_diags(r, evs)[i]),
    decreases evs.len(),
{
    if evs.len() > 0 {
        lemma_nodes_diags_all(r, evs.drop_last(), prop);
        let a = nodes_diags(r, evs.drop_last());
        let b = match evs.last() {
            SEvent::Enter(n) => r.node_diags(n),
            SEvent::Exit(_) => Seq::empty(),
        };
        assert forall|i: int| 0 <= i < nodes_diags(r, evs).len() implies prop(
            #[trigger] nodes_diags(r, evs)[i],
        ) by {
            if i >= a.len() {
                assert(nodes_diags(r, evs)[i] == b[i - a.len()]);
            } else {
                assert(nodes_diags(r, evs)[i] == a[i]);
            }
        }
    }
}

/// A property that every diagnostic of every step has holds of every
/// diagnostic of a fold.
pub proof fn lemma_fold_events_all<S>(
    evs: Seq<SEvent>,
    init: S,
    step: spec_fn(S, SEvent) -> (S, Seq<DiagnosticView>),
    prop: spec_fn(DiagnosticView) -> bool,
)
    requires
        forall|s: S, e: SEvent, i: int| 0 <= i < step(s, e).1.len() ==> prop(#[trigger] step(s, e).1[i]),
    ensures
        forall|i: int|
            0 <= i < fold_events(evs, init, step).1.len() ==> prop(
                #[trigger] fold_events(evs, init, step).1[i],
            ),
    decreases evs.len(),
{
    if evs.len() > 0 {
        lemma_fold_events_all(evs.drop_last(), init, step, prop);
        let (s, a) = fold_events(evs.drop_last(), init, step);
        let b = step(s, evs.last()).1;
        assert forall|i: int| 0 <= i < fold_events(evs, init, step).1.len() implies prop(
            #[trigger] fold_events(evs, init, step).1[i],
        ) by {
            if i >= a.len() {
                assert(fold_events(evs, init, step).1[i] == b[i - a.len()]);
            } else {
                assert(fold_events(evs, init, step).1[i] == a[i]);
            }
        }
    }
}

/// A property that every diagnostic of every item has holds of every
/// diagnostic of a list.
pub proof fn lemma_flat_map_diags_all<T>(
    s: Seq<T>,
    f: spec_fn(T) -> Seq<DiagnosticView>,
    prop: spec_fn(DiagnosticView) -> bool,
)
    requires
        forall|x: T, i: int| 0 <= i < f(x).len() ==> prop(#[trigger] f(x)[i]),
    ensures
        forall|i: int| 0 <= i < flat_map_diags(s, f).len() ==> prop(#[trigger] flat_map_diags(s, f)[i]),
    decreases s.len(),
{
    if s.len() > 0 {
        lemma_flat_map_diags_all(s.drop_last(), f, prop);
        let a = flat_map_diags(s.drop_last(), f);
        assert forall|i: int| 0 <= i < flat_map_diags(s, f).len() implies prop(
            #[trigger] flat_map_diags(s, f)[i],
        ) by {
            if i >= a.len() {
                assert(flat_map_diags(s, f)[i] == f(s.last())[i - a.len()]);
            } else {
                assert(flat_map_diags(s, f)[i] == a[i]);
            }
        }
    }
}

/// Items that give no diagnostics make a list that gives none.
pub proof fn lemma_flat_map_diags_none<T>(s: Seq<T>, f: spec_fn(T) -> Seq<DiagnosticView>)
    requires
        forall|i: int| 0 <= i < s.len() ==> f(#[trigger] s[i]) == Seq::<DiagnosticView>::empty(),
    ensures
        flat_map_diags(s, f) == Seq::<DiagnosticView>::empty(),
    decreases s.len(),
{
    if s.len() > 0 {
        assert forall|i: int| 0 <= i < s.drop_last().len() implies f(#[trigger] s.drop_last()[i])
            == Seq::<DiagnosticView>::empty() by {
            assert(s.drop_last()[i] == s[i]);
        }
        lemma_flat_map_diags_none(s.drop_last(), f);
        assert(f(s.last()) == f(s[s.len() - 1]));
        assert(flat_map_diags(s, f) =~= Seq::<DiagnosticView>::empty());
    }
}

} // verus!
