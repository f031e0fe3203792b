//! `no-top-level-await`: `await` and `for await` are not allowed outside of
//! functions.

use vstd::prelude::*;
use crate::ast::{Expr, Program, Stmt};
use crate::diagnostic::{Diagnostic, DiagnosticView, diag_views, plain_diag, push_diag};
use crate::walk::{Event, Node, NodeRef, SEvent, event_views, program_events, walk_program};
use crate::rules::{fold_events, lemma_fold_events_all, lemma_fold_events_step};

verus! {

pub const CODE: &'static str = "no-top-level-await";

pub const MESSAGE: &'static str = "Top level await is not allowed";

/// Reports `await` expressions and `for await` loops that stand outside of any
/// function.
#[derive(Debug)]
pub struct NoTopLevelAwait;

/// One event for a state that counts the functions (and arrow functions) that
/// enclose the current node.
pub open spec fn step(depth: nat, e: SEvent) -> (nat, Seq<DiagnosticView>) {
    match e {
        SEvent::Enter(Node::Function(_)) => (depth + 1, Seq::empty()),
        SEvent::Exit(Node::Function(_)) => (if depth > 0 { (depth - 1) as nat } else { 0 }, Seq::empty()),
        SEvent::Enter(Node::Expr(Expr::Arrow(_))) => (depth + 1, Seq::empty()),
        SEvent::Exit(Node::Expr(Expr::Arrow(_))) => (if depth > 0 { (depth - 1) as nat } else { 0 }, Seq::empty()),
        SEvent::Enter(Node::Expr(Expr::Await { span, .. })) => (depth, if depth == 0 {
            seq![plain_diag(span, CODE@, MESSAGE@)]
        } else {
            Seq::empty()
        }),
        SEvent::Enter(Node::Stmt(Stmt::ForOf { span, is_await, .. })) => (depth, if is_await && depth == 0 {
            seq![plain_diag(span, CODE@, MESSAGE@)]
        } else {
            Seq::empty()
        }),
        _ => (depth, Seq::empty()),
    }
}

pub open spec fn step_fn() -> spec_fn(nat, SEvent) -> (nat, Seq<DiagnosticView>) {
    |depth: nat, e: SEvent| step(depth, e)
}

impl NoTopLevelAwait {
    /// The tags of the rule: it belongs to no set.
    pub fn tags(&self) -> (r: Vec<&'static str>)
        ensures
            crate::tags::tag_views(r@) == Seq::<Seq<char>>::empty(),
    {
        crate::tags::untagged()
    }

    pub fn code(&self) -> (r: &'static str)
        ensures
            r@ == CODE@,
    {
        CODE
    }

    /// One diagnostic for each `await` and `for await` outside of any function,
    /// in source order.
    pub fn lint(&self, program: &Program) -> (r: Vec<Diagnostic>)
        ensures
            diag_views(r@) == fold_events(program_events(*program), 0nat, step_fn()).1,
    {
        let events = walk_program(program);
        let ghost evs = event_views(events@);
        let mut out: Vec<Diagnostic> = Vec::new();
        let mut depth: usize = 0;
        assert(diag_views(out@) =~= Seq::<DiagnosticView>::empty());
        let mut i: usize = 0;
        while i < events.len()
            invariant
                evs == event_views(events@),
                i <= events.len(),
                depth <= i,
                fold_events(evs.take(i as int), 0nat, step_fn()) == (
                    depth as nat,
                    diag_views(out@),
                ),
            decreases events.len() - i,
        {
            proof {
                lemma_fold_events_step(evs, i as int, 0nat, step_fn());
            }
            let ghost before = diag_views(out@);
            match events[i] {
                Event::Enter(NodeRef::Function(_)) => depth = depth + 1,
                Event::Exit(NodeRef::Function(_)) => if depth > 0 {
                    depth = depth - 1;
                },
                Event::Enter(NodeRef::Expr(Expr::Arrow(_))) => depth = depth + 1,
                Event::Exit(NodeRef::Expr(Expr::Arrow(_))) => if depth > 0 {
                    depth = depth - 1;
                },
                Event::Enter(NodeRef::Expr(Expr::Await { span, .. })) => if depth == 0 {
                    push_diag(&mut out, Diagnostic::new(*span, CODE, MESSAGE));
                },
                Event::Enter(NodeRef::Stmt(Stmt::ForOf { span, is_await, .. })) => if *is_await
                    && depth == 0 {
                    push_diag(&mut out, Diagnostic::new(*span, CODE, MESSAGE));
                },
                _ => {},
            }
            assert(diag_views(out@) =~= before + step(
                fold_events(evs.take(i as int), 0nat, step_fn()).0,
                evs[i as int],
            ).1);
            i = i + 1;
        }
        assert(evs.take(events.len() as int) =~= evs);
        out
    }
}

/// Every diagnostic of the rule carries its code.
pub proof fn lemma_diags_carry_code(program: Program)
    ensures
        forall|i: int|
            0 <= i < fold_events(program_events(program), 0nat, step_fn()).1.len()
                ==> (#[trigger] fold_events(program_events(program), 0nat, step_fn()).1[i]).code == CODE@,
{
    let prop = |d: DiagnosticView| d.code == CODE@;
    assert forall|s: nat, e: SEvent, i: int| 0 <= i < step_fn()(s, e).1.len() implies prop(
        #[trigger] step_fn()(s, e).1[i],
    ) by {
        assert(step_fn()(s, e) == step(s, e));
    }
    lemma_fold_events_all(program_events(program), 0nat, step_fn(), prop);
}

} // verus!
