//! `no-var`: `var` declarations are not allowed; `let` and `const` are to be
//! used instead.

use vstd::prelude::*;
use crate::ast::{Program, Span, VarKind};
use crate::diagnostic::{Diagnostic, DiagnosticView, diag_views, plain_diag, push_diag};
use crate::walk::{Event, Node, NodeRef, SEvent, event_views, program_events, walk_program};
use crate::rules::{fold_events, lemma_fold_events_all, lemma_fold_events_step};

verus! {

pub const CODE: &'static str = "no-var";

pub const MESSAGE: &'static str = "`var` keyword is not allowed.";

/// Reports each `var` declaration, at its keyword, unless a TypeScript module
/// block has been entered earlier in the program.
#[derive(Debug)]
pub struct NoVar;

/// The range of the keyword `var` of a declaration that starts at `lo`.
pub open spec fn keyword_range(lo: usize) -> Span {
    Span { lo, hi: if lo <= usize::MAX - 3 { (lo + 3) as usize } else { usize::MAX } }
}

/// One event for a state that counts the TypeScript module blocks entered so
/// far. The count is never lowered: once a module block has been entered, no
/// later `var` is reported.
pub open spec fn step(blocks: nat, e: SEvent) -> (nat, Seq<DiagnosticView>) {
    match e {
        SEvent::Enter(Node::TsModuleBlock(_)) => (blocks + 1, Seq::empty()),
        SEvent::Enter(Node::VarDecl(d)) => (blocks, if blocks == 0 && d.kind == VarKind::Var {
            seq![plain_diag(keyword_range(d.span.lo), CODE@, MESSAGE@)]
        } else {
            Seq::empty()
        }),
        _ => (blocks, Seq::empty()),
    }
}

pub open spec fn step_fn() -> spec_fn(nat, SEvent) -> (nat, Seq<DiagnosticView>) {
    |blocks: nat, e: SEvent| step(blocks, e)
}

impl NoVar {
    /// The tags of the rule: it belongs to the recommended set.
    pub fn tags(&self) -> (r: Vec<&'static str>)
        ensures
            crate::tags::tag_views(r@) == seq![crate::tags::RECOMMENDED@],
    {
        crate::tags::recommended()
    }

    pub fn code(&self) -> (r: &'static str)
        ensures
            r@ == CODE@,
    {
        CODE
    }

    /// One diagnostic for each `var` declaration that comes before any
    /// TypeScript module block, in source order.
    pub fn lint(&self, program: &Program) -> (r: Vec<Diagnostic>)
        ensures
            diag_views(r@) == fold_events(program_events(*program), 0nat, step_fn()).1,
    {
        let events = walk_program(program);
        let ghost evs = event_views(events@);
        let mut out: Vec<Diagnostic> = Vec::new();
        let mut blocks: usize = 0;
        assert(diag_views(out@) =~= Seq::<DiagnosticView>::empty());
        let mut i: usize = 0;
        while i < events.len()
            invariant
                evs == event_views(events@),
                i <= events.len(),
                blocks <= i,
                fold_events(evs.take(i as int), 0nat, step_fn()) == (
                    blocks as nat,
                    diag_views(out@),
                ),
            decreases events.len() - i,
        {
            proof {
                lemma_fold_events_step(evs, i as int, 0nat, step_fn());
            }
            let ghost before = diag_views(out@);
            match events[i] {
                Event::Enter(NodeRef::TsModuleBlock(_)) => blocks = blocks + 1,
                Event::Enter(NodeRef::VarDecl(d)) => {
                    if blocks == 0 && d.kind == VarKind::Var {
                        let lo = d.span.lo;
                        let hi = if lo <= usize::MAX - 3 {
                            lo + 3
                        } else {
                            usize::MAX
                        };
                        push_diag(&mut out, Diagnostic::new(Span { lo, hi }, CODE, MESSAGE));
                    }
                },
                _ => {},
            }
            assert(diag_views(out@) =~= before + step(
                fold_events(evs.take(i as int), 0nat, step_fn()).0,
                evs[i as int],
            ).1);
            i = i + 1;
        }
        assert(evs.take(events.len() as int) =~= evs);
        out
    }
}

/// Every diagnostic of the rule carries its code.
pub proof fn lemma_diags_carry_code(program: Program)
    ensures
        forall|i: int|
            0 <= i < fold_events(program_events(program), 0nat, step_fn()).1.len()
                ==> (#[trigger] fold_events(program_events(program), 0nat, step_fn()).1[i]).code == CODE@,
{
    let prop = |d: DiagnosticView| d.code == CODE@;
    assert forall|s: nat, e: SEvent, i: int| 0 <= i < step_fn()(s, e).1.len() implies prop(
        #[trigger] step_fn()(s, e).1[i],
    ) by {
        assert(step_fn()(s, e) == step(s, e));
    }
    lemma_fold_events_all(program_events(program), 0nat, step_fn(), prop);
}

} // verus!
