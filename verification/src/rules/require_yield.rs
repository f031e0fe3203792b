//! `require-yield`: a generator function with a body is to contain `yield`.

use vstd::prelude::*;
use crate::ast::{Expr, Function, Program};
use crate::diagnostic::{Diagnostic, DiagnosticView, diag_views, plain_diag, push_diag};
use crate::walk::{Event, Node, NodeRef, SEvent, event_views, program_events, walk_program};
use crate::rules::{fold_events, lemma_fold_events_all, lemma_fold_events_step};

verus! {

pub const CODE: &'static str = "require-yield";

pub const MESSAGE: &'static str = "Generator function has no `yield`";

/// Reports each generator function whose body holds statements and no `yield`
/// of its own.
#[derive(Debug)]
pub struct RequireYield;

/// Whether a generator's body holds at least one statement.
pub open spec fn has_statements(f: Function) -> bool {
    f.body matches Some(b) && b.stmts.len() > 0
}

/// One event for a state that holds, for each enclosing generator function, the
/// number of `yield` expressions met in it so far. A `yield` counts for the
/// innermost generator; a non-generator function in between does not stop it.
pub open spec fn step(stack: Seq<nat>, e: SEvent) -> (Seq<nat>, Seq<DiagnosticView>) {
    match e {
        SEvent::Enter(Node::Function(f)) => if f.is_generator {
            (stack.push(0), Seq::empty())
        } else {
            (stack, Seq::empty())
        },
        SEvent::Exit(Node::Function(f)) => if f.is_generator && stack.len() > 0 {
            (stack.drop_last(), if has_statements(f) && stack.last() == 0 {
                seq![plain_diag(f.span, CODE@, MESSAGE@)]
            } else {
                Seq::empty()
            })
        } else {
            (stack, Seq::empty())
        },
        SEvent::Enter(Node::Expr(Expr::Yield { .. })) => if stack.len() > 0 {
            (stack.update(stack.len() - 1, stack.last() + 1), Seq::empty())
        } else {
            (stack, Seq::empty())
        },
        _ => (stack, Seq::empty()),
    }
}

pub open spec fn step_fn() -> spec_fn(Seq<nat>, SEvent) -> (Seq<nat>, Seq<DiagnosticView>) {
    |stack: Seq<nat>, e: SEvent| step(stack, e)
}

pub open spec fn counts_view(v: Seq<usize>) -> Seq<nat> {
    v.map_values(|x: usize| x as nat)
}

fn function_has_statements(f: &Function) -> (r: bool)
    ensures
        r == has_statements(*f),
{
    match &f.body {
        Some(b) => b.stmts.len() > 0,
        None => false,
    }
}

impl RequireYield {
    /// The tags of the rule: it belongs to the recommended set.
    pub fn tags(&self) -> (r: Vec<&'static str>)
        ensures
            crate::tags::tag_views(r@) == seq![crate::tags::RECOMMENDED@],
    {
        crate::tags::recommended()
    }

    pub fn code(&self) -> (r: &'static str)
        ensures
            r@ == CODE@,
    {
        CODE
    }

    /// One diagnostic for each generator function with statements and without
    /// `yield`, in the order in which their bodies end.
    pub fn lint(&self, program: &Program) -> (r: Vec<Diagnostic>)
        ensures
            diag_views(r@) == fold_events(program_events(*program), Seq::<nat>::empty(), step_fn()).1,
    {
        let events = walk_program(program);
        let ghost evs = event_views(events@);
        let mut out: Vec<Diagnostic> = Vec::new();
        let mut stack: Vec<usize> = Vec::new();
        assert(diag_views(out@) =~= Seq::<DiagnosticView>::empty());
        assert(counts_view(stack@) =~= Seq::<nat>::empty());
        let mut i: usize = 0;
        while i < events.len()
            invariant
                evs == event_views(events@),
                i <= events.len(),
                forall|j: int| 0 <= j < stack.len() ==> stack@[j] <= i,
                fold_events(evs.take(i as int), Seq::<nat>::empty(), step_fn()) == (
                    counts_view(stack@),
                    diag_views(out@),
                ),
            decreases events.len() - i,
        {
            proof {
                lemma_fold_events_step(evs, i as int, Seq::<nat>::empty(), step_fn());
            }
            let ghost before = diag_views(out@);
            let ghost old_stack = stack@;
            match events[i] {
                Event::Enter(NodeRef::Function(f)) => if f.is_generator {
                    stack.push(0);
                },
                Event::Exit(NodeRef::Function(f)) => if f.is_generator && stack.len() > 0 {
                    let count = stack.pop().unwrap();
                    if function_has_statements(f) && count == 0 {
                        push_diag(&mut out, Diagnostic::new(f.span, CODE, MESSAGE));
                    }
                },
                Event::Enter(NodeRef::Expr(Expr::Yield { .. })) => if stack.len() > 0 {
                    let last = stack.len() - 1;
                    let count = stack[last];
                    stack.set(last, count + 1);
                },
                _ => {},
            }
            assert(counts_view(stack@) =~= step(counts_view(old_stack), evs[i as int]).0);
            assert(diag_views(out@) =~= before + step(counts_view(old_stack), evs[i as int]).1);
            i = i + 1;
        }
        assert(evs.take(events.len() as int) =~= evs);
        out
    }
}

/// Every diagnostic of the rule carries its code.
pub proof fn lemma_diags_carry_code(program: Program)
    ensures
        forall|i: int|
            0 <= i < fold_events(program_events(program), Seq::<nat>::empty(), step_fn()).1.len()
                ==> (#[trigger] fold_events(program_events(program), Seq::<nat>::empty(), step_fn()).1[i]).code == CODE@,
{
    let prop = |d: DiagnosticView| d.code == CODE@;
    assert forall|s: Seq<nat>, e: SEvent, i: int| 0 <= i < step_fn()(s, e).1.len() implies prop(
        #[trigger] step_fn()(s, e).1[i],
    ) by {
        assert(step_fn()(s, e) == step(s, e));
    }
    lemma_fold_events_all(program_events(program), Seq::<nat>::empty(), step_fn(), prop);
}


/// A generator with statements whose walk meets no `yield` of its own is
/// reported once, at its span, whatever generators enclose it; the count of
/// each enclosing generator is left as it was.
pub proof fn lemma_generator_without_yield_reported(stack: Seq<nat>, f: Function)
    requires
        f.is_generator,
        has_statements(f),
    ensures
        ({
            let entered = step(stack, SEvent::Enter(Node::Function(f))).0;
            step(entered, SEvent::Exit(Node::Function(f))) == (
                stack,
                seq![plain_diag(f.span, CODE@, MESSAGE@)],
            )
        }),
{
    let entered = stack.push(0nat);
    assert(entered.drop_last() =~= stack);
}

/// A generator in whose walk a `yield` of its own is met is not reported,
/// whatever generators enclose it, and their counts are left as they were.
pub proof fn lemma_generator_with_yield_not_reported(stack: Seq<nat>, f: Function, y: Expr)
    requires
        f.is_generator,
        y is Yield,
    ensures
        ({
            let entered = step(stack, SEvent::Enter(Node::Function(f))).0;
            let yielded = step(entered, SEvent::Enter(Node::Expr(y))).0;
            step(yielded, SEvent::Exit(Node::Function(f))) == (stack, Seq::<DiagnosticView>::empty())
        }),
{
    let entered = stack.push(0nat);
    let yielded = entered.update(entered.len() - 1, 1nat);
    assert(yielded.drop_last() =~= stack);
}


/// A function that is no generator does not count: entering or leaving it
/// leaves the counts as they are and reports nothing, so a `yield` inside it
/// counts for the enclosing generator.
pub proof fn lemma_plain_function_transparent(stack: Seq<nat>, f: Function)
    requires
        !f.is_generator,
    ensures
        step(stack, SEvent::Enter(Node::Function(f))) == (stack, Seq::<DiagnosticView>::empty()),
        step(stack, SEvent::Exit(Node::Function(f))) == (stack, Seq::<DiagnosticView>::empty()),
{
}

} // verus!
