//! `no-setter-return`: a setter is not to return a value.

use vstd::prelude::*;
use crate::ast::{ClassMember, Expr, MethodKind, Program, Prop, PropName, Stmt};
use crate::diagnostic::{Diagnostic, DiagnosticView, diag_views, plain_diag, push_diag};
use crate::walk::{Event, Node, NodeRef, SEvent, event_views, program_events, walk_program};
use crate::rules::{fold_events, lemma_fold_events_all, lemma_fold_events_step};

verus! {

pub const CODE: &'static str = "no-setter-return";

pub const MESSAGE: &'static str = "Setter cannot return a value";

/// Reports each `return` with a value whose nearest enclosing function-like
/// node is a setter.
#[derive(Debug)]
pub struct NoSetterReturn;

/// What a node decides for the `return` statements inside it, where it
/// decides: an object setter and a class setter make them setter returns; a
/// function declaration or expression, an arrow function and another class
/// method do not. Other nodes, among them object methods and getters,
/// constructors and private class methods, leave the decision to the nodes
/// around them.
pub open spec fn marker(n: Node) -> Option<bool> {
    match n {
        Node::Prop(Prop::Method { kind, .. }) => if kind == MethodKind::Setter {
            Some(true)
        } else {
            None
        },
        Node::ClassMember(ClassMember::Method { key, kind, .. }) => if key is Private || kind
            == MethodKind::Constructor {
            None
        } else {
            Some(kind == MethodKind::Setter)
        },
        Node::Stmt(Stmt::Fn(_)) => Some(false),
        Node::Expr(Expr::Fn(_)) => Some(false),
        Node::Expr(Expr::Arrow(_)) => Some(false),
        _ => None,
    }
}

/// One event for a state that holds the decisions of the enclosing nodes that
/// decide, innermost last.
pub open spec fn step(stack: Seq<bool>, e: SEvent) -> (Seq<bool>, Seq<DiagnosticView>) {
    match e {
        SEvent::Enter(n) => match marker(n) {
            Some(b) => (stack.push(b), Seq::empty()),
            None => match n {
                Node::Stmt(Stmt::Return { span, arg: Some(_) }) => (
                    stack,
                    if stack.len() > 0 && stack.last() {
                        seq![plain_diag(span, CODE@, MESSAGE@)]
                    } else {
                        Seq::empty()
                    },
                ),
                _ => (stack, Seq::empty()),
            },
        },
        SEvent::Exit(n) => match marker(n) {
            Some(_) => (
                if stack.len() > 0 {
                    stack.drop_last()
                } else {
                    stack
                },
                Seq::empty(),
            ),
            None => (stack, Seq::empty()),
        },
    }
}

pub open spec fn step_fn() -> spec_fn(Seq<bool>, SEvent) -> (Seq<bool>, Seq<DiagnosticView>) {
    |stack: Seq<bool>, e: SEvent| step(stack, e)
}

fn marker_of<'a>(n: NodeRef<'a>) -> (r: Option<bool>)
    ensures
        r == marker(n@),
{
    match n {
        NodeRef::Prop(Prop::Method { kind, .. }) => if *kind == MethodKind::Setter {
            Some(true)
        } else {
            None
        },
        NodeRef::ClassMember(ClassMember::Method { key, kind, .. }) => {
            let private = match key {
                PropName::Private(_) => true,
                _ => false,
            };
            if private || *kind == MethodKind::Constructor {
                None
            } else {
                Some(*kind == MethodKind::Setter)
            }
        },
        NodeRef::Stmt(Stmt::Fn(_)) => Some(false),
        NodeRef::Expr(Expr::Fn(_)) => Some(false),
        NodeRef::Expr(Expr::Arrow(_)) => Some(false),
        _ => None,
    }
}

/// Whether the nearest enclosing node that decides is a setter.
fn inside_setter(stack: &Vec<bool>) -> (r: bool)
    ensures
        r == (stack@.len() > 0 && stack@.last()),
{
    let n = stack.len();
    n > 0 && stack[n - 1]
}

impl NoSetterReturn {
    pub fn new() -> (r: Self) {
        NoSetterReturn
    }

    /// The tags of the rule: it belongs to the recommended set.

    pub fn tags(&self) -> (r: Vec<&'static str>)

        ensures

            crate::tags::tag_views(r@) == seq![crate::tags::RECOMMENDED@],

    {

        crate::tags::recommended()

    }


    pub fn code(&self) -> (r: &'static str)
        ensures
            r@ == CODE@,
    {
        CODE
    }

    /// One diagnostic for each `return` of a value from a setter, in source
    /// order.
    pub fn lint(&self, program: &Program) -> (r: Vec<Diagnostic>)
        ensures
            diag_views(r@) == fold_events(program_events(*program), Seq::<bool>::empty(), step_fn()).1,
    {
        let events = walk_program(program);
        let ghost evs = event_views(events@);
        let mut out: Vec<Diagnostic> = Vec::new();
        let mut stack: Vec<bool> = Vec::new();
        assert(diag_views(out@) =~= Seq::<DiagnosticView>::empty());
        let mut i: usize = 0;
        while i < events.len()
            invariant
                evs == event_views(events@),
                i <= events.len(),
                fold_events(evs.take(i as int), Seq::<bool>::empty(), step_fn()) == (
                    stack@,
                    diag_views(out@),
                ),
            decreases events.len() - i,
        {
            proof {
                lemma_fold_events_step(evs, i as int, Seq::<bool>::empty(), step_fn());
            }
            let ghost before = diag_views(out@);
            let ghost old_stack = stack@;
            match events[i] {
                Event::Enter(n) => match marker_of(n) {
                    Some(b) => stack.push(b),
                    None => {
                        if let NodeRef::Stmt(Stmt::Return { span, arg: Some(_) }) = n {
                            if inside_setter(&stack) {
                                push_diag(&mut out, Diagnostic::new(*span, CODE, MESSAGE));
                            }
                        }
                    },
                },
                Event::Exit(n) => match marker_of(n) {
                    Some(_) => {
                        stack.pop();
                    },
                    None => {},
                },
            }
            assert(stack@ =~= step(old_stack, evs[i as int]).0);
            assert(diag_views(out@) =~= before + step(old_stack, evs[i as int]).1);
            i = i + 1;
        }
        assert(evs.take(events.len() as int) =~= evs);
        out
    }
}

/// Every diagnostic of the rule carries its code.
pub proof fn lemma_diags_carry_code(program: Program)
    ensures
        forall|i: int|
            0 <= i < fold_events(program_events(program), Seq::<bool>::empty(), step_fn()).1.len()
                ==> (#[trigger] fold_events(program_events(program), Seq::<bool>::empty(), step_fn()).1[i]).code == CODE@,
{
    let prop = |d: DiagnosticView| d.code == CODE@;
    assert forall|s: Seq<bool>, e: SEvent, i: int| 0 <= i < step_fn()(s, e).1.len() implies prop(
        #[trigger] step_fn()(s, e).1[i],
    ) by {
        assert(step_fn()(s, e) == step(s, e));
    }
    lemma_fold_events_all(program_events(program), Seq::<bool>::empty(), step_fn(), prop);
}

} // verus!
