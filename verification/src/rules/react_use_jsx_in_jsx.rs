//! `react-use-jsx-in-jsx`: React components are not to be called as functions
//! from within JSX.

use vstd::prelude::*;
use crate::ast::{Callee, Expr, Program};
use crate::diagnostic::{Diagnostic, DiagnosticView, diag_views, hinted_diag, push_diag};
use crate::text::{char_is_uppercase, is_uppercase_char, starts_with, str_starts_with};
use crate::walk::{Event, Node, NodeRef, SEvent, event_views, program_events, walk_program};
use crate::rules::{fold_events, lemma_fold_events_all, lemma_fold_events_step};

verus! {

pub const CODE: &'static str = "react-use-jsx-in-jsx";

pub const MESSAGE: &'static str = "Do not call React components as functions from within JSX context";

pub const HINT: &'static str = "Use JSX";

/// Reports calls of a plain name that looks like a component (it begins with an
/// uppercase letter or with `render`) made inside a JSX element.
pub struct ReactUseJsxInJsx;

/// Whether a called name looks like a component. An empty name never does.
pub open spec fn is_component_like(name: Seq<char>) -> bool {
    name.len() > 0 && (is_uppercase_char(name[0]) || starts_with(name, "render"@))
}

/// One event for a state that counts the JSX elements enclosing the current node.
pub open spec fn step(depth: nat, e: SEvent) -> (nat, Seq<DiagnosticView>) {
    match e {
        SEvent::Enter(Node::JsxElement(_)) => (depth + 1, Seq::empty()),
        SEvent::Exit(Node::JsxElement(_)) => (if depth > 0 { (depth - 1) as nat } else { 0 }, Seq::empty()),
        SEvent::Enter(Node::Expr(Expr::Call { span, callee: Callee::Expr(c), .. })) => (depth, if depth > 0 && (*c matches Expr::Ident(id) && is_component_like(id.name@)) {
            seq![hinted_diag(span, CODE@, MESSAGE@, HINT@)]
        } else {
            Seq::empty()
        }),
        _ => (depth, Seq::empty()),
    }
}

pub open spec fn step_fn() -> spec_fn(nat, SEvent) -> (nat, Seq<DiagnosticView>) {
    |depth: nat, e: SEvent| step(depth, e)
}

/// Whether a called name looks like a component.
pub fn component_like(name: &str) -> (r: bool)
    ensures
        r == is_component_like(name@),
{
    if name.unicode_len() == 0 {
        return false;
    }
    char_is_uppercase(name.get_char(0)) || str_starts_with(name, "render")
}

impl ReactUseJsxInJsx {
    pub fn new() -> (r: Self) {
        ReactUseJsxInJsx
    }

    /// The tags of the rule: it belongs to no set.

    pub fn tags(&self) -> (r: Vec<&'static str>)

        ensures

            crate::tags::tag_views(r@) == Seq::<Seq<char>>::empty(),

    {

        crate::tags::untagged()

    }


    pub fn code(&self) -> (r: &'static str)
        ensures
            r@ == CODE@,
    {
        CODE
    }

    /// One diagnostic for each call of a component-like name inside JSX, in
    /// source order.
    pub fn lint(&self, program: &Program) -> (r: Vec<Diagnostic>)
        ensures
            diag_views(r@) == fold_events(program_events(*program), 0nat, step_fn()).1,
    {
        let events = walk_program(program);
        let ghost evs = event_views(events@);
        let mut out: Vec<Diagnostic> = Vec::new();
        let mut depth: usize = 0;
        assert(diag_views(out@) =~= Seq::<DiagnosticView>::empty());
        let mut i: usize = 0;
        while i < events.len()
            invariant
                evs == event_views(events@),
                i <= events.len(),
                depth <= i,
                fold_events(evs.take(i as int), 0nat, step_fn()) == (
                    depth as nat,
                    diag_views(out@),
                ),
            decreases events.len() - i,
        {
            proof {
                lemma_fold_events_step(evs, i as int, 0nat, step_fn());
            }
            let ghost before = diag_views(out@);
            match events[i] {
                Event::Enter(NodeRef::JsxElement(_)) => depth = depth + 1,
                Event::Exit(NodeRef::JsxElement(_)) => if depth > 0 {
                    depth = depth - 1;
                },
                Event::Enter(NodeRef::Expr(Expr::Call { span, callee: Callee::Expr(c), .. })) => {
                    if depth > 0 {
                        if let Expr::Ident(id) = &**c {
                            if component_like(id.name.as_str()) {
                                let d = Diagnostic::with_hint(
                                    *span,
                                    CODE,
                                    String::from_str(MESSAGE),
                                    String::from_str(HINT),
                                );
                                push_diag(&mut out, d);
                            }
                        }
                    }
                },
                _ => {},
            }
            assert(diag_views(out@) =~= before + step(
                fold_events(evs.take(i as int), 0nat, step_fn()).0,
                evs[i as int],
            ).1);
            i = i + 1;
        }
        assert(evs.take(events.len() as int) =~= evs);
        out
    }
}

/// Every diagnostic of the rule carries its code.
pub proof fn lemma_diags_carry_code(program: Program)
    ensures
        forall|i: int|
            0 <= i < fold_events(program_events(program), 0nat, step_fn()).1.len()
                ==> (#[trigger] fold_events(program_events(program), 0nat, step_fn()).1[i]).code == CODE@,
{
    let prop = |d: DiagnosticView| d.code == CODE@;
    assert forall|s: nat, e: SEvent, i: int| 0 <= i < step_fn()(s, e).1.len() implies prop(
        #[trigger] step_fn()(s, e).1[i],
    ) by {
        assert(step_fn()(s, e) == step(s, e));
    }
    lemma_fold_events_all(program_events(program), 0nat, step_fn(), prop);
}

} // verus!
