//! `no-window-prefix`: Web APIs are not to be called through `window`, which
//! Web Workers do not have.

use vstd::prelude::*;
use crate::ast::{Expr, MemberProp, Program};
use crate::diagnostic::{Diagnostic, DiagnosticView, diag_views, hinted_diag, push_diag};
use crate::text::str_eq;
use crate::walk::{Event, Node, NodeRef, SEvent, event_views, program_events, walk_program};
use crate::rules::{fold_events, lemma_fold_events_step};
use crate::rules::no_window::{is_window_global, window_global};

verus! {

pub const CODE: &'static str = "no-window-prefix";

pub const MESSAGE: &'static str = "For compatibility between the Window context and the Web Workers, calling Web APIs via `window` is disalloed";

pub const HINT: &'static str = "Instead, call this API via `self`, `globalThis`, or no extra prefix";

/// The properties of `window` that may be read through it.
pub const ALLOWED_PROPERTIES: [&'static str; 10] = [
    "onload",
    "onunload",
    "closed",
    "alert",
    "confirm",
    "prompt",
    "localStorage",
    "sessionStorage",
    "window",
    "Navigator",
];

/// Reports each property of the global `window` that is read through it,
/// unless it is one that only `window` has.
#[derive(Debug)]
pub struct NoWindowPrefix;

pub open spec fn is_allowed(name: Seq<char>) -> bool {
    exists|i: int| 0 <= i < ALLOWED_PROPERTIES@.len() && #[trigger] ALLOWED_PROPERTIES@[i]@ == name
}

/// The property that a member access reads, where the source fixes it: a
/// name, a string, or a template without substitutions (by its raw text).
pub open spec fn prop_symbol(p: MemberProp) -> Option<Seq<char>> {
    match p {
        MemberProp::Ident(i) => Some(i.name@),
        MemberProp::Computed(e) => match *e {
            Expr::Lit(crate::ast::Lit::Str(s)) => Some(s.value@),
            Expr::Template { exprs, quasis, .. } => if exprs@.len() == 0 && quasis@.len() == 1 {
                Some(quasis@[0].raw@)
            } else {
                None
            },
            _ => None,
        },
        MemberProp::Private(_) => None,
    }
}

/// The diagnostics of a member access that is not itself part of another
/// member access.
pub open spec fn member_diags(e: Expr) -> Seq<DiagnosticView> {
    match e {
        Expr::Member { span, obj, prop, .. } => match *obj {
            Expr::Ident(i) => if is_window_global(i) {
                match prop_symbol(prop) {
                    Some(s) => if !is_allowed(s) {
                        seq![hinted_diag(span, CODE@, MESSAGE@, HINT@)]
                    } else {
                        Seq::empty()
                    },
                    None => Seq::empty(),
                }
            } else {
                Seq::empty()
            },
            _ => Seq::empty(),
        },
        _ => Seq::empty(),
    }
}

pub open spec fn is_member_node(n: Node) -> bool {
    n matches Node::Expr(Expr::Member { .. })
}

/// The walk keeps, for each enclosing node, whether it is a member access; a
/// member access inside another one is read as part of that one.
pub open spec fn check_fn() -> spec_fn(Seq<bool>, SEvent) -> (Seq<bool>, Seq<DiagnosticView>) {
    |st: Seq<bool>, ev: SEvent|
        match ev {
            SEvent::Enter(n) => (
                st.push(is_member_node(n)),
                if st.len() > 0 && st.last() {
                    Seq::empty()
                } else {
                    match n {
                        Node::Expr(e) => member_diags(e),
                        _ => Seq::empty(),
                    }
                },
            ),
            SEvent::Exit(_) => (
                if st.len() > 0 {
                    st.drop_last()
                } else {
                    st
                },
                Seq::empty(),
            ),
        }
}

pub fn allowed(name: &str) -> (r: bool)
    ensures
        r == is_allowed(name@),
{
    let mut i: usize = 0;
    while i < 10
        invariant
            i <= 10,
            ALLOWED_PROPERTIES@.len() == 10,
            forall|j: int| 0 <= j < i ==> ALLOWED_PROPERTIES@[j]@ != name@,
        decreases 10 - i,
    {
        if str_eq(ALLOWED_PROPERTIES[i], name) {
            return true;
        }
        i = i + 1;
    }
    false
}

fn prop_symbol_of(p: &MemberProp) -> (r: Option<&str>)
    ensures
        match r {
            Some(s) => prop_symbol(*p) == Some(s@),
            None => prop_symbol(*p) is None,
        },
{
    match p {
        MemberProp::Ident(i) => Some(i.name.as_str()),
        MemberProp::Computed(e) => match &**e {
            Expr::Lit(crate::ast::Lit::Str(s)) => Some(s.value.as_str()),
            Expr::Template { exprs, quasis, .. } => {
                if exprs.len() == 0 && quasis.len() == 1 {
                    Some(quasis[0].raw.as_str())
                } else {
                    None
                }
            },
            _ => None,
        },
        MemberProp::Private(_) => None,
    }
}

fn check_member(e: &Expr, out: &mut Vec<Diagnostic>)
    ensures
        diag_views(final(out)@) == diag_views(old(out)@) + member_diags(*e),
{
    if let Expr::Member { span, obj, prop, .. } = e {
        if let Expr::Ident(i) = &**obj {
            if window_global(i) {
                if let Some(s) = prop_symbol_of(prop) {
                    if !allowed(s) {
                        push_diag(
                            out,
                            Diagnostic::with_hint(*span, CODE, String::from_str(MESSAGE), String::from_str(HINT)),
                        );
                        return;
                    }
                }
            }
        }
    }
    assert(diag_views(out@) =~= diag_views(old(out)@) + member_diags(*e));
}

impl NoWindowPrefix {
    /// The tags of the rule: it belongs to the recommended set.
    pub fn tags(&self) -> (r: Vec<&'static str>)
        ensures
            crate::tags::tag_views(r@) == seq![crate::tags::RECOMMENDED@],
    {
        crate::tags::recommended()
    }

    pub fn code(&self) -> (r: &'static str)
        ensures
            r@ == CODE@,
    {
        CODE
    }

    /// The diagnostics of the rule on a program, in source order.
    pub fn lint(&self, program: &Program) -> (r: Vec<Diagnostic>)
        ensures
            diag_views(r@) == fold_events(program_events(*program), Seq::<bool>::empty(), check_fn()).1,
    {
        let events = walk_program(program);
        let ghost evs = event_views(events@);
        let mut out: Vec<Diagnostic> = Vec::new();
        let mut st: Vec<bool> = Vec::new();
        assert(diag_views(out@) =~= Seq::<DiagnosticView>::empty());
        let mut i: usize = 0;
        while i < events.len()
            invariant
                evs == event_views(events@),
                i <= events.len(),
                fold_events(evs.take(i as int), Seq::<bool>::empty(), check_fn()) == (
                    st@,
                    diag_views(out@),
                ),
            decreases events.len() - i,
        {
            proof {
                lemma_fold_events_step(evs, i as int, Seq::<bool>::empty(), check_fn());
            }
            let ghost before = diag_views(out@);
            match events[i] {
                Event::Enter(n) => {
                    let nested = st.len() > 0 && st[st.len() - 1];
                    if !nested {
                        if let NodeRef::Expr(e) = n {
                            check_member(e, &mut out);
                        } else {
                            assert(diag_views(out@) =~= before + Seq::<DiagnosticView>::empty());
                        }
                    } else {
                        assert(diag_views(out@) =~= before + Seq::<DiagnosticView>::empty());
                    }
                    let m = match n {
                        NodeRef::Expr(Expr::Member { .. }) => true,
                        _ => false,
                    };
                    st.push(m);
                },
                Event::Exit(_) => {
                    st.pop();
                    assert(diag_views(out@) =~= before + Seq::<DiagnosticView>::empty());
                },
            }
            i = i + 1;
        }
        assert(evs.take(events.len() as int) =~= evs);
        out
    }
}

} // verus!
