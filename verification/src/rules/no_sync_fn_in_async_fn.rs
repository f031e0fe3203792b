//! `no-sync-fn-in-async-fn`: inside an async function, the synchronous
//! `Deno.*Sync` functions are not to be used.

use vstd::prelude::*;
use crate::ast::{Expr, MemberProp, Program};
use crate::diagnostic::{Diagnostic, DiagnosticView, diag_views, hinted_diag, push_diag};
use crate::text::{ends_with, str_ends_with, str_eq};
use crate::walk::{Event, Node, NodeRef, SEvent, event_views, program_events, walk_program};
use crate::rules::{fold_events, lemma_fold_events_all, lemma_fold_events_step};

verus! {

pub const CODE: &'static str = "no-sync-fn-in-async-fn";

pub const MESSAGE: &'static str = "Sync fn is used inside an async fn, this blocks deno event loop";

/// Reports each access `Deno.<name>Sync` inside an async function or arrow
/// function.
#[derive(Debug)]
pub struct NoSyncFnInAsyncFn;

pub open spec fn hint(async_name: Seq<char>) -> Seq<char> {
    "Consider changing this to an async equivalent: `await Deno."@ + async_name + "(..)`"@
}

/// The name of a member that a property names: an identifier or private name,
/// or, when computed, a string, an identifier or a template without
/// substitutions (as written).
pub open spec fn prop_name(prop: MemberProp) -> Option<Seq<char>> {
    match prop {
        MemberProp::Ident(i) => Some(i.name@),
        MemberProp::Private(i) => Some(i.name@),
        MemberProp::Computed(x) => match *x {
            Expr::Lit(crate::ast::Lit::Str(s)) => Some(s.value@),
            Expr::Ident(i) => Some(i.name@),
            Expr::Template { exprs, quasis, .. } => if exprs.len() == 0 && quasis.len() == 1 {
                Some(quasis@[0].raw@)
            } else {
                None
            },
            _ => None,
        },
    }
}

/// The diagnostics of a member access inside `depth` async functions. An
/// access whose object is itself a member access is not read.
pub open spec fn member_diags(depth: nat, e: Expr) -> Seq<DiagnosticView> {
    match e {
        Expr::Member { span, obj, prop, .. } => if depth > 0 && !(*obj is Member) {
            match *obj {
                Expr::Ident(o) => if o.name@ == "Deno"@ {
                    match prop_name(prop) {
                        Some(name) => if ends_with(name, "Sync"@) {
                            seq![
                                hinted_diag(
                                    span,
                                    CODE@,
                                    MESSAGE@,
                                    hint(name.take(name.len() - 4)),
                                ),
                            ]
                        } else {
                            Seq::empty()
                        },
                        None => Seq::empty(),
                    }
                } else {
                    Seq::empty()
                },
                _ => Seq::empty(),
            }
        } else {
            Seq::empty()
        },
        _ => Seq::empty(),
    }
}

/// One event for a state that counts the async functions around the current
/// node.
pub open spec fn step(depth: nat, e: SEvent) -> (nat, Seq<DiagnosticView>) {
    match e {
        SEvent::Enter(Node::Function(f)) => (if f.is_async {
            depth + 1
        } else {
            depth
        }, Seq::empty()),
        SEvent::Exit(Node::Function(f)) => (if f.is_async && depth > 0 {
            (depth - 1) as nat
        } else {
            depth
        }, Seq::empty()),
        SEvent::Enter(Node::Expr(Expr::Arrow(a))) => (if a.is_async {
            depth + 1
        } else {
            depth
        }, Seq::empty()),
        SEvent::Exit(Node::Expr(Expr::Arrow(a))) => (if a.is_async && depth > 0 {
            (depth - 1) as nat
        } else {
            depth
        }, Seq::empty()),
        SEvent::Enter(Node::Expr(m)) => (depth, member_diags(depth, m)),
        _ => (depth, Seq::empty()),
    }
}

pub open spec fn step_fn() -> spec_fn(nat, SEvent) -> (nat, Seq<DiagnosticView>) {
    |depth: nat, e: SEvent| step(depth, e)
}

fn extract_prop_name(prop: &MemberProp) -> (r: Option<&str>)
    ensures
        match r {
            Some(s) => prop_name(*prop) == Some(s@),
            None => prop_name(*prop) is None,
        },
{
    match prop {
        MemberProp::Ident(i) => Some(i.name.as_str()),
        MemberProp::Private(i) => Some(i.name.as_str()),
        MemberProp::Computed(x) => match &**x {
            Expr::Lit(crate::ast::Lit::Str(s)) => Some(s.value.as_str()),
            Expr::Ident(i) => Some(i.name.as_str()),
            Expr::Template { exprs, quasis, .. } => if exprs.len() == 0 && quasis.len() == 1 {
                Some(quasis[0].raw.as_str())
            } else {
                None
            },
            _ => None,
        },
    }
}

fn check_deno_sync_call(e: &Expr, depth: usize, out: &mut Vec<Diagnostic>)
    ensures
        diag_views(final(out)@) == diag_views(old(out)@) + member_diags(depth as nat, *e),
{
    let ghost o = diag_views(out@);
    if let Expr::Member { span, obj, prop, .. } = e {
        let nested = match &**obj {
            Expr::Member { .. } => true,
            _ => false,
        };
        if depth > 0 && !nested {
            if let Expr::Ident(ident) = &**obj {
                if str_eq(ident.name.as_str(), "Deno") {
                    if let Some(name) = extract_prop_name(prop) {
                        if str_ends_with(name, "Sync") {
                            proof {
                                reveal_strlit("Sync");
                            }
                            let n = name.unicode_len();
                            let async_name = name.substring_char(0, n - 4);
                            assert(async_name@ =~= name@.take(name@.len() - 4));
                            let mut h = String::from_str("Consider changing this to an async equivalent: `await Deno.");
                            h.append(async_name);
                            h.append("(..)`");
                            push_diag(out, Diagnostic::with_hint(*span, CODE, String::from_str(MESSAGE), h));
                        }
                    }
                }
            }
        }
    }
    assert(diag_views(out@) =~= o + member_diags(depth as nat, *e));
}

impl NoSyncFnInAsyncFn {
    /// The tags of the rule: it belongs to no set.
    pub fn tags(&self) -> (r: Vec<&'static str>)
        ensures
            crate::tags::tag_views(r@) == Seq::<Seq<char>>::empty(),
    {
        crate::tags::untagged()
    }

    pub fn code(&self) -> (r: &'static str)
        ensures
            r@ == CODE@,
    {
        CODE
    }

    /// The diagnostics of the rule on a program, in source order.
    pub fn lint(&self, program: &Program) -> (r: Vec<Diagnostic>)
        ensures
            diag_views(r@) == fold_events(program_events(*program), 0nat, step_fn()).1,
    {
        let events = walk_program(program);
        let ghost evs = event_views(events@);
        let mut out: Vec<Diagnostic> = Vec::new();
        let mut depth: usize = 0;
        assert(diag_views(out@) =~= Seq::<DiagnosticView>::empty());
        let mut i: usize = 0;
        while i < events.len()
            invariant
                evs == event_views(events@),
                i <= events.len(),
                depth <= i,
                fold_events(evs.take(i as int), 0nat, step_fn()) == (depth as nat, diag_views(out@)),
            decreases events.len() - i,
        {
            proof {
                lemma_fold_events_step(evs, i as int, 0nat, step_fn());
            }
            let ghost before = diag_views(out@);
            match events[i] {
                Event::Enter(NodeRef::Function(f)) => if f.is_async {
                    depth = depth + 1;
                },
                Event::Exit(NodeRef::Function(f)) => if f.is_async && depth > 0 {
                    depth = depth - 1;
                },
                Event::Enter(NodeRef::Expr(Expr::Arrow(a))) => if a.is_async {
                    depth = depth + 1;
                },
                Event::Exit(NodeRef::Expr(Expr::Arrow(a))) => if a.is_async && depth > 0 {
                    depth = depth - 1;
                },
                Event::Enter(NodeRef::Expr(m)) => check_deno_sync_call(m, depth, &mut out),
                _ => {},
            }
            assert(diag_views(out@) =~= before + step(
                fold_events(evs.take(i as int), 0nat, step_fn()).0,
                evs[i as int],
            ).1);
            i = i + 1;
        }
        assert(evs.take(events.len() as int) =~= evs);
        out
    }
}

/// Every diagnostic of the rule carries its code.
pub proof fn lemma_diags_carry_code(program: Program)
    ensures
        forall|i: int|
            0 <= i < fold_events(program_events(program), 0nat, step_fn()).1.len()
                ==> (#[trigger] fold_events(program_events(program), 0nat, step_fn()).1[i]).code == CODE@,
{
    let prop = |d: DiagnosticView| d.code == CODE@;
    assert forall|s: nat, e: SEvent, i: int| 0 <= i < step_fn()(s, e).1.len() implies prop(
        #[trigger] step_fn()(s, e).1[i],
    ) by {
        assert(step_fn()(s, e) == step(s, e));
    }
    lemma_fold_events_all(program_events(program), 0nat, step_fn(), prop);
}

} // verus!
