//! `no-single-promise-in-promise-methods`: `Promise.all`, `Promise.any` and
//! `Promise.race` are not to be called with an array of a single element.

use vstd::prelude::*;
use crate::ast::{is_chain, is_optional_chain, Callee, Expr, MemberProp, Program};
use crate::diagnostic::{Diagnostic, DiagnosticView, diag_views, hinted_diag, push_diag};
use crate::text::str_eq;
use crate::walk::{Node, NodeRef, program_events};
use crate::rules::{NodeRule, lemma_nodes_diags_all, lint_nodes, nodes_diags};

verus! {

pub const CODE: &'static str = "no-single-promise-in-promise-methods";

pub const HINT: &'static str = "Either use the value directly, or switch to `Promise.resolve(…)`.";

/// Reports calls `Promise.all([x])`, `Promise.any([x])` and `Promise.race([x])`
/// whose only argument is an array literal with one plain element.
#[derive(Debug)]
pub struct NoSinglePromiseInPromiseMethods;

pub open spec fn message(method: Seq<char>) -> Seq<char> {
    "Wrapping single-element array with `Promise."@ + method + "()` is unnecessary."@
}

/// An expression without the parentheses and TypeScript wrappers around it.
pub open spec fn unwrap(e: Expr) -> Expr
    decreases e,
{
    match e {
        Expr::Paren { expr, .. } => unwrap(*expr),
        Expr::TsAs { expr, .. } => unwrap(*expr),
        Expr::TsSatisfies { expr, .. } => unwrap(*expr),
        Expr::TsNonNull { expr, .. } => unwrap(*expr),
        Expr::TsTypeAssertion { expr, .. } => unwrap(*expr),
        Expr::TsInstantiation { expr, .. } => unwrap(*expr),
        _ => e,
    }
}

/// The method of `Promise` that a callee names, where it is `all`, `any` or
/// `race`.
pub open spec fn promise_method(callee: Callee) -> Option<Seq<char>> {
    match callee {
        Callee::Expr(x) => match *x {
            Expr::Member { obj, prop: MemberProp::Ident(p), .. } => match *obj {
                Expr::Ident(o) => if o.name@ == "Promise"@ && (p.name@ == "all"@ || p.name@ == "any"@
                    || p.name@ == "race"@) {
                    Some(p.name@)
                } else {
                    None
                },
                _ => None,
            },
            _ => None,
        },
        _ => None,
    }
}

/// The diagnostics of a call.
pub open spec fn call_diags(call: Expr) -> Seq<DiagnosticView> {
    match call {
        Expr::Call { span, callee, args, .. } => if is_chain(call) {
            Seq::empty()
        } else {
            match promise_method(callee) {
                Some(m) => if args.len() == 1 && !args@[0].spread {
                    match unwrap(args@[0].expr) {
                        Expr::Array { elems, .. } => if elems.len() == 1 && match elems@[0] {
                            Some(x) => !x.spread,
                            None => false,
                        } {
                            seq![hinted_diag(span, CODE@, message(m), HINT@)]
                        } else {
                            Seq::empty()
                        },
                        _ => Seq::empty(),
                    }
                } else {
                    Seq::empty()
                },
                None => Seq::empty(),
            }
        },
        _ => Seq::empty(),
    }
}

/// An expression without the parentheses and TypeScript wrappers around it.
pub fn unwrap_expr(e: &Expr) -> (r: &Expr)
    ensures
        *r == unwrap(*e),
    decreases *e,
{
    match e {
        Expr::Paren { expr, .. } => unwrap_expr(expr),
        Expr::TsAs { expr, .. } => unwrap_expr(expr),
        Expr::TsSatisfies { expr, .. } => unwrap_expr(expr),
        Expr::TsNonNull { expr, .. } => unwrap_expr(expr),
        Expr::TsTypeAssertion { expr, .. } => unwrap_expr(expr),
        Expr::TsInstantiation { expr, .. } => unwrap_expr(expr),
        _ => e,
    }
}

fn method_of(callee: &Callee) -> (r: Option<&str>)
    ensures
        match r {
            Some(m) => promise_method(*callee) == Some(m@),
            None => promise_method(*callee) is None,
        },
{
    match callee {
        Callee::Expr(x) => match &**x {
            Expr::Member { obj, prop: MemberProp::Ident(p), .. } => match &**obj {
                Expr::Ident(o) => {
                    let m = p.name.as_str();
                    if str_eq(o.name.as_str(), "Promise") && (str_eq(m, "all") || str_eq(m, "any")
                        || str_eq(m, "race")) {
                        Some(m)
                    } else {
                        None
                    }
                },
                _ => None,
            },
            _ => None,
        },
        _ => None,
    }
}

fn check_call(out: &mut Vec<Diagnostic>, call: &Expr)
    ensures
        diag_views(final(out)@) == diag_views(old(out)@) + call_diags(*call),
{
    let ghost o = diag_views(out@);
    if let Expr::Call { span, callee, args, .. } = call {
        if !is_optional_chain(call) {
            if let Some(m) = method_of(callee) {
                if args.len() == 1 && !args[0].spread {
                    if let Expr::Array { elems, .. } = unwrap_expr(&args[0].expr) {
                        if elems.len() == 1 {
                            if let Some(x) = &elems[0] {
                                if !x.spread {
                                    let mut msg = String::from_str("Wrapping single-element array with `Promise.");
                                    msg.append(m);
                                    msg.append("()` is unnecessary.");
                                    push_diag(out, Diagnostic::with_hint(*span, CODE, msg, String::from_str(HINT)));
                                }
                            }
                        }
                    }
                }
            }
        }
    }
    assert(diag_views(out@) =~= o + call_diags(*call));
}

impl NodeRule for NoSinglePromiseInPromiseMethods {
    open spec fn node_diags(&self, n: Node) -> Seq<DiagnosticView> {
        match n {
            Node::Expr(e) => call_diags(e),
            _ => Seq::empty(),
        }
    }

    fn check_node<'a>(&self, n: NodeRef<'a>, out: &mut Vec<Diagnostic>) {
        match n {
            NodeRef::Expr(e) => check_call(out, e),
            _ => {
                assert(diag_views(out@) =~= diag_views(old(out)@) + self.node_diags(n@));
            },
        }
    }
}

impl NoSinglePromiseInPromiseMethods {
    /// The tags of the rule: it belongs to the recommended set.
    pub fn tags(&self) -> (r: Vec<&'static str>)
        ensures
            crate::tags::tag_views(r@) == seq![crate::tags::RECOMMENDED@],
    {
        crate::tags::recommended()
    }

    pub fn code(&self) -> (r: &'static str)
        ensures
            r@ == CODE@,
    {
        CODE
    }

    /// The diagnostics of the rule on a program, in source order.
    pub fn lint(&self, program: &Program) -> (r: Vec<Diagnostic>)
        ensures
            diag_views(r@) == nodes_diags(*self, program_events(*program)),
    {
        lint_nodes(self, program)
    }
}

/// Every diagnostic of the rule carries its code.
pub proof fn lemma_diags_carry_code(program: Program)
    ensures
        forall|i: int|
            0 <= i < nodes_diags(NoSinglePromiseInPromiseMethods, program_events(program)).len()
                ==> (#[trigger] nodes_diags(NoSinglePromiseInPromiseMethods, program_events(program))[i]).code == CODE@,
{
    let prop = |d: DiagnosticView| d.code == CODE@;
    assert forall|n: Node, i: int| 0 <= i < NoSinglePromiseInPromiseMethods.node_diags(n).len() implies prop(
        #[trigger] NoSinglePromiseInPromiseMethods.node_diags(n)[i],
    ) by {}
    lemma_nodes_diags_all(NoSinglePromiseInPromiseMethods, program_events(program), prop);
}

} // verus!
