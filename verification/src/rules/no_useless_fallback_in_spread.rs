//! `no-useless-fallback-in-spread`: spreading `x || {}` or `x ?? {}` into an
//! object literal is the same as spreading `x`.

use vstd::prelude::*;
use crate::ast::{BinOp, Expr, Program, Prop};
use crate::diagnostic::{Diagnostic, DiagnosticView, diag_views, hinted_diag, push_diag};
use crate::walk::{Node, NodeRef, program_events};
use crate::rules::{NodeRule, lint_nodes, nodes_diags};

verus! {

pub const CODE: &'static str = "no-useless-fallback-in-spread";

pub const MESSAGE: &'static str = "Empty fallbacks in spreads are unnecessary";

pub const HINT: &'static str = "Spreading falsy values in object literals won't add any unexpected properties, so it's unnecessary to add an empty object as fallback.";

/// Reports each spread in an object literal whose argument is a `||` or `??`
/// with an empty object literal on its right.
#[derive(Debug)]
pub struct NoUselessFallbackInSpread;

/// An expression without the parentheses around it.
pub open spec fn unparen(e: Expr) -> Expr
    decreases e,
{
    match e {
        Expr::Paren { expr, .. } => unparen(*expr),
        _ => e,
    }
}

/// Whether a spread argument is `x || {}` or `x ?? {}`, parentheses aside.
pub open spec fn useless_fallback(e: Expr) -> bool {
    match unparen(e) {
        Expr::Bin { op, right, .. } => (op == BinOp::LogicalOr || op == BinOp::NullishCoalescing)
            && match unparen(*right) {
            Expr::Object { props, .. } => props.len() == 0,
            _ => false,
        },
        _ => false,
    }
}

pub open spec fn props_diags(props: Seq<Prop>) -> Seq<DiagnosticView>
    decreases props.len(),
{
    if props.len() == 0 {
        Seq::empty()
    } else {
        props_diags(props.drop_last()) + match props.last() {
            Prop::Spread { span, expr } => if useless_fallback(expr) {
                seq![hinted_diag(span, CODE@, MESSAGE@, HINT@)]
            } else {
                Seq::empty()
            },
            _ => Seq::empty(),
        }
    }
}

/// An expression without the parentheses around it.
pub fn unwrap_parens(e: &Expr) -> (r: &Expr)
    ensures
        *r == unparen(*e),
    decreases *e,
{
    match e {
        Expr::Paren { expr, .. } => unwrap_parens(expr),
        _ => e,
    }
}

fn is_useless_fallback(e: &Expr) -> (r: bool)
    ensures
        r == useless_fallback(*e),
{
    match unwrap_parens(e) {
        Expr::Bin { op, right, .. } => {
            if *op == BinOp::LogicalOr || *op == BinOp::NullishCoalescing {
                match unwrap_parens(right) {
                    Expr::Object { props, .. } => props.len() == 0,
                    _ => false,
                }
            } else {
                false
            }
        },
        _ => false,
    }
}

fn object_lit(props: &Vec<Prop>, out: &mut Vec<Diagnostic>)
    ensures
        diag_views(final(out)@) == diag_views(old(out)@) + props_diags(props@),
{
    let ghost o = diag_views(out@);
    let mut i: usize = 0;
    assert(props_diags(props@.take(0)) =~= Seq::<DiagnosticView>::empty());
    while i < props.len()
        invariant
            i <= props.len(),
            o == diag_views(old(out)@),
            diag_views(out@) == o + props_diags(props@.take(i as int)),
        decreases props.len() - i,
    {
        assert(props@.take(i + 1).drop_last() =~= props@.take(i as int));
        let ghost before = diag_views(out@);
        if let Prop::Spread { span, expr } = &props[i] {
            if is_useless_fallback(expr) {
                push_diag(out, Diagnostic::with_hint(*span, CODE, String::from_str(MESSAGE), String::from_str(HINT)));
            }
        }
        assert(diag_views(out@) =~= o + props_diags(props@.take(i + 1)));
        i = i + 1;
    }
    assert(props@.take(props.len() as int) =~= props@);
}

impl NodeRule for NoUselessFallbackInSpread {
    open spec fn node_diags(&self, n: Node) -> Seq<DiagnosticView> {
        match n {
            Node::Expr(Expr::Object { props, .. }) => props_diags(props@),
            _ => Seq::empty(),
        }
    }

    fn check_node<'a>(&self, n: NodeRef<'a>, out: &mut Vec<Diagnostic>) {
        match n {
            NodeRef::Expr(Expr::Object { props, .. }) => object_lit(props, out),
            _ => {
                assert(diag_views(out@) =~= diag_views(old(out)@) + self.node_diags(n@));
            },
        }
    }
}

impl NoUselessFallbackInSpread {
    /// The tags of the rule: it belongs to the recommended set.
    pub fn tags(&self) -> (r: Vec<&'static str>)
        ensures
            crate::tags::tag_views(r@) == seq![crate::tags::RECOMMENDED@],
    {
        crate::tags::recommended()
    }

    pub fn code(&self) -> (r: &'static str)
        ensures
            r@ == CODE@,
    {
        CODE
    }

    /// The diagnostics of the rule on a program, in source order.
    pub fn lint(&self, program: &Program) -> (r: Vec<Diagnostic>)
        ensures
            diag_views(r@) == nodes_diags(*self, program_events(*program)),
    {
        lint_nodes(self, program)
    }
}

} // verus!
