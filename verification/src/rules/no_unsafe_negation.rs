//! `no-unsafe-negation`: the left operand of `in` and `instanceof` is not to
//! be negated with `!` without parentheses.

use vstd::prelude::*;
use crate::ast::{BinOp, Expr, Program, UnaryOp};
use crate::diagnostic::{Diagnostic, DiagnosticView, diag_views, hinted_diag, push_diag};
use crate::walk::{Node, NodeRef, program_events};
use crate::rules::{NodeRule, lemma_nodes_diags_all, lint_nodes, nodes_diags};

verus! {

pub const CODE: &'static str = "no-unsafe-negation";

pub const HINT: &'static str = "Add parentheses to clarify which range the negation operator should be applied to";

/// Reports `!a in b` and `!a instanceof b`.
#[derive(Debug)]
pub struct NoUnsafeNegation;

pub open spec fn message(op: Seq<char>) -> Seq<char> {
    "Unexpected negating the left operand of `"@ + op + "` operator"@
}

/// The diagnostics of an expression.
pub open spec fn expr_diags(e: Expr) -> Seq<DiagnosticView> {
    match e {
        Expr::Bin { span, op, left, .. } => if op == BinOp::In || op == BinOp::InstanceOf {
            match *left {
                Expr::Unary { op: UnaryOp::Bang, .. } => seq![
                    hinted_diag(
                        span,
                        CODE@,
                        message(if op == BinOp::In {
                            "in"@
                        } else {
                            "instanceof"@
                        }),
                        HINT@,
                    ),
                ],
                _ => Seq::empty(),
            }
        } else {
            Seq::empty()
        },
        _ => Seq::empty(),
    }
}

fn check_expr(out: &mut Vec<Diagnostic>, e: &Expr)
    ensures
        diag_views(final(out)@) == diag_views(old(out)@) + expr_diags(*e),
{
    if let Expr::Bin { span, op, left, .. } = e {
        if *op == BinOp::In || *op == BinOp::InstanceOf {
            if let Expr::Unary { op: UnaryOp::Bang, .. } = &**left {
                let mut msg = String::from_str("Unexpected negating the left operand of `");
                msg.append(if *op == BinOp::In {
                    "in"
                } else {
                    "instanceof"
                });
                msg.append("` operator");
                push_diag(out, Diagnostic::with_hint(*span, CODE, msg, String::from_str(HINT)));
            }
        }
    }
    assert(diag_views(out@) =~= diag_views(old(out)@) + expr_diags(*e));
}

impl NodeRule for NoUnsafeNegation {
    open spec fn node_diags(&self, n: Node) -> Seq<DiagnosticView> {
        match n {
            Node::Expr(e) => expr_diags(e),
            _ => Seq::empty(),
        }
    }

    fn check_node<'a>(&self, n: NodeRef<'a>, out: &mut Vec<Diagnostic>) {
        match n {
            NodeRef::Expr(e) => check_expr(out, e),
            _ => {
                assert(diag_views(out@) =~= diag_views(old(out)@) + self.node_diags(n@));
            },
        }
    }
}

impl NoUnsafeNegation {
    /// The tags of the rule: it belongs to the recommended set.
    pub fn tags(&self) -> (r: Vec<&'static str>)
        ensures
            crate::tags::tag_views(r@) == seq![crate::tags::RECOMMENDED@],
    {
        crate::tags::recommended()
    }

    pub fn code(&self) -> (r: &'static str)
        ensures
            r@ == CODE@,
    {
        CODE
    }

    /// The diagnostics of the rule on a program, in source order.
    pub fn lint(&self, program: &Program) -> (r: Vec<Diagnostic>)
        ensures
            diag_views(r@) == nodes_diags(*self, program_events(*program)),
    {
        lint_nodes(self, program)
    }
}

/// Every diagnostic of the rule carries its code.
pub proof fn lemma_diags_carry_code(program: Program)
    ensures
        forall|i: int|
            0 <= i < nodes_diags(NoUnsafeNegation, program_events(program)).len()
                ==> (#[trigger] nodes_diags(NoUnsafeNegation, program_events(program))[i]).code == CODE@,
{
    let prop = |d: DiagnosticView| d.code == CODE@;
    assert forall|n: Node, i: int| 0 <= i < NoUnsafeNegation.node_diags(n).len() implies prop(
        #[trigger] NoUnsafeNegation.node_diags(n)[i],
    ) by {}
    lemma_nodes_diags_all(NoUnsafeNegation, program_events(program), prop);
}


/// `!a in b` and `!a instanceof b` are reported once, at the whole
/// expression, whatever `a` is; `in` and `instanceof` with any other left
/// operand are not.
pub proof fn lemma_negated_left_operand_reported(span: crate::ast::Span, op: BinOp, left: Expr, right: Expr)
    requires
        op == BinOp::In || op == BinOp::InstanceOf,
    ensures
        ({
            let e = Expr::Bin { span, op, left: Box::new(left), right: Box::new(right) };
            &&& (left matches Expr::Unary { op: UnaryOp::Bang, .. }) ==> expr_diags(e).len() == 1
                && expr_diags(e)[0].range == span && expr_diags(e)[0].code == CODE@
            &&& !(left matches Expr::Unary { op: UnaryOp::Bang, .. }) ==> expr_diags(e).len() == 0
        }),
{
}


/// An operator other than `in` and `instanceof` is never reported, whatever
/// its operands.
pub proof fn lemma_other_operators_not_reported(span: crate::ast::Span, op: BinOp, left: Expr, right: Expr)
    requires
        op != BinOp::In && op != BinOp::InstanceOf,
    ensures
        expr_diags(Expr::Bin { span, op, left: Box::new(left), right: Box::new(right) }).len() == 0,
{
}

} // verus!
