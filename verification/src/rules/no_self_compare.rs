//! `no-self-compare`: a value is not to be compared to itself.
//!
//! Two operands are the same where their source text is the same.

use vstd::prelude::*;
use crate::ast::{expr_span, span_of, BinOp, Expr, Program};
use crate::diagnostic::{Diagnostic, DiagnosticView, diag_views, hinted_diag, push_diag};
use crate::text::{byte_len, slice_text, str_eq, text_slice};
use crate::walk::{Event, Node, NodeRef, SEvent, event_views, program_events, walk_program};
use crate::rules::{fold_events, lemma_fold_events_step};

verus! {

pub const CODE: &'static str = "no-self-compare";

pub const HINT: &'static str = "Comparing a value to itself may be redundant and could potentially indicate a mistake in your code. Please double-check your logic";

/// Reports each comparison whose two operands are written the same.
#[derive(Debug)]
pub struct NoSelfCompare;

pub open spec fn message(text: Seq<char>) -> Seq<char> {
    "`"@ + text + "` is compared to itself"@
}

/// Whether an operator compares: equality, inequality or order.
pub open spec fn is_comparison(op: BinOp) -> bool {
    op == BinOp::EqEqEq || op == BinOp::EqEq || op == BinOp::NotEqEq || op == BinOp::NotEq || op
        == BinOp::Gt || op == BinOp::Lt || op == BinOp::GtEq || op == BinOp::LtEq
}

/// The diagnostics of an expression of a program with source text `src`.
pub open spec fn expr_diags(src: Seq<char>, e: Expr) -> Seq<DiagnosticView> {
    match e {
        Expr::Bin { span, op, left, right } => if is_comparison(op) {
            let l = expr_span(*left);
            let r = expr_span(*right);
            match (slice_text(src, l.lo as nat, l.hi as nat), slice_text(src, r.lo as nat, r.hi as nat)) {
                (Some(lt), Some(rt)) => if lt == rt {
                    seq![hinted_diag(span, CODE@, message(lt), HINT@)]
                } else {
                    Seq::empty()
                },
                _ => Seq::empty(),
            }
        } else {
            Seq::empty()
        },
        _ => Seq::empty(),
    }
}

pub open spec fn check_fn(src: Seq<char>) -> spec_fn((), SEvent) -> ((), Seq<DiagnosticView>) {
    |u: (), e: SEvent|
        (
            u,
            match e {
                SEvent::Enter(Node::Expr(x)) => expr_diags(src, x),
                _ => Seq::empty(),
            },
        )
}

fn is_comparison_op(op: BinOp) -> (r: bool)
    ensures
        r == is_comparison(op),
{
    op == BinOp::EqEqEq || op == BinOp::EqEq || op == BinOp::NotEqEq || op == BinOp::NotEq || op
        == BinOp::Gt || op == BinOp::Lt || op == BinOp::GtEq || op == BinOp::LtEq
}

fn binary_expression(src: &str, e: &Expr, out: &mut Vec<Diagnostic>)
    requires
        byte_len(src@) <= usize::MAX,
    ensures
        diag_views(final(out)@) == diag_views(old(out)@) + expr_diags(src@, *e),
{
    if let Expr::Bin { span, op, left, right } = e {
        if is_comparison_op(*op) {
            let l = span_of(left);
            let r = span_of(right);
            match (text_slice(src, l.lo, l.hi), text_slice(src, r.lo, r.hi)) {
                (Some(lt), Some(rt)) => {
                    if str_eq(lt, rt) {
                        let mut msg = String::from_str("`");
                        msg.append(lt);
                        msg.append("` is compared to itself");
                        push_diag(out, Diagnostic::with_hint(*span, CODE, msg, String::from_str(HINT)));
                    }
                },
                _ => {},
            }
        }
    }
    assert(diag_views(out@) =~= diag_views(old(out)@) + expr_diags(src@, *e));
}

impl NoSelfCompare {
    /// The tags of the rule: it belongs to no set.
    pub fn tags(&self) -> (r: Vec<&'static str>)
        ensures
            crate::tags::tag_views(r@) == Seq::<Seq<char>>::empty(),
    {
        crate::tags::untagged()
    }

    pub fn code(&self) -> (r: &'static str)
        ensures
            r@ == CODE@,
    {
        CODE
    }

    /// The diagnostics of the rule on a program, in source order.
    pub fn lint(&self, program: &Program) -> (r: Vec<Diagnostic>)
        requires
            byte_len(program.source@) <= usize::MAX,
        ensures
            diag_views(r@) == fold_events(program_events(*program), (), check_fn(program.source@)).1,
    {
        let src = program.source.as_str();
        let events = walk_program(program);
        let ghost evs = event_views(events@);
        let mut out: Vec<Diagnostic> = Vec::new();
        assert(diag_views(out@) =~= Seq::<DiagnosticView>::empty());
        let mut i: usize = 0;
        while i < events.len()
            invariant
                evs == event_views(events@),
                src@ == program.source@,
                byte_len(src@) <= usize::MAX,
                i <= events.len(),
                fold_events(evs.take(i as int), (), check_fn(src@)).1 == diag_views(out@),
            decreases events.len() - i,
        {
            proof {
                lemma_fold_events_step(evs, i as int, (), check_fn(src@));
            }
            let ghost before = diag_views(out@);
            match events[i] {
                Event::Enter(NodeRef::Expr(x)) => binary_expression(src, x, &mut out),
                _ => {},
            }
            assert(diag_views(out@) =~= before + check_fn(src@)((), evs[i as int]).1);
            i = i + 1;
        }
        assert(evs.take(events.len() as int) =~= evs);
        out
    }
}


/// A comparison by any of `===`, `==`, `!==`, `!=`, `>`, `<`, `>=` and `<=`
/// whose two operands are written the same is reported once, at the
/// comparison, with the operands' text; with any other operator it is not.
pub proof fn lemma_self_comparison_reported(
    src: Seq<char>,
    span: crate::ast::Span,
    op: BinOp,
    left: Expr,
    right: Expr,
    t: Seq<char>,
)
    requires
        slice_text(src, expr_span(left).lo as nat, expr_span(left).hi as nat) == Some(t),
        slice_text(src, expr_span(right).lo as nat, expr_span(right).hi as nat) == Some(t),
    ensures
        ({
            let e = Expr::Bin { span, op, left: Box::new(left), right: Box::new(right) };
            &&& (op == BinOp::EqEqEq || op == BinOp::EqEq || op == BinOp::NotEqEq || op == BinOp::NotEq
                || op == BinOp::Gt || op == BinOp::Lt || op == BinOp::GtEq || op == BinOp::LtEq)
                ==> expr_diags(src, e) == seq![hinted_diag(span, CODE@, message(t), HINT@)]
            &&& !(op == BinOp::EqEqEq || op == BinOp::EqEq || op == BinOp::NotEqEq || op == BinOp::NotEq
                || op == BinOp::Gt || op == BinOp::Lt || op == BinOp::GtEq || op == BinOp::LtEq)
                ==> expr_diags(src, e) == Seq::<DiagnosticView>::empty()
        }),
{
}


/// A comparison whose two operands are written differently is not reported,
/// whatever its operator.
pub proof fn lemma_different_operands_not_reported(
    src: Seq<char>,
    span: crate::ast::Span,
    op: BinOp,
    left: Expr,
    right: Expr,
)
    requires
        slice_text(src, expr_span(left).lo as nat, expr_span(left).hi as nat) != slice_text(
            src,
            expr_span(right).lo as nat,
            expr_span(right).hi as nat,
        ),
    ensures
        expr_diags(src, Expr::Bin { span, op, left: Box::new(left), right: Box::new(right) })
            == Seq::<DiagnosticView>::empty(),
{
}

} // verus!
