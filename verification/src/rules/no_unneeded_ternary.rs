//! `no-unneeded-ternary`: a conditional expression whose two branches are
//! boolean literals is unnecessary.

use vstd::prelude::*;
use crate::ast::{Expr, Lit, Program};
use crate::diagnostic::{Diagnostic, DiagnosticView, diag_views, plain_diag, push_diag};
use crate::walk::{Node, NodeRef, program_events};
use crate::rules::{NodeRule, lemma_nodes_diags_all, lint_nodes, nodes_diags};

verus! {

pub const CODE: &'static str = "no-unneeded-ternary";

pub const MESSAGE: &'static str = "Unnecessary use of boolean literals in conditional expression";

/// Reports every conditional expression whose branches are both boolean literals.
#[derive(Debug)]
pub struct NoUnneededTernary;

pub open spec fn is_bool_lit(e: Expr) -> bool {
    e matches Expr::Lit(Lit::Bool(_, _))
}

fn expr_is_bool_lit(e: &Expr) -> (r: bool)
    ensures
        r == is_bool_lit(*e),
{
    match e {
        Expr::Lit(Lit::Bool(_, _)) => true,
        _ => false,
    }
}

impl NodeRule for NoUnneededTernary {
    open spec fn node_diags(&self, n: Node) -> Seq<DiagnosticView> {
        match n {
            Node::Expr(Expr::Cond { span, cons, alt, .. }) => if is_bool_lit(*cons) && is_bool_lit(
                *alt,
            ) {
                seq![plain_diag(span, CODE@, MESSAGE@)]
            } else {
                Seq::empty()
            },
            _ => Seq::empty(),
        }
    }

    fn check_node<'a>(&self, n: NodeRef<'a>, out: &mut Vec<Diagnostic>) {
        if let NodeRef::Expr(Expr::Cond { span, cons, alt, .. }) = n {
            if expr_is_bool_lit(cons) && expr_is_bool_lit(alt) {
                push_diag(out, Diagnostic::new(*span, CODE, MESSAGE));
            }
        }
        assert(diag_views(out@) =~= diag_views(old(out)@) + self.node_diags(n@));
    }
}

impl NoUnneededTernary {
    pub fn new() -> (r: Self) {
        NoUnneededTernary
    }

    /// The tags of the rule: it belongs to no set.

    pub fn tags(&self) -> (r: Vec<&'static str>)

        ensures

            crate::tags::tag_views(r@) == Seq::<Seq<char>>::empty(),

    {

        crate::tags::untagged()

    }


    pub fn code(&self) -> (r: &'static str)
        ensures
            r@ == CODE@,
    {
        CODE
    }

    /// One diagnostic for each such conditional expression, in source order.
    pub fn lint(&self, program: &Program) -> (r: Vec<Diagnostic>)
        ensures
            diag_views(r@) == nodes_diags(*self, program_events(*program)),
    {
        lint_nodes(self, program)
    }
}

/// Every diagnostic of the rule carries its code.
pub proof fn lemma_diags_carry_code(program: Program)
    ensures
        forall|i: int|
            0 <= i < nodes_diags(NoUnneededTernary, program_events(program)).len()
                ==> (#[trigger] nodes_diags(NoUnneededTernary, program_events(program))[i]).code == CODE@,
{
    let prop = |d: DiagnosticView| d.code == CODE@;
    assert forall|n: Node, i: int| 0 <= i < NoUnneededTernary.node_diags(n).len() implies prop(
        #[trigger] NoUnneededTernary.node_diags(n)[i],
    ) by {}
    lemma_nodes_diags_all(NoUnneededTernary, program_events(program), prop);
}

} // verus!
