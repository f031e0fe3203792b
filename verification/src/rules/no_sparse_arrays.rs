//! `no-sparse-arrays`: array literals with holes, such as `[1,,3]`, are not allowed.

use vstd::prelude::*;
use crate::ast::{Expr, ExprOrSpread, Program};
use crate::diagnostic::{Diagnostic, DiagnosticView, diag_views, plain_diag, push_diag};
use crate::walk::{Node, NodeRef, program_events};
use crate::rules::{NodeRule, lemma_nodes_diags_all, lint_nodes, nodes_diags};

verus! {

pub const CODE: &'static str = "no-sparse-arrays";

pub const MESSAGE: &'static str = "Sparse arrays are not allowed";

/// Reports every array literal that has a hole.
#[derive(Debug)]
pub struct NoSparseArrays;

/// Whether a list of array elements has a hole.
pub open spec fn has_hole(elems: Seq<Option<ExprOrSpread>>) -> bool {
    exists|i: int| 0 <= i < elems.len() && elems[i] is None
}

/// Whether a list of array elements has a hole.
pub fn elems_have_hole(elems: &Vec<Option<ExprOrSpread>>) -> (r: bool)
    ensures
        r == has_hole(elems@),
{
    let mut i: usize = 0;
    while i < elems.len()
        invariant
            i <= elems.len(),
            forall|j: int| 0 <= j < i ==> elems@[j] is Some,
        decreases elems.len() - i,
    {
        if elems[i].is_none() {
            return true;
        }
        i = i + 1;
    }
    false
}

impl NodeRule for NoSparseArrays {
    open spec fn node_diags(&self, n: Node) -> Seq<DiagnosticView> {
        match n {
            Node::Expr(Expr::Array { span, elems }) => if has_hole(elems@) {
                seq![plain_diag(span, CODE@, MESSAGE@)]
            } else {
                Seq::empty()
            },
            _ => Seq::empty(),
        }
    }

    fn check_node<'a>(&self, n: NodeRef<'a>, out: &mut Vec<Diagnostic>) {
        if let NodeRef::Expr(Expr::Array { span, elems }) = n {
            if elems_have_hole(elems) {
                push_diag(out, Diagnostic::new(*span, CODE, MESSAGE));
            }
        }
        assert(diag_views(out@) =~= diag_views(old(out)@) + self.node_diags(n@));
    }
}

impl NoSparseArrays {
    /// The tags of the rule: it belongs to no set.
    pub fn tags(&self) -> (r: Vec<&'static str>)
        ensures
            crate::tags::tag_views(r@) == Seq::<Seq<char>>::empty(),
    {
        crate::tags::untagged()
    }

    pub fn code(&self) -> (r: &'static str)
        ensures
            r@ == CODE@,
    {
        CODE
    }

    /// One diagnostic for each array literal with a hole, at the literal, in
    /// source order.
    pub fn lint(&self, program: &Program) -> (r: Vec<Diagnostic>)
        ensures
            diag_views(r@) == nodes_diags(*self, program_events(*program)),
    {
        lint_nodes(self, program)
    }
}

/// Every diagnostic of the rule carries its code.
pub proof fn lemma_diags_carry_code(program: Program)
    ensures
        forall|i: int|
            0 <= i < nodes_diags(NoSparseArrays, program_events(program)).len()
                ==> (#[trigger] nodes_diags(NoSparseArrays, program_events(program))[i]).code == CODE@,
{
    let prop = |d: DiagnosticView| d.code == CODE@;
    assert forall|n: Node, i: int| 0 <= i < NoSparseArrays.node_diags(n).len() implies prop(
        #[trigger] NoSparseArrays.node_diags(n)[i],
    ) by {}
    lemma_nodes_diags_all(NoSparseArrays, program_events(program), prop);
}

} // verus!
