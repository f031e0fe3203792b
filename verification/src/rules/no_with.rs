//! `no-with`: the `with` statement is not allowed.

use vstd::prelude::*;
use crate::ast::{Program, Stmt};
use crate::diagnostic::{Diagnostic, DiagnosticView, diag_views, plain_diag, push_diag};
use crate::walk::{Node, NodeRef, program_events};
use crate::rules::{NodeRule, lemma_nodes_diags_all, lint_nodes, nodes_diags};

verus! {

pub const CODE: &'static str = "no-with";

pub const MESSAGE: &'static str = "`with` statement is not allowed";

/// Reports every `with` statement.
#[derive(Debug)]
pub struct NoWith;

impl NodeRule for NoWith {
    open spec fn node_diags(&self, n: Node) -> Seq<DiagnosticView> {
        match n {
            Node::Stmt(Stmt::With { span, .. }) => seq![plain_diag(span, CODE@, MESSAGE@)],
            _ => Seq::empty(),
        }
    }

    fn check_node<'a>(&self, n: NodeRef<'a>, out: &mut Vec<Diagnostic>) {
        if let NodeRef::Stmt(Stmt::With { span, .. }) = n {
            push_diag(out, Diagnostic::new(*span, CODE, MESSAGE));
        }
        assert(diag_views(out@) =~= diag_views(old(out)@) + self.node_diags(n@));
    }
}

impl NoWith {
    /// The tags of the rule: it belongs to the recommended set.
    pub fn tags(&self) -> (r: Vec<&'static str>)
        ensures
            crate::tags::tag_views(r@) == seq![crate::tags::RECOMMENDED@],
    {
        crate::tags::recommended()
    }

    pub fn code(&self) -> (r: &'static str)
        ensures
            r@ == CODE@,
    {
        CODE
    }

    /// The diagnostics of the rule on a program, one for each `with` statement, in
    /// source order.
    pub fn lint(&self, program: &Program) -> (r: Vec<Diagnostic>)
        ensures
            diag_views(r@) == nodes_diags(*self, program_events(*program)),
    {
        lint_nodes(self, program)
    }
}

/// Every diagnostic of the rule carries its code.
pub proof fn lemma_diags_carry_code(program: Program)
    ensures
        forall|i: int|
            0 <= i < nodes_diags(NoWith, program_events(program)).len()
                ==> (#[trigger] nodes_diags(NoWith, program_events(program))[i]).code == CODE@,
{
    let prop = |d: DiagnosticView| d.code == CODE@;
    assert forall|n: Node, i: int| 0 <= i < NoWith.node_diags(n).len() implies prop(
        #[trigger] NoWith.node_diags(n)[i],
    ) by {}
    lemma_nodes_diags_all(NoWith, program_events(program), prop);
}

} // verus!
