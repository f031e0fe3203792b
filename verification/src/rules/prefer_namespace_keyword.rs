//! `prefer-namespace-keyword`: `module foo {}` is to be written `namespace foo {}`.

use vstd::prelude::*;
use crate::ast::{Program, Stmt, TsModuleKind, TsModuleName};
use crate::diagnostic::{Diagnostic, DiagnosticView, diag_views, plain_diag, push_diag};
use crate::walk::{Node, NodeRef, program_events};
use crate::rules::{NodeRule, lemma_nodes_diags_all, lint_nodes, nodes_diags};

verus! {

pub const CODE: &'static str = "prefer-namespace-keyword";

pub const MESSAGE: &'static str = "`module` keyword in module declaration is not allowed";

/// Reports each `module` declaration whose name is an identifier.
#[derive(Debug)]
pub struct PreferNamespaceKeyword;

impl NodeRule for PreferNamespaceKeyword {
    open spec fn node_diags(&self, n: Node) -> Seq<DiagnosticView> {
        match n {
            Node::Stmt(Stmt::TsModule { span, kind, name, .. }) => if name is Ident && kind
                == TsModuleKind::Module {
                seq![plain_diag(span, CODE@, MESSAGE@)]
            } else {
                Seq::empty()
            },
            _ => Seq::empty(),
        }
    }

    fn check_node<'a>(&self, n: NodeRef<'a>, out: &mut Vec<Diagnostic>) {
        if let NodeRef::Stmt(Stmt::TsModule { span, kind, name, .. }) = n {
            if let TsModuleName::Ident(_) = name {
                if *kind == TsModuleKind::Module {
                    push_diag(out, Diagnostic::new(*span, CODE, MESSAGE));
                }
            }
        }
        assert(diag_views(out@) =~= diag_views(old(out)@) + self.node_diags(n@));
    }
}

impl PreferNamespaceKeyword {
    /// The tags of the rule: it belongs to the recommended set.
    pub fn tags(&self) -> (r: Vec<&'static str>)
        ensures
            crate::tags::tag_views(r@) == seq![crate::tags::RECOMMENDED@],
    {
        crate::tags::recommended()
    }

    pub fn code(&self) -> (r: &'static str)
        ensures
            r@ == CODE@,
    {
        CODE
    }

    /// One diagnostic for each `module` declaration named by an identifier, in
    /// source order.
    pub fn lint(&self, program: &Program) -> (r: Vec<Diagnostic>)
        ensures
            diag_views(r@) == nodes_diags(*self, program_events(*program)),
    {
        lint_nodes(self, program)
    }
}

/// Every diagnostic of the rule carries its code.
pub proof fn lemma_diags_carry_code(program: Program)
    ensures
        forall|i: int|
            0 <= i < nodes_diags(PreferNamespaceKeyword, program_events(program)).len()
                ==> (#[trigger] nodes_diags(PreferNamespaceKeyword, program_events(program))[i]).code == CODE@,
{
    let prop = |d: DiagnosticView| d.code == CODE@;
    assert forall|n: Node, i: int| 0 <= i < PreferNamespaceKeyword.node_diags(n).len() implies prop(
        #[trigger] PreferNamespaceKeyword.node_diags(n)[i],
    ) by {}
    lemma_nodes_diags_all(PreferNamespaceKeyword, program_events(program), prop);
}

} // verus!
