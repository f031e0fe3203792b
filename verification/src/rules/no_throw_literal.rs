//! `no-throw-literal`: only error objects are to be thrown.

use vstd::prelude::*;
use crate::ast::{Expr, Lit, Program, Stmt};
use crate::diagnostic::{Diagnostic, DiagnosticView, diag_views, plain_diag, push_diag};
use crate::text::str_eq;
use crate::walk::{Node, NodeRef, program_events};
use crate::rules::{NodeRule, lemma_nodes_diags_all, lint_nodes, nodes_diags};

verus! {

pub const CODE: &'static str = "no-throw-literal";

pub const ERR_OBJECT_EXPECTED: &'static str = "expected an error object to be thrown";

pub const UNDEFINED: &'static str = "do not throw undefined";

/// Reports `throw` of a literal, and `throw undefined`.
#[derive(Debug)]
pub struct NoThrowLiteral;

/// Whether an expression is a literal: a boolean, `null`, a number, a bigint,
/// a regular expression or a string.
pub open spec fn is_literal(e: Expr) -> bool {
    e is Lit
}

pub fn expr_is_literal(e: &Expr) -> (r: bool)
    ensures
        r == is_literal(*e),
{
    match e {
        Expr::Lit(_) => true,
        _ => false,
    }
}

impl NodeRule for NoThrowLiteral {
    open spec fn node_diags(&self, n: Node) -> Seq<DiagnosticView> {
        match n {
            Node::Stmt(Stmt::Throw { span, arg }) => if is_literal(arg) {
                seq![plain_diag(span, CODE@, ERR_OBJECT_EXPECTED@)]
            } else if arg matches Expr::Ident(id) && id.name@ == "undefined"@ {
                seq![plain_diag(span, CODE@, UNDEFINED@)]
            } else {
                Seq::empty()
            },
            _ => Seq::empty(),
        }
    }

    fn check_node<'a>(&self, n: NodeRef<'a>, out: &mut Vec<Diagnostic>) {
        if let NodeRef::Stmt(Stmt::Throw { span, arg }) = n {
            if expr_is_literal(arg) {
                push_diag(out, Diagnostic::new(*span, CODE, ERR_OBJECT_EXPECTED));
            } else if let Expr::Ident(id) = arg {
                if str_eq(id.name.as_str(), "undefined") {
                    push_diag(out, Diagnostic::new(*span, CODE, UNDEFINED));
                }
            }
        }
        assert(diag_views(out@) =~= diag_views(old(out)@) + self.node_diags(n@));
    }
}

impl NoThrowLiteral {
    /// The tags of the rule: it belongs to no set.
    pub fn tags(&self) -> (r: Vec<&'static str>)
        ensures
            crate::tags::tag_views(r@) == Seq::<Seq<char>>::empty(),
    {
        crate::tags::untagged()
    }

    pub fn code(&self) -> (r: &'static str)
        ensures
            r@ == CODE@,
    {
        CODE
    }

    /// One diagnostic for each `throw` of a literal or of `undefined`, in source
    /// order.
    pub fn lint(&self, program: &Program) -> (r: Vec<Diagnostic>)
        ensures
            diag_views(r@) == nodes_diags(*self, program_events(*program)),
    {
        lint_nodes(self, program)
    }
}

/// Every diagnostic of the rule carries its code.
pub proof fn lemma_diags_carry_code(program: Program)
    ensures
        forall|i: int|
            0 <= i < nodes_diags(NoThrowLiteral, program_events(program)).len()
                ==> (#[trigger] nodes_diags(NoThrowLiteral, program_events(program))[i]).code == CODE@,
{
    let prop = |d: DiagnosticView| d.code == CODE@;
    assert forall|n: Node, i: int| 0 <= i < NoThrowLiteral.node_diags(n).len() implies prop(
        #[trigger] NoThrowLiteral.node_diags(n)[i],
    ) by {}
    lemma_nodes_diags_all(NoThrowLiteral, program_events(program), prop);
}

} // verus!
