//! `no-unnecessary-await`: `await` is not to be applied to a value that is
//! certainly not a promise.

use vstd::prelude::*;
use crate::ast::{Expr, Program};
use crate::diagnostic::{Diagnostic, DiagnosticView, diag_views, hinted_diag, push_diag};
use crate::walk::{Node, NodeRef, program_events};
use crate::rules::{NodeRule, lemma_nodes_diags_all, lint_nodes, nodes_diags};

verus! {

pub const CODE: &'static str = "no-unnecessary-await";

pub const MESSAGE: &'static str = "Unexpected `await` on a non-Promise value";

pub const HINT: &'static str = "Consider removing the `await`";

/// Reports each `await` whose operand is certainly not a promise.
#[derive(Debug)]
pub struct NoUnnecessaryAwait;

/// Whether an expression is certainly not a promise or other thenable: an
/// array, function, class, literal, template, JSX element, `await`, binary,
/// unary or update expression; a sequence whose last expression is such; or
/// such an expression in parentheses.
pub open spec fn is_not_promise(e: Expr) -> bool
    decreases e,
{
    match e {
        Expr::Array { .. } | Expr::Arrow(_) | Expr::Await { .. } | Expr::Bin { .. } | Expr::Class(_)
        | Expr::Fn(_) | Expr::Jsx(_) | Expr::Lit(_) | Expr::Template { .. } | Expr::Unary { .. }
        | Expr::Update { .. } => true,
        Expr::Sequence { exprs, .. } => exprs.len() > 0 && is_not_promise(exprs@.last()),
        Expr::Paren { expr, .. } => is_not_promise(*expr),
        _ => false,
    }
}

/// Whether an expression is certainly not a promise.
pub fn not_promise(e: &Expr) -> (r: bool)
    ensures
        r == is_not_promise(*e),
    decreases *e,
{
    match e {
        Expr::Array { .. } | Expr::Arrow(_) | Expr::Await { .. } | Expr::Bin { .. } | Expr::Class(_)
        | Expr::Fn(_) | Expr::Jsx(_) | Expr::Lit(_) | Expr::Template { .. } | Expr::Unary { .. }
        | Expr::Update { .. } => true,
        Expr::Sequence { exprs, .. } => {
            let n = exprs.len();
            if n > 0 {
                assert(exprs@.last() == exprs@[n - 1]);
                not_promise(&exprs[n - 1])
            } else {
                false
            }
        },
        Expr::Paren { expr, .. } => not_promise(expr),
        _ => false,
    }
}

impl NodeRule for NoUnnecessaryAwait {
    open spec fn node_diags(&self, n: Node) -> Seq<DiagnosticView> {
        match n {
            Node::Expr(Expr::Await { span, arg }) => if is_not_promise(*arg) {
                seq![hinted_diag(span, CODE@, MESSAGE@, HINT@)]
            } else {
                Seq::empty()
            },
            _ => Seq::empty(),
        }
    }

    fn check_node<'a>(&self, n: NodeRef<'a>, out: &mut Vec<Diagnostic>) {
        if let NodeRef::Expr(Expr::Await { span, arg }) = n {
            if not_promise(arg) {
                push_diag(out, Diagnostic::with_hint(*span, CODE, String::from_str(MESSAGE), String::from_str(HINT)));
            }
        }
        assert(diag_views(out@) =~= diag_views(old(out)@) + self.node_diags(n@));
    }
}

impl NoUnnecessaryAwait {
    /// The tags of the rule: it belongs to the recommended set.
    pub fn tags(&self) -> (r: Vec<&'static str>)
        ensures
            crate::tags::tag_views(r@) == seq![crate::tags::RECOMMENDED@],
    {
        crate::tags::recommended()
    }

    pub fn code(&self) -> (r: &'static str)
        ensures
            r@ == CODE@,
    {
        CODE
    }

    /// The diagnostics of the rule on a program, in source order.
    pub fn lint(&self, program: &Program) -> (r: Vec<Diagnostic>)
        ensures
            diag_views(r@) == nodes_diags(*self, program_events(*program)),
    {
        lint_nodes(self, program)
    }
}

/// Every diagnostic of the rule carries its code.
pub proof fn lemma_diags_carry_code(program: Program)
    ensures
        forall|i: int|
            0 <= i < nodes_diags(NoUnnecessaryAwait, program_events(program)).len()
                ==> (#[trigger] nodes_diags(NoUnnecessaryAwait, program_events(program))[i]).code == CODE@,
{
    let prop = |d: DiagnosticView| d.code == CODE@;
    assert forall|n: Node, i: int| 0 <= i < NoUnnecessaryAwait.node_diags(n).len() implies prop(
        #[trigger] NoUnnecessaryAwait.node_diags(n)[i],
    ) by {}
    lemma_nodes_diags_all(NoUnnecessaryAwait, program_events(program), prop);
}

} // verus!
