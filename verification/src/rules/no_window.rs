//! `no-window`: the global `window` is not available in Deno; `globalThis`
//! takes its place.

use vstd::prelude::*;
use crate::ast::{Expr, Ident, MemberProp, Program, Stmt};
use crate::diagnostic::{Diagnostic, DiagnosticView, LintFix, Severity, diag_views, push_diag, single_fix};
use crate::text::str_eq;
use crate::walk::{Node, NodeRef, program_events};
use crate::rules::{NodeRule, lemma_nodes_diags_all, lint_nodes, nodes_diags};

verus! {

pub const CODE: &'static str = "no-window";

pub const MESSAGE: &'static str = "Window is no longer available in Deno";

pub const HINT: &'static str = "Instead, use `globalThis`";

pub const FIX_DESC: &'static str = "Rename window to globalThis";

/// Reports each use of the global `window` as an object or as a statement,
/// with a fix that renames it to `globalThis`.
#[derive(Debug)]
pub struct NoWindow;

/// A reference to the global `window`: no declaration of the program binds
/// it.
pub open spec fn is_window_global(i: Ident) -> bool {
    i.name@ == "window"@ && i.binding is None
}

pub open spec fn window_diag(i: Ident) -> DiagnosticView {
    DiagnosticView {
        range: i.span,
        code: CODE@,
        message: MESSAGE@,
        hint: Some(HINT@),
        fixes: seq![single_fix(FIX_DESC@, "globalThis"@, i.span)],
        severity: Severity::Error,
    }
}

pub open spec fn ident_diags(i: Ident) -> Seq<DiagnosticView> {
    if is_window_global(i) {
        seq![window_diag(i)]
    } else {
        Seq::empty()
    }
}

pub fn window_global(i: &Ident) -> (r: bool)
    ensures
        r == is_window_global(*i),
{
    str_eq(i.name.as_str(), "window") && i.binding.is_none()
}

fn check_ident(i: &Ident, out: &mut Vec<Diagnostic>)
    ensures
        diag_views(final(out)@) == diag_views(old(out)@) + ident_diags(*i),
{
    if window_global(i) {
        let fixes = vec![LintFix::single(FIX_DESC, String::from_str("globalThis"), i.span)];
        let d = Diagnostic::with_fixes(i.span, CODE, MESSAGE, HINT, fixes, Severity::Error);
        assert(d@.fixes =~= window_diag(*i).fixes);
        push_diag(out, d);
    } else {
        assert(diag_views(out@) =~= diag_views(old(out)@) + ident_diags(*i));
    }
}

impl NodeRule for NoWindow {
    open spec fn node_diags(&self, n: Node) -> Seq<DiagnosticView> {
        match n {
            Node::Expr(Expr::Member { obj, prop, .. }) => match (*obj, prop) {
                (Expr::Ident(i), MemberProp::Ident(_)) => ident_diags(i),
                (Expr::Ident(i), MemberProp::Computed(_)) => ident_diags(i),
                _ => Seq::empty(),
            },
            Node::Stmt(Stmt::Expr { expr: Expr::Ident(i), .. }) => ident_diags(i),
            _ => Seq::empty(),
        }
    }

    fn check_node<'a>(&self, n: NodeRef<'a>, out: &mut Vec<Diagnostic>) {
        match n {
            NodeRef::Expr(Expr::Member { obj, prop, .. }) => match (&**obj, prop) {
                (Expr::Ident(i), MemberProp::Ident(_)) => check_ident(i, out),
                (Expr::Ident(i), MemberProp::Computed(_)) => check_ident(i, out),
                _ => {
                    assert(diag_views(out@) =~= diag_views(old(out)@) + self.node_diags(n@));
                },
            },
            NodeRef::Stmt(Stmt::Expr { expr: Expr::Ident(i), .. }) => check_ident(i, out),
            _ => {
                assert(diag_views(out@) =~= diag_views(old(out)@) + self.node_diags(n@));
            },
        }
    }
}

impl NoWindow {
    /// The tags of the rule: it belongs to the recommended set.
    pub fn tags(&self) -> (r: Vec<&'static str>)
        ensures
            crate::tags::tag_views(r@) == seq![crate::tags::RECOMMENDED@],
    {
        crate::tags::recommended()
    }

    pub fn code(&self) -> (r: &'static str)
        ensures
            r@ == CODE@,
    {
        CODE
    }

    /// One diagnostic for each use of the global `window` as an object or as
    /// a statement, in source order.
    pub fn lint(&self, program: &Program) -> (r: Vec<Diagnostic>)
        ensures
            diag_views(r@) == nodes_diags(*self, program_events(*program)),
    {
        lint_nodes(self, program)
    }
}

/// Each diagnostic's fix replaces exactly what it points at, `window`, by
/// `globalThis`.
pub proof fn lemma_fix_renames_to_global_this(program: Program)
    ensures
        forall|i: int|
            0 <= i < nodes_diags(NoWindow, program_events(program)).len() ==> {
                let d = #[trigger] nodes_diags(NoWindow, program_events(program))[i];
                d.code == CODE@ && d.fixes == seq![single_fix(FIX_DESC@, "globalThis"@, d.range)]
            },
{
    let prop = |d: DiagnosticView|
        d.code == CODE@ && d.fixes == seq![single_fix(FIX_DESC@, "globalThis"@, d.range)];
    assert forall|n: Node, i: int| 0 <= i < NoWindow.node_diags(n).len() implies prop(
        #[trigger] NoWindow.node_diags(n)[i],
    ) by {}
    lemma_nodes_diags_all(NoWindow, program_events(program), prop);
}

} // verus!
