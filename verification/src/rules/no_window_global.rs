//! `no-window-global`: the global `window` is deprecated; `globalThis` takes
//! its place.

use vstd::prelude::*;
use crate::ast::{Expr, Ident, Program, Prop};
use crate::diagnostic::{Diagnostic, DiagnosticView, diag_views, hinted_diag, push_diag};
use crate::walk::{Node, NodeRef, program_events};
use crate::rules::{NodeRule, lint_nodes, nodes_diags};
use crate::rules::no_window::{is_window_global, window_global};

verus! {

pub const CODE: &'static str = "no-window-global";

pub const MESSAGE: &'static str = "window is deprecated and scheduled for removal in Deno 2.0";

pub const HINT: &'static str = "Instead, use `globalThis`";

/// Reports each reference to the global `window`.
#[derive(Debug)]
pub struct NoWindowGlobal;

pub open spec fn ident_diags(i: Ident) -> Seq<DiagnosticView> {
    if is_window_global(i) {
        seq![hinted_diag(i.span, CODE@, MESSAGE@, HINT@)]
    } else {
        Seq::empty()
    }
}

fn check_ident(i: &Ident, out: &mut Vec<Diagnostic>)
    ensures
        diag_views(final(out)@) == diag_views(old(out)@) + ident_diags(*i),
{
    if window_global(i) {
        push_diag(out, Diagnostic::with_hint(i.span, CODE, String::from_str(MESSAGE), String::from_str(HINT)));
    } else {
        assert(diag_views(out@) =~= diag_views(old(out)@) + ident_diags(*i));
    }
}

impl NodeRule for NoWindowGlobal {
    open spec fn node_diags(&self, n: Node) -> Seq<DiagnosticView> {
        match n {
            Node::Expr(Expr::Ident(i)) => ident_diags(i),
            Node::Prop(Prop::Shorthand(i)) => ident_diags(i),
            _ => Seq::empty(),
        }
    }

    fn check_node<'a>(&self, n: NodeRef<'a>, out: &mut Vec<Diagnostic>) {
        match n {
            NodeRef::Expr(Expr::Ident(i)) => check_ident(i, out),
            NodeRef::Prop(Prop::Shorthand(i)) => check_ident(i, out),
            _ => {
                assert(diag_views(out@) =~= diag_views(old(out)@) + self.node_diags(n@));
            },
        }
    }
}

impl NoWindowGlobal {
    /// The tags of the rule: it belongs to the recommended set.
    pub fn tags(&self) -> (r: Vec<&'static str>)
        ensures
            crate::tags::tag_views(r@) == seq![crate::tags::RECOMMENDED@],
    {
        crate::tags::recommended()
    }

    pub fn code(&self) -> (r: &'static str)
        ensures
            r@ == CODE@,
    {
        CODE
    }

    /// One diagnostic for each reference to the global `window`, in source
    /// order.
    pub fn lint(&self, program: &Program) -> (r: Vec<Diagnostic>)
        ensures
            diag_views(r@) == nodes_diags(*self, program_events(*program)),
    {
        lint_nodes(self, program)
    }
}

} // verus!
