//! `react-no-danger`: the attribute `dangerouslySetInnerHTML` is not to be used.

use vstd::prelude::*;
use crate::ast::{JsxAttrOrSpread, Program};
use crate::diagnostic::{Diagnostic, DiagnosticView, diag_views, hinted_diag, push_diag};
use crate::text::str_eq;
use crate::walk::{Node, NodeRef, program_events};
use crate::rules::{NodeRule, lemma_nodes_diags_all, lint_nodes, nodes_diags};

verus! {

pub const CODE: &'static str = "react-no-danger";

pub const MESSAGE: &'static str = "Do not use `dangerouslySetInnerHTML`";

pub const HINT: &'static str = "Remove this attribute";

/// The name of the attribute that the React rules look for.
pub const DANGER_ATTR: &'static str = "dangerouslySetInnerHTML";

/// Reports every attribute `dangerouslySetInnerHTML`, at its name.
#[derive(Debug)]
pub struct ReactNoDanger;

impl NodeRule for ReactNoDanger {
    open spec fn node_diags(&self, n: Node) -> Seq<DiagnosticView> {
        match n {
            Node::JsxAttr(JsxAttrOrSpread::Attr { name, .. }) => if name.name@ == DANGER_ATTR@ {
                seq![hinted_diag(name.span, CODE@, MESSAGE@, HINT@)]
            } else {
                Seq::empty()
            },
            _ => Seq::empty(),
        }
    }

    fn check_node<'a>(&self, n: NodeRef<'a>, out: &mut Vec<Diagnostic>) {
        if let NodeRef::JsxAttr(JsxAttrOrSpread::Attr { name, .. }) = n {
            if str_eq(name.name.as_str(), DANGER_ATTR) {
                let d = Diagnostic::with_hint(
                    name.span,
                    CODE,
                    String::from_str(MESSAGE),
                    String::from_str(HINT),
                );
                push_diag(out, d);
            }
        }
        assert(diag_views(out@) =~= diag_views(old(out)@) + self.node_diags(n@));
    }
}

impl ReactNoDanger {
    /// The tags of the rule: it is written for React and Fresh.
    pub fn tags(&self) -> (r: Vec<&'static str>)
        ensures
            crate::tags::tag_views(r@) == seq![crate::tags::REACT@, crate::tags::FRESH@],
    {
        crate::tags::react_fresh()
    }

    pub fn code(&self) -> (r: &'static str)
        ensures
            r@ == CODE@,
    {
        CODE
    }

    /// One diagnostic for each such attribute, in source order.
    pub fn lint(&self, program: &Program) -> (r: Vec<Diagnostic>)
        ensures
            diag_views(r@) == nodes_diags(*self, program_events(*program)),
    {
        lint_nodes(self, program)
    }
}

/// Every diagnostic of the rule carries its code.
pub proof fn lemma_diags_carry_code(program: Program)
    ensures
        forall|i: int|
            0 <= i < nodes_diags(ReactNoDanger, program_events(program)).len()
                ==> (#[trigger] nodes_diags(ReactNoDanger, program_events(program))[i]).code == CODE@,
{
    let prop = |d: DiagnosticView| d.code == CODE@;
    assert forall|n: Node, i: int| 0 <= i < ReactNoDanger.node_diags(n).len() implies prop(
        #[trigger] ReactNoDanger.node_diags(n)[i],
    ) by {}
    lemma_nodes_diags_all(ReactNoDanger, program_events(program), prop);
}

} // verus!
