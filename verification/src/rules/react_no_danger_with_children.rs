//! `react-no-danger-with-children`: an element with `dangerouslySetInnerHTML`
//! is not to have children.

use vstd::prelude::*;
use crate::ast::{JsxAttrOrSpread, JsxChild, JsxElement, Program};
use crate::diagnostic::{Diagnostic, DiagnosticView, diag_views, hinted_diag, push_diag};
use crate::text::{regex_is_match, regex_match, str_eq};
use crate::walk::{Node, NodeRef, program_events};
use crate::rules::{NodeRule, flat_map_diags, lemma_flat_map_diags_step, lint_nodes, nodes_diags};

verus! {

pub const CODE: &'static str = "react-no-danger-with-children";

pub const MESSAGE: &'static str = "Using JSX children together with 'dangerouslySetInnerHTML' is invalid";

pub const HINT: &'static str = "Remove the JSX children";

/// Text children that match this expression, a line break followed by white
/// space only, do not count as children.
pub const IGNORE_TEXT_PATTERN: &'static str = r"^\n\s+$";

/// Reports each `dangerouslySetInnerHTML` attribute of an element that has
/// children.
#[derive(Debug)]
pub struct ReactNoDangerWithChildren;

/// Whether a child counts: all but text that is a line break and white space.
pub open spec fn counts(c: JsxChild) -> bool {
    match c {
        JsxChild::Text { value, .. } => regex_match(IGNORE_TEXT_PATTERN@, value@) != Some(true),
        _ => true,
    }
}

/// Whether an element has children that count.
pub open spec fn has_children(el: JsxElement) -> bool {
    exists|i: int| 0 <= i < el.children.len() && counts(#[trigger] el.children@[i])
}

/// The diagnostics for one attribute of an element.
pub open spec fn attr_diags(has: bool, a: JsxAttrOrSpread) -> Seq<DiagnosticView> {
    match a {
        JsxAttrOrSpread::Attr { name, .. } => if name.name@ == "dangerouslySetInnerHTML"@ && has {
            seq![hinted_diag(name.span, CODE@, MESSAGE@, HINT@)]
        } else {
            Seq::empty()
        },
        _ => Seq::empty(),
    }
}

pub open spec fn attr_diags_fn(has: bool) -> spec_fn(JsxAttrOrSpread) -> Seq<DiagnosticView> {
    |a: JsxAttrOrSpread| attr_diags(has, a)
}

/// Whether a child counts.
fn child_counts(c: &JsxChild) -> (r: bool)
    ensures
        r == counts(*c),
{
    match c {
        JsxChild::Text { value, .. } => match regex_is_match(IGNORE_TEXT_PATTERN, value.as_str()) {
            Some(true) => false,
            _ => true,
        },
        _ => true,
    }
}

/// Whether an element has children that count.
fn element_has_children(el: &JsxElement) -> (r: bool)
    ensures
        r == has_children(*el),
{
    let mut i: usize = 0;
    while i < el.children.len()
        invariant
            i <= el.children.len(),
            forall|j: int| 0 <= j < i ==> !counts(#[trigger] el.children@[j]),
        decreases el.children.len() - i,
    {
        if child_counts(&el.children[i]) {
            return true;
        }
        i = i + 1;
    }
    false
}

fn check_element(el: &JsxElement, out: &mut Vec<Diagnostic>)
    ensures
        diag_views(final(out)@) == diag_views(old(out)@) + flat_map_diags(
            el.attrs@,
            attr_diags_fn(has_children(*el)),
        ),
{
    let ghost o = diag_views(out@);
    let has = element_has_children(el);
    let attrs = &el.attrs;
    assert(flat_map_diags(attrs@.take(0), attr_diags_fn(has)) =~= Seq::<DiagnosticView>::empty());
    let mut i: usize = 0;
    while i < attrs.len()
        invariant
            i <= attrs.len(),
            attrs@ == el.attrs@,
            o == diag_views(old(out)@),
            diag_views(out@) == o + flat_map_diags(attrs@.take(i as int), attr_diags_fn(has)),
        decreases attrs.len() - i,
    {
        proof {
            lemma_flat_map_diags_step(attrs@, i as int, attr_diags_fn(has));
        }
        let ghost before = diag_views(out@);
        if let JsxAttrOrSpread::Attr { name, .. } = &attrs[i] {
            if str_eq(name.name.as_str(), "dangerouslySetInnerHTML") && has {
                push_diag(out, Diagnostic::with_hint(name.span, CODE, String::from_str(MESSAGE), String::from_str(HINT)));
            }
        }
        assert(diag_views(out@) =~= before + attr_diags(has, attrs@[i as int]));
        i = i + 1;
    }
    assert(attrs@.take(attrs.len() as int) =~= attrs@);
}

impl NodeRule for ReactNoDangerWithChildren {
    open spec fn node_diags(&self, n: Node) -> Seq<DiagnosticView> {
        match n {
            Node::JsxElement(el) => flat_map_diags(el.attrs@, attr_diags_fn(has_children(el))),
            _ => Seq::empty(),
        }
    }

    fn check_node<'a>(&self, n: NodeRef<'a>, out: &mut Vec<Diagnostic>) {
        match n {
            NodeRef::JsxElement(el) => check_element(el, out),
            _ => {
                assert(diag_views(out@) =~= diag_views(old(out)@) + self.node_diags(n@));
            },
        }
    }
}

impl ReactNoDangerWithChildren {
    /// The tags of the rule: it is written for React and Fresh.
    pub fn tags(&self) -> (r: Vec<&'static str>)
        ensures
            crate::tags::tag_views(r@) == seq![crate::tags::REACT@, crate::tags::FRESH@],
    {
        crate::tags::react_fresh()
    }

    pub fn code(&self) -> (r: &'static str)
        ensures
            r@ == CODE@,
    {
        CODE
    }

    /// The diagnostics of the rule on a program, in source order.
    pub fn lint(&self, program: &Program) -> (r: Vec<Diagnostic>)
        ensures
            diag_views(r@) == nodes_diags(*self, program_events(*program)),
    {
        lint_nodes(self, program)
    }
}

} // verus!
