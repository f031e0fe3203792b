//! `no-string-refs`: React string refs (`ref="name"`) are deprecated.

use vstd::prelude::*;
use crate::ast::{JsxAttrOrSpread, JsxAttrValue, Program};
use crate::diagnostic::{Diagnostic, DiagnosticView, diag_views, hinted_diag, push_diag};
use crate::text::str_eq;
use crate::walk::{Node, NodeRef, program_events};
use crate::rules::{NodeRule, flat_map_diags, lemma_flat_map_diags_step, lint_nodes, nodes_diags};

verus! {

pub const CODE: &'static str = "no-string-refs";

pub const MESSAGE: &'static str = "String refs are deprecated";

pub const HINT: &'static str = "Use a callback or 'useRef' instead.";

/// Reports every JSX attribute `ref` whose value is a string literal.
#[derive(Debug)]
pub struct NoStringRefs;

/// The diagnostic of one attribute, if it is a string ref.
pub open spec fn string_ref_diags(a: JsxAttrOrSpread) -> Seq<DiagnosticView> {
    match a {
        JsxAttrOrSpread::Attr { span, name, value: Some(JsxAttrValue::Str(_)) } => if name.name@
            == "ref"@ {
            seq![hinted_diag(span, CODE@, MESSAGE@, HINT@)]
        } else {
            Seq::empty()
        },
        _ => Seq::empty(),
    }
}

impl NodeRule for NoStringRefs {
    open spec fn node_diags(&self, n: Node) -> Seq<DiagnosticView> {
        match n {
            Node::JsxElement(el) => flat_map_diags(el.attrs@, |a| string_ref_diags(a)),
            _ => Seq::empty(),
        }
    }

    fn check_node<'a>(&self, n: NodeRef<'a>, out: &mut Vec<Diagnostic>) {
        let ghost start = diag_views(out@);
        if let NodeRef::JsxElement(el) = n {
            let ghost f = |a| string_ref_diags(a);
            let mut i: usize = 0;
            while i < el.attrs.len()
                invariant
                    forall|a: JsxAttrOrSpread| #[trigger] f(a) == string_ref_diags(a),
                    i <= el.attrs.len(),
                    diag_views(out@) == start + flat_map_diags(el.attrs@.take(i as int), f),
                decreases el.attrs.len() - i,
            {
                proof {
                    lemma_flat_map_diags_step(el.attrs@, i as int, f);
                }
                let ghost before = diag_views(out@);
                if let JsxAttrOrSpread::Attr { span, name, value: Some(JsxAttrValue::Str(_)) } =
                    &el.attrs[i] {
                    if str_eq(name.name.as_str(), "ref") {
                        let d = Diagnostic::with_hint(
                            *span,
                            CODE,
                            String::from_str(MESSAGE),
                            String::from_str(HINT),
                        );
                        push_diag(out, d);
                    }
                }
                assert(diag_views(out@) =~= before + f(el.attrs@[i as int]));
                i = i + 1;
            }
            assert(el.attrs@.take(el.attrs.len() as int) =~= el.attrs@);
        }
        assert(diag_views(out@) =~= start + self.node_diags(n@));
    }
}

impl NoStringRefs {
    /// The tags of the rule: it is written for React, JSX and Fresh.
    pub fn tags(&self) -> (r: Vec<&'static str>)
        ensures
            crate::tags::tag_views(r@) == seq![crate::tags::REACT@, crate::tags::JSX@, crate::tags::FRESH@],
    {
        crate::tags::react_jsx_fresh()
    }

    pub fn code(&self) -> (r: &'static str)
        ensures
            r@ == CODE@,
    {
        CODE
    }

    /// One diagnostic for each string ref, at the attribute, in source order.
    pub fn lint(&self, program: &Program) -> (r: Vec<Diagnostic>)
        ensures
            diag_views(r@) == nodes_diags(*self, program_events(*program)),
    {
        lint_nodes(self, program)
    }
}

} // verus!
