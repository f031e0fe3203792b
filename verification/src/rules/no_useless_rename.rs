//! `no-useless-rename`: renaming an import, an export or a destructured
//! property to the name it already has is useless.

use vstd::prelude::*;
use crate::ast::{
    ImportSpecifier, ModuleExportName, ObjectPatProp, Pat, Program, PropName, Span,
};
use crate::diagnostic::{Diagnostic, DiagnosticView, diag_views, hinted_diag, push_diag};
use crate::text::str_eq;
use crate::walk::{Node, NodeRef, program_events};
use crate::rules::{NodeRule, flat_map_diags, lemma_flat_map_diags_step, lint_nodes, nodes_diags};

verus! {

pub const CODE: &'static str = "no-useless-rename";

pub const MESSAGE: &'static str = "The original name is exactly the same as the new name.";

pub const HINT: &'static str = "Remove the rename operation.";

/// Reports `import { a as a }`, `export { a as a }` and `{ a: a }` in a pattern.
#[derive(Debug)]
pub struct NoUselessRename;

pub open spec fn export_name_text(n: ModuleExportName) -> Seq<char> {
    match n {
        ModuleExportName::Ident(i) => i.name@,
        ModuleExportName::Str(s) => s.value@,
    }
}

pub open spec fn export_name_span(n: ModuleExportName) -> Span {
    match n {
        ModuleExportName::Ident(i) => i.span,
        ModuleExportName::Str(s) => s.span,
    }
}

fn name_text(n: &ModuleExportName) -> (r: &str)
    ensures
        r@ == export_name_text(*n),
{
    match n {
        ModuleExportName::Ident(i) => i.name.as_str(),
        ModuleExportName::Str(s) => s.value.as_str(),
    }
}

fn name_span(n: &ModuleExportName) -> (r: Span)
    ensures
        r == export_name_span(*n),
{
    match n {
        ModuleExportName::Ident(i) => i.span,
        ModuleExportName::Str(s) => s.span,
    }
}

/// The diagnostic of one property of the object pattern at `span`.
pub open spec fn pat_prop_diags(span: Span, p: ObjectPatProp) -> Seq<DiagnosticView> {
    match p {
        ObjectPatProp::KeyValue {
            key: PropName::Ident(k),
            value: Pat::Ident { name, .. },
            shorthand: false,
            ..
        } => if name@ == k.name@ {
            seq![hinted_diag(span, CODE@, MESSAGE@, HINT@)]
        } else {
            Seq::empty()
        },
        _ => Seq::empty(),
    }
}

impl NodeRule for NoUselessRename {
    open spec fn node_diags(&self, n: Node) -> Seq<DiagnosticView> {
        match n {
            Node::ImportSpecifier(ImportSpecifier::Named { span, local, imported }) => if
            export_name_span(imported) != local.span && export_name_text(imported) == local.name@ {
                seq![hinted_diag(span, CODE@, MESSAGE@, HINT@)]
            } else {
                Seq::empty()
            },
            Node::ExportSpecifier(s) => if export_name_span(s.local) != export_name_span(s.exported)
                && export_name_text(s.local) == export_name_text(s.exported) {
                seq![hinted_diag(s.span, CODE@, MESSAGE@, HINT@)]
            } else {
                Seq::empty()
            },
            Node::Pat(Pat::Object { span, props, .. }) => flat_map_diags(
                props@,
                |p| pat_prop_diags(span, p),
            ),
            _ => Seq::empty(),
        }
    }

    fn check_node<'a>(&self, n: NodeRef<'a>, out: &mut Vec<Diagnostic>) {
        let ghost start = diag_views(out@);
        match n {
            NodeRef::ImportSpecifier(ImportSpecifier::Named { span, local, imported }) => {
                if name_span(imported) != local.span && str_eq(
                    name_text(imported),
                    local.name.as_str(),
                ) {
                    push_diag(out, useless_rename(*span));
                }
            },
            NodeRef::ExportSpecifier(s) => {
                if name_span(&s.local) != name_span(&s.exported) && str_eq(
                    name_text(&s.local),
                    name_text(&s.exported),
                ) {
                    push_diag(out, useless_rename(s.span));
                }
            },
            NodeRef::Pat(Pat::Object { span, props, .. }) => {
                let ghost f = |p| pat_prop_diags(*span, p);
                let mut i: usize = 0;
                while i < props.len()
                    invariant
                        forall|p: ObjectPatProp| #[trigger] f(p) == pat_prop_diags(*span, p),
                        i <= props.len(),
                        diag_views(out@) == start + flat_map_diags(props@.take(i as int), f),
                    decreases props.len() - i,
                {
                    proof {
                        lemma_flat_map_diags_step(props@, i as int, f);
                    }
                    let ghost before = diag_views(out@);
                    if let ObjectPatProp::KeyValue {
                        key: PropName::Ident(k),
                        value: Pat::Ident { name, .. },
                        shorthand: false,
                        ..
                    } = &props[i] {
                        if str_eq(name.as_str(), k.name.as_str()) {
                            push_diag(out, useless_rename(*span));
                        }
                    }
                    assert(diag_views(out@) =~= before + f(props@[i as int]));
                    i = i + 1;
                }
                assert(props@.take(props.len() as int) =~= props@);
            },
            _ => {},
        }
        assert(diag_views(out@) =~= start + self.node_diags(n@));
    }
}

fn useless_rename(span: Span) -> (r: Diagnostic)
    ensures
        r@ == hinted_diag(span, CODE@, MESSAGE@, HINT@),
{
    Diagnostic::with_hint(span, CODE, String::from_str(MESSAGE), String::from_str(HINT))
}

impl NoUselessRename {
    /// The tags of the rule: it belongs to no set.
    pub fn tags(&self) -> (r: Vec<&'static str>)
        ensures
            crate::tags::tag_views(r@) == Seq::<Seq<char>>::empty(),
    {
        crate::tags::untagged()
    }

    pub fn code(&self) -> (r: &'static str)
        ensures
            r@ == CODE@,
    {
        CODE
    }

    /// One diagnostic for each useless rename, in source order.
    pub fn lint(&self, program: &Program) -> (r: Vec<Diagnostic>)
        ensures
            diag_views(r@) == nodes_diags(*self, program_events(*program)),
    {
        lint_nodes(self, program)
    }
}

} // verus!
