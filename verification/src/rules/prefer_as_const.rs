//! `prefer-as-const`: a literal that is given its own literal type is better
//! written with `as const`.

use vstd::prelude::*;
use crate::ast::{type_span, type_span_of, Expr, Lit, Pat, Program, TsType, VarDeclarator};
use crate::diagnostic::{Diagnostic, DiagnosticView, diag_views, hinted_diag, push_diag};
use crate::text::str_eq;
use crate::walk::{Node, NodeRef, program_events};
use crate::rules::{NodeRule, lint_nodes, nodes_diags};

verus! {

pub const CODE: &'static str = "prefer-as-const";

pub const MESSAGE: &'static str = "Expected a `const` assertion instead of a literal type annotation";

pub const HINT: &'static str = "Remove a literal type annotation and add `as const`";

/// Reports a string or number literal asserted or annotated with the literal
/// type of its own value.
#[derive(Debug)]
pub struct PreferAsConst;

/// A literal type and a literal value of the same string or the same number.
pub open spec fn same_literal(ty: TsType, e: Expr) -> bool {
    match (ty, e) {
        (TsType::Lit { lit: Lit::Str(t), .. }, Expr::Lit(Lit::Str(v))) => t.value@ == v.value@,
        (TsType::Lit { lit: Lit::Num(t), .. }, Expr::Lit(Lit::Num(v))) => t.value_text@
            == v.value_text@,
        _ => false,
    }
}

pub open spec fn compare_diags(ty: TsType, e: Expr) -> Seq<DiagnosticView> {
    if same_literal(ty, e) {
        seq![hinted_diag(type_span(ty), CODE@, MESSAGE@, HINT@)]
    } else {
        Seq::empty()
    }
}

/// The type that annotates a declared name or pattern.
pub open spec fn pat_type(p: Pat) -> Option<TsType> {
    match p {
        Pat::Ident { type_ann, .. } => type_ann,
        Pat::Array { type_ann, .. } => type_ann,
        Pat::Object { type_ann, .. } => type_ann,
        _ => None,
    }
}

fn pat_type_of(p: &Pat) -> (r: Option<&TsType>)
    ensures
        match r {
            Some(t) => pat_type(*p) == Some(*t),
            None => pat_type(*p) is None,
        },
{
    match p {
        Pat::Ident { type_ann, .. } => type_ann.as_ref(),
        Pat::Array { type_ann, .. } => type_ann.as_ref(),
        Pat::Object { type_ann, .. } => type_ann.as_ref(),
        _ => None,
    }
}

/// The declarators from index `i` on: a variable annotated with a type and
/// given a value.
pub open spec fn decls_diags(s: Seq<VarDeclarator>, i: int) -> Seq<DiagnosticView>
    decreases s.len() - i,
{
    if 0 <= i < s.len() {
        (match (pat_type(s[i].name), s[i].init) {
            (Some(t), Some(init)) => compare_diags(t, init),
            _ => Seq::empty(),
        }) + decls_diags(s, i + 1)
    } else {
        Seq::empty()
    }
}

fn is_same_literal(ty: &TsType, e: &Expr) -> (r: bool)
    ensures
        r == same_literal(*ty, *e),
{
    match (ty, e) {
        (TsType::Lit { lit: Lit::Str(t), .. }, Expr::Lit(Lit::Str(v))) => str_eq(
            t.value.as_str(),
            v.value.as_str(),
        ),
        (TsType::Lit { lit: Lit::Num(t), .. }, Expr::Lit(Lit::Num(v))) => str_eq(
            t.value_text.as_str(),
            v.value_text.as_str(),
        ),
        _ => false,
    }
}

fn compare(ty: &TsType, e: &Expr, out: &mut Vec<Diagnostic>)
    ensures
        diag_views(final(out)@) == diag_views(old(out)@) + compare_diags(*ty, *e),
{
    if is_same_literal(ty, e) {
        push_diag(
            out,
            Diagnostic::with_hint(
                type_span_of(ty),
                CODE,
                String::from_str(MESSAGE),
                String::from_str(HINT),
            ),
        );
    } else {
        assert(diag_views(out@) =~= diag_views(old(out)@) + compare_diags(*ty, *e));
    }
}

fn check_decls(s: &Vec<VarDeclarator>, out: &mut Vec<Diagnostic>)
    ensures
        diag_views(final(out)@) == diag_views(old(out)@) + decls_diags(s@, 0),
{
    let ghost o = diag_views(out@);
    let mut k: usize = 0;
    while k < s.len()
        invariant
            k <= s@.len(),
            diag_views(out@) + decls_diags(s@, k as int) == o + decls_diags(s@, 0),
        decreases s@.len() - k,
    {
        let ghost before = diag_views(out@);
        match (pat_type_of(&s[k].name), &s[k].init) {
            (Some(t), Some(init)) => compare(t, init, out),
            _ => {},
        }
        assert(diag_views(out@) + decls_diags(s@, k + 1) =~= before + decls_diags(s@, k as int));
        k = k + 1;
    }
    assert(diag_views(out@) + decls_diags(s@, k as int) =~= diag_views(out@));
}

impl NodeRule for PreferAsConst {
    open spec fn node_diags(&self, n: Node) -> Seq<DiagnosticView> {
        match n {
            Node::Expr(Expr::TsAs { expr, ty, .. }) => compare_diags(ty, *expr),
            Node::Expr(Expr::TsTypeAssertion { expr, ty, .. }) => compare_diags(ty, *expr),
            Node::VarDecl(d) => decls_diags(d.decls@, 0),
            _ => Seq::empty(),
        }
    }

    fn check_node<'a>(&self, n: NodeRef<'a>, out: &mut Vec<Diagnostic>) {
        match n {
            NodeRef::Expr(Expr::TsAs { expr, ty, .. }) => compare(ty, expr, out),
            NodeRef::Expr(Expr::TsTypeAssertion { expr, ty, .. }) => compare(ty, expr, out),
            NodeRef::VarDecl(d) => check_decls(&d.decls, out),
            _ => {
                assert(diag_views(out@) =~= diag_views(old(out)@) + self.node_diags(n@));
            },
        }
    }
}

impl PreferAsConst {
    /// The tags of the rule: it belongs to the recommended set.
    pub fn tags(&self) -> (r: Vec<&'static str>)
        ensures
            crate::tags::tag_views(r@) == seq![crate::tags::RECOMMENDED@],
    {
        crate::tags::recommended()
    }

    pub fn code(&self) -> (r: &'static str)
        ensures
            r@ == CODE@,
    {
        CODE
    }

    /// One diagnostic for each literal type that repeats the value it is given
    /// to, in source order.
    pub fn lint(&self, program: &Program) -> (r: Vec<Diagnostic>)
        ensures
            diag_views(r@) == nodes_diags(*self, program_events(*program)),
    {
        lint_nodes(self, program)
    }
}

} // verus!
