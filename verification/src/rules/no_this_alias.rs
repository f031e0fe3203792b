//! `no-this-alias`: `this` is not to be assigned to a variable.

use vstd::prelude::*;
use crate::ast::{Expr, Pat, Program, Span, VarDeclarator};
use crate::diagnostic::{Diagnostic, DiagnosticView, diag_views, plain_diag, push_diag};
use crate::walk::{Node, NodeRef, program_events};
use crate::rules::{NodeRule, flat_map_diags, lemma_flat_map_diags_step, lint_nodes, nodes_diags};

verus! {

pub const CODE: &'static str = "no-this-alias";

pub const MESSAGE: &'static str = "assign `this` to declare a value is not allowed";

/// Reports each declarator that binds a plain name to `this`, at its declaration.
#[derive(Debug)]
pub struct NoThisAlias;

/// Whether a declarator binds a plain name to `this`.
pub open spec fn is_this_alias(d: VarDeclarator) -> bool {
    &&& d.init matches Some(Expr::This(_))
    &&& d.name is Ident
}

/// The diagnostic of one declarator of the declaration at `span`.
pub open spec fn declarator_diags(span: Span, d: VarDeclarator) -> Seq<DiagnosticView> {
    if is_this_alias(d) {
        seq![plain_diag(span, CODE@, MESSAGE@)]
    } else {
        Seq::empty()
    }
}

impl NodeRule for NoThisAlias {
    open spec fn node_diags(&self, n: Node) -> Seq<DiagnosticView> {
        match n {
            Node::VarDecl(d) => flat_map_diags(d.decls@, |x| declarator_diags(d.span, x)),
            _ => Seq::empty(),
        }
    }

    fn check_node<'a>(&self, n: NodeRef<'a>, out: &mut Vec<Diagnostic>) {
        let ghost start = diag_views(out@);
        if let NodeRef::VarDecl(d) = n {
            let ghost f = |x| declarator_diags(d.span, x);
            let mut i: usize = 0;
            while i < d.decls.len()
                invariant
                    forall|x: VarDeclarator| #[trigger] f(x) == declarator_diags(d.span, x),
                    i <= d.decls.len(),
                    diag_views(out@) == start + flat_map_diags(d.decls@.take(i as int), f),
                decreases d.decls.len() - i,
            {
                proof {
                    lemma_flat_map_diags_step(d.decls@, i as int, f);
                }
                let ghost before = diag_views(out@);
                let decl = &d.decls[i];
                if let Some(Expr::This(_)) = &decl.init {
                    if let Pat::Ident { .. } = &decl.name {
                        push_diag(out, Diagnostic::new(d.span, CODE, MESSAGE));
                    }
                }
                assert(f(d.decls@[i as int]) == declarator_diags(d.span, d.decls@[i as int]));
                assert(diag_views(out@) =~= before + declarator_diags(d.span, d.decls@[i as int]));
                i = i + 1;
            }
            assert(d.decls@.take(d.decls.len() as int) =~= d.decls@);
        }
        assert(diag_views(out@) =~= start + self.node_diags(n@));
    }
}

impl NoThisAlias {
    /// The tags of the rule: it belongs to the recommended set.
    pub fn tags(&self) -> (r: Vec<&'static str>)
        ensures
            crate::tags::tag_views(r@) == seq![crate::tags::RECOMMENDED@],
    {
        crate::tags::recommended()
    }

    pub fn code(&self) -> (r: &'static str)
        ensures
            r@ == CODE@,
    {
        CODE
    }

    /// One diagnostic for each declarator that aliases `this`, in source order.
    pub fn lint(&self, program: &Program) -> (r: Vec<Diagnostic>)
        ensures
            diag_views(r@) == nodes_diags(*self, program_events(*program)),
    {
        lint_nodes(self, program)
    }
}

} // verus!
