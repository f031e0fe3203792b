//! `noSparseArray`: the earlier form of `no-sparse-arrays`, a visitor that
//! gathers its diagnostics in the context it was made with.

use vstd::prelude::*;
use crate::ast::{Expr, ExprOrSpread, Program, Span};
use crate::diagnostic::{Diagnostic, DiagnosticView, diag_views, plain_diag, push_diag};
use crate::walk::{Event, Node, NodeRef, event_views, program_events, walk_program};
use crate::rules::{NodeRule, nodes_diags};
use crate::rules::no_sparse_arrays::{elems_have_hole, has_hole};

verus! {

pub const CODE: &'static str = "noSparseArray";

pub const MESSAGE: &'static str = "Sparse arrays are not allowed";

/// Reports every array literal that has a hole.
pub struct NoSparseArray;

/// Visits array literals and adds a diagnostic to its context for each one
/// with a hole.
pub struct NoSparseArrayVisitor {
    context: Vec<Diagnostic>,
}

impl NodeRule for NoSparseArray {
    open spec fn node_diags(&self, n: Node) -> Seq<DiagnosticView> {
        match n {
            Node::Expr(Expr::Array { span, elems }) => if has_hole(elems@) {
                seq![plain_diag(span, CODE@, MESSAGE@)]
            } else {
                Seq::empty()
            },
            _ => Seq::empty(),
        }
    }

    fn check_node<'a>(&self, n: NodeRef<'a>, out: &mut Vec<Diagnostic>) {
        if let NodeRef::Expr(Expr::Array { span, elems }) = n {
            if elems_have_hole(elems) {
                push_diag(out, Diagnostic::new(*span, CODE, MESSAGE));
            }
        }
        assert(diag_views(out@) =~= diag_views(old(out)@) + self.node_diags(n@));
    }
}

impl NoSparseArrayVisitor {
    /// The diagnostics gathered so far.
    pub closed spec fn context_view(&self) -> Seq<DiagnosticView> {
        diag_views(self.context@)
    }

    /// A visitor whose context holds the given diagnostics.
    pub fn new(context: Vec<Diagnostic>) -> (r: Self)
        ensures
            r.context_view() == diag_views(context@),
    {
        Self { context }
    }

    /// Visits one array literal.
    pub fn visit_array_lit(&mut self, span: Span, elems: &Vec<Option<ExprOrSpread>>)
        ensures
            final(self).context_view() == old(self).context_view() + if has_hole(elems@) {
                seq![plain_diag(span, CODE@, MESSAGE@)]
            } else {
                Seq::empty()
            },
    {
        if elems_have_hole(elems) {
            push_diag(&mut self.context, Diagnostic::new(span, CODE, MESSAGE));
        }
        assert(self.context_view() =~= old(self).context_view() + if has_hole(elems@) {
            seq![plain_diag(span, CODE@, MESSAGE@)]
        } else {
            Seq::empty()
        });
    }

    /// Visits every array literal of a program, in source order.
    pub fn visit_program(&mut self, program: &Program)
        ensures
            final(self).context_view() == old(self).context_view() + nodes_diags(
                NoSparseArray,
                program_events(*program),
            ),
    {
        let events = walk_program(program);
        let ghost evs = event_views(events@);
        let ghost start = self.context_view();
        let mut i: usize = 0;
        while i < events.len()
            invariant
                evs == event_views(events@),
                i <= events.len(),
                self.context_view() == start + nodes_diags(NoSparseArray, evs.take(i as int)),
            decreases events.len() - i,
        {
            if let Event::Enter(NodeRef::Expr(Expr::Array { span, elems })) = events[i] {
                self.visit_array_lit(*span, elems);
            }
            assert(evs.take(i + 1).drop_last() =~= evs.take(i as int));
            assert(self.context_view() =~= start + nodes_diags(NoSparseArray, evs.take(i + 1)));
            i = i + 1;
        }
        assert(evs.take(events.len() as int) =~= evs);
    }

    /// The diagnostics gathered.
    pub fn into_context(self) -> (r: Vec<Diagnostic>)
        ensures
            diag_views(r@) == self.context_view(),
    {
        self.context
    }
}

impl NoSparseArray {
    pub fn new() -> (r: Self) {
        NoSparseArray
    }

    /// The tags of the rule: it belongs to no set.

    pub fn tags(&self) -> (r: Vec<&'static str>)

        ensures

            crate::tags::tag_views(r@) == Seq::<Seq<char>>::empty(),

    {

        crate::tags::untagged()

    }


    pub fn code(&self) -> (r: &'static str)
        ensures
            r@ == CODE@,
    {
        CODE
    }

    /// One diagnostic for each array literal with a hole, in source order.
    pub fn lint_module(&self, program: &Program) -> (r: Vec<Diagnostic>)
        ensures
            diag_views(r@) == nodes_diags(*self, program_events(*program)),
    {
        let mut visitor = NoSparseArrayVisitor::new(Vec::new());
        assert(visitor.context_view() =~= Seq::<DiagnosticView>::empty());
        visitor.visit_program(program);
        assert(visitor.context_view() =~= nodes_diags(*self, program_events(*program)));
        visitor.into_context()
    }
}

} // verus!
