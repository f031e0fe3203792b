//! `no-unused-labels`: a label that no `break` or `continue` names is reported.

use vstd::prelude::*;
use crate::ast::{Ident, Program, Stmt};
use crate::diagnostic::{Diagnostic, DiagnosticView, diag_views, plain_diag, push_diag};
use crate::text::str_eq;
use crate::walk::{Event, Node, NodeRef, SEvent, event_views, program_events, walk_program};
use crate::rules::{fold_events, lemma_fold_events_step};

verus! {

pub const CODE: &'static str = "no-unused-labels";

/// Reports each labeled statement whose label no `break` or `continue` inside
/// it names.
#[derive(Debug)]
pub struct NoUnusedLabels;

/// The message for an unused label.
pub open spec fn unused_message(name: Seq<char>) -> Seq<char> {
    "`"@ + name + "` label is never used"@
}

/// The innermost enclosing label of the given name: the last of the stack.
pub open spec fn rfind_label(labels: Seq<(Seq<char>, bool)>, name: Seq<char>) -> Option<int>
    decreases labels.len(),
{
    if labels.len() == 0 {
        None
    } else if labels.last().0 == name {
        Some(labels.len() - 1)
    } else {
        rfind_label(labels.drop_last(), name)
    }
}

/// Marks the innermost label of the given name, if any, as used.
pub open spec fn mark_used(labels: Seq<(Seq<char>, bool)>, label: Option<Ident>) -> Seq<
    (Seq<char>, bool),
> {
    match label {
        Some(l) => match rfind_label(labels, l.name@) {
            Some(j) => labels.update(j, (labels[j].0, true)),
            None => labels,
        },
        None => labels,
    }
}

/// One event for a state that holds the enclosing labels, innermost last, and
/// whether each has been used.
pub open spec fn step(labels: Seq<(Seq<char>, bool)>, e: SEvent) -> (
    Seq<(Seq<char>, bool)>,
    Seq<DiagnosticView>,
) {
    match e {
        SEvent::Enter(Node::Stmt(Stmt::Labeled { label, .. })) => (
            labels.push((label.name@, false)),
            Seq::empty(),
        ),
        SEvent::Exit(Node::Stmt(Stmt::Labeled { span, .. })) => if labels.len() > 0 {
            (labels.drop_last(), if !labels.last().1 {
                seq![plain_diag(span, CODE@, unused_message(labels.last().0))]
            } else {
                Seq::empty()
            })
        } else {
            (labels, Seq::empty())
        },
        SEvent::Enter(Node::Stmt(Stmt::Break { label, .. })) => (
            mark_used(labels, label),
            Seq::empty(),
        ),
        SEvent::Enter(Node::Stmt(Stmt::Continue { label, .. })) => (
            mark_used(labels, label),
            Seq::empty(),
        ),
        _ => (labels, Seq::empty()),
    }
}

pub open spec fn step_fn() -> spec_fn(Seq<(Seq<char>, bool)>, SEvent) -> (
    Seq<(Seq<char>, bool)>,
    Seq<DiagnosticView>,
) {
    |labels: Seq<(Seq<char>, bool)>, e: SEvent| step(labels, e)
}

proof fn lemma_rfind_take(labels: Seq<(Seq<char>, bool)>, name: Seq<char>, i: int)
    requires
        0 <= i <= labels.len(),
        forall|k: int| i <= k < labels.len() ==> labels[k].0 != name,
    ensures
        rfind_label(labels, name) == rfind_label(labels.take(i), name),
    decreases labels.len(),
{
    if labels.len() == i {
        assert(labels.take(i) =~= labels);
    } else {
        assert(labels.drop_last().take(i) =~= labels.take(i));
        lemma_rfind_take(labels.drop_last(), name, i);
    }
}

struct Label {
    used: bool,
    name: String,
}

spec fn labels_view(v: Seq<Label>) -> Seq<(Seq<char>, bool)> {
    v.map_values(|l: Label| (l.name@, l.used))
}

struct NoUnusedLabelsHandler {
    labels: Vec<Label>,
}

impl NoUnusedLabelsHandler {
    fn check_label(&mut self, label: &Option<Ident>)
        ensures
            labels_view(final(self).labels@) == mark_used(labels_view(old(self).labels@), *label),
    {
        if let Some(l) = label {
            let ghost view = labels_view(self.labels@);
            let mut i: usize = self.labels.len();
            while i > 0
                invariant
                    i <= self.labels.len(),
                    view == labels_view(self.labels@),
                    view == labels_view(old(self).labels@),
                    *label == Some(*l),
                    forall|k: int| i <= k < view.len() ==> view[k].0 != l.name@,
                decreases i,
            {
                if str_eq(self.labels[i - 1].name.as_str(), l.name.as_str()) {
                    proof {
                        lemma_rfind_take(view, l.name@, i as int);
                        assert(view.take(i as int).last() == view[i - 1]);
                    }
                    let j = i - 1;
                    self.labels[j].used = true;
                    assert(labels_view(self.labels@) =~= view.update(j as int, (view[j as int].0, true)));
                    return;
                }
                i = i - 1;
            }
            proof {
                lemma_rfind_take(view, l.name@, 0);
            }
        }
    }
}

impl NoUnusedLabels {
    /// The tags of the rule: it belongs to the recommended set.
    pub fn tags(&self) -> (r: Vec<&'static str>)
        ensures
            crate::tags::tag_views(r@) == seq![crate::tags::RECOMMENDED@],
    {
        crate::tags::recommended()
    }

    pub fn code(&self) -> (r: &'static str)
        ensures
            r@ == CODE@,
    {
        CODE
    }

    /// One diagnostic for each labeled statement whose label is never used, in
    /// the order in which the statements end.
    pub fn lint(&self, program: &Program) -> (r: Vec<Diagnostic>)
        ensures
            diag_views(r@) == fold_events(
                program_events(*program),
                Seq::<(Seq<char>, bool)>::empty(),
                step_fn(),
            ).1,
    {
        let events = walk_program(program);
        let ghost evs = event_views(events@);
        let ghost init = Seq::<(Seq<char>, bool)>::empty();
        let mut out: Vec<Diagnostic> = Vec::new();
        let mut handler = NoUnusedLabelsHandler { labels: Vec::new() };
        assert(diag_views(out@) =~= Seq::<DiagnosticView>::empty());
        assert(labels_view(handler.labels@) =~= init);
        let mut i: usize = 0;
        while i < events.len()
            invariant
                evs == event_views(events@),
                i <= events.len(),
                init == Seq::<(Seq<char>, bool)>::empty(),
                fold_events(evs.take(i as int), init, step_fn()) == (
                    labels_view(handler.labels@),
                    diag_views(out@),
                ),
            decreases events.len() - i,
        {
            proof {
                lemma_fold_events_step(evs, i as int, init, step_fn());
            }
            let ghost before = diag_views(out@);
            let ghost old_labels = labels_view(handler.labels@);
            match events[i] {
                Event::Enter(NodeRef::Stmt(Stmt::Labeled { label, .. })) => {
                    handler.labels.push(Label { used: false, name: label.name.clone() });
                    assert(labels_view(handler.labels@) =~= old_labels.push((label.name@, false)));
                },
                Event::Exit(NodeRef::Stmt(Stmt::Labeled { span, .. })) => {
                    if let Some(label) = handler.labels.pop() {
                        assert(labels_view(handler.labels@) =~= old_labels.drop_last());
                        if !label.used {
                            let mut message = String::from_str("`");
                            message.append(label.name.as_str());
                            message.append("` label is never used");
                            push_diag(&mut out, Diagnostic::with_message(*span, CODE, message));
                        }
                    }
                },
                Event::Enter(NodeRef::Stmt(Stmt::Break { label, .. })) => handler.check_label(label),
                Event::Enter(NodeRef::Stmt(Stmt::Continue { label, .. })) => handler.check_label(label),
                _ => {},
            }
            assert(labels_view(handler.labels@) == step(old_labels, evs[i as int]).0);
            assert(diag_views(out@) =~= before + step(old_labels, evs[i as int]).1);
            i = i + 1;
        }
        assert(evs.take(events.len() as int) =~= evs);
        out
    }
}

} // verus!
