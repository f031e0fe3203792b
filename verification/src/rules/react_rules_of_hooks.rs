//! `react-rules-of-hooks`: hooks are called unconditionally, at the top level
//! of a component or of another hook.
//!
//! A call of a function named `use` or `use` followed by an uppercase letter
//! or a digit is a hook call. The walk keeps a stack of the enclosing
//! constructs that matter; a hook call is judged by reading it from the
//! innermost out.

use vstd::prelude::*;
use crate::ast::{Callee, Expr, Pat, Program, Span, Stmt};
use crate::diagnostic::{Diagnostic, DiagnosticView, diag_views, hinted_diag, push_diag};
use crate::text::{char_is_uppercase, is_uppercase_char, regex_is_match, regex_match, str_eq};
use crate::walk::{Event, Node, NodeRef, SEvent, event_views, program_events, walk_program};
use crate::rules::{fold_events, lemma_fold_events_step};

verus! {

pub const CODE: &'static str = "react-rules-of-hooks";

/// The regular expression that a hook's name other than `use` matches.
pub const HOOK_PATTERN: &'static str = "^use[A-Z0-9]";

pub const OUTSIDE_COMPONENT_MESSAGE: &'static str = "Hook function called outside of a Component";

pub const OUTSIDE_COMPONENT_HINT: &'static str = "Ensure that hooks are only called inside Components or custom hook functions";

pub const CONDITIONALLY_MESSAGE: &'static str = "Hook called conditionally";

pub const CONDITIONALLY_HINT: &'static str = "Move the hook call before you call any conditions. All hooks must be invoked on every render call";

pub const LOOP_MESSAGE: &'static str = "Hook called inside a loop";

pub const LOOP_HINT: &'static str = "Move the hook call before you call any loops or conditions. All hooks must be invoked on every render call";

pub const TRY_CATCH_MESSAGE: &'static str = "Hook called inside a try/catch-statement";

pub const TRY_CATCH_HINT: &'static str = "Move the hook call before you call any loops, conditions or try/catch statements. All hooks must be invoked on every render call";

/// Reports hook calls outside components and hooks, and hook calls under a
/// condition, in a loop or in a `try`.
#[derive(Debug)]
pub struct ReactRulesOfHooks;

/// An enclosing construct, as the walk holds it: a named function with the
/// number of conditions open in it, an operation, a condition (and whether
/// it returned), an `export default`, a loop, a `try`, a declarator of a
/// name or of a pattern, or a function of no name.
#[derive(Debug)]
pub enum HookFrame {
    Fn { name: String, conds: usize },
    Bin,
    Cond(bool),
    ExportDefault,
    Loop,
    TryCatch,
    Var(String),
    VarOther,
    Unknown,
}

/// An enclosing construct, as a value.
pub enum FrameView {
    Fn(Seq<char>, usize),
    Bin,
    Cond(bool),
    ExportDefault,
    Loop,
    TryCatch,
    Var(Seq<char>),
    VarOther,
    Unknown,
}

impl View for HookFrame {
    type V = FrameView;

    open spec fn view(&self) -> FrameView {
        match self {
            HookFrame::Fn { name, conds } => FrameView::Fn(name@, *conds),
            HookFrame::Bin => FrameView::Bin,
            HookFrame::Cond(t) => FrameView::Cond(*t),
            HookFrame::ExportDefault => FrameView::ExportDefault,
            HookFrame::Loop => FrameView::Loop,
            HookFrame::TryCatch => FrameView::TryCatch,
            HookFrame::Var(n) => FrameView::Var(n@),
            HookFrame::VarOther => FrameView::VarOther,
            HookFrame::Unknown => FrameView::Unknown,
        }
    }
}

pub open spec fn frames_view(v: Seq<HookFrame>) -> Seq<FrameView> {
    v.map_values(|f: HookFrame| f@)
}

pub open spec fn is_hook_name(name: Seq<char>) -> bool {
    name == "use"@ || regex_match(HOOK_PATTERN@, name) == Some(true)
}

/// A hook's name, or a component's: one that starts with an uppercase letter.
pub open spec fn is_hook_or_component_name(name: Seq<char>) -> bool {
    is_hook_name(name) || (name.len() > 0 && is_uppercase_char(name[0]))
}

/// A call of a hook by its name.
pub open spec fn hook_call(e: Expr) -> bool {
    match e {
        Expr::Call { callee: Callee::Expr(c), .. } => match *c {
            Expr::Ident(id) => is_hook_name(id.name@),
            _ => false,
        },
        _ => false,
    }
}

/// One more condition in the innermost construct, where it is a function.
pub open spec fn inc_conds(st: Seq<FrameView>) -> Seq<FrameView> {
    if st.len() > 0 {
        match st.last() {
            FrameView::Fn(name, c) => st.drop_last().push(
                FrameView::Fn(name, if c < usize::MAX { (c + 1) as usize } else { c }),
            ),
            _ => st,
        }
    } else {
        st
    }
}

/// One condition less in the innermost construct, where it is a function.
pub open spec fn dec_conds(st: Seq<FrameView>) -> Seq<FrameView> {
    if st.len() > 0 {
        match st.last() {
            FrameView::Fn(name, c) => st.drop_last().push(
                FrameView::Fn(name, if c > 0 { (c - 1) as usize } else { 0 }),
            ),
            _ => st,
        }
    } else {
        st
    }
}

/// One more condition and then one less leaves the constructs as they were,
/// where the innermost function's count is below the maximum.
pub proof fn lemma_conds_restored(st: Seq<FrameView>)
    requires
        st.len() > 0 ==> match st.last() {
            FrameView::Fn(_, c) => c < usize::MAX,
            _ => true,
        },
    ensures
        dec_conds(inc_conds(st)) == st,
{
    if st.len() > 0 {
        match st.last() {
            FrameView::Fn(name, c) => {
                assert(inc_conds(st).drop_last() =~= st.drop_last());
                assert(dec_conds(inc_conds(st)) =~= st);
            },
            _ => {},
        }
    }
}

pub open spec fn pop(st: Seq<FrameView>) -> Seq<FrameView> {
    if st.len() > 0 {
        st.drop_last()
    } else {
        st
    }
}

/// Entering a node: the constructs that it opens.
pub open spec fn enter_frames(st: Seq<FrameView>, n: Node) -> Seq<FrameView> {
    match n {
        Node::Stmt(Stmt::Fn(f)) => st.push(
            match f.id {
                Some(id) => FrameView::Fn(id.name@, 0),
                None => FrameView::Unknown,
            },
        ),
        Node::Expr(Expr::Fn(f)) => st.push(
            match f.id {
                Some(id) => FrameView::Fn(id.name@, 0),
                None => FrameView::Unknown,
            },
        ),
        Node::Expr(Expr::Cond { .. }) => inc_conds(st).push(FrameView::Cond(false)),
        Node::Expr(Expr::Bin { .. }) => inc_conds(st).push(FrameView::Bin),
        Node::Expr(Expr::Arrow(_)) => st.push(
            if st.len() > 0 && (st.last() matches FrameView::Var(_)) {
                FrameView::Fn(st.last()->Var_0, 0)
            } else {
                FrameView::Unknown
            },
        ),
        Node::Stmt(Stmt::ExportDefaultExpr { .. }) => st.push(FrameView::ExportDefault),
        Node::VarDeclarator(d) => st.push(
            match d.name {
                Pat::Ident { name, .. } => FrameView::Var(name@),
                _ => FrameView::VarOther,
            },
        ),
        Node::Stmt(Stmt::If { .. }) => inc_conds(st).push(FrameView::Cond(false)),
        Node::Stmt(Stmt::ForIn { .. }) => st.push(FrameView::Loop),
        Node::Stmt(Stmt::ForOf { .. }) => st.push(FrameView::Loop),
        Node::Stmt(Stmt::For { .. }) => st.push(FrameView::Loop),
        Node::Stmt(Stmt::While { .. }) => st.push(FrameView::Loop),
        Node::Stmt(Stmt::Try { .. }) => st.push(FrameView::TryCatch),
        Node::Stmt(Stmt::Return { .. }) => if st.len() > 0 && (st.last() is Cond) {
            st.drop_last().push(FrameView::Cond(true))
        } else {
            st
        },
        _ => st,
    }
}

/// Leaving a node: the constructs that it closes. Leaving an `if` that did
/// not return, or an operation, closes the condition it counted.
pub open spec fn exit_frames(st: Seq<FrameView>, n: Node) -> Seq<FrameView> {
    match n {
        Node::Stmt(Stmt::If { .. }) => if st.len() > 0 && (st.last() matches FrameView::Cond(
            false,
        )) {
            dec_conds(pop(st))
        } else {
            pop(st)
        },
        Node::Expr(Expr::Bin { .. }) => if st.len() > 0 && (st.last() is Bin) {
            dec_conds(pop(st))
        } else {
            pop(st)
        },
        Node::Stmt(Stmt::Fn(_)) => pop(st),
        Node::Expr(Expr::Arrow(_)) => pop(st),
        Node::Expr(Expr::Cond { .. }) => pop(st),
        Node::VarDeclarator(_) => pop(st),
        Node::Stmt(Stmt::ForIn { .. }) => pop(st),
        Node::Stmt(Stmt::ForOf { .. }) => pop(st),
        Node::Expr(Expr::Fn(_)) => pop(st),
        Node::Stmt(Stmt::For { .. }) => pop(st),
        Node::Stmt(Stmt::While { .. }) => pop(st),
        Node::Stmt(Stmt::ExportDefaultExpr { .. }) => pop(st),
        Node::Stmt(Stmt::Try { .. }) => pop(st),
        _ => st,
    }
}

pub open spec fn outside_diag(span: Span) -> DiagnosticView {
    hinted_diag(span, CODE@, OUTSIDE_COMPONENT_MESSAGE@, OUTSIDE_COMPONENT_HINT@)
}

pub open spec fn cond_diag(span: Span) -> DiagnosticView {
    hinted_diag(span, CODE@, CONDITIONALLY_MESSAGE@, CONDITIONALLY_HINT@)
}

/// The diagnostics of a hook call at `span`, reading the constructs from
/// index `k` outwards: the first function decides, and so do a condition, an
/// operation, a `try` or a function of no name; each loop on the way is
/// reported.
pub open spec fn scan(st: Seq<FrameView>, k: int, span: Span) -> Seq<DiagnosticView>
    decreases k + 1,
{
    if k < 0 || k >= st.len() {
        Seq::empty()
    } else {
        match st[k] {
            FrameView::Unknown => Seq::empty(),
            FrameView::Fn(name, c) => if c > 0 {
                seq![cond_diag(span)]
            } else if !is_hook_or_component_name(name) {
                seq![outside_diag(span)]
            } else {
                Seq::empty()
            },
            FrameView::Loop => seq![hinted_diag(span, CODE@, LOOP_MESSAGE@, LOOP_HINT@)] + scan(
                st,
                k - 1,
                span,
            ),
            FrameView::TryCatch => seq![hinted_diag(span, CODE@, TRY_CATCH_MESSAGE@, TRY_CATCH_HINT@)],
            FrameView::Bin => seq![cond_diag(span)],
            FrameView::Cond(_) => seq![cond_diag(span)],
            _ => scan(st, k - 1, span),
        }
    }
}

/// The diagnostics of a hook call within the constructs `st`: outside of
/// everything it is outside any component.
pub open spec fn call_diags(st: Seq<FrameView>, span: Span) -> Seq<DiagnosticView> {
    (if st.len() == 0 {
        seq![outside_diag(span)]
    } else {
        Seq::empty()
    }) + scan(st, st.len() - 1, span)
}

pub open spec fn enter_diags(st: Seq<FrameView>, n: Node) -> Seq<DiagnosticView> {
    match n {
        Node::Expr(e) => if hook_call(e) {
            call_diags(st, e->Call_span)
        } else {
            Seq::empty()
        },
        _ => Seq::empty(),
    }
}

pub open spec fn check_fn() -> spec_fn(Seq<FrameView>, SEvent) -> (Seq<FrameView>, Seq<DiagnosticView>) {
    |st: Seq<FrameView>, ev: SEvent|
        match ev {
            SEvent::Enter(n) => (enter_frames(st, n), enter_diags(st, n)),
            SEvent::Exit(n) => (exit_frames(st, n), Seq::empty()),
        }
}

pub fn hook_name(name: &str) -> (r: bool)
    ensures
        r == is_hook_name(name@),
{
    if str_eq(name, "use") {
        return true;
    }
    match regex_is_match(HOOK_PATTERN, name) {
        Some(m) => m,
        None => false,
    }
}

pub fn hook_or_component_name(name: &str) -> (r: bool)
    ensures
        r == is_hook_or_component_name(name@),
{
    if hook_name(name) {
        return true;
    }
    if name.unicode_len() > 0 {
        char_is_uppercase(name.get_char(0))
    } else {
        false
    }
}

/// One condition more in the innermost construct, where it is a function
/// (the count stops at the maximum); any other construct is left as it is.
pub fn maybe_increase_cond_counter(st: &mut Vec<HookFrame>)
    ensures
        frames_view(final(st)@) == inc_conds(frames_view(old(st)@)),
{
    let ghost before = frames_view(st@);
    if st.len() > 0 {
        let last = st.pop().unwrap();
        assert(frames_view(st@) =~= before.drop_last());
        match last {
            HookFrame::Fn { name, conds } => {
                let c = if conds < usize::MAX {
                    conds + 1
                } else {
                    conds
                };
                st.push(HookFrame::Fn { name, conds: c });
            },
            other => {
                st.push(other);
            },
        }
        assert(frames_view(st@) =~= inc_conds(before));
    }
}

/// One condition less in the innermost construct, where it is a function
/// (the count stops at zero); any other construct is left as it is.
pub fn maybe_decrease_cond_counter(st: &mut Vec<HookFrame>)
    ensures
        frames_view(final(st)@) == dec_conds(frames_view(old(st)@)),
{
    let ghost before = frames_view(st@);
    if st.len() > 0 {
        let last = st.pop().unwrap();
        assert(frames_view(st@) =~= before.drop_last());
        match last {
            HookFrame::Fn { name, conds } => {
                let c = if conds > 0 {
                    conds - 1
                } else {
                    0
                };
                st.push(HookFrame::Fn { name, conds: c });
            },
            other => {
                st.push(other);
            },
        }
        assert(frames_view(st@) =~= dec_conds(before));
    }
}

fn pop_frame(st: &mut Vec<HookFrame>) -> (r: Option<HookFrame>)
    ensures
        frames_view(final(st)@) == pop(frames_view(old(st)@)),
        match r {
            Some(f) => old(st)@.len() > 0 && f@ == frames_view(old(st)@).last(),
            None => old(st)@.len() == 0,
        },
{
    let ghost before = frames_view(st@);
    let r = st.pop();
    assert(frames_view(st@) =~= pop(before));
    r
}

fn push_frame(st: &mut Vec<HookFrame>, f: HookFrame)
    ensures
        frames_view(final(st)@) == frames_view(old(st)@).push(f@),
{
    st.push(f);
    assert(frames_view(st@) =~= frames_view(old(st)@).push(f@));
}

fn id_frame(id: &Option<crate::ast::Ident>) -> (f: HookFrame)
    ensures
        f@ == match *id {
            Some(i) => FrameView::Fn(i.name@, 0),
            None => FrameView::Unknown,
        },
{
    match id {
        Some(i) => HookFrame::Fn { name: i.name.clone(), conds: 0 },
        None => HookFrame::Unknown,
    }
}

fn enter<'a>(st: &mut Vec<HookFrame>, n: NodeRef<'a>)
    ensures
        frames_view(final(st)@) == enter_frames(frames_view(old(st)@), n@),
{
    match n {
        NodeRef::Stmt(Stmt::Fn(f)) => push_frame(st, id_frame(&f.id)),
        NodeRef::Expr(Expr::Fn(f)) => push_frame(st, id_frame(&f.id)),
        NodeRef::Expr(Expr::Cond { .. }) => {
            maybe_increase_cond_counter(st);
            push_frame(st, HookFrame::Cond(false));
        },
        NodeRef::Expr(Expr::Bin { .. }) => {
            maybe_increase_cond_counter(st);
            push_frame(st, HookFrame::Bin);
        },
        NodeRef::Expr(Expr::Arrow(_)) => {
            let f = if st.len() > 0 {
                match &st[st.len() - 1] {
                    HookFrame::Var(name) => HookFrame::Fn { name: name.clone(), conds: 0 },
                    _ => HookFrame::Unknown,
                }
            } else {
                HookFrame::Unknown
            };
            push_frame(st, f);
        },
        NodeRef::Stmt(Stmt::ExportDefaultExpr { .. }) => push_frame(st, HookFrame::ExportDefault),
        NodeRef::VarDeclarator(d) => {
            let f = match &d.name {
                Pat::Ident { name, .. } => HookFrame::Var(name.clone()),
                _ => HookFrame::VarOther,
            };
            push_frame(st, f);
        },
        NodeRef::Stmt(Stmt::If { .. }) => {
            maybe_increase_cond_counter(st);
            push_frame(st, HookFrame::Cond(false));
        },
        NodeRef::Stmt(Stmt::ForIn { .. }) => push_frame(st, HookFrame::Loop),
        NodeRef::Stmt(Stmt::ForOf { .. }) => push_frame(st, HookFrame::Loop),
        NodeRef::Stmt(Stmt::For { .. }) => push_frame(st, HookFrame::Loop),
        NodeRef::Stmt(Stmt::While { .. }) => push_frame(st, HookFrame::Loop),
        NodeRef::Stmt(Stmt::Try { .. }) => push_frame(st, HookFrame::TryCatch),
        NodeRef::Stmt(Stmt::Return { .. }) => {
            let is_cond = st.len() > 0 && match &st[st.len() - 1] {
                HookFrame::Cond(_) => true,
                _ => false,
            };
            if is_cond {
                pop_frame(st);
                push_frame(st, HookFrame::Cond(true));
            }
        },
        _ => {},
    }
}

fn exit<'a>(st: &mut Vec<HookFrame>, n: NodeRef<'a>)
    ensures
        frames_view(final(st)@) == exit_frames(frames_view(old(st)@), n@),
{
    match n {
        NodeRef::Stmt(Stmt::If { .. }) => {
            if let Some(HookFrame::Cond(false)) = pop_frame(st) {
                maybe_decrease_cond_counter(st);
            }
        },
        NodeRef::Expr(Expr::Bin { .. }) => {
            if let Some(HookFrame::Bin) = pop_frame(st) {
                maybe_decrease_cond_counter(st);
            }
        },
        NodeRef::Stmt(Stmt::Fn(_)) | NodeRef::Expr(Expr::Arrow(_)) | NodeRef::Expr(Expr::Cond { .. })
        | NodeRef::VarDeclarator(_) | NodeRef::Stmt(Stmt::ForIn { .. }) | NodeRef::Stmt(
            Stmt::ForOf { .. },
        ) | NodeRef::Expr(Expr::Fn(_)) | NodeRef::Stmt(Stmt::For { .. }) | NodeRef::Stmt(
            Stmt::While { .. },
        ) | NodeRef::Stmt(Stmt::ExportDefaultExpr { .. }) | NodeRef::Stmt(Stmt::Try { .. }) => {
            pop_frame(st);
        },
        _ => {},
    }
}

fn check_call(st: &Vec<HookFrame>, span: Span, out: &mut Vec<Diagnostic>)
    ensures
        diag_views(final(out)@) == diag_views(old(out)@) + call_diags(frames_view(st@), span),
{
    let ghost fv = frames_view(st@);
    let ghost o = diag_views(out@);
    if st.len() == 0 {
        push_diag(
            out,
            Diagnostic::with_hint(
                span,
                CODE,
                String::from_str(OUTSIDE_COMPONENT_MESSAGE),
                String::from_str(OUTSIDE_COMPONENT_HINT),
            ),
        );
    }
    let ghost head = diag_views(out@);
    assert(head == o + (if fv.len() == 0 {
        seq![outside_diag(span)]
    } else {
        Seq::<DiagnosticView>::empty()
    }));
    let mut k: usize = st.len();
    while k > 0
        invariant
            k <= st@.len(),
            fv == frames_view(st@),
            o == diag_views(old(out)@),
            head == o + (if fv.len() == 0 {
                seq![outside_diag(span)]
            } else {
                Seq::<DiagnosticView>::empty()
            }),
            diag_views(out@) + scan(fv, k - 1, span) == head + scan(fv, fv.len() - 1, span),
        decreases k,
    {
        let ghost before = diag_views(out@);
        assert(fv[k - 1] == st@[k - 1]@);
        match &st[k - 1] {
            HookFrame::Unknown => {
                assert(scan(fv, k - 1, span) =~= Seq::<DiagnosticView>::empty());
                assert(diag_views(out@) =~= diag_views(out@) + scan(fv, k - 1, span));
                return;
            },
            HookFrame::Fn { name, conds } => {
                if *conds > 0 {
                    push_diag(
                        out,
                        Diagnostic::with_hint(
                            span,
                            CODE,
                            String::from_str(CONDITIONALLY_MESSAGE),
                            String::from_str(CONDITIONALLY_HINT),
                        ),
                    );
                } else if !hook_or_component_name(name.as_str()) {
                    push_diag(
                        out,
                        Diagnostic::with_hint(
                            span,
                            CODE,
                            String::from_str(OUTSIDE_COMPONENT_MESSAGE),
                            String::from_str(OUTSIDE_COMPONENT_HINT),
                        ),
                    );
                }
                assert(diag_views(out@) =~= before + scan(fv, k - 1, span));
                return;
            },
            HookFrame::Loop => {
                push_diag(
                    out,
                    Diagnostic::with_hint(span, CODE, String::from_str(LOOP_MESSAGE), String::from_str(LOOP_HINT)),
                );
            },
            HookFrame::TryCatch => {
                push_diag(
                    out,
                    Diagnostic::with_hint(
                        span,
                        CODE,
                        String::from_str(TRY_CATCH_MESSAGE),
                        String::from_str(TRY_CATCH_HINT),
                    ),
                );
                assert(diag_views(out@) =~= before + scan(fv, k - 1, span));
                return;
            },
            HookFrame::Bin | HookFrame::Cond(_) => {
                push_diag(
                    out,
                    Diagnostic::with_hint(
                        span,
                        CODE,
                        String::from_str(CONDITIONALLY_MESSAGE),
                        String::from_str(CONDITIONALLY_HINT),
                    ),
                );
                assert(diag_views(out@) =~= before + scan(fv, k - 1, span));
                return;
            },
            _ => {},
        }
        assert(diag_views(out@) + scan(fv, k - 2, span) =~= before + scan(fv, k - 1, span));
        k = k - 1;
    }
    assert(diag_views(out@) + scan(fv, -1, span) =~= diag_views(out@));
}

fn check_enter<'a>(st: &Vec<HookFrame>, n: NodeRef<'a>, out: &mut Vec<Diagnostic>)
    ensures
        diag_views(final(out)@) == diag_views(old(out)@) + enter_diags(frames_view(st@), n@),
{
    if let NodeRef::Expr(e) = n {
        if let Expr::Call { span, callee: Callee::Expr(c), .. } = e {
            if let Expr::Ident(id) = &**c {
                if hook_name(id.name.as_str()) {
                    check_call(st, *span, out);
                    return;
                }
            }
        }
    }
    assert(diag_views(out@) =~= diag_views(old(out)@) + enter_diags(frames_view(st@), n@));
}

impl ReactRulesOfHooks {
    /// The tags of the rule: it is written for React and Fresh.
    pub fn tags(&self) -> (r: Vec<&'static str>)
        ensures
            crate::tags::tag_views(r@) == seq![crate::tags::REACT@, crate::tags::FRESH@],
    {
        crate::tags::react_fresh()
    }

    pub fn code(&self) -> (r: &'static str)
        ensures
            r@ == CODE@,
    {
        CODE
    }

    /// The diagnostics of the rule on a program, in source order.
    pub fn lint(&self, program: &Program) -> (r: Vec<Diagnostic>)
        ensures
            diag_views(r@) == fold_events(program_events(*program), Seq::<FrameView>::empty(), check_fn()).1,
    {
        let events = walk_program(program);
        let ghost evs = event_views(events@);
        let mut out: Vec<Diagnostic> = Vec::new();
        let mut st: Vec<HookFrame> = Vec::new();
        assert(frames_view(st@) =~= Seq::<FrameView>::empty());
        assert(diag_views(out@) =~= Seq::<DiagnosticView>::empty());
        let mut i: usize = 0;
        while i < events.len()
            invariant
                evs == event_views(events@),
                i <= events.len(),
                fold_events(evs.take(i as int), Seq::<FrameView>::empty(), check_fn()) == (
                    frames_view(st@),
                    diag_views(out@),
                ),
            decreases events.len() - i,
        {
            proof {
                lemma_fold_events_step(evs, i as int, Seq::<FrameView>::empty(), check_fn());
            }
            let ghost before = diag_views(out@);
            match events[i] {
                Event::Enter(n) => {
                    check_enter(&st, n, &mut out);
                    enter(&mut st, n);
                },
                Event::Exit(n) => {
                    exit(&mut st, n);
                    assert(diag_views(out@) =~= before + Seq::<DiagnosticView>::empty());
                },
            }
            i = i + 1;
        }
        assert(evs.take(events.len() as int) =~= evs);
        out
    }
}


/// A hook called right inside a conditional expression, or right inside the
/// branches of an `if`, is reported as called conditionally, once, whatever
/// constructs enclose the condition.
pub proof fn lemma_hook_in_condition_is_conditional(st: Seq<FrameView>, n: Node, span: Span)
    requires
        (n matches Node::Expr(Expr::Cond { .. })) || (n matches Node::Stmt(Stmt::If { .. })),
    ensures
        call_diags(enter_frames(st, n), span) == seq![cond_diag(span)],
{
    let st2 = enter_frames(st, n);
    assert(st2.len() > 0);
    assert(st2.last() == FrameView::Cond(false));
    assert(call_diags(st2, span) =~= seq![cond_diag(span)]);
}


/// A hook called right inside a loop is reported as called in a loop, and
/// what encloses the loop is read as well.
pub proof fn lemma_hook_in_loop(st: Seq<FrameView>, n: Node, span: Span)
    requires
        (n matches Node::Stmt(Stmt::For { .. })) || (n matches Node::Stmt(Stmt::ForIn { .. })) || (n matches Node::Stmt(
            Stmt::ForOf { .. },
        )) || (n matches Node::Stmt(Stmt::While { .. })),
    ensures
        call_diags(enter_frames(st, n), span) == seq![hinted_diag(span, CODE@, LOOP_MESSAGE@, LOOP_HINT@)]
            + scan(st, st.len() - 1, span),
{
    let st2 = enter_frames(st, n);
    assert(st2 == st.push(FrameView::Loop));
    lemma_scan_prefix(st, FrameView::Loop, st.len() - 1, span);
    assert(call_diags(st2, span) =~= seq![hinted_diag(span, CODE@, LOOP_MESSAGE@, LOOP_HINT@)] + scan(
        st,
        st.len() - 1,
        span,
    ));
}

proof fn lemma_scan_prefix(st: Seq<FrameView>, f: FrameView, k: int, span: Span)
    requires
        k < st.len(),
    ensures
        scan(st.push(f), k, span) == scan(st, k, span),
    decreases k + 1,
{
    if k >= 0 {
        lemma_scan_prefix(st, f, k - 1, span);
        assert(st.push(f)[k] == st[k]);
    }
}

/// A hook called right inside a `try` block, or right inside a logical or
/// other binary operation, is reported once, whatever encloses it.
pub proof fn lemma_hook_in_try_or_operation(st: Seq<FrameView>, n: Node, span: Span)
    ensures
        (n matches Node::Stmt(Stmt::Try { .. })) ==> call_diags(enter_frames(st, n), span) == seq![
            hinted_diag(span, CODE@, TRY_CATCH_MESSAGE@, TRY_CATCH_HINT@),
        ],
        (n matches Node::Expr(Expr::Bin { .. })) ==> call_diags(enter_frames(st, n), span) == seq![
            cond_diag(span),
        ],
{
    let st2 = enter_frames(st, n);
    if (n matches Node::Stmt(Stmt::Try { .. })) || (n matches Node::Expr(Expr::Bin { .. })) {
        assert(st2.len() > 0);
        assert(call_diags(st2, span) =~= scan(st2, st2.len() - 1, span));
    }
}

/// A hook called right inside a named function, outside any condition, is
/// allowed where the function is a component or a hook, and reported as
/// outside a component otherwise, whatever encloses the function.
pub proof fn lemma_hook_in_named_function(st: Seq<FrameView>, f: crate::ast::Function, id: crate::ast::Ident, span: Span)
    requires
        f.id == Some(id),
    ensures
        is_hook_or_component_name(id.name@) ==> call_diags(enter_frames(st, Node::Stmt(Stmt::Fn(f))), span)
            == Seq::<DiagnosticView>::empty(),
        !is_hook_or_component_name(id.name@) ==> call_diags(enter_frames(st, Node::Stmt(Stmt::Fn(f))), span)
            == seq![outside_diag(span)],
{
    let st2 = enter_frames(st, Node::Stmt(Stmt::Fn(f)));
    assert(st2.last() == FrameView::Fn(id.name@, 0));
    assert(call_diags(st2, span) =~= scan(st2, st2.len() - 1, span));
}

} // verus!
