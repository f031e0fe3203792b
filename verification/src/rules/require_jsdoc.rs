//! `require-jsdoc`: exported functions, classes and interfaces, and the
//! methods of exported classes and interfaces, carry a JSDoc comment.
//!
//! A JSDoc comment is a block comment whose text starts with `*` (it is
//! written `/** .. */`); it documents what follows it with nothing but
//! white space in between.

use vstd::prelude::*;
use crate::ast::{ClassMember, Comment, CommentKind, Expr, Program, PropName, Span, Stmt};
use crate::diagnostic::{Diagnostic, DiagnosticView, diag_views, plain_diag, push_diag};
use crate::text::{byte_len, char_index, text_slice};
use crate::walk::{Event, Node, NodeRef, SEvent, event_views, program_events, walk_program};
use crate::rules::{fold_events, flat_map_diags, lemma_flat_map_diags_step, lemma_fold_events_step};

verus! {

pub const CODE: &'static str = "require-jsdoc";

pub const MESSAGE: &'static str = "Missing jsdoc comment";

/// Reports each exported declaration, and each method of an exported class
/// or interface, that no JSDoc comment precedes.
#[derive(Debug)]
pub struct RequireJsdoc;

/// The white space that may stand between a comment and what it documents.
pub open spec fn is_space(c: char) -> bool {
    c == ' ' || c == '\t' || c == '\n' || c == '\r' || c == '\u{b}' || c == '\u{c}' || c
        == '\u{a0}' || c == '\u{feff}' || c == '\u{2028}' || c == '\u{2029}'
}

/// Whether only white space stands in the source between the byte offsets
/// `lo` and `hi`.
pub open spec fn only_space_between(src: Seq<char>, lo: nat, hi: nat) -> bool {
    match (char_index(src, lo), char_index(src, hi)) {
        (Some(a), Some(b)) => a <= b && forall|k: int| a <= k < b ==> is_space(#[trigger] src[k]),
        _ => false,
    }
}

pub open spec fn is_doc_comment(c: Comment) -> bool {
    c.kind == CommentKind::Block && c.text@.len() > 0 && c.text@[0] == '*'
}

/// Whether a JSDoc comment precedes the byte offset `pos`.
pub open spec fn has_jsdoc(src: Seq<char>, comments: Seq<Comment>, pos: nat) -> bool {
    exists|i: int|
        0 <= i < comments.len() && is_doc_comment(#[trigger] comments[i]) && only_space_between(
            src,
            comments[i].span.hi as nat,
            pos,
        )
}

/// The diagnostic of a node at `span` that must be documented.
pub open spec fn check(src: Seq<char>, comments: Seq<Comment>, span: Span) -> Seq<DiagnosticView> {
    if has_jsdoc(src, comments, span.lo as nat) {
        Seq::empty()
    } else {
        seq![plain_diag(span, CODE@, MESSAGE@)]
    }
}

pub open spec fn check_fn_of(src: Seq<char>, comments: Seq<Comment>) -> spec_fn(Span) -> Seq<DiagnosticView> {
    |s: Span| check(src, comments, s)
}

/// A class member: its methods, constructor and accessors are documented,
/// its private methods and properties need not be.
pub open spec fn member_diags(src: Seq<char>, comments: Seq<Comment>, m: ClassMember) -> Seq<DiagnosticView> {
    match m {
        ClassMember::Method { span, key, .. } => if key is Private {
            Seq::empty()
        } else {
            check(src, comments, span)
        },
        _ => Seq::empty(),
    }
}

pub open spec fn member_fn(src: Seq<char>, comments: Seq<Comment>) -> spec_fn(ClassMember) -> Seq<DiagnosticView> {
    |m: ClassMember| member_diags(src, comments, m)
}

/// The diagnostics of a statement.
pub open spec fn stmt_diags(src: Seq<char>, comments: Seq<Comment>, s: Stmt) -> Seq<DiagnosticView> {
    match s {
        Stmt::ExportDecl { span, decl } => match *decl {
            Stmt::Fn(_) => check(src, comments, span),
            Stmt::TsInterface { method_spans, .. } => check(src, comments, span) + flat_map_diags(
                method_spans@,
                check_fn_of(src, comments),
            ),
            Stmt::Class(c) => check(src, comments, span) + flat_map_diags(c.members@, member_fn(src, comments)),
            _ => Seq::empty(),
        },
        Stmt::ExportDefaultExpr { span, expr } => match expr {
            Expr::Fn(_) => check(src, comments, span),
            Expr::Class(c) => check(src, comments, span) + flat_map_diags(c.members@, member_fn(src, comments)),
            Expr::Arrow(_) => check(src, comments, span),
            _ => Seq::empty(),
        },
        _ => Seq::empty(),
    }
}

pub open spec fn check_fn(src: Seq<char>, comments: Seq<Comment>) -> spec_fn((), SEvent) -> ((), Seq<DiagnosticView>) {
    |u: (), e: SEvent|
        (
            u,
            match e {
                SEvent::Enter(Node::Stmt(s)) => stmt_diags(src, comments, s),
                _ => Seq::empty(),
            },
        )
}

fn space(c: char) -> (r: bool)
    ensures
        r == is_space(c),
{
    c == ' ' || c == '\t' || c == '\n' || c == '\r' || c == '\u{b}' || c == '\u{c}' || c
        == '\u{a0}' || c == '\u{feff}' || c == '\u{2028}' || c == '\u{2029}'
}

fn all_space(t: &str) -> (r: bool)
    ensures
        r == forall|k: int| 0 <= k < t@.len() ==> is_space(#[trigger] t@[k]),
{
    let n = t.unicode_len();
    let mut k: usize = 0;
    while k < n
        invariant
            k <= n,
            n == t@.len(),
            forall|j: int| 0 <= j < k ==> is_space(#[trigger] t@[j]),
        decreases n - k,
    {
        if !space(t.get_char(k)) {
            return false;
        }
        k = k + 1;
    }
    true
}

fn space_between(src: &str, lo: usize, hi: usize) -> (r: bool)
    requires
        byte_len(src@) <= usize::MAX,
    ensures
        r == only_space_between(src@, lo as nat, hi as nat),
{
    match text_slice(src, lo, hi) {
        Some(t) => {
            let r = all_space(t);
            proof {
                let a = char_index(src@, lo as nat)->0;
                let b = char_index(src@, hi as nat)->0;
                assert(t@ == src@.subrange(a, b));
                if r {
                    assert forall|k: int| a <= k < b implies is_space(#[trigger] src@[k]) by {
                        assert(src@[k] == t@[k - a]);
                    }
                } else {
                    let w = choose|k: int| 0 <= k < t@.len() && !is_space(#[trigger] t@[k]);
                    assert(src@[a + w] == t@[w]);
                }
            }
            r
        },
        None => false,
    }
}

fn doc_precedes(src: &str, comments: &Vec<Comment>, pos: usize) -> (r: bool)
    requires
        byte_len(src@) <= usize::MAX,
    ensures
        r == has_jsdoc(src@, comments@, pos as nat),
{
    let mut i: usize = 0;
    while i < comments.len()
        invariant
            byte_len(src@) <= usize::MAX,
            i <= comments@.len(),
            forall|j: int|
                0 <= j < i ==> !(is_doc_comment(#[trigger] comments@[j]) && only_space_between(
                    src@,
                    comments@[j].span.hi as nat,
                    pos as nat,
                )),
        decreases comments@.len() - i,
    {
        let c = &comments[i];
        let doc = match c.kind {
            CommentKind::Block => c.text.unicode_len() > 0 && c.text.get_char(0) == '*',
            CommentKind::Line => false,
        };
        if doc && space_between(src, c.span.hi, pos) {
            assert(is_doc_comment(comments@[i as int]));
            return true;
        }
        i = i + 1;
    }
    false
}

fn check_span(src: &str, comments: &Vec<Comment>, span: Span, out: &mut Vec<Diagnostic>)
    requires
        byte_len(src@) <= usize::MAX,
    ensures
        diag_views(final(out)@) == diag_views(old(out)@) + check(src@, comments@, span),
{
    if doc_precedes(src, comments, span.lo) {
        assert(diag_views(out@) =~= diag_views(old(out)@) + check(src@, comments@, span));
    } else {
        push_diag(out, Diagnostic::new(span, CODE, MESSAGE));
    }
}

fn check_spans(src: &str, comments: &Vec<Comment>, spans: &Vec<Span>, out: &mut Vec<Diagnostic>)
    requires
        byte_len(src@) <= usize::MAX,
    ensures
        diag_views(final(out)@) == diag_views(old(out)@) + flat_map_diags(spans@, check_fn_of(src@, comments@)),
{
    let ghost o = diag_views(out@);
    let mut i: usize = 0;
    assert(spans@.take(0) =~= Seq::<Span>::empty());
    while i < spans.len()
        invariant
            byte_len(src@) <= usize::MAX,
            i <= spans@.len(),
            diag_views(out@) == o + flat_map_diags(spans@.take(i as int), check_fn_of(src@, comments@)),
        decreases spans@.len() - i,
    {
        proof {
            lemma_flat_map_diags_step(spans@, i as int, check_fn_of(src@, comments@));
        }
        check_span(src, comments, spans[i], out);
        i = i + 1;
    }
    assert(spans@.take(spans@.len() as int) =~= spans@);
}

fn check_members(src: &str, comments: &Vec<Comment>, members: &Vec<ClassMember>, out: &mut Vec<Diagnostic>)
    requires
        byte_len(src@) <= usize::MAX,
    ensures
        diag_views(final(out)@) == diag_views(old(out)@) + flat_map_diags(members@, member_fn(src@, comments@)),
{
    let ghost o = diag_views(out@);
    let mut i: usize = 0;
    assert(members@.take(0) =~= Seq::<ClassMember>::empty());
    while i < members.len()
        invariant
            byte_len(src@) <= usize::MAX,
            i <= members@.len(),
            diag_views(out@) == o + flat_map_diags(members@.take(i as int), member_fn(src@, comments@)),
        decreases members@.len() - i,
    {
        proof {
            lemma_flat_map_diags_step(members@, i as int, member_fn(src@, comments@));
        }
        let ghost before = diag_views(out@);
        match &members[i] {
            ClassMember::Method { span, key, .. } => {
                if let PropName::Private(_) = key {
                } else {
                    check_span(src, comments, *span, out);
                }
            },
            _ => {},
        }
        assert(diag_views(out@) =~= before + member_diags(src@, comments@, members@[i as int]));
        i = i + 1;
    }
    assert(members@.take(members@.len() as int) =~= members@);
}

fn check_stmt(src: &str, comments: &Vec<Comment>, s: &Stmt, out: &mut Vec<Diagnostic>)
    requires
        byte_len(src@) <= usize::MAX,
    ensures
        diag_views(final(out)@) == diag_views(old(out)@) + stmt_diags(src@, comments@, *s),
{
    let ghost o = diag_views(out@);
    match s {
        Stmt::ExportDecl { span, decl } => match &**decl {
            Stmt::Fn(_) => check_span(src, comments, *span, out),
            Stmt::TsInterface { method_spans, .. } => {
                check_span(src, comments, *span, out);
                check_spans(src, comments, method_spans, out);
            },
            Stmt::Class(c) => {
                check_span(src, comments, *span, out);
                check_members(src, comments, &c.members, out);
            },
            _ => {},
        },
        Stmt::ExportDefaultExpr { span, expr } => match expr {
            Expr::Fn(_) => check_span(src, comments, *span, out),
            Expr::Class(c) => {
                check_span(src, comments, *span, out);
                check_members(src, comments, &c.members, out);
            },
            Expr::Arrow(_) => check_span(src, comments, *span, out),
            _ => {},
        },
        _ => {},
    }
    assert(diag_views(out@) =~= o + stmt_diags(src@, comments@, *s));
}

impl RequireJsdoc {
    /// The tags of the rule: it belongs to no set.
    pub fn tags(&self) -> (r: Vec<&'static str>)
        ensures
            crate::tags::tag_views(r@) == Seq::<Seq<char>>::empty(),
    {
        crate::tags::untagged()
    }

    pub fn code(&self) -> (r: &'static str)
        ensures
            r@ == CODE@,
    {
        CODE
    }

    /// The diagnostics of the rule on a program, in source order.
    pub fn lint(&self, program: &Program) -> (r: Vec<Diagnostic>)
        requires
            byte_len(program.source@) <= usize::MAX,
        ensures
            diag_views(r@) == fold_events(
                program_events(*program),
                (),
                check_fn(program.source@, program.comments@),
            ).1,
    {
        let src = program.source.as_str();
        let comments = &program.comments;
        let events = walk_program(program);
        let ghost evs = event_views(events@);
        let mut out: Vec<Diagnostic> = Vec::new();
        assert(diag_views(out@) =~= Seq::<DiagnosticView>::empty());
        let mut i: usize = 0;
        while i < events.len()
            invariant
                evs == event_views(events@),
                src@ == program.source@,
                comments@ == program.comments@,
                byte_len(src@) <= usize::MAX,
                i <= events.len(),
                fold_events(evs.take(i as int), (), check_fn(src@, comments@)).1 == diag_views(out@),
            decreases events.len() - i,
        {
            proof {
                lemma_fold_events_step(evs, i as int, (), check_fn(src@, comments@));
            }
            let ghost before = diag_views(out@);
            match events[i] {
                Event::Enter(NodeRef::Stmt(s)) => check_stmt(src, comments, s, &mut out),
                _ => {},
            }
            assert(diag_views(out@) =~= before + check_fn(src@, comments@)((), evs[i as int]).1);
            i = i + 1;
        }
        assert(evs.take(events.len() as int) =~= evs);
        out
    }
}

} // verus!
