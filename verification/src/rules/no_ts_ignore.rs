//! `no-ts-ignore`: `// @ts-ignore` comments are not allowed.

use vstd::prelude::*;
use crate::ast::{Comment, CommentKind, Program};
use crate::diagnostic::{Diagnostic, DiagnosticView, diag_views, hinted_diag, push_diag};
use crate::text::{regex_is_match, regex_match};
use crate::rules::{flat_map_diags, lemma_flat_map_diags_all, lemma_flat_map_diags_none, lemma_flat_map_diags_step};

verus! {

pub const CODE: &'static str = "no-ts-ignore";

pub const MESSAGE: &'static str = "@ts-ignore is not allowed.";

pub const HINT: &'static str = "Remove @ts-ignore and check your type declaration.";

/// The regular expression that a line comment is matched against.
pub const IGNORE_PATTERN: &'static str = r"@ts-ignore(?::\s*[^\n]*|[^\n]*)?$";

/// Reports each line comment that holds a `@ts-ignore` directive.
#[derive(Debug)]
pub struct NoTsIgnore;

/// The diagnostics for one comment.
pub open spec fn comment_diags(c: Comment) -> Seq<DiagnosticView> {
    if c.kind == CommentKind::Line && regex_match(IGNORE_PATTERN@, c.text@) == Some(true) {
        seq![hinted_diag(c.span, CODE@, MESSAGE@, HINT@)]
    } else {
        Seq::empty()
    }
}

pub open spec fn comment_diags_fn() -> spec_fn(Comment) -> Seq<DiagnosticView> {
    |c: Comment| comment_diags(c)
}

impl NoTsIgnore {
    /// The tags of the rule: it belongs to no set.
    pub fn tags(&self) -> (r: Vec<&'static str>)
        ensures
            crate::tags::tag_views(r@) == Seq::<Seq<char>>::empty(),
    {
        crate::tags::untagged()
    }

    pub fn code(&self) -> (r: &'static str)
        ensures
            r@ == CODE@,
    {
        CODE
    }

    fn report(&self, c: &Comment, out: &mut Vec<Diagnostic>)
        ensures
            diag_views(final(out)@) == diag_views(old(out)@).push(
                hinted_diag(c.span, CODE@, MESSAGE@, HINT@),
            ),
    {
        push_diag(out, Diagnostic::with_hint(c.span, CODE, String::from_str(MESSAGE), String::from_str(HINT)));
    }

    /// One diagnostic for each line comment with a `@ts-ignore` directive, in
    /// the order of the comments.
    pub fn lint(&self, program: &Program) -> (r: Vec<Diagnostic>)
        ensures
            diag_views(r@) == flat_map_diags(program.comments@, comment_diags_fn()),
    {
        let comments = &program.comments;
        let mut out: Vec<Diagnostic> = Vec::new();
        assert(diag_views(out@) =~= flat_map_diags(comments@.take(0), comment_diags_fn()));
        let mut i: usize = 0;
        while i < comments.len()
            invariant
                i <= comments.len(),
                diag_views(out@) == flat_map_diags(comments@.take(i as int), comment_diags_fn()),
            decreases comments.len() - i,
        {
            proof {
                lemma_flat_map_diags_step(comments@, i as int, comment_diags_fn());
            }
            let ghost before = diag_views(out@);
            let c = &comments[i];
            if c.kind == CommentKind::Line {
                if let Some(true) = regex_is_match(IGNORE_PATTERN, c.text.as_str()) {
                    self.report(c, &mut out);
                }
            }
            assert(diag_views(out@) =~= before + comment_diags(comments@[i as int]));
            i = i + 1;
        }
        assert(comments@.take(comments.len() as int) =~= comments@);
        out
    }
}

/// Only line comments are read: a program whose comments are all block
/// comments gets no diagnostics.
pub proof fn lemma_block_comments_are_ignored(comments: Seq<Comment>)
    requires
        forall|i: int| 0 <= i < comments.len() ==> (#[trigger] comments[i]).kind == CommentKind::Block,
    ensures
        flat_map_diags(comments, comment_diags_fn()) == Seq::<DiagnosticView>::empty(),
{
    assert forall|i: int| 0 <= i < comments.len() implies comment_diags_fn()(#[trigger] comments[i])
        == Seq::<DiagnosticView>::empty() by {
        assert(comments[i].kind == CommentKind::Block);
    }
    lemma_flat_map_diags_none(comments, comment_diags_fn());
}

/// Every diagnostic of the rule carries its code, message and hint.
pub proof fn lemma_diags_carry_code(comments: Seq<Comment>)
    ensures
        forall|i: int|
            0 <= i < flat_map_diags(comments, comment_diags_fn()).len() ==> {
                let d = #[trigger] flat_map_diags(comments, comment_diags_fn())[i];
                d.code == CODE@ && d.message == MESSAGE@ && d.hint == Some(HINT@)
            },
{
    let prop = |d: DiagnosticView| d.code == CODE@ && d.message == MESSAGE@ && d.hint == Some(HINT@);
    assert forall|c: Comment, i: int| 0 <= i < comment_diags_fn()(c).len() implies prop(
        #[trigger] comment_diags_fn()(c)[i],
    ) by {}
    lemma_flat_map_diags_all(comments, comment_diags_fn(), prop);
}

} // verus!
