//! Diagnostics: what a rule reports, where, and the fixes it proposes.

use vstd::prelude::*;
use crate::ast::Span;

verus! {

/// One edit of the source text: `range` is replaced by `new_text`.
#[derive(Debug)]
pub struct LintFixChange {
    pub new_text: String,
    pub range: Span,
}

/// A fix that a diagnostic proposes: a description and the edits it makes.
#[derive(Debug)]
pub struct LintFix {
    pub description: String,
    pub changes: Vec<LintFixChange>,
}

/// How serious a diagnostic is.
#[derive(Debug, Clone, Copy, PartialEq, Eq, Structural)]
pub enum Severity {
    Error,
    Warning,
}

/// A problem that a rule found: where, which rule, what, how to mend it, and
/// how serious it is.
#[derive(Debug)]
pub struct Diagnostic {
    pub range: Span,
    pub code: String,
    pub message: String,
    pub hint: Option<String>,
    pub fixes: Vec<LintFix>,
    pub severity: Severity,
}

pub ghost struct FixChangeView {
    pub new_text: Seq<char>,
    pub range: Span,
}

pub ghost struct FixView {
    pub description: Seq<char>,
    pub changes: Seq<FixChangeView>,
}

pub ghost struct DiagnosticView {
    pub range: Span,
    pub code: Seq<char>,
    pub message: Seq<char>,
    pub hint: Option<Seq<char>>,
    pub fixes: Seq<FixView>,
    pub severity: Severity,
}

impl View for LintFixChange {
    type V = FixChangeView;

    open spec fn view(&self) -> FixChangeView {
        FixChangeView { new_text: self.new_text@, range: self.range }
    }
}

impl View for LintFix {
    type V = FixView;

    open spec fn view(&self) -> FixView {
        FixView {
            description: self.description@,
            changes: self.changes@.map_values(|c: LintFixChange| c@),
        }
    }
}

pub open spec fn opt_string_view(s: Option<String>) -> Option<Seq<char>> {
    match s {
        Some(s) => Some(s@),
        None => None,
    }
}

impl View for Diagnostic {
    type V = DiagnosticView;

    open spec fn view(&self) -> DiagnosticView {
        DiagnosticView {
            range: self.range,
            code: self.code@,
            message: self.message@,
            hint: opt_string_view(self.hint),
            fixes: self.fixes@.map_values(|f: LintFix| f@),
            severity: self.severity,
        }
    }
}

/// The diagnostics of a list, as values.
pub open spec fn diag_views(v: Seq<Diagnostic>) -> Seq<DiagnosticView> {
    v.map_values(|d: Diagnostic| d@)
}

/// A diagnostic without a hint or fixes, as a value.
pub open spec fn plain_diag(range: Span, code: Seq<char>, message: Seq<char>) -> DiagnosticView {
    DiagnosticView { range, code, message, hint: None, fixes: Seq::empty(), severity: Severity::Error }
}

/// A diagnostic with a hint and no fixes, as a value.
pub open spec fn hinted_diag(
    range: Span,
    code: Seq<char>,
    message: Seq<char>,
    hint: Seq<char>,
) -> DiagnosticView {
    DiagnosticView {
        range,
        code,
        message,
        hint: Some(hint),
        fixes: Seq::empty(),
        severity: Severity::Error,
    }
}

/// A fix with one edit, as a value.
pub open spec fn single_fix(description: Seq<char>, new_text: Seq<char>, range: Span) -> FixView {
    FixView { description, changes: seq![FixChangeView { new_text, range }] }
}

impl LintFix {
    /// A fix that replaces `range` by `new_text`.
    pub fn single(description: &str, new_text: String, range: Span) -> (r: LintFix)
        ensures
            r@ == single_fix(description@, new_text@, range),
    {
        let r = LintFix {
            description: String::from_str(description),
            changes: vec![LintFixChange { new_text, range }],
        };
        assert(r@.changes =~= seq![FixChangeView { new_text: new_text@, range }]);
        r
    }
}

impl Diagnostic {
    /// A diagnostic with a hint and fixes.
    pub fn with_fixes(
        range: Span,
        code: &str,
        message: &str,
        hint: &str,
        fixes: Vec<LintFix>,
        severity: Severity,
    ) -> (r: Diagnostic)
        ensures
            r@ == (DiagnosticView {
                range,
                code: code@,
                message: message@,
                hint: Some(hint@),
                fixes: fixes@.map_values(|f: LintFix| f@),
                severity,
            }),
    {
        Diagnostic {
            range,
            code: String::from_str(code),
            message: String::from_str(message),
            hint: Some(String::from_str(hint)),
            fixes,
            severity,
        }
    }

    /// A diagnostic without a hint or fixes.
    pub fn new(range: Span, code: &str, message: &str) -> (r: Diagnostic)
        ensures
            r@ == plain_diag(range, code@, message@),
    {
        let r = Diagnostic {
            range,
            code: String::from_str(code),
            message: String::from_str(message),
            hint: None,
            fixes: Vec::new(),
            severity: Severity::Error,
        };
        assert(r@.fixes =~= Seq::<FixView>::empty());
        r
    }

    /// A diagnostic with a message built at run time, without a hint or fixes.
    pub fn with_message(range: Span, code: &str, message: String) -> (r: Diagnostic)
        ensures
            r@ == plain_diag(range, code@, message@),
    {
        let r = Diagnostic {
            range,
            code: String::from_str(code),
            message,
            hint: None,
            fixes: Vec::new(),
            severity: Severity::Error,
        };
        assert(r@.fixes =~= Seq::<FixView>::empty());
        r
    }

    /// A diagnostic with a hint and no fixes.
    pub fn with_hint(range: Span, code: &str, message: String, hint: String) -> (r: Diagnostic)
        ensures
            r@ == hinted_diag(range, code@, message@, hint@),
    {
        let r = Diagnostic {
            range,
            code: String::from_str(code),
            message,
            hint: Some(hint),
            fixes: Vec::new(),
            severity: Severity::Error,
        };
        assert(r@.fixes =~= Seq::<FixView>::empty());
        r
    }
}

proof fn lemma_diag_views_push(v: Seq<Diagnostic>, d: Diagnostic)
    ensures
        diag_views(v.push(d)) == diag_views(v).push(d@),
{
    assert(diag_views(v.push(d)) =~= diag_views(v).push(d@));
}

/// Appends a diagnostic to a list.
pub fn push_diag(out: &mut Vec<Diagnostic>, d: Diagnostic)
    ensures
        diag_views(final(out)@) == diag_views(old(out)@).push(d@),
{
    proof {
        lemma_diag_views_push(out@, d);
    }
    out.push(d);
}

} // verus!
