//! `prefer-object-shorthand`: `{ foo: foo }` is better written `{ foo }`,
//! and `{ foo: function() {} }` better written `{ foo() {} }`.

use vstd::prelude::*;
use crate::ast::{
    expr_span, prop_name_span, prop_name_span_of, span_of, Expr, Program, Prop, PropName, Span,
};
use crate::diagnostic::{
    Diagnostic, DiagnosticView, LintFix, Severity, diag_views, push_diag, single_fix,
};
use crate::text::{byte_len, regex_capture, regex_named_capture, str_eq, text_of, text_or_empty};
use crate::walk::{Event, Node, NodeRef, SEvent, event_views, program_events, walk_program};
use crate::rules::{fold_events, lemma_fold_events_step};

verus! {

pub const CODE: &'static str = "prefer-object-shorthand";

pub const PROPERTY_FIX_DESC: &'static str = "Use property shorthand syntax";

pub const METHOD_FIX_DESC: &'static str = "Use method shorthand syntax";

pub const PROPERTY_MESSAGE: &'static str = "Expected property shorthand syntax";

pub const METHOD_MESSAGE: &'static str = "Expected method shorthand syntax";

pub const PROPERTY_HINT: &'static str = "Use property shorthand syntax";

pub const METHOD_HINT: &'static str = "Use method shorthand syntax";

/// The regular expression that splits a function expression's text: what
/// follows `function` (and `*`) is the group `tail`.
pub const FUNCTION_EXPR_PATTERN: &'static str = r"^(?:async\s+)?function(?:\s*\*)?(?P<tail>[\s\S]*)$";

/// Reports each `key: value` property that could be written as a shorthand,
/// with a fix that writes it so.
#[derive(Debug)]
pub struct PreferObjectShorthand;

pub open spec fn shorthand_diag(span: Span, message: Seq<char>, hint: Seq<char>, desc: Seq<char>, new_text: Seq<char>) -> DiagnosticView {
    DiagnosticView {
        range: span,
        code: CODE@,
        message,
        hint: Some(hint),
        fixes: seq![single_fix(desc, new_text, span)],
        severity: Severity::Error,
    }
}

/// The method that a `key: function ..` property becomes: `async` and `*` as
/// the function has them, the key, and the function's text after `function`.
pub open spec fn method_text(src: Seq<char>, key: PropName, f_async: bool, f_gen: bool, tail: Seq<char>) -> Seq<char> {
    (if f_async { "async "@ } else { Seq::empty() }) + (if f_gen { "*"@ } else { Seq::empty() })
        + text_of(src, prop_name_span(key)) + tail
}

/// The diagnostics of a property of an object literal.
pub open spec fn prop_diags(src: Seq<char>, p: Prop) -> Seq<DiagnosticView> {
    match p {
        Prop::KeyValue { span, key, value } => match (key, value) {
            (PropName::Ident(k), Expr::Ident(v)) => if k.name@ == v.name@ {
                seq![shorthand_diag(span, PROPERTY_MESSAGE@, PROPERTY_HINT@, PROPERTY_FIX_DESC@, text_of(src, k.span))]
            } else {
                Seq::empty()
            },
            (_, Expr::Fn(f)) => if f.id is None {
                match regex_named_capture(FUNCTION_EXPR_PATTERN@, "tail"@, text_of(src, expr_span(value))) {
                    Some(tail) => seq![shorthand_diag(
                        span,
                        METHOD_MESSAGE@,
                        METHOD_HINT@,
                        METHOD_FIX_DESC@,
                        method_text(src, key, f.is_async, f.is_generator, tail),
                    )],
                    None => Seq::empty(),
                }
            } else {
                Seq::empty()
            },
            _ => Seq::empty(),
        },
        _ => Seq::empty(),
    }
}

pub open spec fn check_fn(src: Seq<char>) -> spec_fn((), SEvent) -> ((), Seq<DiagnosticView>) {
    |u: (), e: SEvent|
        (
            u,
            match e {
                SEvent::Enter(Node::Prop(p)) => prop_diags(src, p),
                _ => Seq::empty(),
            },
        )
}

fn report(out: &mut Vec<Diagnostic>, span: Span, message: &str, hint: &str, desc: &str, new_text: String)
    ensures
        diag_views(final(out)@) == diag_views(old(out)@).push(
            shorthand_diag(span, message@, hint@, desc@, new_text@),
        ),
{
    let fixes = vec![LintFix::single(desc, new_text, span)];
    let d = Diagnostic::with_fixes(span, CODE, message, hint, fixes, Severity::Error);
    assert(d@.fixes =~= shorthand_diag(span, message@, hint@, desc@, new_text@).fixes);
    push_diag(out, d);
}

fn check_prop(src: &str, p: &Prop, out: &mut Vec<Diagnostic>)
    requires
        byte_len(src@) <= usize::MAX,
    ensures
        diag_views(final(out)@) == diag_views(old(out)@) + prop_diags(src@, *p),
{
    let ghost o = diag_views(out@);
    if let Prop::KeyValue { span, key, value } = p {
        match (key, value) {
            (PropName::Ident(k), Expr::Ident(v)) => {
                if str_eq(k.name.as_str(), v.name.as_str()) {
                    let t = text_or_empty(src, k.span);
                    report(out, *span, PROPERTY_MESSAGE, PROPERTY_HINT, PROPERTY_FIX_DESC, t);
                }
            },
            (_, Expr::Fn(f)) => {
                if f.id.is_none() {
                    let value_text = text_or_empty(src, span_of(value));
                    if let Some(tail) = regex_capture(FUNCTION_EXPR_PATTERN, "tail", value_text.as_str()) {
                        let mut m = String::new();
                        if f.is_async {
                            m.append("async ");
                        }
                        if f.is_generator {
                            m.append("*");
                        }
                        let key_text = text_or_empty(src, prop_name_span_of(key));
                        m.append(key_text.as_str());
                        m.append(tail.as_str());
                        report(out, *span, METHOD_MESSAGE, METHOD_HINT, METHOD_FIX_DESC, m);
                    }
                }
            },
            _ => {},
        }
    }
    assert(diag_views(out@) =~= o + prop_diags(src@, *p));
}

impl PreferObjectShorthand {
    /// The tags of the rule: it belongs to no set.
    pub fn tags(&self) -> (r: Vec<&'static str>)
        ensures
            crate::tags::tag_views(r@) == Seq::<Seq<char>>::empty(),
    {
        crate::tags::untagged()
    }

    pub fn code(&self) -> (r: &'static str)
        ensures
            r@ == CODE@,
    {
        CODE
    }

    /// The diagnostics of the rule on a program, in source order.
    pub fn lint(&self, program: &Program) -> (r: Vec<Diagnostic>)
        requires
            byte_len(program.source@) <= usize::MAX,
        ensures
            diag_views(r@) == fold_events(program_events(*program), (), check_fn(program.source@)).1,
    {
        let src = program.source.as_str();
        let events = walk_program(program);
        let ghost evs = event_views(events@);
        let mut out: Vec<Diagnostic> = Vec::new();
        assert(diag_views(out@) =~= Seq::<DiagnosticView>::empty());
        let mut i: usize = 0;
        while i < events.len()
            invariant
                evs == event_views(events@),
                src@ == program.source@,
                byte_len(src@) <= usize::MAX,
                i <= events.len(),
                fold_events(evs.take(i as int), (), check_fn(src@)).1 == diag_views(out@),
            decreases events.len() - i,
        {
            proof {
                lemma_fold_events_step(evs, i as int, (), check_fn(src@));
            }
            let ghost before = diag_views(out@);
            match events[i] {
                Event::Enter(NodeRef::Prop(p)) => check_prop(src, p, &mut out),
                _ => {},
            }
            assert(diag_views(out@) =~= before + check_fn(src@)((), evs[i as int]).1);
            i = i + 1;
        }
        assert(evs.take(events.len() as int) =~= evs);
        out
    }
}

} // verus!
