//! `quotes`: string literals are to be written with double quotes.

use vstd::prelude::*;
use crate::ast::{
    ClassMember, Expr, ImportSpecifier, JsxAttrOrSpread, JsxAttrValue, Lit, ModuleExportName,
    ObjectPatProp, Pat, Program, Prop, PropName, Stmt, StrLit, TsModuleName, TsType,
};
use crate::diagnostic::{Diagnostic, DiagnosticView, diag_views, hinted_diag, push_diag};
use crate::text::{byte_len, char_at_byte_is, is_char_at_byte};
use crate::walk::{Event, Node, NodeRef, SEvent, event_views, program_events, walk_program};
use crate::rules::{fold_events, lemma_fold_events_step};

verus! {

pub const CODE: &'static str = "quotes";

pub const MESSAGE: &'static str = "Strings must use double quotes";

pub const HINT: &'static str = "Replace single quotes with double quotes";

/// Reports each string literal whose source text begins with a single quote.
#[derive(Debug)]
pub struct Quotes;

pub open spec fn prop_name_strs(k: PropName) -> Seq<StrLit> {
    match k {
        PropName::Str(s) => seq![s],
        _ => Seq::empty(),
    }
}

pub open spec fn pat_props_strs(props: Seq<ObjectPatProp>) -> Seq<StrLit>
    decreases props.len(),
{
    if props.len() == 0 {
        Seq::empty()
    } else {
        pat_props_strs(props.drop_last()) + match props.last() {
            ObjectPatProp::KeyValue { key, .. } => prop_name_strs(key),
            _ => Seq::empty(),
        }
    }
}

pub open spec fn export_name_strs(n: ModuleExportName) -> Seq<StrLit> {
    match n {
        ModuleExportName::Str(s) => seq![s],
        _ => Seq::empty(),
    }
}

/// The string literals that a node holds itself, read on entering it: not
/// those of its child nodes, nor the module specifier of an import or export,
/// which is read on leaving it, after its specifiers.
pub open spec fn enter_strs(n: Node) -> Seq<StrLit> {
    match n {
        Node::Expr(Expr::Lit(Lit::Str(s))) => seq![s],
        Node::Prop(Prop::KeyValue { key, .. }) => prop_name_strs(key),
        Node::Prop(Prop::Method { key, .. }) => prop_name_strs(key),
        Node::ClassMember(ClassMember::Method { key, .. }) => prop_name_strs(key),
        Node::ClassMember(ClassMember::Prop { key, .. }) => prop_name_strs(key),
        Node::ClassMember(ClassMember::Accessor { key, .. }) => prop_name_strs(key),
        Node::ClassMember(ClassMember::StaticBlock { .. }) => Seq::empty(),
        Node::Pat(Pat::Object { props, .. }) => pat_props_strs(props@),
        Node::ImportSpecifier(ImportSpecifier::Named { imported, .. }) => export_name_strs(imported),
        Node::ExportSpecifier(s) => export_name_strs(s.local) + if crate::ast::export_name_span(
            s.exported,
        ) == crate::ast::export_name_span(s.local) {
            Seq::empty()
        } else {
            export_name_strs(s.exported)
        },
        Node::JsxAttr(JsxAttrOrSpread::Attr { value: Some(JsxAttrValue::Str(s)), .. }) => seq![s],
        Node::Stmt(Stmt::TsModule { name: TsModuleName::Str(s), .. }) => seq![s],
        Node::TsType(TsType::Lit { lit: Lit::Str(s), .. }) => seq![s],
        _ => Seq::empty(),
    }
}

/// The module specifier of an import or export, read on leaving it.
pub open spec fn exit_strs(n: Node) -> Seq<StrLit> {
    match n {
        Node::Stmt(Stmt::Import { src, .. }) => seq![src],
        Node::Stmt(Stmt::ExportNamed { src: Some(s), .. }) => seq![s],
        _ => Seq::empty(),
    }
}

/// The diagnostics of a list of string literals of a program with source
/// text `src`.
pub open spec fn strs_diags(src: Seq<char>, strs: Seq<StrLit>) -> Seq<DiagnosticView>
    decreases strs.len(),
{
    if strs.len() == 0 {
        Seq::empty()
    } else {
        strs_diags(src, strs.drop_last()) + if char_at_byte_is(
            src,
            strs.last().span.lo as nat,
            '\'',
        ) {
            seq![hinted_diag(strs.last().span, CODE@, MESSAGE@, HINT@)]
        } else {
            Seq::empty()
        }
    }
}

pub open spec fn check_fn(src: Seq<char>) -> spec_fn((), SEvent) -> ((), Seq<DiagnosticView>) {
    |u: (), e: SEvent|
        (
            u,
            match e {
                SEvent::Enter(n) => strs_diags(src, enter_strs(n)),
                SEvent::Exit(n) => strs_diags(src, exit_strs(n)),
            },
        )
}

fn check_str(src: &str, s: &StrLit, out: &mut Vec<Diagnostic>)
    requires
        byte_len(src@) <= usize::MAX,
    ensures
        diag_views(final(out)@) == diag_views(old(out)@) + strs_diags(src@, seq![*s]),
{
    let ghost one = seq![*s];
    assert(one.drop_last() =~= Seq::<StrLit>::empty());
    assert(one.last() == *s);
    assert(strs_diags(src@, one.drop_last()) =~= Seq::<DiagnosticView>::empty());
    if is_char_at_byte(src, s.span.lo, '\'') {
        let d = Diagnostic::with_hint(s.span, CODE, String::from_str(MESSAGE), String::from_str(HINT));
        assert(strs_diags(src@, one) =~= seq![d@]);
        push_diag(out, d);
    } else {
        assert(strs_diags(src@, one) =~= Seq::<DiagnosticView>::empty());
        assert(diag_views(out@) =~= diag_views(old(out)@) + strs_diags(src@, one));
    }
}

proof fn lemma_strs_diags_concat(src: Seq<char>, a: Seq<StrLit>, b: Seq<StrLit>)
    ensures
        strs_diags(src, a + b) == strs_diags(src, a) + strs_diags(src, b),
    decreases b.len(),
{
    if b.len() == 0 {
        assert(a + b =~= a);
        assert(strs_diags(src, a) + strs_diags(src, b) =~= strs_diags(src, a));
    } else {
        assert((a + b).drop_last() =~= a + b.drop_last());
        lemma_strs_diags_concat(src, a, b.drop_last());
        assert(strs_diags(src, a + b) =~= strs_diags(src, a) + strs_diags(src, b));
    }
}

fn check_prop_name(src: &str, k: &PropName, out: &mut Vec<Diagnostic>)
    requires
        byte_len(src@) <= usize::MAX,
    ensures
        diag_views(final(out)@) == diag_views(old(out)@) + strs_diags(src@, prop_name_strs(*k)),
{
    match k {
        PropName::Str(s) => check_str(src, s, out),
        _ => {
            assert(diag_views(out@) =~= diag_views(old(out)@) + strs_diags(src@, prop_name_strs(*k)));
        },
    }
}

fn check_export_name(src: &str, n: &ModuleExportName, out: &mut Vec<Diagnostic>)
    requires
        byte_len(src@) <= usize::MAX,
    ensures
        diag_views(final(out)@) == diag_views(old(out)@) + strs_diags(src@, export_name_strs(*n)),
{
    match n {
        ModuleExportName::Str(s) => check_str(src, s, out),
        _ => {
            assert(diag_views(out@) =~= diag_views(old(out)@) + strs_diags(src@, export_name_strs(*n)));
        },
    }
}

fn check_pat_props(src: &str, props: &Vec<ObjectPatProp>, out: &mut Vec<Diagnostic>)
    requires
        byte_len(src@) <= usize::MAX,
    ensures
        diag_views(final(out)@) == diag_views(old(out)@) + strs_diags(src@, pat_props_strs(props@)),
{
    let ghost o = diag_views(out@);
    let mut i: usize = 0;
    assert(pat_props_strs(props@.take(0)) =~= Seq::<StrLit>::empty());
    assert(diag_views(out@) =~= o + strs_diags(src@, pat_props_strs(props@.take(0))));
    while i < props.len()
        invariant
            i <= props.len(),
            byte_len(src@) <= usize::MAX,
            o == diag_views(old(out)@),
            diag_views(out@) == o + strs_diags(src@, pat_props_strs(props@.take(i as int))),
        decreases props.len() - i,
    {
        assert(props@.take(i + 1).drop_last() =~= props@.take(i as int));
        let ghost before = pat_props_strs(props@.take(i as int));
        let ghost added = match props@[i as int] {
            ObjectPatProp::KeyValue { key, .. } => prop_name_strs(key),
            _ => Seq::empty(),
        };
        proof {
            lemma_strs_diags_concat(src@, before, added);
        }
        match &props[i] {
            ObjectPatProp::KeyValue { key, .. } => check_prop_name(src, key, out),
            _ => {},
        }
        i = i + 1;
    }
    assert(props@.take(props.len() as int) =~= props@);
}

fn check_enter<'a>(src: &str, n: NodeRef<'a>, out: &mut Vec<Diagnostic>)
    requires
        byte_len(src@) <= usize::MAX,
    ensures
        diag_views(final(out)@) == diag_views(old(out)@) + strs_diags(src@, enter_strs(n@)),
{
    let ghost o = diag_views(out@);
    match n {
        NodeRef::Expr(Expr::Lit(Lit::Str(s))) => check_str(src, s, out),
        NodeRef::Prop(Prop::KeyValue { key, .. }) => check_prop_name(src, key, out),
        NodeRef::Prop(Prop::Method { key, .. }) => check_prop_name(src, key, out),
        NodeRef::ClassMember(ClassMember::Method { key, .. }) => check_prop_name(src, key, out),
        NodeRef::ClassMember(ClassMember::Prop { key, .. }) => check_prop_name(src, key, out),
        NodeRef::ClassMember(ClassMember::Accessor { key, .. }) => check_prop_name(src, key, out),
        NodeRef::ClassMember(ClassMember::StaticBlock { .. }) => {},
        NodeRef::Pat(Pat::Object { props, .. }) => check_pat_props(src, props, out),
        NodeRef::ImportSpecifier(ImportSpecifier::Named { imported, .. }) => check_export_name(src, imported, out),
        NodeRef::ExportSpecifier(s) => {
            proof {
                lemma_strs_diags_concat(
                    src@,
                    export_name_strs(s.local),
                    if crate::ast::export_name_span(s.exported) == crate::ast::export_name_span(s.local) {
                        Seq::empty()
                    } else {
                        export_name_strs(s.exported)
                    },
                );
            }
            check_export_name(src, &s.local, out);
            let ghost mid = diag_views(out@);
            if crate::ast::export_name_span_of(&s.exported) != crate::ast::export_name_span_of(&s.local) {
                check_export_name(src, &s.exported, out);
            } else {
                assert(diag_views(out@) =~= mid + strs_diags(src@, Seq::<StrLit>::empty()));
            }
        },
        NodeRef::JsxAttr(JsxAttrOrSpread::Attr { value: Some(JsxAttrValue::Str(s)), .. }) => check_str(src, s, out),
        NodeRef::Stmt(Stmt::TsModule { name: TsModuleName::Str(s), .. }) => check_str(src, s, out),
        NodeRef::TsType(TsType::Lit { lit: Lit::Str(s), .. }) => check_str(src, s, out),
        _ => {
            assert(diag_views(out@) =~= o + strs_diags(src@, enter_strs(n@)));
        },
    }
}

fn check_exit<'a>(src: &str, n: NodeRef<'a>, out: &mut Vec<Diagnostic>)
    requires
        byte_len(src@) <= usize::MAX,
    ensures
        diag_views(final(out)@) == diag_views(old(out)@) + strs_diags(src@, exit_strs(n@)),
{
    match n {
        NodeRef::Stmt(Stmt::Import { src: s, .. }) => check_str(src, s, out),
        NodeRef::Stmt(Stmt::ExportNamed { src: Some(s), .. }) => check_str(src, s, out),
        _ => {
            assert(diag_views(out@) =~= diag_views(old(out)@) + strs_diags(src@, exit_strs(n@)));
        },
    }
}

impl Quotes {
    /// The tags of the rule: it belongs to no set.
    pub fn tags(&self) -> (r: Vec<&'static str>)
        ensures
            crate::tags::tag_views(r@) == Seq::<Seq<char>>::empty(),
    {
        crate::tags::untagged()
    }

    pub fn code(&self) -> (r: &'static str)
        ensures
            r@ == CODE@,
    {
        CODE
    }

    /// The diagnostics of the rule on a program, in source order.
    pub fn lint(&self, program: &Program) -> (r: Vec<Diagnostic>)
        requires
            byte_len(program.source@) <= usize::MAX,
        ensures
            diag_views(r@) == fold_events(program_events(*program), (), check_fn(program.source@)).1,
    {
        let src = program.source.as_str();
        let events = walk_program(program);
        let ghost evs = event_views(events@);
        let mut out: Vec<Diagnostic> = Vec::new();
        assert(diag_views(out@) =~= Seq::<DiagnosticView>::empty());
        let mut i: usize = 0;
        while i < events.len()
            invariant
                evs == event_views(events@),
                src@ == program.source@,
                byte_len(src@) <= usize::MAX,
                i <= events.len(),
                fold_events(evs.take(i as int), (), check_fn(src@)).1 == diag_views(out@),
            decreases events.len() - i,
        {
            proof {
                lemma_fold_events_step(evs, i as int, (), check_fn(src@));
            }
            let ghost before = diag_views(out@);
            match events[i] {
                Event::Enter(n) => check_enter(src, n, &mut out),
                Event::Exit(n) => check_exit(src, n, &mut out),
            }
            assert(diag_views(out@) =~= before + check_fn(src@)((), evs[i as int]).1);
            i = i + 1;
        }
        assert(evs.take(events.len() as int) =~= evs);
        out
    }
}

} // verus!
