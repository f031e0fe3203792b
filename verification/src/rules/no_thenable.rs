//! `no-thenable`: objects and classes are not to get a `then` member, and
//! modules are not to export `then`.
//!
//! A key counts as `then` where it is the name `then`, the string `"then"`,
//! the template `` `then` ``, or a name that some declaration of the program
//! initializes with the string `"then"` (the last such declaration decides
//! where it is reported).

use vstd::prelude::*;
use crate::ast::{
    is_chain, is_optional_chain, Callee, ClassMember, Expr, ExprOrSpread, Lit, MemberProp,
    ModuleExportName, ObjectPatProp, Pat, Program, Prop, PropName, Span, Stmt, VarDeclarator,
};
use crate::diagnostic::{Diagnostic, DiagnosticView, diag_views, hinted_diag, push_diag};
use crate::text::str_eq;
use crate::walk::{Event, Node, NodeRef, SEvent, event_views, program_events, walk_program};
use crate::rules::{fold_events, lemma_fold_events_step};

verus! {

pub const CODE: &'static str = "no-thenable";

pub const OBJECT_MESSAGE: &'static str = "Do not add `then` to an object.";

pub const EXPORT_MESSAGE: &'static str = "Do not export `then`.";

pub const CLASS_MESSAGE: &'static str = "Do not add `then` to a class.";

pub const HINT: &'static str = "If an object is defined as 'thenable', once it's accidentally used in an await expression, it may cause problems";

/// Reports `then` members of objects and classes, and exports named `then`.
#[derive(Debug)]
pub struct NoThenable;

/// The names declared with the string `"then"` as their value, each with the
/// range of that string, in source order.
pub type ThenVars = Seq<(Seq<char>, Span)>;

/// The range recorded for a name: that of its last declaration.
pub open spec fn lookup(vars: ThenVars, name: Seq<char>) -> Option<Span>
    decreases vars.len(),
{
    if vars.len() == 0 {
        None
    } else if vars.last().0 == name {
        Some(vars.last().1)
    } else {
        lookup(vars.drop_last(), name)
    }
}

/// The names that a list of declarators binds to the string `"then"`.
pub open spec fn declared_then(decls: Seq<VarDeclarator>) -> ThenVars
    decreases decls.len(),
{
    if decls.len() == 0 {
        Seq::empty()
    } else {
        declared_then(decls.drop_last()) + match decls.last().name {
            Pat::Ident { name, .. } => match decls.last().init {
                Some(Expr::Lit(Lit::Str(s))) => if s.value@ == "then"@ {
                    seq![(name@, s.span)]
                } else {
                    Seq::empty()
                },
                _ => Seq::empty(),
            },
            _ => Seq::empty(),
        }
    }
}

/// One event of the pass that collects the names declared as `"then"`.
pub open spec fn collect_step(vars: ThenVars, e: SEvent) -> (ThenVars, Seq<DiagnosticView>) {
    match e {
        SEvent::Enter(Node::VarDecl(d)) => (vars + declared_then(d.decls@), Seq::empty()),
        _ => (vars, Seq::empty()),
    }
}

pub open spec fn collect_fn() -> spec_fn(ThenVars, SEvent) -> (ThenVars, Seq<DiagnosticView>) {
    |vars: ThenVars, e: SEvent| collect_step(vars, e)
}

/// The names declared as `"then"` in a program.
pub open spec fn then_vars(p: Program) -> ThenVars {
    fold_events(program_events(p), Seq::empty(), collect_fn()).0
}

/// Where an expression used as a key evaluates to `then`, the range to report.
pub open spec fn key_expr_then(vars: ThenVars, e: Expr) -> Option<Span> {
    match e {
        Expr::Lit(Lit::Str(s)) => if s.value@ == "then"@ {
            Some(s.span)
        } else {
            None
        },
        Expr::Template { span, exprs, quasis } => if exprs.len() == 0 && quasis.len() == 1 && match quasis@[0].cooked {
            Some(q) => q@ == "then"@,
            None => false,
        } {
            Some(span)
        } else {
            None
        },
        Expr::Ident(i) => lookup(vars, i.name@),
        _ => None,
    }
}

/// Where a property name is `then`, the range to report.
pub open spec fn key_then(vars: ThenVars, key: PropName) -> Option<Span> {
    match key {
        PropName::Ident(i) => if i.name@ == "then"@ {
            Some(i.span)
        } else {
            None
        },
        PropName::Str(s) => if s.value@ == "then"@ {
            Some(s.span)
        } else {
            None
        },
        PropName::Computed { expr: x, .. } => key_expr_then(vars, *x),
        _ => None,
    }
}

pub open spec fn then_diag(span: Span, message: Seq<char>) -> DiagnosticView {
    hinted_diag(span, CODE@, message, HINT@)
}

pub open spec fn opt_diags(r: Option<Span>, message: Seq<char>) -> Seq<DiagnosticView> {
    match r {
        Some(span) => seq![then_diag(span, message)],
        None => Seq::empty(),
    }
}

/// Where a property of an object literal is named `then`, the range to report.
pub open spec fn prop_then(vars: ThenVars, p: Prop) -> Option<Span> {
    match p {
        Prop::Shorthand(i) => if i.name@ == "then"@ {
            Some(i.span)
        } else {
            None
        },
        Prop::KeyValue { key, .. } => key_then(vars, key),
        Prop::Method { key, .. } => key_then(vars, key),
        Prop::Spread { .. } => None,
    }
}

pub open spec fn props_diags(vars: ThenVars, props: Seq<Prop>) -> Seq<DiagnosticView>
    decreases props.len(),
{
    if props.len() == 0 {
        Seq::empty()
    } else {
        props_diags(vars, props.drop_last()) + opt_diags(
            prop_then(vars, props.last()),
            OBJECT_MESSAGE@,
        )
    }
}

/// The bindings named `then` in an exported pattern, in source order.
pub open spec fn export_pat_diags(p: Pat) -> Seq<DiagnosticView>
    decreases p, 0int,
{
    match p {
        Pat::Ident { span, name, .. } => if name@ == "then"@ {
            seq![then_diag(span, EXPORT_MESSAGE@)]
        } else {
            Seq::empty()
        },
        Pat::Array { elems, .. } => export_elems_diags(elems@, 0),
        Pat::Object { props, .. } => export_props_diags(props@, 0),
        Pat::Rest { arg, .. } => export_pat_diags(*arg),
        Pat::Assign { left, .. } => export_pat_diags(*left),
        _ => Seq::empty(),
    }
}

pub open spec fn export_elems_diags(s: Seq<Option<Pat>>, i: int) -> Seq<DiagnosticView>
    decreases s, s.len() - i,
{
    if 0 <= i < s.len() {
        (match s[i] {
            Some(p) => export_pat_diags(p),
            None => Seq::empty(),
        }) + export_elems_diags(s, i + 1)
    } else {
        Seq::empty()
    }
}

/// A shorthand property `{ then }` or `{ then = x }` binds its key; another
/// property binds what its value pattern binds.
pub open spec fn export_props_diags(s: Seq<ObjectPatProp>, i: int) -> Seq<DiagnosticView>
    decreases s, s.len() - i,
{
    if 0 <= i < s.len() {
        (match s[i] {
            ObjectPatProp::KeyValue { key, value, shorthand, .. } => if shorthand {
                match key {
                    PropName::Ident(k) => if k.name@ == "then"@ {
                        seq![then_diag(k.span, EXPORT_MESSAGE@)]
                    } else {
                        Seq::empty()
                    },
                    _ => Seq::empty(),
                }
            } else {
                export_pat_diags(value)
            },
            ObjectPatProp::Rest { arg, .. } => export_pat_diags(arg),
        }) + export_props_diags(s, i + 1)
    } else {
        Seq::empty()
    }
}

pub open spec fn export_decls_diags(decls: Seq<VarDeclarator>) -> Seq<DiagnosticView>
    decreases decls.len(),
{
    if decls.len() == 0 {
        Seq::empty()
    } else {
        export_decls_diags(decls.drop_last()) + export_pat_diags(decls.last().name)
    }
}

/// Whether a callee is `<object>.<property>` with `<object>` one of the given
/// names.
pub open spec fn is_member_call(callee: Callee, objects: Seq<Seq<char>>, property: Seq<char>) -> bool {
    match callee {
        Callee::Expr(x) => match *x {
            Expr::Member { obj, prop: MemberProp::Ident(p), .. } => match *obj {
                Expr::Ident(o) => objects.contains(o.name@) && p.name@ == property,
                _ => false,
            },
            _ => false,
        },
        _ => false,
    }
}

/// `Object.defineProperty(foo, "then", ..)` and
/// `Reflect.defineProperty(foo, "then", ..)`.
pub open spec fn define_property_diags(vars: ThenVars, callee: Callee, args: Seq<ExprOrSpread>) -> Seq<
    DiagnosticView,
> {
    if args.len() >= 3 && !args[0].spread && is_member_call(
        callee,
        seq!["Reflect"@, "Object"@],
        "defineProperty"@,
    ) && !args[1].spread {
        opt_diags(key_expr_then(vars, args[1].expr), OBJECT_MESSAGE@)
    } else {
        Seq::empty()
    }
}

/// The first element of an entry of `Object.fromEntries([..])`.
pub open spec fn entry_then(vars: ThenVars, el: Option<ExprOrSpread>) -> Option<Span> {
    match el {
        Some(x) => if x.spread {
            None
        } else {
            match x.expr {
                Expr::Array { elems, .. } => if elems.len() > 0 {
                    match elems@[0] {
                        Some(first) => if first.spread {
                            None
                        } else {
                            key_expr_then(vars, first.expr)
                        },
                        None => None,
                    }
                } else {
                    None
                },
                _ => None,
            }
        },
        None => None,
    }
}

pub open spec fn entries_diags(vars: ThenVars, elems: Seq<Option<ExprOrSpread>>) -> Seq<
    DiagnosticView,
>
    decreases elems.len(),
{
    if elems.len() == 0 {
        Seq::empty()
    } else {
        entries_diags(vars, elems.drop_last()) + opt_diags(
            entry_then(vars, elems.last()),
            OBJECT_MESSAGE@,
        )
    }
}

/// `Object.fromEntries([["then", ..]])`.
pub open spec fn from_entries_diags(vars: ThenVars, callee: Callee, args: Seq<ExprOrSpread>) -> Seq<
    DiagnosticView,
> {
    if args.len() == 1 && !args[0].spread && is_member_call(
        callee,
        seq!["Object"@],
        "fromEntries"@,
    ) {
        match args[0].expr {
            Expr::Array { elems, .. } => entries_diags(vars, elems@),
            _ => Seq::empty(),
        }
    } else {
        Seq::empty()
    }
}

/// `foo.then = ..` and `foo[key] = ..` with a key that is `then`.
pub open spec fn assign_diags(vars: ThenVars, left: Pat) -> Seq<DiagnosticView> {
    match left {
        Pat::Expr(x) => match *x {
            Expr::Member { span, obj, prop, .. } => if *obj is Super {
                Seq::empty()
            } else {
                match prop {
                    MemberProp::Ident(i) => if i.name@ == "then"@ {
                        seq![then_diag(span, CLASS_MESSAGE@)]
                    } else {
                        Seq::empty()
                    },
                    MemberProp::Computed(c) => opt_diags(key_expr_then(vars, *c), CLASS_MESSAGE@),
                    MemberProp::Private(_) => Seq::empty(),
                }
            },
            _ => Seq::empty(),
        },
        _ => Seq::empty(),
    }
}

pub open spec fn export_name_then(n: ModuleExportName) -> Option<Span> {
    match n {
        ModuleExportName::Ident(i) => if i.name@ == "then"@ {
            Some(i.span)
        } else {
            None
        },
        ModuleExportName::Str(s) => if s.value@ == "then"@ {
            Some(s.span)
        } else {
            None
        },
    }
}

pub open spec fn export_specs_diags(specs: Seq<crate::ast::ExportSpecifier>) -> Seq<DiagnosticView>
    decreases specs.len(),
{
    if specs.len() == 0 {
        Seq::empty()
    } else {
        export_specs_diags(specs.drop_last()) + opt_diags(
            export_name_then(specs.last().exported),
            EXPORT_MESSAGE@,
        )
    }
}

/// An exported declaration: the bindings of a variable declaration, or the
/// name of a function or class.
pub open spec fn export_decl_diags(decl: Stmt) -> Seq<DiagnosticView> {
    match decl {
        Stmt::Var(d) => export_decls_diags(d.decls@),
        Stmt::Fn(f) => match f.id {
            Some(i) => if i.name@ == "then"@ {
                seq![then_diag(i.span, EXPORT_MESSAGE@)]
            } else {
                Seq::empty()
            },
            None => Seq::empty(),
        },
        Stmt::Class(c) => match c.id {
            Some(i) => if i.name@ == "then"@ {
                seq![then_diag(i.span, EXPORT_MESSAGE@)]
            } else {
                Seq::empty()
            },
            None => Seq::empty(),
        },
        _ => Seq::empty(),
    }
}

/// What the rule reports on entering a node.
pub open spec fn node_diags(vars: ThenVars, n: Node) -> Seq<DiagnosticView> {
    match n {
        Node::Expr(Expr::Object { props, .. }) => props_diags(vars, props@),
        Node::ClassMember(ClassMember::Method { key, .. }) => opt_diags(
            key_then(vars, key),
            CLASS_MESSAGE@,
        ),
        Node::ClassMember(ClassMember::Prop { key, .. }) => opt_diags(
            key_then(vars, key),
            CLASS_MESSAGE@,
        ),
        Node::Expr(Expr::Assign { left, .. }) => assign_diags(vars, *left),
        Node::Expr(Expr::Call { callee, args, optional, span }) => if is_chain(
            Expr::Call { callee, args, optional, span },
        ) {
            Seq::empty()
        } else {
            define_property_diags(vars, callee, args@) + from_entries_diags(vars, callee, args@)
        },
        Node::Stmt(Stmt::ExportDecl { decl, .. }) => export_decl_diags(*decl),
        Node::Stmt(Stmt::ExportNamed { specifiers, .. }) => export_specs_diags(specifiers@),
        _ => Seq::empty(),
    }
}

pub open spec fn check_fn(vars: ThenVars) -> spec_fn((), SEvent) -> ((), Seq<DiagnosticView>) {
    |u: (), e: SEvent|
        (
            u,
            match e {
                SEvent::Enter(n) => node_diags(vars, n),
                SEvent::Exit(_) => Seq::empty(),
            },
        )
}

/// A name declared with the string `"then"` as its value.
struct ThenVar {
    name: String,
    range: Span,
}

spec fn vars_view(v: Seq<ThenVar>) -> ThenVars {
    v.map_values(|t: ThenVar| (t.name@, t.range))
}

proof fn lemma_lookup_take(vars: ThenVars, name: Seq<char>, i: int)
    requires
        0 <= i <= vars.len(),
        forall|k: int| i <= k < vars.len() ==> vars[k].0 != name,
    ensures
        lookup(vars, name) == lookup(vars.take(i), name),
    decreases vars.len(),
{
    if vars.len() == i {
        assert(vars.take(i) =~= vars);
    } else {
        assert(vars.drop_last().take(i) =~= vars.take(i));
        lemma_lookup_take(vars.drop_last(), name, i);
    }
}

/// The range recorded for a name.
fn lookup_var(vars: &Vec<ThenVar>, name: &str) -> (r: Option<Span>)
    ensures
        r == lookup(vars_view(vars@), name@),
{
    let ghost view = vars_view(vars@);
    let mut i: usize = vars.len();
    while i > 0
        invariant
            i <= vars.len(),
            view == vars_view(vars@),
            forall|k: int| i <= k < view.len() ==> view[k].0 != name@,
        decreases i,
    {
        if str_eq(vars[i - 1].name.as_str(), name) {
            proof {
                lemma_lookup_take(view, name@, i as int);
                assert(view.take(i as int).last() == view[i - 1]);
            }
            return Some(vars[i - 1].range);
        }
        i = i - 1;
    }
    proof {
        lemma_lookup_take(view, name@, 0);
    }
    None
}

/// Records the names that a list of declarators binds to the string `"then"`.
fn collect_declarators(decls: &Vec<VarDeclarator>, vars: &mut Vec<ThenVar>)
    ensures
        vars_view(final(vars)@) == vars_view(old(vars)@) + declared_then(decls@),
{
    let ghost v0 = vars_view(vars@);
    let mut i: usize = 0;
    assert(decls@.take(0) =~= Seq::<VarDeclarator>::empty());
    assert(vars_view(vars@) =~= v0 + declared_then(decls@.take(0)));
    while i < decls.len()
        invariant
            i <= decls.len(),
            v0 == vars_view(old(vars)@),
            vars_view(vars@) == v0 + declared_then(decls@.take(i as int)),
        decreases decls.len() - i,
    {
        assert(decls@.take(i + 1).drop_last() =~= decls@.take(i as int));
        let d = &decls[i];
        let ghost before = vars_view(vars@);
        if let Pat::Ident { name, .. } = &d.name {
            if let Some(Expr::Lit(Lit::Str(s))) = &d.init {
                if str_eq(s.value.as_str(), "then") {
                    vars.push(ThenVar { name: name.clone(), range: s.span });
                    assert(vars_view(vars@) =~= before.push((name@, s.span)));
                }
            }
        }
        assert(vars_view(vars@) =~= v0 + declared_then(decls@.take(i + 1)));
        i = i + 1;
    }
    assert(decls@.take(decls.len() as int) =~= decls@);
}

/// The names declared as `"then"` in a program, in source order.
fn collect_then_vars(program: &Program) -> (r: Vec<ThenVar>)
    ensures
        vars_view(r@) == then_vars(*program),
{
    let events = walk_program(program);
    let ghost evs = event_views(events@);
    let ghost init = Seq::<(Seq<char>, Span)>::empty();
    let mut vars: Vec<ThenVar> = Vec::new();
    assert(vars_view(vars@) =~= init);
    let mut i: usize = 0;
    while i < events.len()
        invariant
            evs == event_views(events@),
            evs == program_events(*program),
            i <= events.len(),
            init == Seq::<(Seq<char>, Span)>::empty(),
            fold_events(evs.take(i as int), init, collect_fn()).0 == vars_view(vars@),
        decreases events.len() - i,
    {
        proof {
            lemma_fold_events_step(evs, i as int, init, collect_fn());
        }
        match events[i] {
            Event::Enter(NodeRef::VarDecl(d)) => collect_declarators(&d.decls, &mut vars),
            _ => {},
        }
        i = i + 1;
    }
    assert(evs.take(events.len() as int) =~= evs);
    vars
}

/// Where an expression used as a key evaluates to `then`, the range to report.
fn check_key_expr(vars: &Vec<ThenVar>, e: &Expr) -> (r: Option<Span>)
    ensures
        r == key_expr_then(vars_view(vars@), *e),
{
    match e {
        Expr::Lit(Lit::Str(s)) => if str_eq(s.value.as_str(), "then") {
            Some(s.span)
        } else {
            None
        },
        Expr::Template { span, exprs, quasis } => {
            if exprs.len() == 0 && quasis.len() == 1 {
                match &quasis[0].cooked {
                    Some(q) => if str_eq(q.as_str(), "then") {
                        Some(*span)
                    } else {
                        None
                    },
                    None => None,
                }
            } else {
                None
            }
        },
        Expr::Ident(i) => lookup_var(vars, i.name.as_str()),
        _ => None,
    }
}

/// Where a property name is `then`, the range to report.
fn contains_then(vars: &Vec<ThenVar>, key: &PropName) -> (r: Option<Span>)
    ensures
        r == key_then(vars_view(vars@), *key),
{
    match key {
        PropName::Ident(i) => if str_eq(i.name.as_str(), "then") {
            Some(i.span)
        } else {
            None
        },
        PropName::Str(s) => if str_eq(s.value.as_str(), "then") {
            Some(s.span)
        } else {
            None
        },
        PropName::Computed { expr: x, .. } => check_key_expr(vars, x),
        _ => None,
    }
}

fn report(out: &mut Vec<Diagnostic>, r: Option<Span>, message: &str)
    ensures
        diag_views(final(out)@) == diag_views(old(out)@) + opt_diags(r, message@),
{
    if let Some(span) = r {
        push_diag(out, Diagnostic::with_hint(span, CODE, String::from_str(message), String::from_str(HINT)));
    }
    assert(diag_views(out@) =~= diag_views(old(out)@) + opt_diags(r, message@));
}

fn object_lit(vars: &Vec<ThenVar>, props: &Vec<Prop>, out: &mut Vec<Diagnostic>)
    ensures
        diag_views(final(out)@) == diag_views(old(out)@) + props_diags(vars_view(vars@), props@),
{
    let ghost o = diag_views(out@);
    let ghost vv = vars_view(vars@);
    let mut i: usize = 0;
    assert(props_diags(vv, props@.take(0)) =~= Seq::<DiagnosticView>::empty());
    while i < props.len()
        invariant
            i <= props.len(),
            vv == vars_view(vars@),
            o == diag_views(old(out)@),
            diag_views(out@) == o + props_diags(vv, props@.take(i as int)),
        decreases props.len() - i,
    {
        assert(props@.take(i + 1).drop_last() =~= props@.take(i as int));
        let r = match &props[i] {
            Prop::Shorthand(id) => if str_eq(id.name.as_str(), "then") {
                Some(id.span)
            } else {
                None
            },
            Prop::KeyValue { key, .. } => contains_then(vars, key),
            Prop::Method { key, .. } => contains_then(vars, key),
            Prop::Spread { .. } => None,
        };
        report(out, r, OBJECT_MESSAGE);
        i = i + 1;
    }
    assert(props@.take(props.len() as int) =~= props@);
}

/// Reports the bindings named `then` in an exported pattern.
fn check_export_pat(p: &Pat, out: &mut Vec<Diagnostic>)
    ensures
        diag_views(final(out)@) == diag_views(old(out)@) + export_pat_diags(*p),
    decreases *p, 0int,
{
    match p {
        Pat::Ident { span, name, .. } => {
            if str_eq(name.as_str(), "then") {
                push_diag(out, Diagnostic::with_hint(*span, CODE, String::from_str(EXPORT_MESSAGE), String::from_str(HINT)));
            }
            assert(diag_views(out@) =~= diag_views(old(out)@) + export_pat_diags(*p));
        },
        Pat::Array { elems, .. } => check_export_elems(elems, out),
        Pat::Object { props, .. } => check_export_props(props, out),
        Pat::Rest { arg, .. } => check_export_pat(arg, out),
        Pat::Assign { left, .. } => check_export_pat(left, out),
        _ => {
            assert(diag_views(out@) =~= diag_views(old(out)@) + export_pat_diags(*p));
        },
    }
}

fn check_export_elems(v: &Vec<Option<Pat>>, out: &mut Vec<Diagnostic>)
    ensures
        diag_views(final(out)@) == diag_views(old(out)@) + export_elems_diags(v@, 0),
    decreases v@, 1int,
{
    let ghost o = diag_views(out@);
    let mut i: usize = 0;
    while i < v.len()
        invariant
            i <= v.len(),
            o == diag_views(old(out)@),
            diag_views(out@) + export_elems_diags(v@, i as int) =~= o + export_elems_diags(v@, 0),
        decreases v.len() - i,
    {
        match &v[i] {
            Some(p) => check_export_pat(p, out),
            None => {},
        }
        i = i + 1;
    }
}

fn check_export_props(v: &Vec<ObjectPatProp>, out: &mut Vec<Diagnostic>)
    ensures
        diag_views(final(out)@) == diag_views(old(out)@) + export_props_diags(v@, 0),
    decreases v@, 1int,
{
    let ghost o = diag_views(out@);
    let mut i: usize = 0;
    while i < v.len()
        invariant
            i <= v.len(),
            o == diag_views(old(out)@),
            diag_views(out@) + export_props_diags(v@, i as int) =~= o + export_props_diags(v@, 0),
        decreases v.len() - i,
    {
        let ghost before = diag_views(out@);
        match &v[i] {
            ObjectPatProp::KeyValue { key, value, shorthand, .. } => {
                if *shorthand {
                    if let PropName::Ident(k) = key {
                        if str_eq(k.name.as_str(), "then") {
                            push_diag(out, Diagnostic::with_hint(k.span, CODE, String::from_str(EXPORT_MESSAGE), String::from_str(HINT)));
                        }
                    }
                } else {
                    check_export_pat(value, out);
                }
            },
            ObjectPatProp::Rest { arg, .. } => check_export_pat(arg, out),
        }
        assert(export_props_diags(v@, i as int) =~= (match v@[i as int] {
            ObjectPatProp::KeyValue { key, value, shorthand, .. } => if shorthand {
                match key {
                    PropName::Ident(k) => if k.name@ == "then"@ {
                        seq![then_diag(k.span, EXPORT_MESSAGE@)]
                    } else {
                        Seq::empty()
                    },
                    _ => Seq::empty(),
                }
            } else {
                export_pat_diags(value)
            },
            ObjectPatProp::Rest { arg, .. } => export_pat_diags(arg),
        }) + export_props_diags(v@, i + 1));
        i = i + 1;
    }
}

fn export_decl(decl: &Stmt, out: &mut Vec<Diagnostic>)
    ensures
        diag_views(final(out)@) == diag_views(old(out)@) + export_decl_diags(*decl),
{
    let ghost o = diag_views(out@);
    match decl {
        Stmt::Var(d) => {
            let decls = &d.decls;
            let mut i: usize = 0;
            assert(export_decls_diags(decls@.take(0)) =~= Seq::<DiagnosticView>::empty());
            while i < decls.len()
                invariant
                    i <= decls.len(),
                    o == diag_views(old(out)@),
                    diag_views(out@) == o + export_decls_diags(decls@.take(i as int)),
                decreases decls.len() - i,
            {
                assert(decls@.take(i + 1).drop_last() =~= decls@.take(i as int));
                check_export_pat(&decls[i].name, out);
                i = i + 1;
            }
            assert(decls@.take(decls.len() as int) =~= decls@);
        },
        Stmt::Fn(f) => {
            if let Some(id) = &f.id {
                if str_eq(id.name.as_str(), "then") {
                    push_diag(out, Diagnostic::with_hint(id.span, CODE, String::from_str(EXPORT_MESSAGE), String::from_str(HINT)));
                }
            }
        },
        Stmt::Class(c) => {
            if let Some(id) = &c.id {
                if str_eq(id.name.as_str(), "then") {
                    push_diag(out, Diagnostic::with_hint(id.span, CODE, String::from_str(EXPORT_MESSAGE), String::from_str(HINT)));
                }
            }
        },
        _ => {},
    }
    assert(diag_views(out@) =~= o + export_decl_diags(*decl));
}

fn named_export(specs: &Vec<crate::ast::ExportSpecifier>, out: &mut Vec<Diagnostic>)
    ensures
        diag_views(final(out)@) == diag_views(old(out)@) + export_specs_diags(specs@),
{
    let ghost o = diag_views(out@);
    let mut i: usize = 0;
    assert(export_specs_diags(specs@.take(0)) =~= Seq::<DiagnosticView>::empty());
    while i < specs.len()
        invariant
            i <= specs.len(),
            o == diag_views(old(out)@),
            diag_views(out@) == o + export_specs_diags(specs@.take(i as int)),
        decreases specs.len() - i,
    {
        assert(specs@.take(i + 1).drop_last() =~= specs@.take(i as int));
        let r = match &specs[i].exported {
            ModuleExportName::Ident(id) => if str_eq(id.name.as_str(), "then") {
                Some(id.span)
            } else {
                None
            },
            ModuleExportName::Str(s) => if str_eq(s.value.as_str(), "then") {
                Some(s.span)
            } else {
                None
            },
        };
        report(out, r, EXPORT_MESSAGE);
        i = i + 1;
    }
    assert(specs@.take(specs.len() as int) =~= specs@);
}

/// Whether a callee is `<object>.<property>` with `<object>` one of the given
/// names, as `Reflect` or `Object` (`either` set) or `Object` alone.
fn is_member_call_of(callee: &Callee, either: bool, property: &str) -> (r: bool)
    ensures
        r == is_member_call(
            *callee,
            if either {
                seq!["Reflect"@, "Object"@]
            } else {
                seq!["Object"@]
            },
            property@,
        ),
{
    let ghost objects = if either {
        seq!["Reflect"@, "Object"@]
    } else {
        seq!["Object"@]
    };
    match callee {
        Callee::Expr(x) => match &**x {
            Expr::Member { obj, prop: MemberProp::Ident(p), .. } => match &**obj {
                Expr::Ident(o) => {
                    let is_object = str_eq(o.name.as_str(), "Object");
                    let known = if either {
                        str_eq(o.name.as_str(), "Reflect") || is_object
                    } else {
                        is_object
                    };
                    proof {
                        if either {
                            assert(objects[0] == "Reflect"@ && objects[1] == "Object"@);
                            assert(objects.contains(o.name@) <==> (o.name@ == "Reflect"@ || o.name@
                                == "Object"@));
                        } else {
                            assert(objects[0] == "Object"@);
                            assert(objects.contains(o.name@) <==> o.name@ == "Object"@);
                        }
                    }
                    known && str_eq(p.name.as_str(), property)
                },
                _ => false,
            },
            _ => false,
        },
        _ => false,
    }
}

fn from_entries(vars: &Vec<ThenVar>, elems: &Vec<Option<ExprOrSpread>>, out: &mut Vec<Diagnostic>)
    ensures
        diag_views(final(out)@) == diag_views(old(out)@) + entries_diags(vars_view(vars@), elems@),
{
    let ghost o = diag_views(out@);
    let ghost vv = vars_view(vars@);
    let mut i: usize = 0;
    assert(entries_diags(vv, elems@.take(0)) =~= Seq::<DiagnosticView>::empty());
    while i < elems.len()
        invariant
            i <= elems.len(),
            vv == vars_view(vars@),
            o == diag_views(old(out)@),
            diag_views(out@) == o + entries_diags(vv, elems@.take(i as int)),
        decreases elems.len() - i,
    {
        assert(elems@.take(i + 1).drop_last() =~= elems@.take(i as int));
        let r = match &elems[i] {
            Some(x) => if x.spread {
                None
            } else {
                match &x.expr {
                    Expr::Array { elems: inner, .. } => if inner.len() > 0 {
                        match &inner[0] {
                            Some(first) => if first.spread {
                                None
                            } else {
                                check_key_expr(vars, &first.expr)
                            },
                            None => None,
                        }
                    } else {
                        None
                    },
                    _ => None,
                }
            },
            None => None,
        };
        report(out, r, OBJECT_MESSAGE);
        i = i + 1;
    }
    assert(elems@.take(elems.len() as int) =~= elems@);
}

fn call_expr(vars: &Vec<ThenVar>, call: &Expr, out: &mut Vec<Diagnostic>)
    requires
        call is Call,
        !is_chain(*call),
    ensures
        diag_views(final(out)@) == diag_views(old(out)@) + node_diags(vars_view(vars@), Node::Expr(*call)),
{
    let ghost o = diag_views(out@);
    if let Expr::Call { callee, args, .. } = call {
        if args.len() >= 3 && !args[0].spread && is_member_call_of(callee, true, "defineProperty") {
            if !args[1].spread {
                let r = check_key_expr(vars, &args[1].expr);
                report(out, r, OBJECT_MESSAGE);
            }
        }
        assert(diag_views(out@) =~= o + define_property_diags(vars_view(vars@), *callee, args@));
        let ghost mid = diag_views(out@);
        if args.len() == 1 && !args[0].spread && is_member_call_of(callee, false, "fromEntries") {
            if let Expr::Array { elems, .. } = &args[0].expr {
                from_entries(vars, elems, out);
            }
        }
        assert(diag_views(out@) =~= mid + from_entries_diags(vars_view(vars@), *callee, args@));
    }
}

fn check_node<'a>(vars: &Vec<ThenVar>, n: NodeRef<'a>, out: &mut Vec<Diagnostic>)
    ensures
        diag_views(final(out)@) == diag_views(old(out)@) + node_diags(vars_view(vars@), n@),
{
    let ghost o = diag_views(out@);
    match n {
        NodeRef::Expr(Expr::Object { props, .. }) => object_lit(vars, props, out),
        NodeRef::ClassMember(ClassMember::Method { key, .. }) => {
            let r = contains_then(vars, key);
            report(out, r, CLASS_MESSAGE);
        },
        NodeRef::ClassMember(ClassMember::Prop { key, .. }) => {
            let r = contains_then(vars, key);
            report(out, r, CLASS_MESSAGE);
        },
        NodeRef::Expr(Expr::Assign { left, .. }) => {
            if let Pat::Expr(x) = &**left {
                if let Expr::Member { span, obj, prop, .. } = &**x {
                    let is_super = match &**obj {
                        Expr::Super(_) => true,
                        _ => false,
                    };
                    if !is_super {
                        match prop {
                            MemberProp::Ident(id) => if str_eq(id.name.as_str(), "then") {
                                push_diag(out, Diagnostic::with_hint(*span, CODE, String::from_str(CLASS_MESSAGE), String::from_str(HINT)));
                            },
                            MemberProp::Computed(c) => {
                                let r = check_key_expr(vars, c);
                                report(out, r, CLASS_MESSAGE);
                            },
                            MemberProp::Private(_) => {},
                        }
                    }
                }
            }
            assert(diag_views(out@) =~= o + node_diags(vars_view(vars@), n@));
        },
        NodeRef::Expr(e) => {
            if let Expr::Call { .. } = e {
                if !is_optional_chain(e) {
                    call_expr(vars, e, out);
                }
            }
            assert(diag_views(out@) =~= o + node_diags(vars_view(vars@), n@));
        },
        NodeRef::Stmt(Stmt::ExportDecl { decl, .. }) => export_decl(decl, out),
        NodeRef::Stmt(Stmt::ExportNamed { specifiers, .. }) => named_export(specifiers, out),
        _ => {
            assert(diag_views(out@) =~= o + node_diags(vars_view(vars@), n@));
        },
    }
}

impl NoThenable {
    /// The tags of the rule: it belongs to the recommended set.
    pub fn tags(&self) -> (r: Vec<&'static str>)
        ensures
            crate::tags::tag_views(r@) == seq![crate::tags::RECOMMENDED@],
    {
        crate::tags::recommended()
    }

    pub fn code(&self) -> (r: &'static str)
        ensures
            r@ == CODE@,
    {
        CODE
    }

    /// The diagnostics of the rule on a program, in source order.
    pub fn lint(&self, program: &Program) -> (r: Vec<Diagnostic>)
        ensures
            diag_views(r@) == fold_events(program_events(*program), (), check_fn(then_vars(*program))).1,
    {
        let vars = collect_then_vars(program);
        let ghost vv = then_vars(*program);
        let events = walk_program(program);
        let ghost evs = event_views(events@);
        let mut out: Vec<Diagnostic> = Vec::new();
        assert(diag_views(out@) =~= Seq::<DiagnosticView>::empty());
        let mut i: usize = 0;
        while i < events.len()
            invariant
                evs == event_views(events@),
                vv == vars_view(vars@),
                i <= events.len(),
                fold_events(evs.take(i as int), (), check_fn(vv)).1 == diag_views(out@),
            decreases events.len() - i,
        {
            proof {
                lemma_fold_events_step(evs, i as int, (), check_fn(vv));
            }
            let ghost before = diag_views(out@);
            match events[i] {
                Event::Enter(n) => check_node(&vars, n, &mut out),
                Event::Exit(_) => {},
            }
            assert(diag_views(out@) =~= before + check_fn(vv)((), evs[i as int]).1);
            i = i + 1;
        }
        assert(evs.take(events.len() as int) =~= evs);
        out
    }
}

} // verus!
