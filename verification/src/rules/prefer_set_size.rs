//! `prefer-set-size`: the size of a `Set` is read with `.size`, not by
//! turning it into an array and reading `.length`.
//!
//! A value is a `Set` where it is `new Set(..)`, or a variable that a
//! `const` declaration binds to `new Set(..)`.

use vstd::prelude::*;
use crate::ast::{is_chain, is_optional_chain, Callee, Expr, MemberProp, Pat, Program, VarDeclarator, VarKind};
use crate::diagnostic::{Diagnostic, DiagnosticView, diag_views, hinted_diag, push_diag};
use crate::text::str_eq;
use crate::walk::{Event, Node, NodeRef, SEvent, event_views, program_events, walk_program};
use crate::rules::{fold_events, lemma_fold_events_step};

verus! {

pub const CODE: &'static str = "prefer-set-size";

pub const MESSAGE: &'static str = "Use `Set#size` instead of converting a `Set` to an array and using its `length` property.";

pub const HINT: &'static str = "Replace array conversion with direct `Set.size` access";

/// Reports each `.length` of a `Set` turned into an array by spreading or by
/// `Array.from`.
#[derive(Debug)]
pub struct PreferSetSize;

/// A variable: its name and the mark of its binding.
pub type VarId = (Seq<char>, Option<u32>);

pub open spec fn unwrap_parens(e: Expr) -> Expr
    decreases e,
{
    match e {
        Expr::Paren { expr, .. } => unwrap_parens(*expr),
        _ => e,
    }
}

/// `new Set(..)`.
pub open spec fn is_new_set(e: Expr) -> bool {
    match e {
        Expr::New { callee, .. } => match *callee {
            Expr::Ident(c) => c.name@ == "Set"@,
            _ => false,
        },
        _ => false,
    }
}

/// The variable that a declarator binds to `new Set(..)`, where it does so.
pub open spec fn declared_set(d: VarDeclarator) -> Option<VarId> {
    match (d.name, d.init) {
        (Pat::Ident { name, binding, .. }, Some(init)) => if is_new_set(unwrap_parens(init)) {
            Some((name@, binding))
        } else {
            None
        },
        _ => None,
    }
}

pub open spec fn declared_sets(s: Seq<VarDeclarator>, i: int) -> Seq<VarId>
    decreases s.len() - i,
{
    if 0 <= i < s.len() {
        (match declared_set(s[i]) {
            Some(v) => seq![v],
            None => Seq::empty(),
        }) + declared_sets(s, i + 1)
    } else {
        Seq::empty()
    }
}

/// The first pass collects the variables that `const` declarations bind to
/// `new Set(..)`.
pub open spec fn collect_fn() -> spec_fn(Seq<VarId>, SEvent) -> (Seq<VarId>, Seq<DiagnosticView>) {
    |vars: Seq<VarId>, ev: SEvent|
        (
            match ev {
                SEvent::Enter(Node::VarDecl(d)) => if d.kind == VarKind::Const {
                    vars + declared_sets(d.decls@, 0)
                } else {
                    vars
                },
                _ => vars,
            },
            Seq::empty(),
        )
}

pub open spec fn set_vars(p: Program) -> Seq<VarId> {
    fold_events(program_events(p), Seq::empty(), collect_fn()).0
}

/// A `Set`, parentheses removed.
pub open spec fn is_set(vars: Seq<VarId>, e: Expr) -> bool {
    is_new_set(e) || match e {
        Expr::Ident(i) => vars.contains((i.name@, i.binding)),
        _ => false,
    }
}

/// `Array.from(x)`, with exactly one argument and no optional link.
pub open spec fn is_array_from_call(e: Expr) -> bool {
    match e {
        Expr::Call { callee: Callee::Expr(c), args, optional: false, .. } => match *c {
            Expr::Member { obj, prop: MemberProp::Ident(p), optional: false, .. } => match *obj {
                Expr::Ident(o) => o.name@ == "Array"@ && p.name@ == "from"@ && args@.len() == 1,
                _ => false,
            },
            _ => false,
        },
        _ => false,
    }
}

/// The value that an expression turns into an array: `[...x]` or
/// `Array.from(x)`.
pub open spec fn set_node(e: Expr) -> Option<Expr> {
    match e {
        Expr::Array { elems, .. } => if elems@.len() == 1 {
            match elems@[0] {
                Some(el) => if el.spread {
                    Some(el.expr)
                } else {
                    None
                },
                None => None,
            }
        } else {
            None
        },
        Expr::Call { args, .. } => if is_array_from_call(e) && !args@[0].spread {
            Some(args@[0].expr)
        } else {
            None
        },
        _ => None,
    }
}

/// The diagnostics of an expression, given the `Set` variables.
pub open spec fn expr_diags(vars: Seq<VarId>, e: Expr) -> Seq<DiagnosticView> {
    match e {
        Expr::Member { span, obj, prop: MemberProp::Ident(p), .. } => if !is_chain(e) && p.name@
            == "length"@ {
            match set_node(unwrap_parens(*obj)) {
                Some(x) => if is_set(vars, unwrap_parens(x)) {
                    seq![hinted_diag(span, CODE@, MESSAGE@, HINT@)]
                } else {
                    Seq::empty()
                },
                None => Seq::empty(),
            }
        } else {
            Seq::empty()
        },
        _ => Seq::empty(),
    }
}

pub open spec fn check_fn(vars: Seq<VarId>) -> spec_fn((), SEvent) -> ((), Seq<DiagnosticView>) {
    |u: (), ev: SEvent|
        (
            u,
            match ev {
                SEvent::Enter(Node::Expr(e)) => expr_diags(vars, e),
                _ => Seq::empty(),
            },
        )
}

pub open spec fn vars_view(v: Seq<(String, Option<u32>)>) -> Seq<VarId> {
    v.map_values(|p: (String, Option<u32>)| (p.0@, p.1))
}

fn unwrap_parens_of(e: &Expr) -> (r: &Expr)
    ensures
        *r == unwrap_parens(*e),
    decreases *e,
{
    match e {
        Expr::Paren { expr, .. } => unwrap_parens_of(expr),
        _ => e,
    }
}

fn new_set(e: &Expr) -> (r: bool)
    ensures
        r == is_new_set(*e),
{
    match e {
        Expr::New { callee, .. } => match &**callee {
            Expr::Ident(c) => str_eq(c.name.as_str(), "Set"),
            _ => false,
        },
        _ => false,
    }
}

fn push_var(vars: &mut Vec<(String, Option<u32>)>, name: String, binding: Option<u32>)
    ensures
        vars_view(final(vars)@) == vars_view(old(vars)@).push((name@, binding)),
{
    vars.push((name, binding));
    assert(vars_view(vars@) =~= vars_view(old(vars)@).push((name@, binding)));
}

fn collect_declarators(decls: &Vec<VarDeclarator>, vars: &mut Vec<(String, Option<u32>)>)
    ensures
        vars_view(final(vars)@) == vars_view(old(vars)@) + declared_sets(decls@, 0),
{
    let ghost o = vars_view(vars@);
    let mut i: usize = 0;
    while i < decls.len()
        invariant
            i <= decls@.len(),
            vars_view(vars@) + declared_sets(decls@, i as int) == o + declared_sets(decls@, 0),
        decreases decls@.len() - i,
    {
        let ghost before = vars_view(vars@);
        let d = &decls[i];
        match (&d.name, &d.init) {
            (Pat::Ident { name, binding, .. }, Some(init)) => {
                if new_set(unwrap_parens_of(init)) {
                    push_var(vars, name.clone(), *binding);
                }
            },
            _ => {},
        }
        assert(vars_view(vars@) + declared_sets(decls@, i + 1) =~= before + declared_sets(decls@, i as int));
        i = i + 1;
    }
    assert(vars_view(vars@) + declared_sets(decls@, i as int) =~= vars_view(vars@));
}

fn contains_var(vars: &Vec<(String, Option<u32>)>, name: &str, binding: Option<u32>) -> (r: bool)
    ensures
        r == vars_view(vars@).contains((name@, binding)),
{
    let ghost vv = vars_view(vars@);
    let mut i: usize = 0;
    while i < vars.len()
        invariant
            i <= vars@.len(),
            vv == vars_view(vars@),
            forall|j: int| 0 <= j < i ==> vv[j] != (name@, binding),
        decreases vars@.len() - i,
    {
        let same_binding = match (vars[i].1, binding) {
            (Some(a), Some(b)) => a == b,
            (None, None) => true,
            _ => false,
        };
        if same_binding && str_eq(vars[i].0.as_str(), name) {
            assert(vv[i as int] == (name@, binding));
            return true;
        }
        i = i + 1;
    }
    false
}

fn array_from_call(e: &Expr) -> (r: bool)
    ensures
        r == is_array_from_call(*e),
{
    if let Expr::Call { callee: Callee::Expr(c), args, optional: false, .. } = e {
        if let Expr::Member { obj, prop: MemberProp::Ident(p), optional: false, .. } = &**c {
            if let Expr::Ident(o) = &**obj {
                return str_eq(o.name.as_str(), "Array") && str_eq(p.name.as_str(), "from")
                    && args.len() == 1;
            }
        }
    }
    false
}

fn set_node_of(e: &Expr) -> (r: Option<&Expr>)
    ensures
        match r {
            Some(x) => set_node(*e) == Some(*x),
            None => set_node(*e) is None,
        },
{
    match e {
        Expr::Array { elems, .. } => {
            if elems.len() == 1 {
                match &elems[0] {
                    Some(el) => if el.spread {
                        Some(&el.expr)
                    } else {
                        None
                    },
                    None => None,
                }
            } else {
                None
            }
        },
        Expr::Call { args, .. } => {
            if array_from_call(e) && !args[0].spread {
                Some(&args[0].expr)
            } else {
                None
            }
        },
        _ => None,
    }
}

fn set_value(vars: &Vec<(String, Option<u32>)>, e: &Expr) -> (r: bool)
    ensures
        r == is_set(vars_view(vars@), *e),
{
    if new_set(e) {
        return true;
    }
    match e {
        Expr::Ident(i) => contains_var(vars, i.name.as_str(), i.binding),
        _ => false,
    }
}

fn check_expr(vars: &Vec<(String, Option<u32>)>, e: &Expr, out: &mut Vec<Diagnostic>)
    ensures
        diag_views(final(out)@) == diag_views(old(out)@) + expr_diags(vars_view(vars@), *e),
{
    if let Expr::Member { span, obj, prop: MemberProp::Ident(p), .. } = e {
        if !is_optional_chain(e) && str_eq(p.name.as_str(), "length") {
            if let Some(x) = set_node_of(unwrap_parens_of(obj)) {
                if set_value(vars, unwrap_parens_of(x)) {
                    push_diag(out, Diagnostic::with_hint(*span, CODE, String::from_str(MESSAGE), String::from_str(HINT)));
                    return;
                }
            }
        }
    }
    assert(diag_views(out@) =~= diag_views(old(out)@) + expr_diags(vars_view(vars@), *e));
}

impl PreferSetSize {
    /// The tags of the rule: it belongs to the recommended set.
    pub fn tags(&self) -> (r: Vec<&'static str>)
        ensures
            crate::tags::tag_views(r@) == seq![crate::tags::RECOMMENDED@],
    {
        crate::tags::recommended()
    }

    pub fn code(&self) -> (r: &'static str)
        ensures
            r@ == CODE@,
    {
        CODE
    }

    /// The diagnostics of the rule on a program, in source order.
    pub fn lint(&self, program: &Program) -> (r: Vec<Diagnostic>)
        ensures
            diag_views(r@) == fold_events(program_events(*program), (), check_fn(set_vars(*program))).1,
    {
        let events = walk_program(program);
        let ghost evs = event_views(events@);
        let mut vars: Vec<(String, Option<u32>)> = Vec::new();
        assert(vars_view(vars@) =~= Seq::<VarId>::empty());
        let mut i: usize = 0;
        while i < events.len()
            invariant
                evs == event_views(events@),
                i <= events.len(),
                fold_events(evs.take(i as int), Seq::<VarId>::empty(), collect_fn()).0 == vars_view(vars@),
            decreases events.len() - i,
        {
            proof {
                lemma_fold_events_step(evs, i as int, Seq::<VarId>::empty(), collect_fn());
            }
            match events[i] {
                Event::Enter(NodeRef::VarDecl(d)) => {
                    if let VarKind::Const = d.kind {
                        collect_declarators(&d.decls, &mut vars);
                    }
                },
                _ => {},
            }
            i = i + 1;
        }
        assert(evs.take(events.len() as int) =~= evs);
        let ghost vs = vars_view(vars@);
        assert(vs == set_vars(*program));
        let mut out: Vec<Diagnostic> = Vec::new();
        assert(diag_views(out@) =~= Seq::<DiagnosticView>::empty());
        let mut i: usize = 0;
        while i < events.len()
            invariant
                evs == event_views(events@),
                vs == vars_view(vars@),
                i <= events.len(),
                fold_events(evs.take(i as int), (), check_fn(vs)).1 == diag_views(out@),
            decreases events.len() - i,
        {
            proof {
                lemma_fold_events_step(evs, i as int, (), check_fn(vs));
            }
            let ghost before = diag_views(out@);
            match events[i] {
                Event::Enter(NodeRef::Expr(e)) => check_expr(&vars, e, &mut out),
                _ => {},
            }
            assert(diag_views(out@) =~= before + check_fn(vs)((), evs[i as int]).1);
            i = i + 1;
        }
        assert(evs.take(events.len() as int) =~= evs);
        out
    }
}

} // verus!
