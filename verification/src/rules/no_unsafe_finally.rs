//! `no-unsafe-finally`: `return`, `throw`, `break` and `continue` are not to
//! leave a `finally` block.
//!
//! The rule walks the statements of a program with a stack of the scopes that
//! enclose the current statement: `finally` blocks, functions, loops, `switch`
//! statements and labels. A jump is unsafe where the scope it leaves through
//! is a `finally` block, before the scope that it targets.

use vstd::prelude::*;
use crate::ast::{ArrowBody, ClassMember, Expr, Ident, Program, Stmt, SwitchCase, VarDeclarator};
use crate::diagnostic::{Diagnostic, DiagnosticView, diag_views, hinted_diag, push_diag};
use crate::text::str_eq;

verus! {

pub const CODE: &'static str = "no-unsafe-finally";

pub const HINT: &'static str = "Use of the control flow statements (`return`, `throw`, `break` and `continue`) in a `finally` blockwill most likely lead to undesired behavior.";

pub const BREAK_MESSAGE: &'static str = "Unsafe usage of break statement";

pub const CONTINUE_MESSAGE: &'static str = "Unsafe usage of continue statement";

pub const RETURN_MESSAGE: &'static str = "Unsafe usage of return statement";

pub const THROW_MESSAGE: &'static str = "Unsafe usage of throw statement";

/// Reports `return`, `throw`, `break` and `continue` statements that leave a
/// `finally` block.
#[derive(Debug)]
pub struct NoUnsafeFinally;

/// A scope around a statement, as a value.
pub enum Scope {
    Finally,
    Function,
    Loop,
    Switch,
    Label(Seq<char>),
}

/// Whether a `break`, with its label if any, leaves a `finally` block before
/// it reaches its target: the innermost loop or `switch` without a label, or
/// the statement with the label.
pub open spec fn break_unsafe(stack: Seq<Scope>, label: Option<Seq<char>>) -> bool
    decreases stack.len(),
{
    if stack.len() == 0 {
        false
    } else {
        match stack.last() {
            Scope::Finally => true,
            Scope::Function => false,
            Scope::Switch => if label is None {
                false
            } else {
                break_unsafe(stack.drop_last(), label)
            },
            Scope::Loop => if label is None {
                false
            } else {
                break_unsafe(stack.drop_last(), label)
            },
            Scope::Label(name) => if label == Some(name) {
                false
            } else {
                break_unsafe(stack.drop_last(), label)
            },
        }
    }
}

/// Whether a `continue`, with its label if any, leaves a `finally` block
/// before it reaches its target: the innermost loop without a label, or the
/// statement with the label.
pub open spec fn continue_unsafe(stack: Seq<Scope>, label: Option<Seq<char>>) -> bool
    decreases stack.len(),
{
    if stack.len() == 0 {
        false
    } else {
        match stack.last() {
            Scope::Finally => true,
            Scope::Function => false,
            Scope::Loop => if label is None {
                false
            } else {
                continue_unsafe(stack.drop_last(), label)
            },
            Scope::Label(name) => if label == Some(name) {
                false
            } else {
                continue_unsafe(stack.drop_last(), label)
            },
            Scope::Switch => continue_unsafe(stack.drop_last(), label),
        }
    }
}

/// Whether a `return` or `throw` leaves a `finally` block before it leaves
/// the innermost function.
pub open spec fn return_unsafe(stack: Seq<Scope>) -> bool
    decreases stack.len(),
{
    if stack.len() == 0 {
        false
    } else {
        match stack.last() {
            Scope::Finally => true,
            Scope::Function => false,
            _ => return_unsafe(stack.drop_last()),
        }
    }
}

pub open spec fn label_name(label: Option<Ident>) -> Option<Seq<char>> {
    match label {
        Some(l) => Some(l.name@),
        None => None,
    }
}

pub open spec fn report(unsafe_jump: bool, span: crate::ast::Span, message: Seq<char>) -> Seq<
    DiagnosticView,
> {
    if unsafe_jump {
        seq![hinted_diag(span, CODE@, message, HINT@)]
    } else {
        Seq::empty()
    }
}

/// The diagnostics of a statement under a stack of scopes. The walk enters
/// blocks, the branches of `if`, the bodies of loops, the cases of `switch`,
/// labeled statements, the three blocks of `try`, function and class
/// declarations, and the functions and classes that an expression statement
/// or a declarator's initializer is; nothing else.
pub open spec fn stmt_diags(st: Seq<Scope>, s: Stmt) -> Seq<DiagnosticView>
    decreases s, 0int,
{
    match s {
        Stmt::Block(b) => stmts_diags(st, b.stmts@, 0),
        Stmt::If { cons, alt, .. } => stmt_diags(st, *cons) + (match alt {
            Some(a) => stmt_diags(st, *a),
            None => Seq::empty(),
        }),
        Stmt::While { body, .. } => stmt_diags(st.push(Scope::Loop), *body),
        Stmt::DoWhile { body, .. } => stmt_diags(st.push(Scope::Loop), *body),
        Stmt::For { body, .. } => stmt_diags(st.push(Scope::Loop), *body),
        Stmt::ForIn { body, .. } => stmt_diags(st.push(Scope::Loop), *body),
        Stmt::ForOf { body, .. } => stmt_diags(st.push(Scope::Loop), *body),
        Stmt::Switch { cases, .. } => cases_diags(st.push(Scope::Switch), cases@, 0),
        Stmt::Labeled { label, body, .. } => stmt_diags(st.push(Scope::Label(label.name@)), *body),
        Stmt::Try { block, handler, finalizer, .. } => stmts_diags(st, block.stmts@, 0) + (match handler {
            Some(h) => stmts_diags(st, h.body.stmts@, 0),
            None => Seq::empty(),
        }) + (match finalizer {
            Some(f) => stmts_diags(st.push(Scope::Finally), f.stmts@, 0),
            None => Seq::empty(),
        }),
        Stmt::Break { span, label } => report(
            break_unsafe(st, label_name(label)),
            span,
            BREAK_MESSAGE@,
        ),
        Stmt::Continue { span, label } => report(
            continue_unsafe(st, label_name(label)),
            span,
            CONTINUE_MESSAGE@,
        ),
        Stmt::Return { span, .. } => report(return_unsafe(st), span, RETURN_MESSAGE@),
        Stmt::Throw { span, .. } => report(return_unsafe(st), span, THROW_MESSAGE@),
        Stmt::Expr { expr, .. } => expr_diags(st, expr),
        Stmt::Var(d) => decls_diags(st, d.decls@, 0),
        Stmt::Fn(f) => match f.body {
            Some(b) => stmts_diags(st.push(Scope::Function), b.stmts@, 0),
            None => Seq::empty(),
        },
        Stmt::Class(c) => members_diags(st, c.members@, 0),
        _ => Seq::empty(),
    }
}

pub open spec fn stmts_diags(st: Seq<Scope>, s: Seq<Stmt>, i: int) -> Seq<DiagnosticView>
    decreases s, s.len() - i,
{
    if 0 <= i < s.len() {
        stmt_diags(st, s[i]) + stmts_diags(st, s, i + 1)
    } else {
        Seq::empty()
    }
}

pub open spec fn cases_diags(st: Seq<Scope>, s: Seq<SwitchCase>, i: int) -> Seq<DiagnosticView>
    decreases s, s.len() - i,
{
    if 0 <= i < s.len() {
        stmts_diags(st, s[i].cons@, 0) + cases_diags(st, s, i + 1)
    } else {
        Seq::empty()
    }
}

pub open spec fn decls_diags(st: Seq<Scope>, s: Seq<VarDeclarator>, i: int) -> Seq<DiagnosticView>
    decreases s, s.len() - i,
{
    if 0 <= i < s.len() {
        (match s[i].init {
            Some(e) => expr_diags(st, e),
            None => Seq::empty(),
        }) + decls_diags(st, s, i + 1)
    } else {
        Seq::empty()
    }
}

/// The diagnostics of an expression that is itself a function, an arrow
/// function (whose expression body counts as one expression statement) or a
/// class; other expressions are not entered.
pub open spec fn expr_diags(st: Seq<Scope>, e: Expr) -> Seq<DiagnosticView>
    decreases e, 0int,
{
    match e {
        Expr::Fn(f) => match f.body {
            Some(b) => stmts_diags(st.push(Scope::Function), b.stmts@, 0),
            None => Seq::empty(),
        },
        Expr::Arrow(a) => match a.body {
            ArrowBody::Block(b) => stmts_diags(st.push(Scope::Function), b.stmts@, 0),
            ArrowBody::Expr(x) => expr_diags(st.push(Scope::Function), *x),
        },
        Expr::Class(c) => members_diags(st, c.members@, 0),
        _ => Seq::empty(),
    }
}

/// The members of a class body: the body of each method, in a function scope,
/// and the initializer of each property.
pub open spec fn members_diags(st: Seq<Scope>, s: Seq<ClassMember>, i: int) -> Seq<DiagnosticView>
    decreases s, s.len() - i,
{
    if 0 <= i < s.len() {
        (match s[i] {
            ClassMember::Method { func, .. } => match func.body {
                Some(b) => stmts_diags(st.push(Scope::Function), b.stmts@, 0),
                None => Seq::empty(),
            },
            ClassMember::Prop { value, .. } => match value {
                Some(v) => expr_diags(st, v),
                None => Seq::empty(),
            },
            ClassMember::Accessor { .. } => Seq::empty(),
            ClassMember::StaticBlock { body, .. } => stmts_diags(st, body.stmts@, 0),
        }) + members_diags(st, s, i + 1)
    } else {
        Seq::empty()
    }
}

/// A scope around a statement, as the walk keeps it.
#[derive(Debug)]
pub enum ScopeEntry {
    Finally,
    Function,
    Loop,
    Switch,
    Label(String),
}

pub open spec fn scope_view(e: ScopeEntry) -> Scope {
    match e {
        ScopeEntry::Finally => Scope::Finally,
        ScopeEntry::Function => Scope::Function,
        ScopeEntry::Loop => Scope::Loop,
        ScopeEntry::Switch => Scope::Switch,
        ScopeEntry::Label(s) => Scope::Label(s@),
    }
}

pub open spec fn stack_view(v: Seq<ScopeEntry>) -> Seq<Scope> {
    v.map_values(|e: ScopeEntry| scope_view(e))
}

fn push_scope(stack: &mut Vec<ScopeEntry>, e: ScopeEntry)
    ensures
        stack_view(final(stack)@) == stack_view(old(stack)@).push(scope_view(e)),
{
    stack.push(e);
    assert(stack_view(stack@) =~= stack_view(old(stack)@).push(scope_view(e)));
}

fn pop_scope(stack: &mut Vec<ScopeEntry>)
    requires
        stack_view(old(stack)@).len() > 0,
    ensures
        stack_view(final(stack)@) == stack_view(old(stack)@).drop_last(),
{
    stack.pop();
    assert(stack_view(stack@) =~= stack_view(old(stack)@).drop_last());
}

fn same_label(name: &String, label: &Option<Ident>) -> (r: bool)
    ensures
        r == (label_name(*label) == Some(name@)),
{
    match label {
        Some(l) => str_eq(name.as_str(), l.name.as_str()),
        None => false,
    }
}

fn is_break_unsafe(stack: &Vec<ScopeEntry>, label: &Option<Ident>) -> (r: bool)
    ensures
        r == break_unsafe(stack_view(stack@), label_name(*label)),
{
    let ghost v = stack_view(stack@);
    let ghost lab = label_name(*label);
    let mut i: usize = stack.len();
    assert(v.take(i as int) =~= v);
    while i > 0
        invariant
            i <= stack.len(),
            v == stack_view(stack@),
            lab == label_name(*label),
            break_unsafe(v, lab) == break_unsafe(v.take(i as int), lab),
        decreases i,
    {
        assert(v.take(i as int).drop_last() =~= v.take(i - 1));
        assert(v.take(i as int).last() == scope_view(stack@[i - 1]));
        match &stack[i - 1] {
            ScopeEntry::Finally => return true,
            ScopeEntry::Function => return false,
            ScopeEntry::Switch => if label.is_none() {
                return false;
            },
            ScopeEntry::Loop => if label.is_none() {
                return false;
            },
            ScopeEntry::Label(name) => if same_label(name, label) {
                return false;
            },
        }
        i = i - 1;
    }
    false
}

fn is_continue_unsafe(stack: &Vec<ScopeEntry>, label: &Option<Ident>) -> (r: bool)
    ensures
        r == continue_unsafe(stack_view(stack@), label_name(*label)),
{
    let ghost v = stack_view(stack@);
    let ghost lab = label_name(*label);
    let mut i: usize = stack.len();
    assert(v.take(i as int) =~= v);
    while i > 0
        invariant
            i <= stack.len(),
            v == stack_view(stack@),
            lab == label_name(*label),
            continue_unsafe(v, lab) == continue_unsafe(v.take(i as int), lab),
        decreases i,
    {
        assert(v.take(i as int).drop_last() =~= v.take(i - 1));
        assert(v.take(i as int).last() == scope_view(stack@[i - 1]));
        match &stack[i - 1] {
            ScopeEntry::Finally => return true,
            ScopeEntry::Function => return false,
            ScopeEntry::Loop => if label.is_none() {
                return false;
            },
            ScopeEntry::Label(name) => if same_label(name, label) {
                return false;
            },
            ScopeEntry::Switch => {},
        }
        i = i - 1;
    }
    false
}

fn is_return_or_throw_unsafe(stack: &Vec<ScopeEntry>) -> (r: bool)
    ensures
        r == return_unsafe(stack_view(stack@)),
{
    let ghost v = stack_view(stack@);
    let mut i: usize = stack.len();
    assert(v.take(i as int) =~= v);
    while i > 0
        invariant
            i <= stack.len(),
            v == stack_view(stack@),
            return_unsafe(v) == return_unsafe(v.take(i as int)),
        decreases i,
    {
        assert(v.take(i as int).drop_last() =~= v.take(i - 1));
        assert(v.take(i as int).last() == scope_view(stack@[i - 1]));
        match &stack[i - 1] {
            ScopeEntry::Finally => return true,
            ScopeEntry::Function => return false,
            _ => {},
        }
        i = i - 1;
    }
    false
}

fn add_diagnostic(out: &mut Vec<Diagnostic>, unsafe_jump: bool, span: crate::ast::Span, message: &str)
    ensures
        diag_views(final(out)@) == diag_views(old(out)@) + report(unsafe_jump, span, message@),
{
    if unsafe_jump {
        push_diag(out, Diagnostic::with_hint(span, CODE, String::from_str(message), String::from_str(HINT)));
    }
    assert(diag_views(out@) =~= diag_views(old(out)@) + report(unsafe_jump, span, message@));
}

fn walk_statements(stmts: &Vec<Stmt>, stack: &mut Vec<ScopeEntry>, out: &mut Vec<Diagnostic>)
    ensures
        stack_view(final(stack)@) == stack_view(old(stack)@),
        diag_views(final(out)@) == diag_views(old(out)@) + stmts_diags(
            stack_view(old(stack)@),
            stmts@,
            0,
        ),
    decreases stmts@, 1int,
{
    let ghost st = stack_view(stack@);
    let ghost o = diag_views(out@);
    let mut i: usize = 0;
    while i < stmts.len()
        invariant
            i <= stmts.len(),
            st == stack_view(old(stack)@),
            o == diag_views(old(out)@),
            stack_view(stack@) == st,
            diag_views(out@) + stmts_diags(st, stmts@, i as int) =~= o + stmts_diags(st, stmts@, 0),
        decreases stmts.len() - i,
    {
        walk_statement(&stmts[i], stack, out);
        i = i + 1;
    }
}

fn walk_cases(cases: &Vec<SwitchCase>, stack: &mut Vec<ScopeEntry>, out: &mut Vec<Diagnostic>)
    ensures
        stack_view(final(stack)@) == stack_view(old(stack)@),
        diag_views(final(out)@) == diag_views(old(out)@) + cases_diags(
            stack_view(old(stack)@),
            cases@,
            0,
        ),
    decreases cases@, 1int,
{
    let ghost st = stack_view(stack@);
    let ghost o = diag_views(out@);
    let mut i: usize = 0;
    while i < cases.len()
        invariant
            i <= cases.len(),
            st == stack_view(old(stack)@),
            o == diag_views(old(out)@),
            stack_view(stack@) == st,
            diag_views(out@) + cases_diags(st, cases@, i as int) =~= o + cases_diags(st, cases@, 0),
        decreases cases.len() - i,
    {
        walk_statements(&cases[i].cons, stack, out);
        i = i + 1;
    }
}

fn walk_declarators(decls: &Vec<VarDeclarator>, stack: &mut Vec<ScopeEntry>, out: &mut Vec<Diagnostic>)
    ensures
        stack_view(final(stack)@) == stack_view(old(stack)@),
        diag_views(final(out)@) == diag_views(old(out)@) + decls_diags(
            stack_view(old(stack)@),
            decls@,
            0,
        ),
    decreases decls@, 1int,
{
    let ghost st = stack_view(stack@);
    let ghost o = diag_views(out@);
    let mut i: usize = 0;
    while i < decls.len()
        invariant
            i <= decls.len(),
            st == stack_view(old(stack)@),
            o == diag_views(old(out)@),
            stack_view(stack@) == st,
            diag_views(out@) + decls_diags(st, decls@, i as int) =~= o + decls_diags(st, decls@, 0),
        decreases decls.len() - i,
    {
        match &decls[i].init {
            Some(e) => walk_expression(e, stack, out),
            None => {},
        }
        i = i + 1;
    }
}

/// Walks a body in a new scope.
fn walk_scoped(
    stmts: &Vec<Stmt>,
    scope: ScopeEntry,
    stack: &mut Vec<ScopeEntry>,
    out: &mut Vec<Diagnostic>,
)
    ensures
        stack_view(final(stack)@) == stack_view(old(stack)@),
        diag_views(final(out)@) == diag_views(old(out)@) + stmts_diags(
            stack_view(old(stack)@).push(scope_view(scope)),
            stmts@,
            0,
        ),
    decreases stmts@, 2int,
{
    push_scope(stack, scope);
    walk_statements(stmts, stack, out);
    pop_scope(stack);
}

/// Reports the jumps of a statement that leave a `finally` block, under the
/// scopes of `stack`. Every scope that the walk opens inside the statement it
/// closes again, so the statements after it are checked under the same
/// scopes.
#[verifier::spinoff_prover]
#[verifier::rlimit(40)]
pub fn walk_statement(stmt: &Stmt, stack: &mut Vec<ScopeEntry>, out: &mut Vec<Diagnostic>)
    ensures
        stack_view(final(stack)@) == stack_view(old(stack)@),
        diag_views(final(out)@) == diag_views(old(out)@) + stmt_diags(
            stack_view(old(stack)@),
            *stmt,
        ),
    decreases *stmt, 0int,
{
    let ghost st = stack_view(stack@);
    let ghost o = diag_views(out@);
    match stmt {
        Stmt::Block(b) => walk_statements(&b.stmts, stack, out),
        Stmt::If { cons, alt, .. } => {
            walk_statement(cons, stack, out);
            match alt {
                Some(a) => walk_statement(a, stack, out),
                None => {},
            }
        },
        Stmt::While { body, .. } | Stmt::DoWhile { body, .. } | Stmt::For { body, .. }
        | Stmt::ForIn { body, .. } | Stmt::ForOf { body, .. } => {
            push_scope(stack, ScopeEntry::Loop);
            walk_statement(body, stack, out);
            pop_scope(stack);
        },
        Stmt::Switch { cases, .. } => {
            push_scope(stack, ScopeEntry::Switch);
            walk_cases(cases, stack, out);
            pop_scope(stack);
        },
        Stmt::Labeled { label, body, .. } => {
            push_scope(stack, ScopeEntry::Label(label.name.clone()));
            walk_statement(body, stack, out);
            pop_scope(stack);
        },
        Stmt::Try { block, handler, finalizer, .. } => {
            walk_statements(&block.stmts, stack, out);
            match handler {
                Some(h) => walk_statements(&h.body.stmts, stack, out),
                None => {},
            }
            match finalizer {
                Some(f) => walk_scoped(&f.stmts, ScopeEntry::Finally, stack, out),
                None => {},
            }
        },
        Stmt::Break { span, label } => {
            let u = is_break_unsafe(stack, label);
            add_diagnostic(out, u, *span, BREAK_MESSAGE);
        },
        Stmt::Continue { span, label } => {
            let u = is_continue_unsafe(stack, label);
            add_diagnostic(out, u, *span, CONTINUE_MESSAGE);
        },
        Stmt::Return { span, .. } => {
            let u = is_return_or_throw_unsafe(stack);
            add_diagnostic(out, u, *span, RETURN_MESSAGE);
        },
        Stmt::Throw { span, .. } => {
            let u = is_return_or_throw_unsafe(stack);
            add_diagnostic(out, u, *span, THROW_MESSAGE);
        },
        Stmt::Expr { expr, .. } => walk_expression(expr, stack, out),
        Stmt::Var(d) => walk_declarators(&d.decls, stack, out),
        Stmt::Fn(f) => match &f.body {
            Some(b) => walk_scoped(&b.stmts, ScopeEntry::Function, stack, out),
            None => {},
        },
        Stmt::Class(c) => walk_class_body(&c.members, stack, out),
        _ => {},
    }
    assert(diag_views(out@) =~= o + stmt_diags(st, *stmt));
}

fn walk_expression(expr: &Expr, stack: &mut Vec<ScopeEntry>, out: &mut Vec<Diagnostic>)
    ensures
        stack_view(final(stack)@) == stack_view(old(stack)@),
        diag_views(final(out)@) == diag_views(old(out)@) + expr_diags(
            stack_view(old(stack)@),
            *expr,
        ),
    decreases *expr, 0int,
{
    let ghost st = stack_view(stack@);
    let ghost o = diag_views(out@);
    match expr {
        Expr::Fn(f) => match &f.body {
            Some(b) => walk_scoped(&b.stmts, ScopeEntry::Function, stack, out),
            None => {},
        },
        Expr::Arrow(a) => match &a.body {
            ArrowBody::Block(b) => walk_scoped(&b.stmts, ScopeEntry::Function, stack, out),
            ArrowBody::Expr(x) => {
                push_scope(stack, ScopeEntry::Function);
                walk_expression(x, stack, out);
                pop_scope(stack);
            },
        },
        Expr::Class(c) => walk_class_body(&c.members, stack, out),
        _ => {},
    }
    assert(diag_views(out@) =~= o + expr_diags(st, *expr));
}

fn walk_class_body(members: &Vec<ClassMember>, stack: &mut Vec<ScopeEntry>, out: &mut Vec<Diagnostic>)
    ensures
        stack_view(final(stack)@) == stack_view(old(stack)@),
        diag_views(final(out)@) == diag_views(old(out)@) + members_diags(
            stack_view(old(stack)@),
            members@,
            0,
        ),
    decreases members@, 1int,
{
    let ghost st = stack_view(stack@);
    let ghost o = diag_views(out@);
    let mut i: usize = 0;
    while i < members.len()
        invariant
            i <= members.len(),
            st == stack_view(old(stack)@),
            o == diag_views(old(out)@),
            stack_view(stack@) == st,
            diag_views(out@) + members_diags(st, members@, i as int) =~= o + members_diags(st, members@, 0),
        decreases members.len() - i,
    {
        match &members[i] {
            ClassMember::Method { func, .. } => match &func.body {
                Some(b) => walk_scoped(&b.stmts, ScopeEntry::Function, stack, out),
                None => {},
            },
            ClassMember::Prop { value, .. } => match value {
                Some(v) => walk_expression(v, stack, out),
                None => {},
            },
            ClassMember::Accessor { .. } => {},
            ClassMember::StaticBlock { body, .. } => walk_statements(&body.stmts, stack, out),
        }
        i = i + 1;
    }
}

/// A jump is unsafe only inside a `finally` block: where no scope on the
/// stack is a `finally` block, no `break`, `continue`, `return` or `throw` is
/// unsafe.
pub proof fn lemma_unsafe_needs_finally(stack: Seq<Scope>, label: Option<Seq<char>>)
    requires
        forall|i: int| 0 <= i < stack.len() ==> !(#[trigger] stack[i] is Finally),
    ensures
        !break_unsafe(stack, label),
        !continue_unsafe(stack, label),
        !return_unsafe(stack),
    decreases stack.len(),
{
    if stack.len() > 0 {
        assert(!(stack[stack.len() - 1] is Finally));
        assert forall|i: int| 0 <= i < stack.drop_last().len() implies !(
        #[trigger] stack.drop_last()[i] is Finally) by {
            assert(stack.drop_last()[i] == stack[i]);
        }
        lemma_unsafe_needs_finally(stack.drop_last(), label);
    }
}

/// A function scope shields the jumps inside it: a `return` or `throw`
/// directly in a function that is itself in a `finally` block is safe.
pub proof fn lemma_function_shields(stack: Seq<Scope>)
    ensures
        !return_unsafe(stack.push(Scope::Function)),
        !break_unsafe(stack.push(Scope::Function), None),
        !continue_unsafe(stack.push(Scope::Function), None),
{
    assert(stack.push(Scope::Function).last() == Scope::Function);
}

/// The diagnostics of a program: its statements, with no scope around them.
pub open spec fn program_diags(p: Program) -> Seq<DiagnosticView> {
    stmts_diags(Seq::empty(), p.body@, 0)
}

impl NoUnsafeFinally {
    /// The tags of the rule: it belongs to the recommended set.
    pub fn tags(&self) -> (r: Vec<&'static str>)
        ensures
            crate::tags::tag_views(r@) == seq![crate::tags::RECOMMENDED@],
    {
        crate::tags::recommended()
    }

    pub fn code(&self) -> (r: &'static str)
        ensures
            r@ == CODE@,
    {
        CODE
    }

    /// The diagnostics of the rule on a program, in source order.
    pub fn lint(&self, program: &Program) -> (r: Vec<Diagnostic>)
        ensures
            diag_views(r@) == program_diags(*program),
    {
        let mut stack: Vec<ScopeEntry> = Vec::new();
        let mut out: Vec<Diagnostic> = Vec::new();
        assert(stack_view(stack@) =~= Seq::<Scope>::empty());
        assert(diag_views(out@) =~= Seq::<DiagnosticView>::empty());
        walk_statements(&program.body, &mut stack, &mut out);
        out
    }
}

} // verus!
