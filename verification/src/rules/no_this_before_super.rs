//! `no-this-before-super`: in the constructor of a derived class, `this` and
//! `super` are not to be used before `super()` has been called.
//!
//! Each statement of such a constructor is read in evaluation order, without
//! entering nested functions, until the first of three things appears: a call
//! of `super()`, a `super` access or a `this`. A statement whose first such
//! thing is an access is reported there; the first statement whose first such
//! thing is the call ends the check.

use vstd::prelude::*;
use crate::ast::{
    is_chain, is_optional_chain, Block, Callee, ClassMember, Expr, ExprOrSpread, ForInit, MemberProp, MethodKind, Pat, Program,
    Prop, Span, Stmt, SwitchCase, VarDeclarator,
};
use crate::diagnostic::{Diagnostic, DiagnosticView, diag_views, hinted_diag, push_diag};
use crate::walk::{Event, Node, NodeRef, SEvent, event_views, program_events, walk_program};
use crate::rules::{fold_events, lemma_fold_events_step};

verus! {

pub const CODE: &'static str = "no-this-before-super";

pub const MESSAGE: &'static str = "In the constructor of derived classes, `this` / `super` are not allowed before calling to `super()`.";

pub const HINT: &'static str = "Call `super()` before using `this` or `super` keyword.";

/// Reports `this` and `super` accesses that come before `super()` in the
/// constructors of derived classes.
#[derive(Debug)]
pub struct NoThisBeforeSuper;

/// What a statement meets first.
#[derive(Debug, Clone, Copy)]
pub enum FirstAppeared {
    SuperCalled,
    SuperAccessed(Span),
    ThisAccessed(Span),
}

/// The first of two findings, the second read only where the first found nothing.
pub open spec fn first_of(a: Option<FirstAppeared>, b: Option<FirstAppeared>) -> Option<
    FirstAppeared,
> {
    if a is Some {
        a
    } else {
        b
    }
}

/// What an expression meets first, in evaluation order. Nested functions,
/// class bodies, object methods, JSX and dynamic imports are not entered; the
/// arguments of a call are read before its callee.
pub open spec fn first_in_expr(e: Expr) -> Option<FirstAppeared>
    decreases e, 2int,
{
    match e {
        Expr::This(span) => Some(FirstAppeared::ThisAccessed(span)),
        Expr::Super(span) => Some(FirstAppeared::SuperAccessed(span)),
        Expr::Call { callee, args, .. } => if is_chain(e) {
            None
        } else {
            match callee {
                Callee::Expr(c) => first_of(first_in_args(args@, 0), first_in_expr(*c)),
                Callee::Super(_) => first_of(first_in_args(args@, 0), Some(FirstAppeared::SuperCalled)),
                Callee::Import(_) => None,
            }
        },
        Expr::Member { obj, prop, .. } => if is_chain(e) {
            None
        } else {
            first_in_member(e)
        },
        Expr::Class(c) => match c.super_class {
            Some(s) => first_in_expr(*s),
            None => None,
        },
        Expr::Assign { left, right, .. } => first_of(first_in_expr(*right), first_in_target(*left)),
        Expr::Bin { left, right, .. } => first_of(first_in_expr(*left), first_in_expr(*right)),
        Expr::Cond { test, cons, alt, .. } => first_of(
            first_in_expr(*test),
            first_of(first_in_expr(*cons), first_in_expr(*alt)),
        ),
        Expr::Sequence { exprs, .. } => first_in_exprs(exprs@, 0),
        Expr::Unary { arg, .. } => first_in_expr(*arg),
        Expr::Update { arg, .. } => first_in_simple_target(*arg),
        Expr::Await { arg, .. } => first_in_expr(*arg),
        Expr::Yield { arg, .. } => match arg {
            Some(a) => first_in_expr(*a),
            None => None,
        },
        Expr::New { callee, args, .. } => first_of(first_in_expr(*callee), first_in_args(args@, 0)),
        Expr::Array { elems, .. } => first_in_elems(elems@, 0),
        Expr::Object { props, .. } => first_in_props(props@, 0),
        Expr::Template { exprs, .. } => first_in_exprs(exprs@, 0),
        Expr::TaggedTemplate { tag, exprs, .. } => first_of(
            first_in_expr(*tag),
            first_in_exprs(exprs@, 0),
        ),
        Expr::Paren { expr, .. } => first_in_expr(*expr),
        Expr::TsAs { expr, .. } => first_in_expr(*expr),
        Expr::TsSatisfies { expr, .. } => first_in_expr(*expr),
        Expr::TsTypeAssertion { expr, .. } => first_in_expr(*expr),
        Expr::TsNonNull { expr, .. } => first_in_expr(*expr),
        Expr::TsInstantiation { expr, .. } => first_in_expr(*expr),
        _ => None,
    }
}

/// A member access: its object, then a computed property.
pub open spec fn first_in_member(e: Expr) -> Option<FirstAppeared>
    decreases e, 0int,
{
    match e {
        Expr::Member { obj, prop, .. } => first_of(
            first_in_expr(*obj),
            match prop {
                MemberProp::Computed(x) => first_in_expr(*x),
                _ => None,
            },
        ),
        _ => None,
    }
}

/// An expression in the place of a simple assignment target: a member access
/// or a TypeScript wrapper around one; anything else is not read.
pub open spec fn first_in_simple_target(e: Expr) -> Option<FirstAppeared>
    decreases e, 1int,
{
    match e {
        Expr::Member { .. } => first_in_member(e),
        Expr::TsAs { expr, .. } => first_in_expr(*expr),
        Expr::TsSatisfies { expr, .. } => first_in_expr(*expr),
        Expr::TsTypeAssertion { expr, .. } => first_in_expr(*expr),
        Expr::TsNonNull { expr, .. } => first_in_expr(*expr),
        _ => None,
    }
}

/// The left side of an assignment; destructuring patterns are not read.
pub open spec fn first_in_target(p: Pat) -> Option<FirstAppeared>
    decreases p, 0int,
{
    match p {
        Pat::Expr(x) => first_in_simple_target(*x),
        _ => None,
    }
}

pub open spec fn first_in_exprs(s: Seq<Expr>, i: int) -> Option<FirstAppeared>
    decreases s, s.len() - i,
{
    if 0 <= i < s.len() {
        first_of(first_in_expr(s[i]), first_in_exprs(s, i + 1))
    } else {
        None
    }
}

pub open spec fn first_in_args(s: Seq<ExprOrSpread>, i: int) -> Option<FirstAppeared>
    decreases s, s.len() - i,
{
    if 0 <= i < s.len() {
        first_of(first_in_expr(s[i].expr), first_in_args(s, i + 1))
    } else {
        None
    }
}

pub open spec fn first_in_elems(s: Seq<Option<ExprOrSpread>>, i: int) -> Option<FirstAppeared>
    decreases s, s.len() - i,
{
    if 0 <= i < s.len() {
        first_of(
            match s[i] {
                Some(x) => first_in_expr(x.expr),
                None => None,
            },
            first_in_elems(s, i + 1),
        )
    } else {
        None
    }
}

/// The properties of an object literal: the value of each `key: value`
/// property and the argument of each spread; keys and methods are not read.
pub open spec fn first_in_props(s: Seq<Prop>, i: int) -> Option<FirstAppeared>
    decreases s, s.len() - i,
{
    if 0 <= i < s.len() {
        first_of(
            match s[i] {
                Prop::KeyValue { value, .. } => first_in_expr(value),
                Prop::Spread { expr, .. } => first_in_expr(expr),
                _ => None,
            },
            first_in_props(s, i + 1),
        )
    } else {
        None
    }
}

/// What a statement meets first. Of a `for` statement only the initializer is
/// read, of `while` and `do`-`while` only the condition, of `try` only the
/// protected block; other kinds of statement are not read.
pub open spec fn first_in_stmt(s: Stmt) -> Option<FirstAppeared>
    decreases s, 0int,
{
    match s {
        Stmt::Expr { expr, .. } => first_in_expr(expr),
        Stmt::Var(d) => first_in_decls(d.decls@, 0),
        Stmt::Return { arg, .. } => match arg {
            Some(a) => first_in_expr(a),
            None => None,
        },
        Stmt::Throw { arg, .. } => first_in_expr(arg),
        Stmt::If { test, cons, alt, .. } => first_of(
            first_in_expr(test),
            first_of(
                first_in_stmt(*cons),
                match alt {
                    Some(a) => first_in_stmt(*a),
                    None => None,
                },
            ),
        ),
        Stmt::Block(b) => first_in_stmts(b.stmts@, 0),
        Stmt::For { init, .. } => match init {
            Some(ForInit::Var(d)) => first_in_decls(d.decls@, 0),
            Some(ForInit::Expr(e)) => first_in_expr(e),
            None => None,
        },
        Stmt::While { test, .. } => first_in_expr(test),
        Stmt::DoWhile { test, .. } => first_in_expr(test),
        Stmt::Switch { discriminant, cases, .. } => first_of(
            first_in_expr(discriminant),
            first_in_cases(cases@, 0),
        ),
        Stmt::Try { block, .. } => first_in_stmts(block.stmts@, 0),
        _ => None,
    }
}

pub open spec fn first_in_decls(s: Seq<VarDeclarator>, i: int) -> Option<FirstAppeared>
    decreases s, s.len() - i,
{
    if 0 <= i < s.len() {
        first_of(
            match s[i].init {
                Some(e) => first_in_expr(e),
                None => None,
            },
            first_in_decls(s, i + 1),
        )
    } else {
        None
    }
}

pub open spec fn first_in_stmts(s: Seq<Stmt>, i: int) -> Option<FirstAppeared>
    decreases s, s.len() - i,
{
    if 0 <= i < s.len() {
        first_of(first_in_stmt(s[i]), first_in_stmts(s, i + 1))
    } else {
        None
    }
}

pub open spec fn first_in_cases(s: Seq<SwitchCase>, i: int) -> Option<FirstAppeared>
    decreases s, s.len() - i,
{
    if 0 <= i < s.len() {
        first_of(
            first_of(
                match s[i].test {
                    Some(t) => first_in_expr(t),
                    None => None,
                },
                first_in_stmts(s[i].cons@, 0),
            ),
            first_in_cases(s, i + 1),
        )
    } else {
        None
    }
}

/// The diagnostics of a constructor body from its `i`-th statement on: one for
/// each statement that meets an access first, until a statement that meets the
/// call of `super()` first.
pub open spec fn ctor_diags(stmts: Seq<Stmt>, i: int) -> Seq<DiagnosticView>
    decreases stmts.len() - i,
{
    if 0 <= i < stmts.len() {
        match first_in_stmt(stmts[i]) {
            None => ctor_diags(stmts, i + 1),
            Some(FirstAppeared::SuperCalled) => Seq::empty(),
            Some(FirstAppeared::ThisAccessed(span)) => seq![
                hinted_diag(span, CODE@, MESSAGE@, HINT@),
            ] + ctor_diags(stmts, i + 1),
            Some(FirstAppeared::SuperAccessed(span)) => seq![
                hinted_diag(span, CODE@, MESSAGE@, HINT@),
            ] + ctor_diags(stmts, i + 1),
        }
    } else {
        Seq::empty()
    }
}

/// The first finding of a statement, as the statement is read.
pub struct StmtChecker {
    pub result: Option<FirstAppeared>,
}

impl StmtChecker {
    fn record_this(&mut self, span: Span)
        ensures
            final(self).result == first_of(
                old(self).result,
                Some(FirstAppeared::ThisAccessed(span)),
            ),
    {
        if self.result.is_none() {
            self.result = Some(FirstAppeared::ThisAccessed(span));
        }
    }

    fn record_super_access(&mut self, span: Span)
        ensures
            final(self).result == first_of(
                old(self).result,
                Some(FirstAppeared::SuperAccessed(span)),
            ),
    {
        if self.result.is_none() {
            self.result = Some(FirstAppeared::SuperAccessed(span));
        }
    }

    fn record_super_call(&mut self)
        ensures
            final(self).result == first_of(old(self).result, Some(FirstAppeared::SuperCalled)),
    {
        if self.result.is_none() {
            self.result = Some(FirstAppeared::SuperCalled);
        }
    }
}

#[verifier::spinoff_prover]
#[verifier::rlimit(40)]
fn check_expression(checker: &mut StmtChecker, expr: &Expr)
    ensures
        final(checker).result == first_of(old(checker).result, first_in_expr(*expr)),
    decreases *expr, 2int,
{
    if checker.result.is_some() {
        return;
    }
    match expr {
        Expr::This(span) => checker.record_this(*span),
        Expr::Super(span) => checker.record_super_access(*span),
        Expr::Call { .. } => {
            if !is_optional_chain(expr) {
                check_call_expression(checker, expr);
            }
        },
        Expr::Member { .. } => {
            if !is_optional_chain(expr) {
                check_member_expr(checker, expr);
            }
        },
        Expr::Class(c) => match &c.super_class {
            Some(s) => check_expression(checker, s),
            None => {},
        },
        Expr::Assign { left, right, .. } => {
            check_expression(checker, right);
            check_assignment_target(checker, left);
        },
        Expr::Bin { left, right, .. } => {
            check_expression(checker, left);
            check_expression(checker, right);
        },
        Expr::Cond { test, cons, alt, .. } => {
            check_expression(checker, test);
            check_expression(checker, cons);
            check_expression(checker, alt);
        },
        Expr::Sequence { exprs, .. } => check_expressions(checker, exprs),
        Expr::Unary { arg, .. } => check_expression(checker, arg),
        Expr::Update { arg, .. } => check_simple_assign_target_expr(checker, arg),
        Expr::Await { arg, .. } => check_expression(checker, arg),
        Expr::Yield { arg, .. } => match arg {
            Some(a) => check_expression(checker, a),
            None => {},
        },
        Expr::New { callee, args, .. } => {
            check_expression(checker, callee);
            check_arguments(checker, args);
        },
        Expr::Array { elems, .. } => check_elements(checker, elems),
        Expr::Object { props, .. } => check_properties(checker, props),
        Expr::Template { exprs, .. } => check_expressions(checker, exprs),
        Expr::TaggedTemplate { tag, exprs, .. } => {
            check_expression(checker, tag);
            check_expressions(checker, exprs);
        },
        Expr::Paren { expr, .. } => check_expression(checker, expr),
        Expr::TsAs { expr, .. } => check_expression(checker, expr),
        Expr::TsSatisfies { expr, .. } => check_expression(checker, expr),
        Expr::TsTypeAssertion { expr, .. } => check_expression(checker, expr),
        Expr::TsNonNull { expr, .. } => check_expression(checker, expr),
        Expr::TsInstantiation { expr, .. } => check_expression(checker, expr),
        _ => {},
    }
}

fn check_expressions(checker: &mut StmtChecker, v: &Vec<Expr>)
    ensures
        final(checker).result == first_of(old(checker).result, first_in_exprs(v@, 0)),
    decreases v@, 3int,
{
    let ghost r0 = checker.result;
    let mut i: usize = 0;
    while i < v.len()
        invariant
            i <= v.len(),
            first_of(checker.result, first_in_exprs(v@, i as int)) == first_of(
                r0,
                first_in_exprs(v@, 0),
            ),
        decreases v.len() - i,
    {
        check_expression(checker, &v[i]);
        i = i + 1;
    }
}

fn check_argument(checker: &mut StmtChecker, arg: &ExprOrSpread)
    ensures
        final(checker).result == first_of(old(checker).result, first_in_expr(arg.expr)),
    decreases *arg, 3int,
{
    check_expression(checker, &arg.expr);
}

fn check_arguments(checker: &mut StmtChecker, v: &Vec<ExprOrSpread>)
    ensures
        final(checker).result == first_of(old(checker).result, first_in_args(v@, 0)),
    decreases v@, 4int,
{
    let ghost r0 = checker.result;
    let mut i: usize = 0;
    while i < v.len()
        invariant
            i <= v.len(),
            first_of(checker.result, first_in_args(v@, i as int)) == first_of(
                r0,
                first_in_args(v@, 0),
            ),
        decreases v.len() - i,
    {
        check_argument(checker, &v[i]);
        i = i + 1;
    }
}

fn check_elements(checker: &mut StmtChecker, v: &Vec<Option<ExprOrSpread>>)
    ensures
        final(checker).result == first_of(old(checker).result, first_in_elems(v@, 0)),
    decreases v@, 3int,
{
    let ghost r0 = checker.result;
    let mut i: usize = 0;
    while i < v.len()
        invariant
            i <= v.len(),
            first_of(checker.result, first_in_elems(v@, i as int)) == first_of(
                r0,
                first_in_elems(v@, 0),
            ),
        decreases v.len() - i,
    {
        match &v[i] {
            Some(x) => check_expression(checker, &x.expr),
            None => {},
        }
        i = i + 1;
    }
}

fn check_properties(checker: &mut StmtChecker, v: &Vec<Prop>)
    ensures
        final(checker).result == first_of(old(checker).result, first_in_props(v@, 0)),
    decreases v@, 3int,
{
    let ghost r0 = checker.result;
    let mut i: usize = 0;
    while i < v.len()
        invariant
            i <= v.len(),
            first_of(checker.result, first_in_props(v@, i as int)) == first_of(
                r0,
                first_in_props(v@, 0),
            ),
        decreases v.len() - i,
    {
        match &v[i] {
            Prop::KeyValue { value, .. } => check_expression(checker, value),
            Prop::Spread { expr, .. } => check_expression(checker, expr),
            _ => {},
        }
        i = i + 1;
    }
}

/// A simple assignment target, as the operand of `++` or `--` or the left side
/// of an assignment.
fn check_simple_assign_target_expr(checker: &mut StmtChecker, expr: &Expr)
    ensures
        final(checker).result == first_of(old(checker).result, first_in_simple_target(*expr)),
    decreases *expr, 1int,
{
    match expr {
        Expr::Member { .. } => check_member_expr(checker, expr),
        Expr::TsAs { expr, .. } => check_expression(checker, expr),
        Expr::TsSatisfies { expr, .. } => check_expression(checker, expr),
        Expr::TsTypeAssertion { expr, .. } => check_expression(checker, expr),
        Expr::TsNonNull { expr, .. } => check_expression(checker, expr),
        _ => {},
    }
}

fn check_member_expr(checker: &mut StmtChecker, member: &Expr)
    ensures
        final(checker).result == first_of(old(checker).result, first_in_member(*member)),
    decreases *member, 0int,
{
    match member {
        Expr::Member { obj, prop, .. } => {
            check_expression(checker, obj);
            match prop {
                MemberProp::Computed(x) => check_expression(checker, x),
                _ => {},
            }
        },
        _ => {},
    }
}

fn check_assignment_target(checker: &mut StmtChecker, target: &Pat)
    ensures
        final(checker).result == first_of(old(checker).result, first_in_target(*target)),
    decreases *target, 0int,
{
    match target {
        Pat::Expr(x) => check_simple_assign_target_expr(checker, x),
        _ => {},
    }
}

/// A call: its arguments first, then its callee; a `super()` callee is the call
/// of the parent constructor.
fn check_call_expression(checker: &mut StmtChecker, call: &Expr)
    requires
        call is Call,
        !is_chain(*call),
    ensures
        final(checker).result == first_of(old(checker).result, first_in_expr(*call)),
    decreases *call, 1int,
{
    match call {
        Expr::Call { callee, args, .. } => match callee {
            Callee::Expr(c) => {
                check_arguments(checker, args);
                check_expression(checker, c);
            },
            Callee::Super(_) => {
                check_arguments(checker, args);
                checker.record_super_call();
            },
            Callee::Import(_) => {},
        },
        _ => {},
    }
}

#[verifier::spinoff_prover]
#[verifier::rlimit(40)]
/// Reads a statement after what was read before: the first finding is kept,
/// and a statement read after a finding changes nothing.
pub fn check_statement(checker: &mut StmtChecker, stmt: &Stmt)
    ensures
        final(checker).result == first_of(old(checker).result, first_in_stmt(*stmt)),
        old(checker).result is Some ==> final(checker).result == old(checker).result,
    decreases *stmt, 0int,
{
    if checker.result.is_some() {
        return;
    }
    match stmt {
        Stmt::Expr { expr, .. } => check_expression(checker, expr),
        Stmt::Var(d) => check_declarators(checker, &d.decls),
        Stmt::Return { arg, .. } => match arg {
            Some(a) => check_expression(checker, a),
            None => {},
        },
        Stmt::Throw { arg, .. } => check_expression(checker, arg),
        Stmt::If { test, cons, alt, .. } => {
            check_expression(checker, test);
            check_statement(checker, cons);
            match alt {
                Some(a) => check_statement(checker, a),
                None => {},
            }
        },
        Stmt::Block(b) => check_statements(checker, &b.stmts),
        Stmt::For { init, .. } => match init {
            Some(ForInit::Var(d)) => check_declarators(checker, &d.decls),
            Some(ForInit::Expr(e)) => check_expression(checker, e),
            None => {},
        },
        Stmt::While { test, .. } => check_expression(checker, test),
        Stmt::DoWhile { test, .. } => check_expression(checker, test),
        Stmt::Switch { discriminant, cases, .. } => {
            check_expression(checker, discriminant);
            check_cases(checker, cases);
        },
        Stmt::Try { block, .. } => check_statements(checker, &block.stmts),
        _ => {},
    }
}

fn check_statements(checker: &mut StmtChecker, v: &Vec<Stmt>)
    ensures
        final(checker).result == first_of(old(checker).result, first_in_stmts(v@, 0)),
    decreases v@, 1int,
{
    let ghost r0 = checker.result;
    let mut i: usize = 0;
    while i < v.len()
        invariant
            i <= v.len(),
            first_of(checker.result, first_in_stmts(v@, i as int)) == first_of(
                r0,
                first_in_stmts(v@, 0),
            ),
        decreases v.len() - i,
    {
        check_statement(checker, &v[i]);
        i = i + 1;
    }
}

fn check_declarators(checker: &mut StmtChecker, v: &Vec<VarDeclarator>)
    ensures
        final(checker).result == first_of(old(checker).result, first_in_decls(v@, 0)),
    decreases v@, 1int,
{
    let ghost r0 = checker.result;
    let mut i: usize = 0;
    while i < v.len()
        invariant
            i <= v.len(),
            first_of(checker.result, first_in_decls(v@, i as int)) == first_of(
                r0,
                first_in_decls(v@, 0),
            ),
        decreases v.len() - i,
    {
        match &v[i].init {
            Some(e) => check_expression(checker, e),
            None => {},
        }
        i = i + 1;
    }
}

fn check_cases(checker: &mut StmtChecker, v: &Vec<SwitchCase>)
    ensures
        final(checker).result == first_of(old(checker).result, first_in_cases(v@, 0)),
    decreases v@, 1int,
{
    let ghost r0 = checker.result;
    let mut i: usize = 0;
    while i < v.len()
        invariant
            i <= v.len(),
            first_of(checker.result, first_in_cases(v@, i as int)) == first_of(
                r0,
                first_in_cases(v@, 0),
            ),
        decreases v.len() - i,
    {
        match &v[i].test {
            Some(t) => check_expression(checker, t),
            None => {},
        }
        check_statements(checker, &v[i].cons);
        i = i + 1;
    }
}

/// What a statement meets first.
pub fn check_stmt_for_this_before_super(stmt: &Stmt) -> (r: Option<FirstAppeared>)
    ensures
        r == first_in_stmt(*stmt),
{
    let mut checker = StmtChecker { result: None };
    check_statement(&mut checker, stmt);
    checker.result
}

/// Once an occurrence of `this`, `super` or `super()` is found, nothing that
/// comes later replaces it: in a list of statements, the first statement
/// that meets one decides what the list meets.
pub proof fn lemma_first_occurrence_kept(stmts: Seq<Stmt>, i: int, r: FirstAppeared)
    requires
        0 <= i < stmts.len(),
        first_in_stmt(stmts[i]) == Some(r),
        forall|j: int| 0 <= j < i ==> (#[trigger] first_in_stmt(stmts[j])) is None,
    ensures
        first_in_stmts(stmts, 0) == Some(r),
        forall|later: Option<FirstAppeared>| first_of(Some(r), later) == Some(r),
    decreases i,
{
    lemma_first_from(stmts, 0, i, r);
}

proof fn lemma_first_from(stmts: Seq<Stmt>, k: int, i: int, r: FirstAppeared)
    requires
        0 <= k <= i < stmts.len(),
        first_in_stmt(stmts[i]) == Some(r),
        forall|j: int| 0 <= j < i ==> (#[trigger] first_in_stmt(stmts[j])) is None,
    ensures
        first_in_stmts(stmts, k) == Some(r),
    decreases i - k,
{
    if k < i {
        lemma_first_from(stmts, k + 1, i, r);
        assert(first_in_stmt(stmts[k]) is None);
    }
}

/// Reports the statements of a constructor body that meet `this` or `super`
/// before a call of `super()`.
fn check_constructor_body(body: &Block, out: &mut Vec<Diagnostic>)
    ensures
        diag_views(final(out)@) == diag_views(old(out)@) + ctor_diags(body.stmts@, 0),
{
    let ghost o = diag_views(out@);
    let stmts = &body.stmts;
    let mut i: usize = 0;
    while i < stmts.len()
        invariant
            i <= stmts.len(),
            o == diag_views(old(out)@),
            stmts@ == body.stmts@,
            diag_views(out@) + ctor_diags(stmts@, i as int) == o + ctor_diags(stmts@, 0),
        decreases stmts.len() - i,
    {
        let ghost before = diag_views(out@);
        match check_stmt_for_this_before_super(&stmts[i]) {
            None => {},
            Some(FirstAppeared::SuperCalled) => {
                assert(ctor_diags(stmts@, i as int) =~= Seq::<DiagnosticView>::empty());
                assert(diag_views(out@) =~= o + ctor_diags(stmts@, 0));
                return;
            },
            Some(FirstAppeared::ThisAccessed(span)) => {
                push_diag(out, Diagnostic::with_hint(span, CODE, String::from_str(MESSAGE), String::from_str(HINT)));
                assert(diag_views(out@) + ctor_diags(stmts@, i + 1) =~= before + ctor_diags(stmts@, i as int));
            },
            Some(FirstAppeared::SuperAccessed(span)) => {
                push_diag(out, Diagnostic::with_hint(span, CODE, String::from_str(MESSAGE), String::from_str(HINT)));
                assert(diag_views(out@) + ctor_diags(stmts@, i + 1) =~= before + ctor_diags(stmts@, i as int));
            },
        }
        i = i + 1;
    }
    assert(diag_views(out@) =~= o + ctor_diags(stmts@, 0));
}

/// What a class member reports, given for each enclosing class whether it is
/// derived: a constructor with a body, directly inside a derived class, is
/// checked.
pub open spec fn member_diags(derived: Seq<bool>, m: ClassMember) -> Seq<DiagnosticView> {
    match m {
        ClassMember::Method { func, kind, .. } => if kind == MethodKind::Constructor && derived.len() > 0
            && derived.last() {
            match func.body {
                Some(b) => ctor_diags(b.stmts@, 0),
                None => Seq::empty(),
            }
        } else {
            Seq::empty()
        },
        _ => Seq::empty(),
    }
}

/// One event for a state that holds, for each enclosing class, whether it has
/// a super class.
pub open spec fn step(derived: Seq<bool>, e: SEvent) -> (Seq<bool>, Seq<DiagnosticView>) {
    match e {
        SEvent::Enter(Node::Class(c)) => (derived.push(c.super_class is Some), Seq::empty()),
        SEvent::Exit(Node::Class(_)) => (
            if derived.len() > 0 {
                derived.drop_last()
            } else {
                derived
            },
            Seq::empty(),
        ),
        SEvent::Enter(Node::ClassMember(m)) => (derived, member_diags(derived, m)),
        _ => (derived, Seq::empty()),
    }
}

pub open spec fn step_fn() -> spec_fn(Seq<bool>, SEvent) -> (Seq<bool>, Seq<DiagnosticView>) {
    |derived: Seq<bool>, e: SEvent| step(derived, e)
}

/// The classes that enclose the current node, innermost last.
struct NoThisBeforeSuperHandler {
    is_derived_class: Vec<bool>,
}

impl NoThisBeforeSuperHandler {
    fn inside_derived_class(&self) -> (r: bool)
        ensures
            r == (self.is_derived_class@.len() > 0 && self.is_derived_class@.last()),
    {
        let n = self.is_derived_class.len();
        if n == 0 {
            false
        } else {
            self.is_derived_class[n - 1]
        }
    }

    fn class(&mut self, n: &crate::ast::Class)
        ensures
            final(self).is_derived_class@ == old(self).is_derived_class@.push(
                n.super_class is Some,
            ),
    {
        self.is_derived_class.push(n.super_class.is_some());
    }

    fn class_exit(&mut self)
        ensures
            final(self).is_derived_class@ == if old(self).is_derived_class@.len() > 0 {
                old(self).is_derived_class@.drop_last()
            } else {
                old(self).is_derived_class@
            },
    {
        self.is_derived_class.pop();
    }

    fn method_definition(&self, n: &ClassMember, out: &mut Vec<Diagnostic>)
        ensures
            diag_views(final(out)@) == diag_views(old(out)@) + member_diags(
                self.is_derived_class@,
                *n,
            ),
    {
        match n {
            ClassMember::Method { func, kind, .. } => {
                if *kind == MethodKind::Constructor && self.inside_derived_class() {
                    match &func.body {
                        Some(body) => check_constructor_body(body, out),
                        None => {
                            assert(diag_views(out@) =~= diag_views(out@) + Seq::empty());
                        },
                    }
                } else {
                    assert(diag_views(out@) =~= diag_views(out@) + Seq::empty());
                }
            },
            _ => {
                assert(diag_views(out@) =~= diag_views(out@) + Seq::empty());
            },
        }
    }
}

impl NoThisBeforeSuper {
    /// The tags of the rule: it belongs to the recommended set.
    pub fn tags(&self) -> (r: Vec<&'static str>)
        ensures
            crate::tags::tag_views(r@) == seq![crate::tags::RECOMMENDED@],
    {
        crate::tags::recommended()
    }

    pub fn code(&self) -> (r: &'static str)
        ensures
            r@ == CODE@,
    {
        CODE
    }

    /// The diagnostics of the rule on a program, in source order.
    pub fn lint(&self, program: &Program) -> (r: Vec<Diagnostic>)
        ensures
            diag_views(r@) == fold_events(
                program_events(*program),
                Seq::<bool>::empty(),
                step_fn(),
            ).1,
    {
        let events = walk_program(program);
        let ghost evs = event_views(events@);
        let mut out: Vec<Diagnostic> = Vec::new();
        let mut handler = NoThisBeforeSuperHandler { is_derived_class: Vec::new() };
        assert(diag_views(out@) =~= Seq::<DiagnosticView>::empty());
        let mut i: usize = 0;
        while i < events.len()
            invariant
                evs == event_views(events@),
                i <= events.len(),
                fold_events(evs.take(i as int), Seq::<bool>::empty(), step_fn()) == (
                    handler.is_derived_class@,
                    diag_views(out@),
                ),
            decreases events.len() - i,
        {
            proof {
                lemma_fold_events_step(evs, i as int, Seq::<bool>::empty(), step_fn());
            }
            let ghost before = diag_views(out@);
            match events[i] {
                Event::Enter(NodeRef::Class(c)) => handler.class(c),
                Event::Exit(NodeRef::Class(_)) => handler.class_exit(),
                Event::Enter(NodeRef::ClassMember(m)) => handler.method_definition(m, &mut out),
                _ => {},
            }
            assert(diag_views(out@) =~= before + step(
                fold_events(evs.take(i as int), Seq::<bool>::empty(), step_fn()).0,
                evs[i as int],
            ).1);
            i = i + 1;
        }
        assert(evs.take(events.len() as int) =~= evs);
        out
    }
}

proof fn lemma_ctor_diags_stop(stmts: Seq<Stmt>, k: int, i: int)
    requires
        0 <= i <= k < stmts.len(),
        first_in_stmt(stmts[k]) == Some(FirstAppeared::SuperCalled),
    ensures
        ctor_diags(stmts, i) == ctor_diags(stmts.take(k), i),
    decreases k - i,
{
    if i < k {
        lemma_ctor_diags_stop(stmts, k, i + 1);
        assert(stmts.take(k)[i] == stmts[i]);
    } else {
        assert(ctor_diags(stmts.take(k), i) =~= Seq::<DiagnosticView>::empty());
    }
}

/// The check of a constructor ends at the first statement that calls
/// `super()` before any access: the statements after it do not change what is
/// reported.
pub proof fn lemma_super_call_ends_check(stmts: Seq<Stmt>, k: int)
    requires
        0 <= k < stmts.len(),
        first_in_stmt(stmts[k]) == Some(FirstAppeared::SuperCalled),
    ensures
        ctor_diags(stmts, 0) == ctor_diags(stmts.take(k), 0),
{
    lemma_ctor_diags_stop(stmts, k, 0);
}

/// Whether no class entered in a list of events has a super class.
pub open spec fn no_derived_class(evs: Seq<SEvent>) -> bool {
    forall|i: int|
        0 <= i < evs.len() ==> match #[trigger] evs[i] {
            SEvent::Enter(Node::Class(c)) => c.super_class is None,
            _ => true,
        }
}

proof fn lemma_no_derived_fold(evs: Seq<SEvent>)
    requires
        no_derived_class(evs),
    ensures
        forall|j: int|
            0 <= j < fold_events(evs, Seq::<bool>::empty(), step_fn()).0.len() ==> !(#[trigger] fold_events(
                evs,
                Seq::<bool>::empty(),
                step_fn(),
            ).0[j]),
        fold_events(evs, Seq::<bool>::empty(), step_fn()).1 == Seq::<DiagnosticView>::empty(),
    decreases evs.len(),
{
    if evs.len() > 0 {
        let front = evs.drop_last();
        assert forall|i: int| 0 <= i < front.len() implies match #[trigger] front[i] {
            SEvent::Enter(Node::Class(c)) => c.super_class is None,
            _ => true,
        } by {
            assert(front[i] == evs[i]);
        }
        lemma_no_derived_fold(front);
        let (st, d) = fold_events(front, Seq::<bool>::empty(), step_fn());
        let e = evs.last();
        assert(match evs[evs.len() - 1] {
            SEvent::Enter(Node::Class(c)) => c.super_class is None,
            _ => true,
        });
        assert(step_fn()(st, e) == step(st, e));
        if st.len() > 0 {
            assert(!st[st.len() - 1]);
        }
        let (st2, d2) = step(st, e);
        assert(d2 =~= Seq::<DiagnosticView>::empty());
        assert forall|j: int| 0 <= j < st2.len() implies !(#[trigger] st2[j]) by {
            if j < st.len() {
                assert(st2[j] == st[j]);
            }
        }
        assert(d + d2 =~= Seq::<DiagnosticView>::empty());
    }
}

/// A program without derived classes gets no diagnostics: only the
/// constructors of classes with a super class are read.
pub proof fn lemma_no_derived_class_no_diags(program: Program)
    requires
        no_derived_class(program_events(program)),
    ensures
        fold_events(program_events(program), Seq::<bool>::empty(), step_fn()).1 == Seq::<
            DiagnosticView,
        >::empty(),
{
    lemma_no_derived_fold(program_events(program));
}


/// An `if` statement is read in order: its test, then its consequent, then
/// its alternate; the first of them that meets `this`, `super` or `super()`
/// decides what the statement meets.
pub proof fn lemma_if_reads_test_then_branches(span: Span, test: Expr, cons: Stmt, alt: Option<Box<Stmt>>)
    ensures
        ({
            let s = Stmt::If { span, test, cons: Box::new(cons), alt };
            &&& first_in_expr(test) is Some ==> first_in_stmt(s) == first_in_expr(test)
            &&& first_in_expr(test) is None && first_in_stmt(cons) is Some ==> first_in_stmt(s)
                == first_in_stmt(cons)
            &&& first_in_expr(test) is None && first_in_stmt(cons) is None ==> first_in_stmt(s) == match alt {
                Some(a) => first_in_stmt(*a),
                None => None,
            }
        }),
{
}

/// An `if` whose test meets nothing and whose two branches each call
/// `super()` before any access calls `super()`: in a constructor, nothing
/// after it is reported.
pub proof fn lemma_super_in_both_branches(stmts: Seq<Stmt>, k: int, span: Span, test: Expr, cons: Stmt, alt: Stmt)
    requires
        0 <= k < stmts.len(),
        stmts[k] == (Stmt::If { span, test, cons: Box::new(cons), alt: Some(Box::new(alt)) }),
        first_in_expr(test) is None,
        first_in_stmt(cons) == Some(FirstAppeared::SuperCalled),
        first_in_stmt(alt) == Some(FirstAppeared::SuperCalled),
    ensures
        first_in_stmt(stmts[k]) == Some(FirstAppeared::SuperCalled),
        ctor_diags(stmts, 0) == ctor_diags(stmts.take(k), 0),
{
    lemma_if_reads_test_then_branches(span, test, cons, Some(Box::new(alt)));
    lemma_super_call_ends_check(stmts, k);
}


/// `this` and `super` are found where they stand; a call of `super()` reads
/// its arguments first, and is found when they meet nothing.
pub proof fn lemma_accesses_and_super_call(span: Span, cspan: Span, args: Vec<ExprOrSpread>, optional: bool)
    ensures
        first_in_expr(Expr::This(span)) == Some(FirstAppeared::ThisAccessed(span)),
        first_in_expr(Expr::Super(span)) == Some(FirstAppeared::SuperAccessed(span)),
        first_in_args(args@, 0) is None && !is_chain(Expr::Call { span, callee: Callee::Super(cspan), args, optional })
            ==> first_in_expr(Expr::Call { span, callee: Callee::Super(cspan), args, optional }) == Some(
            FirstAppeared::SuperCalled,
        ),
        first_in_args(args@, 0) is Some && !is_chain(Expr::Call { span, callee: Callee::Super(cspan), args, optional })
            ==> first_in_expr(Expr::Call { span, callee: Callee::Super(cspan), args, optional })
            == first_in_args(args@, 0),
{
}

/// Statements are read as they run: an expression statement, a `return` or a
/// `throw` reads its expression; a block and a `try` read their statements in
/// order; a `switch` reads its discriminant before its cases; a `while` and a
/// `do`-`while` read their condition.
pub proof fn lemma_statements_read_in_order(span: Span, e: Expr, b: Block, cases: Vec<SwitchCase>, body: Box<Stmt>)
    ensures
        first_in_stmt(Stmt::Expr { span, expr: e }) == first_in_expr(e),
        first_in_stmt(Stmt::Return { span, arg: Some(e) }) == first_in_expr(e),
        first_in_stmt(Stmt::Throw { span, arg: e }) == first_in_expr(e),
        first_in_stmt(Stmt::Block(b)) == first_in_stmts(b.stmts@, 0),
        first_in_stmt(Stmt::Try { span, block: b, handler: None, finalizer: None }) == first_in_stmts(
            b.stmts@,
            0,
        ),
        first_in_expr(e) is Some ==> first_in_stmt(Stmt::Switch { span, discriminant: e, cases })
            == first_in_expr(e),
        first_in_expr(e) is None ==> first_in_stmt(Stmt::Switch { span, discriminant: e, cases })
            == first_in_cases(cases@, 0),
        first_in_stmt(Stmt::While { span, test: e, body }) == first_in_expr(e),
        first_in_stmt(Stmt::DoWhile { span, body, test: e }) == first_in_expr(e),
{
}

} // verus!
