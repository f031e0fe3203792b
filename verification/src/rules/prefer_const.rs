//! `prefer-const`: a `let` whose variables are never reassigned is better
//! written `const`.
//!
//! The rule reads the program twice. The first pass builds a tree of scopes
//! of its own, each opened by a construct and found again by that
//! construct's span, and records the variables that `let` declares, the
//! parameters and the `catch` parameters, each with a status: declared,
//! initialized or reassigned. The variables that one destructuring declares
//! form one group, which shares a status. The second pass resolves the name
//! of each assignment and each `++`/`--` in that tree, from the innermost
//! scope out, and moves the status of the declaration's group on: one step
//! for an assignment statement, straight to reassigned for an assignment
//! inside an expression, for one made from another scope than the
//! declaration's, and for a destructuring that also assigns a property.
//! The declarations whose group ends initialized are reported, ordered by
//! where they stand.

use vstd::prelude::*;
use crate::ast::{
    ids_view, pat_ids, pat_ids_of, push_pat_ids, stmt_span, stmt_span_of, ArrowBody, ArrowFn, Block, Callee, CatchClause, Class, ClassMember, Expr,
    ExprOrSpread, ForHead, ForInit, Function, JsxAttrOrSpread, JsxAttrValue, JsxChild, JsxElement,
    MemberProp, MethodKind, ObjectPatProp, Param, Pat, Program, Prop, PropName, Span, Stmt,
    SwitchCase, TsEnumMember, VarDecl, VarDeclarator, VarKind,
};
use crate::diagnostic::{Diagnostic, DiagnosticView, diag_views, hinted_diag, push_diag};
use crate::order::{dedup, dedup_exec, lemma_dedup_strict, lemma_sort_spans_sorted, sort_spans, sort_spans_exec, span_before, span_before_exec, span_lt};
use crate::text::{str_eq, text_of, text_or_empty};

verus! {

pub const CODE: &'static str = "prefer-const";

pub const HINT: &'static str = "Use `const` instead";

/// Reports each variable that a `let` declares and that is never
/// reassigned.
#[derive(Debug)]
pub struct PreferConst;

/// How far a variable's group has been assigned.
#[derive(Debug, Clone, Copy, PartialEq, Eq, Structural)]
pub enum Status {
    Declared,
    Initialized,
    Reassigned,
}

/// One more assignment.
pub open spec fn next_status(s: Status) -> Status {
    match s {
        Status::Declared => Status::Initialized,
        Status::Initialized => Status::Reassigned,
        Status::Reassigned => Status::Reassigned,
    }
}

pub open spec fn status_rank(s: Status) -> int {
    match s {
        Status::Declared => 0,
        Status::Initialized => 1,
        Status::Reassigned => 2,
    }
}

impl Status {
    /// One more assignment to the group.
    pub fn next(&mut self)
        ensures
            *final(self) == next_status(*old(self)),
    {
        *self = next_status_exec(*self);
    }
}

/// A group's status only moves forward, and two assignments from any status
/// make it reassigned.
pub proof fn lemma_status_moves_forward(s: Status)
    ensures
        status_rank(s) <= status_rank(next_status(s)),
        next_status(next_status(s)) == Status::Reassigned,
{
}

/// The status of two groups merged: the further of the two.
pub open spec fn max_status(a: Status, b: Status) -> Status {
    if status_rank(a) >= status_rank(b) {
        a
    } else {
        b
    }
}

/// The state of the two passes: the tree of scopes (each scope's parent), the
/// variables of each scope (scope, name, declaration), which scope each
/// construct opened (the last entry for a span wins), the construct whose
/// scope is current (`None` for the program's), and the groups: each
/// declaration's group, and each group's status.
#[verifier::ext_equal]
pub struct PcView {
    pub parents: Seq<Option<usize>>,
    pub vars: Seq<(usize, Seq<char>, Span)>,
    pub keys: Seq<(Option<Span>, usize)>,
    pub cur: Option<Span>,
    pub entries: Seq<(Span, usize)>,
    pub groups: Seq<Status>,
}

pub open spec fn init_view() -> PcView {
    PcView {
        parents: seq![None],
        vars: Seq::empty(),
        keys: seq![(None, 0usize)],
        cur: None,
        entries: Seq::empty(),
        groups: Seq::empty(),
    }
}

/// The scope that a construct opened last.
pub open spec fn scope_of(keys: Seq<(Option<Span>, usize)>, key: Option<Span>) -> Option<usize>
    decreases keys.len(),
{
    if keys.len() == 0 {
        None
    } else if keys.last().0 == key {
        Some(keys.last().1)
    } else {
        scope_of(keys.drop_last(), key)
    }
}

/// The declaration that a scope holds for a name, the last one recorded.
pub open spec fn var_in(vars: Seq<(usize, Seq<char>, Span)>, scope: usize, name: Seq<char>) -> Option<Span>
    decreases vars.len(),
{
    if vars.len() == 0 {
        None
    } else if vars.last().0 == scope && vars.last().1 == name {
        Some(vars.last().2)
    } else {
        var_in(vars.drop_last(), scope, name)
    }
}

/// The declaration that a name resolves to from scope `i`, looking outwards,
/// and whether it lies in another scope than the one the search started in.
pub open spec fn lookup(st: PcView, i: usize, name: Seq<char>, current: bool) -> Option<(Span, bool)>
    decreases i,
{
    if i >= st.parents.len() {
        None
    } else {
        match var_in(st.vars, i, name) {
            Some(sp) => Some((sp, !current)),
            None => match st.parents[i as int] {
                Some(p) => if p < i {
                    lookup(st, p, name, false)
                } else {
                    None
                },
                None => None,
            },
        }
    }
}

/// The group of a declaration.
pub open spec fn find(entries: Seq<(Span, usize)>, span: Span) -> Option<usize>
    decreases entries.len(),
{
    if entries.len() == 0 {
        None
    } else if entries[0].0 == span {
        Some(entries[0].1)
    } else {
        find(entries.drop_first(), span)
    }
}

/// A declaration in a group of its own, unless it already has one.
pub open spec fn add_root(st: PcView, span: Span, status: Status) -> PcView {
    if find(st.entries, span) is Some {
        st
    } else {
        PcView {
            entries: st.entries.push((span, st.groups.len() as usize)),
            groups: st.groups.push(status),
            ..st
        }
    }
}

/// An assignment to a declaration's group: one step on, or straight to
/// reassigned.
pub open spec fn proceed(st: PcView, span: Span, force: bool) -> PcView {
    match find(st.entries, span) {
        Some(g) => if g < st.groups.len() {
            PcView {
                groups: st.groups.update(
                    g as int,
                    if force {
                        Status::Reassigned
                    } else {
                        next_status(st.groups[g as int])
                    },
                ),
                ..st
            }
        } else {
            st
        },
        None => st,
    }
}

pub open spec fn relabel(entries: Seq<(Span, usize)>, from: usize, to: usize) -> Seq<(Span, usize)> {
    Seq::new(
        entries.len(),
        |j: int| if entries[j].1 == from { (entries[j].0, to) } else { entries[j] },
    )
}

/// The groups of two declarations merged into one, with the further status.
pub open spec fn unite(st: PcView, a: Span, b: Span) -> PcView {
    match (find(st.entries, a), find(st.entries, b)) {
        (Some(ga), Some(gb)) => if ga != gb && ga < st.groups.len() && gb < st.groups.len() {
            PcView {
                entries: relabel(st.entries, gb, ga),
                groups: st.groups.update(
                    ga as int,
                    max_status(st.groups[ga as int], st.groups[gb as int]),
                ),
                ..st
            }
        } else {
            st
        },
        _ => st,
    }
}

/// The group labels that the declarations carry.
pub open spec fn group_labels(entries: Seq<(Span, usize)>) -> Set<usize> {
    Set::new(|g: usize| exists|j: int| 0 <= j < entries.len() && #[trigger] entries[j].1 == g)
}

proof fn lemma_find_relabel(e: Seq<(Span, usize)>, from: usize, to: usize, s: Span)
    ensures
        find(relabel(e, from, to), s) == (match find(e, s) {
            Some(g) => Some(if g == from { to } else { g }),
            None => None,
        }),
    decreases e.len(),
{
    if e.len() > 0 {
        assert(relabel(e, from, to).drop_first() =~= relabel(e.drop_first(), from, to));
        lemma_find_relabel(e.drop_first(), from, to, s);
    }
}

proof fn lemma_find_has_entry(e: Seq<(Span, usize)>, s: Span)
    ensures
        find(e, s) matches Some(g) ==> exists|j: int| 0 <= j < e.len() && #[trigger] e[j].1 == g,
    decreases e.len(),
{
    if e.len() > 0 && e[0].0 != s {
        lemma_find_has_entry(e.drop_first(), s);
        if let Some(g) = find(e, s) {
            let j = choose|j: int| 0 <= j < e.drop_first().len() && #[trigger] e.drop_first()[j].1 == g;
            assert(e[j + 1].1 == g);
        }
    } else if e.len() > 0 {
        assert(e[0].1 == find(e, s).unwrap());
    }
}

/// Merging the groups of two declarations puts both in the first group, with
/// the further of the two statuses, and leaves exactly one group label, the
/// second, out of use.
pub proof fn lemma_unite_merges(st: PcView, a: Span, b: Span, ga: usize, gb: usize)
    requires
        find(st.entries, a) == Some(ga),
        find(st.entries, b) == Some(gb),
        ga != gb,
        ga < st.groups.len(),
        gb < st.groups.len(),
    ensures
        find(unite(st, a, b).entries, a) == Some(ga),
        find(unite(st, a, b).entries, b) == Some(ga),
        unite(st, a, b).groups[ga as int] == max_status(st.groups[ga as int], st.groups[gb as int]),
        group_labels(st.entries).contains(ga),
        group_labels(st.entries).contains(gb),
        group_labels(unite(st, a, b).entries) == group_labels(st.entries).remove(gb),
{
    lemma_find_relabel(st.entries, gb, ga, a);
    lemma_find_relabel(st.entries, gb, ga, b);
    lemma_find_has_entry(st.entries, a);
    lemma_find_has_entry(st.entries, b);
    let e = st.entries;
    let n = relabel(e, gb, ga);
    assert(group_labels(e).contains(ga));
    assert(group_labels(e).contains(gb));
    assert forall|g: usize| group_labels(n).contains(g) <==> group_labels(e).remove(gb).contains(g) by {
        if group_labels(n).contains(g) {
            let j = choose|j: int| 0 <= j < n.len() && #[trigger] n[j].1 == g;
            if e[j].1 == gb {
                assert(g == ga);
            } else {
                assert(e[j].1 == g);
            }
        }
        if group_labels(e).remove(gb).contains(g) {
            if g == ga {
                let j = choose|j: int| 0 <= j < e.len() && #[trigger] e[j].1 == ga;
                assert(n[j].1 == ga);
            } else {
                let j = choose|j: int| 0 <= j < e.len() && #[trigger] e[j].1 == g;
                assert(n[j].1 == g);
            }
        }
    }
    assert(group_labels(n) =~= group_labels(e).remove(gb));
}

/// Entering a construct that opens a scope: the first pass creates it
/// under the current scope; both passes make it current.
pub open spec fn open_scope(c: bool, st: PcView, span: Span) -> PcView {
    if c {
        PcView {
            parents: st.parents.push(scope_of(st.keys, st.cur)),
            keys: st.keys.push((Some(span), st.parents.len() as usize)),
            cur: Some(span),
            ..st
        }
    } else {
        PcView { cur: Some(span), ..st }
    }
}

/// Leaving a construct: the scope that was current before it is current
/// again.
pub open spec fn restore(before: PcView, after: PcView) -> PcView {
    PcView { cur: before.cur, ..after }
}

/// A variable declared in the current scope, in a group of its own.
pub open spec fn insert_var(st: PcView, name: Seq<char>, span: Span, status: Status) -> PcView {
    let st1 = add_root(st, span, status);
    match scope_of(st1.keys, st1.cur) {
        Some(i) => PcView { vars: st1.vars.push((i, name, span)), ..st1 },
        None => st1,
    }
}

/// Variables declared together, from index `i` on, each joined to the
/// group of the first.
pub open spec fn insert_rest(st: PcView, ids: Seq<(Seq<char>, Span)>, i: int, status: Status) -> PcView
    decreases ids.len() - i,
{
    if 0 < i < ids.len() {
        insert_rest(
            unite(insert_var(st, ids[i].0, ids[i].1, status), ids[0].1, ids[i].1),
            ids,
            i + 1,
            status,
        )
    } else {
        st
    }
}

/// Variables declared together: one group.
pub open spec fn insert_vars(st: PcView, ids: Seq<(Seq<char>, Span)>, status: Status) -> PcView {
    if ids.len() == 0 {
        st
    } else {
        insert_rest(insert_var(st, ids[0].0, ids[0].1, status), ids, 1, status)
    }
}

/// Parameters: each one reassigned, in a group of its own.
pub open spec fn insert_reassigned(st: PcView, ids: Seq<(Seq<char>, Span)>, i: int) -> PcView
    decreases ids.len() - i,
{
    if 0 <= i < ids.len() {
        insert_reassigned(insert_var(st, ids[i].0, ids[i].1, Status::Reassigned), ids, i + 1)
    } else {
        st
    }
}

/// What an assignment target assigns: each name, and `None` for each
/// property (or other expression) it assigns.
pub open spec fn target_infos(p: Pat) -> Seq<Option<Seq<char>>>
    decreases p, 0int,
{
    match p {
        Pat::Ident { name, .. } => seq![Some(name@)],
        Pat::Array { elems, .. } => opt_targets(elems@, 0),
        Pat::Object { props, .. } => prop_targets(props@, 0),
        Pat::Rest { arg, .. } => target_infos(*arg),
        Pat::Assign { left, .. } => target_infos(*left),
        Pat::Expr(_) => seq![None],
    }
}

pub open spec fn opt_targets(s: Seq<Option<Pat>>, i: int) -> Seq<Option<Seq<char>>>
    decreases s, s.len() - i,
{
    if 0 <= i < s.len() {
        (match s[i] {
            Some(p) => target_infos(p),
            None => Seq::empty(),
        }) + opt_targets(s, i + 1)
    } else {
        Seq::empty()
    }
}

pub open spec fn prop_targets(s: Seq<ObjectPatProp>, i: int) -> Seq<Option<Seq<char>>>
    decreases s, s.len() - i,
{
    if 0 <= i < s.len() {
        (match s[i] {
            ObjectPatProp::KeyValue { value, .. } => target_infos(value),
            ObjectPatProp::Rest { arg, .. } => target_infos(arg),
        }) + prop_targets(s, i + 1)
    } else {
        Seq::empty()
    }
}

pub open spec fn names_of(infos: Seq<Option<Seq<char>>>) -> Seq<Seq<char>>
    decreases infos.len(),
{
    if infos.len() == 0 {
        Seq::empty()
    } else {
        names_of(infos.drop_last()) + match infos.last() {
            Some(n) => seq![n],
            None => Seq::empty(),
        }
    }
}

pub open spec fn has_member(infos: Seq<Option<Seq<char>>>) -> bool {
    infos.contains(None)
}

/// An assignment to one name, from the current scope.
pub open spec fn process_single(st: PcView, name: Seq<char>, force: bool) -> PcView {
    match scope_of(st.keys, st.cur) {
        Some(i) => match lookup(st, i, name, true) {
            Some((sp, other)) => proceed(st, sp, force || other),
            None => st,
        },
        None => st,
    }
}

/// The declarations that names resolve to, from scope `i`; names that
/// resolve to none are passed over.
pub open spec fn lookups(st: PcView, i: usize, names: Seq<Seq<char>>, k: int) -> Seq<(Span, bool)>
    decreases names.len() - k,
{
    if 0 <= k < names.len() {
        (match lookup(st, i, names[k], true) {
            Some(d) => seq![d],
            None => Seq::empty(),
        }) + lookups(st, i, names, k + 1)
    } else {
        Seq::empty()
    }
}

pub open spec fn apply_rest(st: PcView, decls: Seq<(Span, bool)>, k: int, force: bool) -> PcView
    decreases decls.len() - k,
{
    if 0 < k < decls.len() {
        apply_rest(
            unite(proceed(st, decls[k].0, force || decls[k].1), decls[0].0, decls[k].0),
            decls,
            k + 1,
            force,
        )
    } else {
        st
    }
}

/// An assignment to several names at once: each declaration moves on, and
/// they all join one group.
pub open spec fn apply_decls(st: PcView, decls: Seq<(Span, bool)>, force: bool) -> PcView {
    if decls.len() == 0 {
        st
    } else {
        apply_rest(proceed(st, decls[0].0, force || decls[0].1), decls, 1, force)
    }
}

pub open spec fn process_names(st: PcView, names: Seq<Seq<char>>, force: bool) -> PcView {
    match scope_of(st.keys, st.cur) {
        Some(i) => apply_decls(st, lookups(st, i, names, 0), force),
        None => st,
    }
}

/// An assignment to a target, from the current scope.
pub open spec fn process_target(st: PcView, left: Pat, force: bool, member_forces: bool) -> PcView {
    match left {
        Pat::Ident { name, .. } => process_single(st, name@, force),
        _ => {
            let infos = target_infos(left);
            process_names(st, names_of(infos), force || (member_forces && has_member(infos)))
        },
    }
}

pub open spec fn status_of_init(has_init: bool) -> Status {
    if has_init {
        Status::Initialized
    } else {
        Status::Declared
    }
}

// ---------------------------------------------------------------------------
// The traversal. `c` tells the first pass (collecting) from the second.

pub open spec fn t_stmts(c: bool, st: PcView, s: Seq<Stmt>, i: int) -> PcView
    decreases s, s.len() - i,
{
    if 0 <= i < s.len() {
        t_stmts(c, t_stmt(c, st, s[i]), s, i + 1)
    } else {
        st
    }
}

/// The body of a loop or of an `if`: a block there opens no scope of its
/// own.
pub open spec fn t_body(c: bool, st: PcView, s: Stmt) -> PcView
    decreases s, 1int,
{
    match s {
        Stmt::Block(b) => t_stmts(c, st, b.stmts@, 0),
        _ => t_stmt(c, st, s),
    }
}

pub open spec fn t_stmt(c: bool, st: PcView, s: Stmt) -> PcView
    decreases s, 0int,
{
    match s {
        Stmt::Expr { expr, .. } => if c {
            t_expr(c, st, expr)
        } else {
            t_expr_stmt(st, expr)
        },
        Stmt::Block(b) => restore(st, t_stmts(c, open_scope(c, st, b.span), b.stmts@, 0)),
        Stmt::Empty(_) => st,
        Stmt::Var(d) => t_var_decl(c, st, d),
        Stmt::If { span, test, cons, alt } => {
            let st1 = restore(st, t_body(c, t_expr(c, open_scope(c, st, span), test), *cons));
            match alt {
                Some(a) => restore(st1, t_stmt(c, open_scope(c, st1, stmt_span(*a)), *a)),
                None => st1,
            }
        },
        Stmt::For { span, init, test, update, body } => restore(
            st,
            t_body(
                c,
                t_opt_expr(c, t_opt_expr(c, t_for_init(c, open_scope(c, st, span), init), test), update),
                *body,
            ),
        ),
        Stmt::ForIn { span, left, right, body } => restore(
            st,
            t_body(c, t_expr(c, t_for_left(c, open_scope(c, st, span), left), right), *body),
        ),
        Stmt::ForOf { span, left, right, body, .. } => restore(
            st,
            t_body(c, t_expr(c, t_for_left(c, open_scope(c, st, span), left), right), *body),
        ),
        Stmt::While { span, test, body } => restore(
            st,
            t_body(c, t_expr(c, open_scope(c, st, span), test), *body),
        ),
        Stmt::DoWhile { span, body, test } => restore(
            st,
            t_expr(c, t_body(c, open_scope(c, st, span), *body), test),
        ),
        Stmt::Labeled { body, .. } => t_stmt(c, st, *body),
        Stmt::Break { .. } => st,
        Stmt::Continue { .. } => st,
        Stmt::Return { arg, .. } => t_opt_expr(c, st, arg),
        Stmt::Throw { arg, .. } => t_expr(c, st, arg),
        Stmt::Try { block, handler, finalizer, .. } => {
            let st1 = restore(st, t_stmts(c, open_scope(c, st, block.span), block.stmts@, 0));
            let st2 = match handler {
                Some(h) => restore(st1, t_catch(c, open_scope(c, st1, h.span), h)),
                None => st1,
            };
            match finalizer {
                Some(f) => restore(st2, t_stmts(c, open_scope(c, st2, f.span), f.stmts@, 0)),
                None => st2,
            }
        },
        Stmt::With { span, object, body } => restore(
            st,
            t_body(c, t_expr(c, open_scope(c, st, span), object), *body),
        ),
        Stmt::Switch { span, discriminant, cases } => restore(
            st,
            t_cases(c, t_expr(c, open_scope(c, st, span), discriminant), cases@, 0),
        ),
        Stmt::Fn(f) => t_function(c, st, f),
        Stmt::Class(k) => t_class(c, st, k),
        Stmt::Import { .. } => st,
        Stmt::ExportNamed { .. } => st,
        Stmt::ExportDecl { decl, .. } => t_stmt(c, st, *decl),
        Stmt::ExportDefaultExpr { expr, .. } => t_expr(c, st, expr),
        Stmt::TsModule { body, .. } => match body {
            Some(b) => t_stmts(c, st, b.stmts@, 0),
            None => st,
        },
        Stmt::TsTypeAlias { .. } => st,
        Stmt::TsInterface { .. } => st,
        Stmt::TsEnum { members, .. } => t_enum_members(c, st, members@, 0),
    }
}

pub open spec fn t_enum_members(c: bool, st: PcView, s: Seq<TsEnumMember>, i: int) -> PcView
    decreases s, s.len() - i,
{
    if 0 <= i < s.len() {
        t_enum_members(c, t_opt_expr(c, st, s[i].init), s, i + 1)
    } else {
        st
    }
}

/// An expression statement in the second pass: an assignment that is the
/// whole statement (parentheses aside) moves its names one step on, unless
/// it also assigns a property; then its parts are read.
pub open spec fn t_expr_stmt(st: PcView, e: Expr) -> PcView
    decreases e, 1int,
{
    match e {
        Expr::Paren { expr, .. } => t_expr_stmt(st, *expr),
        Expr::Assign { left, right, .. } => t_expr(
            false,
            t_pat(false, process_target(st, *left, false, true), *left),
            *right,
        ),
        _ => t_expr(false, st, e),
    }
}

pub open spec fn t_catch(c: bool, st: PcView, h: CatchClause) -> PcView
    decreases h, 0int,
{
    let st1 = match h.param {
        Some(p) => if c {
            insert_reassigned(st, pat_ids(p), 0)
        } else {
            t_pat(c, st, p)
        },
        None => st,
    };
    t_stmts(c, st1, h.body.stmts@, 0)
}

pub open spec fn t_for_init(c: bool, st: PcView, init: Option<ForInit>) -> PcView
    decreases init, 0int,
{
    match init {
        Some(ForInit::Var(d)) => {
            let st1 = t_decls_walk(c, st, d.decls@, 0);
            if c && d.kind == VarKind::Let {
                insert_vars(st1, all_ids(d.decls@, 0), status_of_init(any_init(d.decls@, 0)))
            } else {
                st1
            }
        },
        Some(ForInit::Expr(e)) => t_expr(c, st, e),
        None => st,
    }
}

pub open spec fn all_ids(s: Seq<VarDeclarator>, i: int) -> Seq<(Seq<char>, Span)>
    decreases s.len() - i,
{
    if 0 <= i < s.len() {
        pat_ids(s[i].name) + all_ids(s, i + 1)
    } else {
        Seq::empty()
    }
}

pub open spec fn any_init(s: Seq<VarDeclarator>, i: int) -> bool
    decreases s.len() - i,
{
    if 0 <= i < s.len() {
        s[i].init is Some || any_init(s, i + 1)
    } else {
        false
    }
}

/// The left side of `for .. in` and `for .. of`: the first pass records a
/// `let` (as initialized) without reading it; the second pass reads a
/// declaration, and treats any other target as an assignment statement.
pub open spec fn t_for_left(c: bool, st: PcView, left: ForHead) -> PcView
    decreases left, 0int,
{
    match left {
        ForHead::Var(d) => if c {
            if d.kind == VarKind::Let {
                let_each_initialized(st, d.decls@, 0)
            } else {
                st
            }
        } else {
            t_var_decl(c, st, d)
        },
        ForHead::Pat(p) => if c {
            st
        } else {
            process_target(st, p, false, true)
        },
    }
}

pub open spec fn let_each_initialized(st: PcView, s: Seq<VarDeclarator>, i: int) -> PcView
    decreases s.len() - i,
{
    if 0 <= i < s.len() {
        let_each_initialized(insert_vars(st, pat_ids(s[i].name), Status::Initialized), s, i + 1)
    } else {
        st
    }
}

/// A declaration: its parts are read; the first pass then records the
/// variables of a `let`, one group for each declarator.
pub open spec fn t_var_decl(c: bool, st: PcView, d: VarDecl) -> PcView
    decreases d, 0int,
{
    let st1 = t_decls_walk(c, st, d.decls@, 0);
    if c && d.kind == VarKind::Let {
        let_decls(st1, d.decls@, 0)
    } else {
        st1
    }
}

pub open spec fn let_decls(st: PcView, s: Seq<VarDeclarator>, i: int) -> PcView
    decreases s.len() - i,
{
    if 0 <= i < s.len() {
        let_decls(insert_vars(st, pat_ids(s[i].name), status_of_init(s[i].init is Some)), s, i + 1)
    } else {
        st
    }
}

pub open spec fn t_decls_walk(c: bool, st: PcView, s: Seq<VarDeclarator>, i: int) -> PcView
    decreases s, s.len() - i,
{
    if 0 <= i < s.len() {
        t_decls_walk(c, t_opt_expr(c, t_pat(c, st, s[i].name), s[i].init), s, i + 1)
    } else {
        st
    }
}

pub open spec fn t_cases(c: bool, st: PcView, s: Seq<SwitchCase>, i: int) -> PcView
    decreases s, s.len() - i,
{
    if 0 <= i < s.len() {
        t_cases(c, t_stmts(c, t_opt_expr(c, st, s[i].test), s[i].cons@, 0), s, i + 1)
    } else {
        st
    }
}

pub open spec fn t_opt_expr(c: bool, st: PcView, o: Option<Expr>) -> PcView
    decreases o, 0int,
{
    match o {
        Some(e) => t_expr(c, st, e),
        None => st,
    }
}

pub open spec fn t_exprs(c: bool, st: PcView, s: Seq<Expr>, i: int) -> PcView
    decreases s, s.len() - i,
{
    if 0 <= i < s.len() {
        t_exprs(c, t_expr(c, st, s[i]), s, i + 1)
    } else {
        st
    }
}

pub open spec fn t_args(c: bool, st: PcView, s: Seq<ExprOrSpread>, i: int) -> PcView
    decreases s, s.len() - i,
{
    if 0 <= i < s.len() {
        t_args(c, t_expr(c, st, s[i].expr), s, i + 1)
    } else {
        st
    }
}

pub open spec fn t_elems(c: bool, st: PcView, s: Seq<Option<ExprOrSpread>>, i: int) -> PcView
    decreases s, s.len() - i,
{
    if 0 <= i < s.len() {
        t_elems(
            c,
            match s[i] {
                Some(e) => t_expr(c, st, e.expr),
                None => st,
            },
            s,
            i + 1,
        )
    } else {
        st
    }
}

pub open spec fn t_prop_name(c: bool, st: PcView, k: PropName) -> PcView
    decreases k, 0int,
{
    match k {
        PropName::Computed { expr, .. } => t_expr(c, st, *expr),
        _ => st,
    }
}

pub open spec fn t_props(c: bool, st: PcView, s: Seq<Prop>, i: int) -> PcView
    decreases s, s.len() - i,
{
    if 0 <= i < s.len() {
        t_props(c, t_prop(c, st, s[i]), s, i + 1)
    } else {
        st
    }
}

pub open spec fn t_prop(c: bool, st: PcView, p: Prop) -> PcView
    decreases p, 0int,
{
    match p {
        Prop::KeyValue { key, value, .. } => t_expr(c, t_prop_name(c, st, key), value),
        Prop::Shorthand(_) => st,
        Prop::Method { key, func, .. } => t_function(c, t_prop_name(c, st, key), func),
        Prop::Spread { expr, .. } => t_expr(c, st, expr),
    }
}

pub open spec fn t_expr(c: bool, st: PcView, e: Expr) -> PcView
    decreases e, 0int,
{
    match e {
        Expr::This(_) => st,
        Expr::Super(_) => st,
        Expr::Ident(_) => st,
        Expr::Lit(_) => st,
        Expr::Template { exprs, .. } => t_exprs(c, st, exprs@, 0),
        Expr::TaggedTemplate { tag, exprs, .. } => t_exprs(c, t_expr(c, st, *tag), exprs@, 0),
        Expr::Array { elems, .. } => t_elems(c, st, elems@, 0),
        Expr::Object { props, .. } => t_props(c, st, props@, 0),
        Expr::Fn(f) => t_function(c, st, f),
        Expr::Arrow(a) => t_arrow(c, st, a),
        Expr::Class(k) => t_class(c, st, k),
        Expr::Unary { arg, .. } => t_expr(c, st, *arg),
        Expr::Update { arg, .. } => if c {
            t_expr(c, st, *arg)
        } else {
            match *arg {
                Expr::Ident(i) => process_single(st, i.name@, false),
                _ => st,
            }
        },
        Expr::Bin { left, right, .. } => t_expr(c, t_expr(c, st, *left), *right),
        Expr::Assign { left, right, .. } => {
            let st1 = t_expr(c, t_pat(c, st, *left), *right);
            if c {
                st1
            } else {
                process_target(st1, *left, true, false)
            }
        },
        Expr::Member { obj, prop, .. } => match prop {
            MemberProp::Computed(x) => t_expr(c, t_expr(c, st, *obj), *x),
            _ => t_expr(c, st, *obj),
        },
        Expr::Call { callee, args, .. } => t_args(
            c,
            match callee {
                Callee::Expr(x) => t_expr(c, st, *x),
                _ => st,
            },
            args@,
            0,
        ),
        Expr::New { callee, args, .. } => t_args(c, t_expr(c, st, *callee), args@, 0),
        Expr::Sequence { exprs, .. } => t_exprs(c, st, exprs@, 0),
        Expr::Cond { test, cons, alt, .. } => t_expr(c, t_expr(c, t_expr(c, st, *test), *cons), *alt),
        Expr::Await { arg, .. } => t_expr(c, st, *arg),
        Expr::Yield { arg, .. } => match arg {
            Some(x) => t_expr(c, st, *x),
            None => st,
        },
        Expr::Paren { expr, .. } => t_expr(c, st, *expr),
        Expr::Jsx(el) => t_jsx(c, st, el),
        Expr::TsAs { expr, .. } => t_expr(c, st, *expr),
        Expr::TsSatisfies { expr, .. } => t_expr(c, st, *expr),
        Expr::TsTypeAssertion { expr, .. } => t_expr(c, st, *expr),
        Expr::TsNonNull { expr, .. } => t_expr(c, st, *expr),
        Expr::MetaProp(_) => st,
        Expr::JsxFragment { children, .. } => t_jsx_children(c, st, children@, 0),
        Expr::TsInstantiation { expr, .. } => t_expr(c, st, *expr),
    }
}

/// A pattern's parts: computed keys and default values.
pub open spec fn t_pat(c: bool, st: PcView, p: Pat) -> PcView
    decreases p, 0int,
{
    match p {
        Pat::Ident { .. } => st,
        Pat::Array { elems, .. } => t_opt_pats(c, st, elems@, 0),
        Pat::Object { props, .. } => t_pat_props(c, st, props@, 0),
        Pat::Rest { arg, .. } => t_pat(c, st, *arg),
        Pat::Assign { left, right, .. } => t_expr(c, t_pat(c, st, *left), *right),
        Pat::Expr(x) => t_expr(c, st, *x),
    }
}

pub open spec fn t_opt_pats(c: bool, st: PcView, s: Seq<Option<Pat>>, i: int) -> PcView
    decreases s, s.len() - i,
{
    if 0 <= i < s.len() {
        t_opt_pats(
            c,
            match s[i] {
                Some(p) => t_pat(c, st, p),
                None => st,
            },
            s,
            i + 1,
        )
    } else {
        st
    }
}

pub open spec fn t_pat_props(c: bool, st: PcView, s: Seq<ObjectPatProp>, i: int) -> PcView
    decreases s, s.len() - i,
{
    if 0 <= i < s.len() {
        t_pat_props(
            c,
            match s[i] {
                ObjectPatProp::KeyValue { key, value, .. } => t_pat(c, t_prop_name(c, st, key), value),
                ObjectPatProp::Rest { arg, .. } => t_pat(c, st, arg),
            },
            s,
            i + 1,
        )
    } else {
        st
    }
}

/// A parameter (a rest parameter is not read): the first pass reads it and
/// records its names as reassigned; the second reads only a default value.
pub open spec fn t_param(c: bool, st: PcView, p: Pat) -> PcView
    decreases p, 1int,
{
    if p is Rest {
        st
    } else if c {
        insert_reassigned(t_pat(c, st, p), pat_ids(p), 0)
    } else {
        match p {
            Pat::Assign { left, right, .. } => t_expr(c, t_pat(c, st, *left), *right),
            _ => st,
        }
    }
}

pub open spec fn t_fn_params(c: bool, st: PcView, s: Seq<Param>, i: int) -> PcView
    decreases s, s.len() - i,
{
    if 0 <= i < s.len() {
        t_fn_params(c, t_param(c, st, s[i].pat), s, i + 1)
    } else {
        st
    }
}

pub open spec fn t_arrow_params(c: bool, st: PcView, s: Seq<Pat>, i: int) -> PcView
    decreases s, s.len() - i,
{
    if 0 <= i < s.len() {
        t_arrow_params(c, t_param(c, st, s[i]), s, i + 1)
    } else {
        st
    }
}

pub open spec fn t_opt_block(c: bool, st: PcView, b: Option<Block>) -> PcView
    decreases b, 0int,
{
    match b {
        Some(b) => t_stmts(c, st, b.stmts@, 0),
        None => st,
    }
}

/// A function opens a scope: the first pass reads the parameters in it, the
/// second before it.
pub open spec fn t_function(c: bool, st: PcView, f: Function) -> PcView
    decreases f, 0int,
{
    if c {
        restore(st, t_opt_block(c, t_fn_params(c, open_scope(c, st, f.span), f.params@, 0), f.body))
    } else {
        let st1 = t_fn_params(c, st, f.params@, 0);
        restore(st1, t_opt_block(c, open_scope(c, st1, f.span), f.body))
    }
}

pub open spec fn t_arrow_body(c: bool, st: PcView, b: ArrowBody) -> PcView
    decreases b, 0int,
{
    match b {
        ArrowBody::Block(b) => t_stmts(c, st, b.stmts@, 0),
        ArrowBody::Expr(x) => t_expr(c, st, *x),
    }
}

pub open spec fn t_arrow(c: bool, st: PcView, a: ArrowFn) -> PcView
    decreases a, 0int,
{
    if c {
        restore(st, t_arrow_body(c, t_arrow_params(c, open_scope(c, st, a.span), a.params@, 0), a.body))
    } else {
        let st1 = t_arrow_params(c, st, a.params@, 0);
        restore(st1, t_arrow_body(c, open_scope(c, st1, a.span), a.body))
    }
}

/// A class: its superclass is read outside it, its members in a scope of
/// its own.
pub open spec fn t_class(c: bool, st: PcView, k: Class) -> PcView
    decreases k, 0int,
{
    let st1 = match k.super_class {
        Some(s) => t_expr(c, st, *s),
        None => st,
    };
    restore(st1, t_members(c, open_scope(c, st1, k.span), k.members@, 0))
}

pub open spec fn t_members(c: bool, st: PcView, s: Seq<ClassMember>, i: int) -> PcView
    decreases s, s.len() - i,
{
    if 0 <= i < s.len() {
        t_members(c, t_member(c, st, s[i]), s, i + 1)
    } else {
        st
    }
}

/// A constructor opens a scope of its own, in which both passes read its
/// parameters; other methods are functions.
pub open spec fn t_member(c: bool, st: PcView, m: ClassMember) -> PcView
    decreases m, 0int,
{
    match m {
        ClassMember::Method { span, key, func, kind, .. } => if kind == MethodKind::Constructor {
            restore(st, t_opt_block(c, t_ctor_params(c, open_scope(c, st, span), func.params@, 0), func.body))
        } else {
            t_function(c, t_prop_name(c, st, key), func)
        },
        ClassMember::Prop { key, value, .. } => t_opt_expr(c, t_prop_name(c, st, key), value),
        ClassMember::Accessor { key, value, .. } => t_opt_expr(c, t_prop_name(c, st, key), value),
        ClassMember::StaticBlock { body, .. } => t_stmts(c, st, body.stmts@, 0),
    }
}

pub open spec fn t_ctor_params(c: bool, st: PcView, s: Seq<Param>, i: int) -> PcView
    decreases s, s.len() - i,
{
    if 0 <= i < s.len() {
        let p = s[i].pat;
        t_ctor_params(
            c,
            if p is Rest {
                st
            } else if c {
                insert_reassigned(t_pat(c, st, p), pat_ids(p), 0)
            } else {
                t_pat(c, st, p)
            },
            s,
            i + 1,
        )
    } else {
        st
    }
}

pub open spec fn t_jsx(c: bool, st: PcView, el: JsxElement) -> PcView
    decreases el, 0int,
{
    t_jsx_children(c, t_jsx_attrs(c, st, el.attrs@, 0), el.children@, 0)
}

pub open spec fn t_jsx_attrs(c: bool, st: PcView, s: Seq<JsxAttrOrSpread>, i: int) -> PcView
    decreases s, s.len() - i,
{
    if 0 <= i < s.len() {
        t_jsx_attrs(
            c,
            match s[i] {
                JsxAttrOrSpread::Attr { value, .. } => match value {
                    Some(JsxAttrValue::Container(Some(x))) => t_expr(c, st, *x),
                    Some(JsxAttrValue::Element(el)) => t_jsx(c, st, *el),
                    Some(JsxAttrValue::Fragment { children, .. }) => t_jsx_children(c, st, children@, 0),
                    _ => st,
                },
                JsxAttrOrSpread::Spread { expr, .. } => t_expr(c, st, expr),
            },
            s,
            i + 1,
        )
    } else {
        st
    }
}

pub open spec fn t_jsx_children(c: bool, st: PcView, s: Seq<JsxChild>, i: int) -> PcView
    decreases s, s.len() - i,
{
    if 0 <= i < s.len() {
        t_jsx_children(
            c,
            match s[i] {
                JsxChild::Container { expr: Some(x), .. } => t_expr(c, st, x),
                JsxChild::Element(el) => t_jsx(c, st, el),
                JsxChild::Fragment { children, .. } => t_jsx_children(c, st, children@, 0),
                _ => st,
            },
            s,
            i + 1,
        )
    } else {
        st
    }
}

// ---------------------------------------------------------------------------
// The state as the code holds it.

struct PcState {
    parents: Vec<Option<usize>>,
    vars: Vec<(usize, String, Span)>,
    keys: Vec<(Option<Span>, usize)>,
    cur: Option<Span>,
    entries: Vec<(Span, usize)>,
    groups: Vec<Status>,
}

spec fn vars_view(v: Seq<(usize, String, Span)>) -> Seq<(usize, Seq<char>, Span)> {
    v.map_values(|x: (usize, String, Span)| (x.0, x.1@, x.2))
}

spec fn sv(st: PcState) -> PcView {
    PcView {
        parents: st.parents@,
        vars: vars_view(st.vars@),
        keys: st.keys@,
        cur: st.cur,
        entries: st.entries@,
        groups: st.groups@,
    }
}

fn opt_span_eq(a: Option<Span>, b: Option<Span>) -> (r: bool)
    ensures
        r == (a == b),
{
    match (a, b) {
        (Some(x), Some(y)) => x == y,
        (None, None) => true,
        _ => false,
    }
}

fn scope_of_exec(keys: &Vec<(Option<Span>, usize)>, key: Option<Span>) -> (r: Option<usize>)
    ensures
        r == scope_of(keys@, key),
{
    let mut i: usize = keys.len();
    assert(keys@.take(i as int) =~= keys@);
    while i > 0
        invariant
            i <= keys@.len(),
            scope_of(keys@, key) == scope_of(keys@.take(i as int), key),
        decreases i,
    {
        if opt_span_eq(keys[i - 1].0, key) {
            return Some(keys[i - 1].1);
        }
        assert(keys@.take(i as int).drop_last() =~= keys@.take(i - 1));
        i = i - 1;
    }
    None
}

fn var_in_exec(vars: &Vec<(usize, String, Span)>, scope: usize, name: &str) -> (r: Option<Span>)
    ensures
        r == var_in(vars_view(vars@), scope, name@),
{
    let ghost vv = vars_view(vars@);
    let mut i: usize = vars.len();
    assert(vv.take(i as int) =~= vv);
    while i > 0
        invariant
            i <= vars@.len(),
            vv == vars_view(vars@),
            var_in(vv, scope, name@) == var_in(vv.take(i as int), scope, name@),
        decreases i,
    {
        if vars[i - 1].0 == scope && str_eq(vars[i - 1].1.as_str(), name) {
            return Some(vars[i - 1].2);
        }
        assert(vv.take(i as int).drop_last() =~= vv.take(i - 1));
        i = i - 1;
    }
    None
}

fn lookup_exec(st: &PcState, i0: usize, name: &str) -> (r: Option<(Span, bool)>)
    ensures
        r == lookup(sv(*st), i0, name@, true),
{
    let mut i: usize = i0;
    let mut current: bool = true;
    loop
        invariant
            lookup(sv(*st), i0, name@, true) == lookup(sv(*st), i, name@, current),
        decreases i,
    {
        if i >= st.parents.len() {
            return None;
        }
        match var_in_exec(&st.vars, i, name) {
            Some(sp) => {
                return Some((sp, !current));
            },
            None => match st.parents[i] {
                Some(p) => {
                    if p < i {
                        i = p;
                        current = false;
                    } else {
                        return None;
                    }
                },
                None => {
                    return None;
                },
            },
        }
    }
}

fn find_exec(entries: &Vec<(Span, usize)>, span: Span) -> (r: Option<usize>)
    ensures
        r == find(entries@, span),
{
    let ghost e = entries@;
    let mut k: usize = 0;
    assert(e.subrange(0, e.len() as int) =~= e);
    while k < entries.len()
        invariant
            e == entries@,
            k <= e.len(),
            find(e, span) == find(e.subrange(k as int, e.len() as int), span),
        decreases e.len() - k,
    {
        if entries[k].0 == span {
            return Some(entries[k].1);
        }
        assert(e.subrange(k as int, e.len() as int).drop_first() =~= e.subrange(k + 1, e.len() as int));
        k = k + 1;
    }
    None
}

fn next_status_exec(s: Status) -> (r: Status)
    ensures
        r == next_status(s),
{
    match s {
        Status::Declared => Status::Initialized,
        Status::Initialized => Status::Reassigned,
        Status::Reassigned => Status::Reassigned,
    }
}

fn max_status_exec(a: Status, b: Status) -> (r: Status)
    ensures
        r == max_status(a, b),
{
    let ra: u8 = match a {
        Status::Declared => 0,
        Status::Initialized => 1,
        Status::Reassigned => 2,
    };
    let rb: u8 = match b {
        Status::Declared => 0,
        Status::Initialized => 1,
        Status::Reassigned => 2,
    };
    if ra >= rb {
        a
    } else {
        b
    }
}

fn add_root_exec(st: &mut PcState, span: Span, status: Status)
    ensures
        sv(*final(st)) == add_root(sv(*old(st)), span, status),
{
    if find_exec(&st.entries, span).is_none() {
        let n = st.groups.len();
        st.entries.push((span, n));
        st.groups.push(status);
    }
}

fn proceed_exec(st: &mut PcState, span: Span, force: bool)
    ensures
        sv(*final(st)) == proceed(sv(*old(st)), span, force),
{
    match find_exec(&st.entries, span) {
        Some(g) => {
            if g < st.groups.len() {
                let s = if force {
                    Status::Reassigned
                } else {
                    next_status_exec(st.groups[g])
                };
                st.groups.set(g, s);
            }
        },
        None => {},
    }
}

fn relabel_exec(entries: &mut Vec<(Span, usize)>, from: usize, to: usize)
    ensures
        final(entries)@ == relabel(old(entries)@, from, to),
{
    let ghost e0 = entries@;
    let ghost target = relabel(e0, from, to);
    let mut k: usize = 0;
    while k < entries.len()
        invariant
            entries@.len() == e0.len(),
            target == relabel(e0, from, to),
            k <= e0.len(),
            forall|j: int| 0 <= j < k ==> entries@[j] == target[j],
            forall|j: int| k <= j < e0.len() ==> entries@[j] == e0[j],
        decreases e0.len() - k,
    {
        let e = entries[k];
        if e.1 == from {
            entries.set(k, (e.0, to));
        }
        k = k + 1;
    }
    assert(entries@ =~= target);
}

fn unite_exec(st: &mut PcState, a: Span, b: Span)
    ensures
        sv(*final(st)) == unite(sv(*old(st)), a, b),
{
    match (find_exec(&st.entries, a), find_exec(&st.entries, b)) {
        (Some(ga), Some(gb)) => {
            if ga != gb && ga < st.groups.len() && gb < st.groups.len() {
                relabel_exec(&mut st.entries, gb, ga);
                let m = max_status_exec(st.groups[ga], st.groups[gb]);
                st.groups.set(ga, m);
            }
        },
        _ => {},
    }
}

fn insert_var_exec(st: &mut PcState, name: &String, span: Span, status: Status)
    ensures
        sv(*final(st)) == insert_var(sv(*old(st)), name@, span, status),
{
    add_root_exec(st, span, status);
    match scope_of_exec(&st.keys, st.cur) {
        Some(i) => {
            let ghost before = st.vars@;
            st.vars.push((i, name.clone(), span));
            assert(vars_view(st.vars@) =~= vars_view(before).push((i, name@, span)));
        },
        None => {},
    }
}

fn insert_vars_exec(st: &mut PcState, ids: &Vec<(String, Span)>, status: Status)
    ensures
        sv(*final(st)) == insert_vars(sv(*old(st)), ids_view(ids@), status),
{
    let ghost v = ids_view(ids@);
    let ghost s0 = sv(*st);
    if ids.len() == 0 {
        return;
    }
    insert_var_exec(st, &ids[0].0, ids[0].1, status);
    let mut i: usize = 1;
    while i < ids.len()
        invariant
            1 <= i <= ids@.len(),
            v == ids_view(ids@),
            insert_rest(sv(*st), v, i as int, status) == insert_vars(s0, v, status),
        decreases ids@.len() - i,
    {
        insert_var_exec(st, &ids[i].0, ids[i].1, status);
        unite_exec(st, ids[0].1, ids[i].1);
        i = i + 1;
    }
}

fn insert_reassigned_exec(st: &mut PcState, ids: &Vec<(String, Span)>)
    ensures
        sv(*final(st)) == insert_reassigned(sv(*old(st)), ids_view(ids@), 0),
{
    let ghost v = ids_view(ids@);
    let ghost s0 = sv(*st);
    let mut i: usize = 0;
    while i < ids.len()
        invariant
            i <= ids@.len(),
            v == ids_view(ids@),
            insert_reassigned(sv(*st), v, i as int) == insert_reassigned(s0, v, 0),
        decreases ids@.len() - i,
    {
        insert_var_exec(st, &ids[i].0, ids[i].1, Status::Reassigned);
        i = i + 1;
    }
}

spec fn infos_view(v: Seq<Option<String>>) -> Seq<Option<Seq<char>>> {
    v.map_values(|o: Option<String>| match o {
        Some(s) => Some(s@),
        None => None,
    })
}

pub open spec fn names_view(v: Seq<String>) -> Seq<Seq<char>> {
    v.map_values(|s: String| s@)
}

fn push_info(out: &mut Vec<Option<String>>, o: Option<String>)
    ensures
        infos_view(final(out)@) == infos_view(old(out)@).push(
            match o {
                Some(s) => Some(s@),
                None => None,
            },
        ),
{
    let ghost ov = match &o {
        Some(s) => Some(s@),
        None => None,
    };
    out.push(o);
    assert(infos_view(out@) =~= infos_view(old(out)@).push(ov));
}

fn push_target_infos(p: &Pat, out: &mut Vec<Option<String>>)
    ensures
        infos_view(final(out)@) == infos_view(old(out)@) + target_infos(*p),
    decreases *p, 0int,
{
    match p {
        Pat::Ident { name, .. } => {
            push_info(out, Some(name.clone()));
            assert(infos_view(out@) =~= infos_view(old(out)@) + target_infos(*p));
        },
        Pat::Array { elems, .. } => push_opt_targets(elems, out),
        Pat::Object { props, .. } => push_prop_targets(props, out),
        Pat::Rest { arg, .. } => push_target_infos(arg, out),
        Pat::Assign { left, .. } => push_target_infos(left, out),
        Pat::Expr(_) => {
            push_info(out, None);
            assert(infos_view(out@) =~= infos_view(old(out)@) + target_infos(*p));
        },
    }
}

fn push_opt_targets(v: &Vec<Option<Pat>>, out: &mut Vec<Option<String>>)
    ensures
        infos_view(final(out)@) == infos_view(old(out)@) + opt_targets(v@, 0),
    decreases v@, 1int,
{
    let ghost o = infos_view(out@);
    let mut i: usize = 0;
    while i < v.len()
        invariant
            i <= v@.len(),
            infos_view(out@) + opt_targets(v@, i as int) == o + opt_targets(v@, 0),
        decreases v@.len() - i,
    {
        let ghost before = infos_view(out@);
        match &v[i] {
            Some(p) => push_target_infos(p, out),
            None => {},
        }
        assert(infos_view(out@) + opt_targets(v@, i + 1) =~= before + opt_targets(v@, i as int));
        i = i + 1;
    }
    assert(infos_view(out@) + opt_targets(v@, i as int) =~= infos_view(out@));
}

fn push_prop_targets(v: &Vec<ObjectPatProp>, out: &mut Vec<Option<String>>)
    ensures
        infos_view(final(out)@) == infos_view(old(out)@) + prop_targets(v@, 0),
    decreases v@, 1int,
{
    let ghost o = infos_view(out@);
    let mut i: usize = 0;
    while i < v.len()
        invariant
            i <= v@.len(),
            infos_view(out@) + prop_targets(v@, i as int) == o + prop_targets(v@, 0),
        decreases v@.len() - i,
    {
        let ghost before = infos_view(out@);
        match &v[i] {
            ObjectPatProp::KeyValue { value, .. } => push_target_infos(value, out),
            ObjectPatProp::Rest { arg, .. } => push_target_infos(arg, out),
        }
        assert(infos_view(out@) + prop_targets(v@, i + 1) =~= before + prop_targets(v@, i as int));
        i = i + 1;
    }
    assert(infos_view(out@) + prop_targets(v@, i as int) =~= infos_view(out@));
}

fn names_of_exec(infos: &Vec<Option<String>>) -> (r: Vec<String>)
    ensures
        names_view(r@) == names_of(infos_view(infos@)),
{
    let ghost iv = infos_view(infos@);
    let mut out: Vec<String> = Vec::new();
    let mut i: usize = 0;
    assert(names_view(out@) =~= names_of(iv.take(0)));
    while i < infos.len()
        invariant
            i <= infos@.len(),
            iv == infos_view(infos@),
            names_view(out@) == names_of(iv.take(i as int)),
        decreases infos@.len() - i,
    {
        assert(iv.take(i + 1).drop_last() =~= iv.take(i as int));
        let ghost before = out@;
        match &infos[i] {
            Some(n) => {
                out.push(n.clone());
                assert(names_view(out@) =~= names_view(before) + seq![n@]);
            },
            None => {
                assert(names_view(out@) =~= names_view(before) + Seq::<Seq<char>>::empty());
            },
        }
        i = i + 1;
    }
    assert(iv.take(i as int) =~= iv);
    out
}

fn has_member_exec(infos: &Vec<Option<String>>) -> (r: bool)
    ensures
        r == has_member(infos_view(infos@)),
{
    let ghost iv = infos_view(infos@);
    let mut i: usize = 0;
    while i < infos.len()
        invariant
            i <= infos@.len(),
            iv == infos_view(infos@),
            forall|j: int| 0 <= j < i ==> iv[j] != None::<Seq<char>>,
        decreases infos@.len() - i,
    {
        if infos[i].is_none() {
            assert(iv[i as int] == None::<Seq<char>>);
            return true;
        }
        i = i + 1;
    }
    false
}

fn process_single_exec(st: &mut PcState, name: &str, force: bool)
    ensures
        sv(*final(st)) == process_single(sv(*old(st)), name@, force),
{
    match scope_of_exec(&st.keys, st.cur) {
        Some(i) => match lookup_exec(st, i, name) {
            Some((sp, other)) => proceed_exec(st, sp, force || other),
            None => {},
        },
        None => {},
    }
}

fn lookups_exec(st: &PcState, i: usize, names: &Vec<String>) -> (r: Vec<(Span, bool)>)
    ensures
        r@ == lookups(sv(*st), i, names_view(names@), 0),
{
    let ghost nv = names_view(names@);
    let mut out: Vec<(Span, bool)> = Vec::new();
    let mut k: usize = 0;
    while k < names.len()
        invariant
            k <= names@.len(),
            nv == names_view(names@),
            out@ + lookups(sv(*st), i, nv, k as int) == lookups(sv(*st), i, nv, 0),
        decreases names@.len() - k,
    {
        let ghost before = out@;
        match lookup_exec(st, i, names[k].as_str()) {
            Some(d) => out.push(d),
            None => {},
        }
        assert(out@ + lookups(sv(*st), i, nv, k + 1) =~= before + lookups(sv(*st), i, nv, k as int));
        k = k + 1;
    }
    assert(out@ + lookups(sv(*st), i, nv, k as int) =~= out@);
    out
}

fn apply_decls_exec(st: &mut PcState, decls: &Vec<(Span, bool)>, force: bool)
    ensures
        sv(*final(st)) == apply_decls(sv(*old(st)), decls@, force),
{
    let ghost s0 = sv(*st);
    if decls.len() == 0 {
        return;
    }
    proceed_exec(st, decls[0].0, force || decls[0].1);
    let mut k: usize = 1;
    while k < decls.len()
        invariant
            1 <= k <= decls@.len(),
            apply_rest(sv(*st), decls@, k as int, force) == apply_decls(s0, decls@, force),
        decreases decls@.len() - k,
    {
        proceed_exec(st, decls[k].0, force || decls[k].1);
        unite_exec(st, decls[0].0, decls[k].0);
        k = k + 1;
    }
}

fn process_names_exec(st: &mut PcState, names: &Vec<String>, force: bool)
    ensures
        sv(*final(st)) == process_names(sv(*old(st)), names_view(names@), force),
{
    match scope_of_exec(&st.keys, st.cur) {
        Some(i) => {
            let decls = lookups_exec(st, i, names);
            apply_decls_exec(st, &decls, force);
        },
        None => {},
    }
}

fn process_target_exec(st: &mut PcState, left: &Pat, force: bool, member_forces: bool)
    ensures
        sv(*final(st)) == process_target(sv(*old(st)), *left, force, member_forces),
{
    match left {
        Pat::Ident { name, .. } => process_single_exec(st, name.as_str(), force),
        _ => {
            let mut infos: Vec<Option<String>> = Vec::new();
            assert(infos_view(infos@) =~= Seq::<Option<Seq<char>>>::empty());
            push_target_infos(left, &mut infos);
            assert(infos_view(infos@) =~= target_infos(*left));
            let names = names_of_exec(&infos);
            let m = has_member_exec(&infos);
            process_names_exec(st, &names, force || (member_forces && m));
        },
    }
}

fn open_scope_exec(c: bool, st: &mut PcState, span: Span)
    ensures
        sv(*final(st)) == open_scope(c, sv(*old(st)), span),
{
    if c {
        let par = scope_of_exec(&st.keys, st.cur);
        let n = st.parents.len();
        st.parents.push(par);
        st.keys.push((Some(span), n));
    }
    st.cur = Some(span);
}

// ---------------------------------------------------------------------------
// The traversal, as the code runs it.

fn t_stmts_exec(c: bool, st: &mut PcState, v: &Vec<Stmt>)
    ensures
        sv(*final(st)) == t_stmts(c, sv(*old(st)), v@, 0),
    decreases v@, 0int,
{
    let ghost s0 = sv(*st);
    let mut i: usize = 0;
    while i < v.len()
        invariant
            i <= v@.len(),
            t_stmts(c, sv(*st), v@, i as int) == t_stmts(c, s0, v@, 0),
        decreases v@.len() - i,
    {
        t_stmt_exec(c, st, &v[i]);
        i = i + 1;
    }
}

fn t_body_exec(c: bool, st: &mut PcState, s: &Stmt)
    ensures
        sv(*final(st)) == t_body(c, sv(*old(st)), *s),
    decreases *s, 1int,
{
    match s {
        Stmt::Block(b) => t_stmts_exec(c, st, &b.stmts),
        _ => t_stmt_exec(c, st, s),
    }
}

#[verifier::spinoff_prover]
#[verifier::rlimit(60)]
fn t_stmt_exec(c: bool, st: &mut PcState, s: &Stmt)
    ensures
        sv(*final(st)) == t_stmt(c, sv(*old(st)), *s),
    decreases *s, 0int,
{
    let saved = st.cur;
    match s {
        Stmt::Expr { expr, .. } => {
            if c {
                t_expr_exec(c, st, expr);
            } else {
                t_expr_stmt_exec(st, expr);
            }
        },
        Stmt::Block(b) => {
            open_scope_exec(c, st, b.span);
            t_stmts_exec(c, st, &b.stmts);
            st.cur = saved;
        },
        Stmt::Empty(_) => {},
        Stmt::Var(d) => t_var_decl_exec(c, st, d),
        Stmt::If { span, test, cons, alt } => {
            open_scope_exec(c, st, *span);
            t_expr_exec(c, st, test);
            t_body_exec(c, st, cons);
            st.cur = saved;
            match alt {
                Some(a) => {
                    open_scope_exec(c, st, stmt_span_of(a));
                    t_stmt_exec(c, st, a);
                    st.cur = saved;
                },
                None => {},
            }
        },
        Stmt::For { span, init, test, update, body } => {
            open_scope_exec(c, st, *span);
            t_for_init_exec(c, st, init);
            t_opt_expr_exec(c, st, test);
            t_opt_expr_exec(c, st, update);
            t_body_exec(c, st, body);
            st.cur = saved;
        },
        Stmt::ForIn { span, left, right, body } => {
            open_scope_exec(c, st, *span);
            t_for_left_exec(c, st, left);
            t_expr_exec(c, st, right);
            t_body_exec(c, st, body);
            st.cur = saved;
        },
        Stmt::ForOf { span, left, right, body, .. } => {
            open_scope_exec(c, st, *span);
            t_for_left_exec(c, st, left);
            t_expr_exec(c, st, right);
            t_body_exec(c, st, body);
            st.cur = saved;
        },
        Stmt::While { span, test, body } => {
            open_scope_exec(c, st, *span);
            t_expr_exec(c, st, test);
            t_body_exec(c, st, body);
            st.cur = saved;
        },
        Stmt::DoWhile { span, body, test } => {
            open_scope_exec(c, st, *span);
            t_body_exec(c, st, body);
            t_expr_exec(c, st, test);
            st.cur = saved;
        },
        Stmt::Labeled { body, .. } => t_stmt_exec(c, st, body),
        Stmt::Break { .. } => {},
        Stmt::Continue { .. } => {},
        Stmt::Return { arg, .. } => t_opt_expr_exec(c, st, arg),
        Stmt::Throw { arg, .. } => t_expr_exec(c, st, arg),
        Stmt::Try { block, handler, finalizer, .. } => {
            open_scope_exec(c, st, block.span);
            t_stmts_exec(c, st, &block.stmts);
            st.cur = saved;
            match handler {
                Some(h) => {
                    open_scope_exec(c, st, h.span);
                    t_catch_exec(c, st, h);
                    st.cur = saved;
                },
                None => {},
            }
            match finalizer {
                Some(f) => {
                    open_scope_exec(c, st, f.span);
                    t_stmts_exec(c, st, &f.stmts);
                    st.cur = saved;
                },
                None => {},
            }
        },
        Stmt::With { span, object, body } => {
            open_scope_exec(c, st, *span);
            t_expr_exec(c, st, object);
            t_body_exec(c, st, body);
            st.cur = saved;
        },
        Stmt::Switch { span, discriminant, cases } => {
            open_scope_exec(c, st, *span);
            t_expr_exec(c, st, discriminant);
            t_cases_exec(c, st, cases);
            st.cur = saved;
        },
        Stmt::Fn(f) => t_function_exec(c, st, f),
        Stmt::Class(k) => t_class_exec(c, st, k),
        Stmt::Import { .. } => {},
        Stmt::ExportNamed { .. } => {},
        Stmt::ExportDecl { decl, .. } => t_stmt_exec(c, st, decl),
        Stmt::ExportDefaultExpr { expr, .. } => t_expr_exec(c, st, expr),
        Stmt::TsModule { body, .. } => match body {
            Some(b) => t_stmts_exec(c, st, &b.stmts),
            None => {},
        },
        Stmt::TsTypeAlias { .. } => {},
        Stmt::TsInterface { .. } => {},
        Stmt::TsEnum { members, .. } => t_enum_members_exec(c, st, members),
    }
}

fn t_enum_members_exec(c: bool, st: &mut PcState, v: &Vec<TsEnumMember>)
    ensures
        sv(*final(st)) == t_enum_members(c, sv(*old(st)), v@, 0),
    decreases v@, 0int,
{
    let ghost s0 = sv(*st);
    let mut i: usize = 0;
    while i < v.len()
        invariant
            i <= v@.len(),
            t_enum_members(c, sv(*st), v@, i as int) == t_enum_members(c, s0, v@, 0),
        decreases v@.len() - i,
    {
        t_opt_expr_exec(c, st, &v[i].init);
        i = i + 1;
    }
}

fn t_expr_stmt_exec(st: &mut PcState, e: &Expr)
    ensures
        sv(*final(st)) == t_expr_stmt(sv(*old(st)), *e),
    decreases *e, 1int,
{
    match e {
        Expr::Paren { expr, .. } => t_expr_stmt_exec(st, expr),
        Expr::Assign { left, right, .. } => {
            process_target_exec(st, left, false, true);
            t_pat_exec(false, st, left);
            t_expr_exec(false, st, right);
        },
        _ => t_expr_exec(false, st, e),
    }
}

fn t_catch_exec(c: bool, st: &mut PcState, h: &CatchClause)
    ensures
        sv(*final(st)) == t_catch(c, sv(*old(st)), *h),
    decreases *h, 0int,
{
    match &h.param {
        Some(p) => {
            if c {
                let ids = pat_ids_of(p);
                insert_reassigned_exec(st, &ids);
            } else {
                t_pat_exec(c, st, p);
            }
        },
        None => {},
    }
    t_stmts_exec(c, st, &h.body.stmts);
}

fn push_all_ids(v: &Vec<VarDeclarator>, out: &mut Vec<(String, Span)>)
    ensures
        ids_view(final(out)@) == ids_view(old(out)@) + all_ids(v@, 0),
{
    let ghost o = ids_view(out@);
    let mut i: usize = 0;
    while i < v.len()
        invariant
            i <= v@.len(),
            ids_view(out@) + all_ids(v@, i as int) == o + all_ids(v@, 0),
        decreases v@.len() - i,
    {
        let ghost before = ids_view(out@);
        push_pat_ids(&v[i].name, out);
        assert(ids_view(out@) + all_ids(v@, i + 1) =~= before + all_ids(v@, i as int));
        i = i + 1;
    }
    assert(ids_view(out@) + all_ids(v@, i as int) =~= ids_view(out@));
}

fn any_init_exec(v: &Vec<VarDeclarator>) -> (r: bool)
    ensures
        r == any_init(v@, 0),
{
    let mut i: usize = 0;
    while i < v.len()
        invariant
            i <= v@.len(),
            any_init(v@, 0) == any_init(v@, i as int),
        decreases v@.len() - i,
    {
        if v[i].init.is_some() {
            return true;
        }
        i = i + 1;
    }
    false
}

fn status_of_init_exec(has_init: bool) -> (r: Status)
    ensures
        r == status_of_init(has_init),
{
    if has_init {
        Status::Initialized
    } else {
        Status::Declared
    }
}

fn t_for_init_exec(c: bool, st: &mut PcState, init: &Option<ForInit>)
    ensures
        sv(*final(st)) == t_for_init(c, sv(*old(st)), *init),
    decreases *init, 0int,
{
    match init {
        Some(ForInit::Var(d)) => {
            t_decls_walk_exec(c, st, &d.decls);
            if c && d.kind == VarKind::Let {
                let mut ids: Vec<(String, Span)> = Vec::new();
                assert(ids_view(ids@) =~= Seq::<(Seq<char>, Span)>::empty());
                push_all_ids(&d.decls, &mut ids);
                assert(ids_view(ids@) =~= all_ids(d.decls@, 0));
                let status = status_of_init_exec(any_init_exec(&d.decls));
                insert_vars_exec(st, &ids, status);
            }
        },
        Some(ForInit::Expr(e)) => t_expr_exec(c, st, e),
        None => {},
    }
}

fn t_for_left_exec(c: bool, st: &mut PcState, left: &ForHead)
    ensures
        sv(*final(st)) == t_for_left(c, sv(*old(st)), *left),
    decreases *left, 0int,
{
    match left {
        ForHead::Var(d) => {
            if c {
                if d.kind == VarKind::Let {
                    let_each_initialized_exec(st, &d.decls);
                }
            } else {
                t_var_decl_exec(c, st, d);
            }
        },
        ForHead::Pat(p) => {
            if !c {
                process_target_exec(st, p, false, true);
            }
        },
    }
}

fn let_each_initialized_exec(st: &mut PcState, v: &Vec<VarDeclarator>)
    ensures
        sv(*final(st)) == let_each_initialized(sv(*old(st)), v@, 0),
{
    let ghost s0 = sv(*st);
    let mut i: usize = 0;
    while i < v.len()
        invariant
            i <= v@.len(),
            let_each_initialized(sv(*st), v@, i as int) == let_each_initialized(s0, v@, 0),
        decreases v@.len() - i,
    {
        let ids = pat_ids_of(&v[i].name);
        insert_vars_exec(st, &ids, Status::Initialized);
        i = i + 1;
    }
}

fn t_var_decl_exec(c: bool, st: &mut PcState, d: &VarDecl)
    ensures
        sv(*final(st)) == t_var_decl(c, sv(*old(st)), *d),
    decreases *d, 0int,
{
    t_decls_walk_exec(c, st, &d.decls);
    if c && d.kind == VarKind::Let {
        let_decls_exec(st, &d.decls);
    }
}

fn let_decls_exec(st: &mut PcState, v: &Vec<VarDeclarator>)
    ensures
        sv(*final(st)) == let_decls(sv(*old(st)), v@, 0),
{
    let ghost s0 = sv(*st);
    let mut i: usize = 0;
    while i < v.len()
        invariant
            i <= v@.len(),
            let_decls(sv(*st), v@, i as int) == let_decls(s0, v@, 0),
        decreases v@.len() - i,
    {
        let ids = pat_ids_of(&v[i].name);
        let status = status_of_init_exec(v[i].init.is_some());
        insert_vars_exec(st, &ids, status);
        i = i + 1;
    }
}

fn t_decls_walk_exec(c: bool, st: &mut PcState, v: &Vec<VarDeclarator>)
    ensures
        sv(*final(st)) == t_decls_walk(c, sv(*old(st)), v@, 0),
    decreases v@, 0int,
{
    let ghost s0 = sv(*st);
    let mut i: usize = 0;
    while i < v.len()
        invariant
            i <= v@.len(),
            t_decls_walk(c, sv(*st), v@, i as int) == t_decls_walk(c, s0, v@, 0),
        decreases v@.len() - i,
    {
        t_pat_exec(c, st, &v[i].name);
        t_opt_expr_exec(c, st, &v[i].init);
        i = i + 1;
    }
}

fn t_cases_exec(c: bool, st: &mut PcState, v: &Vec<SwitchCase>)
    ensures
        sv(*final(st)) == t_cases(c, sv(*old(st)), v@, 0),
    decreases v@, 0int,
{
    let ghost s0 = sv(*st);
    let mut i: usize = 0;
    while i < v.len()
        invariant
            i <= v@.len(),
            t_cases(c, sv(*st), v@, i as int) == t_cases(c, s0, v@, 0),
        decreases v@.len() - i,
    {
        t_opt_expr_exec(c, st, &v[i].test);
        t_stmts_exec(c, st, &v[i].cons);
        i = i + 1;
    }
}

fn t_opt_expr_exec(c: bool, st: &mut PcState, o: &Option<Expr>)
    ensures
        sv(*final(st)) == t_opt_expr(c, sv(*old(st)), *o),
    decreases *o, 0int,
{
    match o {
        Some(e) => t_expr_exec(c, st, e),
        None => {},
    }
}

fn t_exprs_exec(c: bool, st: &mut PcState, v: &Vec<Expr>)
    ensures
        sv(*final(st)) == t_exprs(c, sv(*old(st)), v@, 0),
    decreases v@, 0int,
{
    let ghost s0 = sv(*st);
    let mut i: usize = 0;
    while i < v.len()
        invariant
            i <= v@.len(),
            t_exprs(c, sv(*st), v@, i as int) == t_exprs(c, s0, v@, 0),
        decreases v@.len() - i,
    {
        t_expr_exec(c, st, &v[i]);
        i = i + 1;
    }
}

fn t_args_exec(c: bool, st: &mut PcState, v: &Vec<ExprOrSpread>)
    ensures
        sv(*final(st)) == t_args(c, sv(*old(st)), v@, 0),
    decreases v@, 0int,
{
    let ghost s0 = sv(*st);
    let mut i: usize = 0;
    while i < v.len()
        invariant
            i <= v@.len(),
            t_args(c, sv(*st), v@, i as int) == t_args(c, s0, v@, 0),
        decreases v@.len() - i,
    {
        t_expr_exec(c, st, &v[i].expr);
        i = i + 1;
    }
}

fn t_elems_exec(c: bool, st: &mut PcState, v: &Vec<Option<ExprOrSpread>>)
    ensures
        sv(*final(st)) == t_elems(c, sv(*old(st)), v@, 0),
    decreases v@, 0int,
{
    let ghost s0 = sv(*st);
    let mut i: usize = 0;
    while i < v.len()
        invariant
            i <= v@.len(),
            t_elems(c, sv(*st), v@, i as int) == t_elems(c, s0, v@, 0),
        decreases v@.len() - i,
    {
        match &v[i] {
            Some(e) => t_expr_exec(c, st, &e.expr),
            None => {},
        }
        i = i + 1;
    }
}

fn t_prop_name_exec(c: bool, st: &mut PcState, k: &PropName)
    ensures
        sv(*final(st)) == t_prop_name(c, sv(*old(st)), *k),
    decreases *k, 0int,
{
    match k {
        PropName::Computed { expr, .. } => t_expr_exec(c, st, expr),
        _ => {},
    }
}

fn t_props_exec(c: bool, st: &mut PcState, v: &Vec<Prop>)
    ensures
        sv(*final(st)) == t_props(c, sv(*old(st)), v@, 0),
    decreases v@, 0int,
{
    let ghost s0 = sv(*st);
    let mut i: usize = 0;
    while i < v.len()
        invariant
            i <= v@.len(),
            t_props(c, sv(*st), v@, i as int) == t_props(c, s0, v@, 0),
        decreases v@.len() - i,
    {
        t_prop_exec(c, st, &v[i]);
        i = i + 1;
    }
}

fn t_prop_exec(c: bool, st: &mut PcState, p: &Prop)
    ensures
        sv(*final(st)) == t_prop(c, sv(*old(st)), *p),
    decreases *p, 0int,
{
    match p {
        Prop::KeyValue { key, value, .. } => {
            t_prop_name_exec(c, st, key);
            t_expr_exec(c, st, value);
        },
        Prop::Shorthand(_) => {},
        Prop::Method { key, func, .. } => {
            t_prop_name_exec(c, st, key);
            t_function_exec(c, st, func);
        },
        Prop::Spread { expr, .. } => t_expr_exec(c, st, expr),
    }
}

#[verifier::spinoff_prover]
#[verifier::rlimit(60)]
fn t_expr_exec(c: bool, st: &mut PcState, e: &Expr)
    ensures
        sv(*final(st)) == t_expr(c, sv(*old(st)), *e),
    decreases *e, 0int,
{
    match e {
        Expr::This(_) => {},
        Expr::Super(_) => {},
        Expr::Ident(_) => {},
        Expr::Lit(_) => {},
        Expr::Template { exprs, .. } => t_exprs_exec(c, st, exprs),
        Expr::TaggedTemplate { tag, exprs, .. } => {
            t_expr_exec(c, st, tag);
            t_exprs_exec(c, st, exprs);
        },
        Expr::Array { elems, .. } => t_elems_exec(c, st, elems),
        Expr::Object { props, .. } => t_props_exec(c, st, props),
        Expr::Fn(f) => t_function_exec(c, st, f),
        Expr::Arrow(a) => t_arrow_exec(c, st, a),
        Expr::Class(k) => t_class_exec(c, st, k),
        Expr::Unary { arg, .. } => t_expr_exec(c, st, arg),
        Expr::Update { arg, .. } => {
            if c {
                t_expr_exec(c, st, arg);
            } else {
                match &**arg {
                    Expr::Ident(i) => process_single_exec(st, i.name.as_str(), false),
                    _ => {},
                }
            }
        },
        Expr::Bin { left, right, .. } => {
            t_expr_exec(c, st, left);
            t_expr_exec(c, st, right);
        },
        Expr::Assign { left, right, .. } => {
            t_pat_exec(c, st, left);
            t_expr_exec(c, st, right);
            if !c {
                process_target_exec(st, left, true, false);
            }
        },
        Expr::Member { obj, prop, .. } => match prop {
            MemberProp::Computed(x) => {
                t_expr_exec(c, st, obj);
                t_expr_exec(c, st, x);
            },
            _ => t_expr_exec(c, st, obj),
        },
        Expr::Call { callee, args, .. } => {
            match callee {
                Callee::Expr(x) => t_expr_exec(c, st, x),
                _ => {},
            }
            t_args_exec(c, st, args);
        },
        Expr::New { callee, args, .. } => {
            t_expr_exec(c, st, callee);
            t_args_exec(c, st, args);
        },
        Expr::Sequence { exprs, .. } => t_exprs_exec(c, st, exprs),
        Expr::Cond { test, cons, alt, .. } => {
            t_expr_exec(c, st, test);
            t_expr_exec(c, st, cons);
            t_expr_exec(c, st, alt);
        },
        Expr::Await { arg, .. } => t_expr_exec(c, st, arg),
        Expr::Yield { arg, .. } => match arg {
            Some(x) => t_expr_exec(c, st, x),
            None => {},
        },
        Expr::Paren { expr, .. } => t_expr_exec(c, st, expr),
        Expr::Jsx(el) => t_jsx_exec(c, st, el),
        Expr::TsAs { expr, .. } => t_expr_exec(c, st, expr),
        Expr::TsSatisfies { expr, .. } => t_expr_exec(c, st, expr),
        Expr::TsTypeAssertion { expr, .. } => t_expr_exec(c, st, expr),
        Expr::TsNonNull { expr, .. } => t_expr_exec(c, st, expr),
        Expr::MetaProp(_) => {},
        Expr::JsxFragment { children, .. } => t_jsx_children_exec(c, st, children),
        Expr::TsInstantiation { expr, .. } => t_expr_exec(c, st, expr),
    }
}

fn t_pat_exec(c: bool, st: &mut PcState, p: &Pat)
    ensures
        sv(*final(st)) == t_pat(c, sv(*old(st)), *p),
    decreases *p, 0int,
{
    match p {
        Pat::Ident { .. } => {},
        Pat::Array { elems, .. } => t_opt_pats_exec(c, st, elems),
        Pat::Object { props, .. } => t_pat_props_exec(c, st, props),
        Pat::Rest { arg, .. } => t_pat_exec(c, st, arg),
        Pat::Assign { left, right, .. } => {
            t_pat_exec(c, st, left);
            t_expr_exec(c, st, right);
        },
        Pat::Expr(x) => t_expr_exec(c, st, x),
    }
}

fn t_opt_pats_exec(c: bool, st: &mut PcState, v: &Vec<Option<Pat>>)
    ensures
        sv(*final(st)) == t_opt_pats(c, sv(*old(st)), v@, 0),
    decreases v@, 0int,
{
    let ghost s0 = sv(*st);
    let mut i: usize = 0;
    while i < v.len()
        invariant
            i <= v@.len(),
            t_opt_pats(c, sv(*st), v@, i as int) == t_opt_pats(c, s0, v@, 0),
        decreases v@.len() - i,
    {
        match &v[i] {
            Some(p) => t_pat_exec(c, st, p),
            None => {},
        }
        i = i + 1;
    }
}

fn t_pat_props_exec(c: bool, st: &mut PcState, v: &Vec<ObjectPatProp>)
    ensures
        sv(*final(st)) == t_pat_props(c, sv(*old(st)), v@, 0),
    decreases v@, 0int,
{
    let ghost s0 = sv(*st);
    let mut i: usize = 0;
    while i < v.len()
        invariant
            i <= v@.len(),
            t_pat_props(c, sv(*st), v@, i as int) == t_pat_props(c, s0, v@, 0),
        decreases v@.len() - i,
    {
        match &v[i] {
            ObjectPatProp::KeyValue { key, value, .. } => {
                t_prop_name_exec(c, st, key);
                t_pat_exec(c, st, value);
            },
            ObjectPatProp::Rest { arg, .. } => t_pat_exec(c, st, arg),
        }
        i = i + 1;
    }
}

fn t_param_exec(c: bool, st: &mut PcState, p: &Pat)
    ensures
        sv(*final(st)) == t_param(c, sv(*old(st)), *p),
    decreases *p, 1int,
{
    if let Pat::Rest { .. } = p {
        return;
    }
    if c {
        t_pat_exec(c, st, p);
        let ids = pat_ids_of(p);
        insert_reassigned_exec(st, &ids);
    } else {
        match p {
            Pat::Assign { left, right, .. } => {
                t_pat_exec(c, st, left);
                t_expr_exec(c, st, right);
            },
            _ => {},
        }
    }
}

fn t_fn_params_exec(c: bool, st: &mut PcState, v: &Vec<Param>)
    ensures
        sv(*final(st)) == t_fn_params(c, sv(*old(st)), v@, 0),
    decreases v@, 0int,
{
    let ghost s0 = sv(*st);
    let mut i: usize = 0;
    while i < v.len()
        invariant
            i <= v@.len(),
            t_fn_params(c, sv(*st), v@, i as int) == t_fn_params(c, s0, v@, 0),
        decreases v@.len() - i,
    {
        t_param_exec(c, st, &v[i].pat);
        i = i + 1;
    }
}

fn t_arrow_params_exec(c: bool, st: &mut PcState, v: &Vec<Pat>)
    ensures
        sv(*final(st)) == t_arrow_params(c, sv(*old(st)), v@, 0),
    decreases v@, 0int,
{
    let ghost s0 = sv(*st);
    let mut i: usize = 0;
    while i < v.len()
        invariant
            i <= v@.len(),
            t_arrow_params(c, sv(*st), v@, i as int) == t_arrow_params(c, s0, v@, 0),
        decreases v@.len() - i,
    {
        t_param_exec(c, st, &v[i]);
        i = i + 1;
    }
}

fn t_opt_block_exec(c: bool, st: &mut PcState, b: &Option<Block>)
    ensures
        sv(*final(st)) == t_opt_block(c, sv(*old(st)), *b),
    decreases *b, 0int,
{
    match b {
        Some(b) => t_stmts_exec(c, st, &b.stmts),
        None => {},
    }
}

fn t_function_exec(c: bool, st: &mut PcState, f: &Function)
    ensures
        sv(*final(st)) == t_function(c, sv(*old(st)), *f),
    decreases *f, 0int,
{
    if c {
        let saved = st.cur;
        open_scope_exec(c, st, f.span);
        t_fn_params_exec(c, st, &f.params);
        t_opt_block_exec(c, st, &f.body);
        st.cur = saved;
    } else {
        t_fn_params_exec(c, st, &f.params);
        let saved = st.cur;
        open_scope_exec(c, st, f.span);
        t_opt_block_exec(c, st, &f.body);
        st.cur = saved;
    }
}

fn t_arrow_body_exec(c: bool, st: &mut PcState, b: &ArrowBody)
    ensures
        sv(*final(st)) == t_arrow_body(c, sv(*old(st)), *b),
    decreases *b, 0int,
{
    match b {
        ArrowBody::Block(b) => t_stmts_exec(c, st, &b.stmts),
        ArrowBody::Expr(x) => t_expr_exec(c, st, x),
    }
}

fn t_arrow_exec(c: bool, st: &mut PcState, a: &ArrowFn)
    ensures
        sv(*final(st)) == t_arrow(c, sv(*old(st)), *a),
    decreases *a, 0int,
{
    if c {
        let saved = st.cur;
        open_scope_exec(c, st, a.span);
        t_arrow_params_exec(c, st, &a.params);
        t_arrow_body_exec(c, st, &a.body);
        st.cur = saved;
    } else {
        t_arrow_params_exec(c, st, &a.params);
        let saved = st.cur;
        open_scope_exec(c, st, a.span);
        t_arrow_body_exec(c, st, &a.body);
        st.cur = saved;
    }
}

fn t_class_exec(c: bool, st: &mut PcState, k: &Class)
    ensures
        sv(*final(st)) == t_class(c, sv(*old(st)), *k),
    decreases *k, 0int,
{
    match &k.super_class {
        Some(s) => t_expr_exec(c, st, s),
        None => {},
    }
    let saved = st.cur;
    open_scope_exec(c, st, k.span);
    t_members_exec(c, st, &k.members);
    st.cur = saved;
}

fn t_members_exec(c: bool, st: &mut PcState, v: &Vec<ClassMember>)
    ensures
        sv(*final(st)) == t_members(c, sv(*old(st)), v@, 0),
    decreases v@, 0int,
{
    let ghost s0 = sv(*st);
    let mut i: usize = 0;
    while i < v.len()
        invariant
            i <= v@.len(),
            t_members(c, sv(*st), v@, i as int) == t_members(c, s0, v@, 0),
        decreases v@.len() - i,
    {
        t_member_exec(c, st, &v[i]);
        i = i + 1;
    }
}

fn t_member_exec(c: bool, st: &mut PcState, m: &ClassMember)
    ensures
        sv(*final(st)) == t_member(c, sv(*old(st)), *m),
    decreases *m, 0int,
{
    match m {
        ClassMember::Method { span, key, func, kind, .. } => {
            if *kind == MethodKind::Constructor {
                let saved = st.cur;
                open_scope_exec(c, st, *span);
                t_ctor_params_exec(c, st, &func.params);
                t_opt_block_exec(c, st, &func.body);
                st.cur = saved;
            } else {
                t_prop_name_exec(c, st, key);
                t_function_exec(c, st, func);
            }
        },
        ClassMember::Prop { key, value, .. } => {
            t_prop_name_exec(c, st, key);
            t_opt_expr_exec(c, st, value);
        },
        ClassMember::Accessor { key, value, .. } => {
            t_prop_name_exec(c, st, key);
            t_opt_expr_exec(c, st, value);
        },
        ClassMember::StaticBlock { body, .. } => t_stmts_exec(c, st, &body.stmts),
    }
}

fn t_ctor_params_exec(c: bool, st: &mut PcState, v: &Vec<Param>)
    ensures
        sv(*final(st)) == t_ctor_params(c, sv(*old(st)), v@, 0),
    decreases v@, 0int,
{
    let ghost s0 = sv(*st);
    let mut i: usize = 0;
    while i < v.len()
        invariant
            i <= v@.len(),
            t_ctor_params(c, sv(*st), v@, i as int) == t_ctor_params(c, s0, v@, 0),
        decreases v@.len() - i,
    {
        let p = &v[i].pat;
        match p {
            Pat::Rest { .. } => {},
            _ => {
                t_pat_exec(c, st, p);
                if c {
                    let ids = pat_ids_of(p);
                    insert_reassigned_exec(st, &ids);
                }
            },
        }
        i = i + 1;
    }
}

fn t_jsx_exec(c: bool, st: &mut PcState, el: &JsxElement)
    ensures
        sv(*final(st)) == t_jsx(c, sv(*old(st)), *el),
    decreases *el, 0int,
{
    t_jsx_attrs_exec(c, st, &el.attrs);
    t_jsx_children_exec(c, st, &el.children);
}

fn t_jsx_attrs_exec(c: bool, st: &mut PcState, v: &Vec<JsxAttrOrSpread>)
    ensures
        sv(*final(st)) == t_jsx_attrs(c, sv(*old(st)), v@, 0),
    decreases v@, 0int,
{
    let ghost s0 = sv(*st);
    let mut i: usize = 0;
    while i < v.len()
        invariant
            i <= v@.len(),
            t_jsx_attrs(c, sv(*st), v@, i as int) == t_jsx_attrs(c, s0, v@, 0),
        decreases v@.len() - i,
    {
        match &v[i] {
            JsxAttrOrSpread::Attr { value, .. } => match value {
                Some(JsxAttrValue::Container(Some(x))) => t_expr_exec(c, st, x),
                Some(JsxAttrValue::Element(el)) => t_jsx_exec(c, st, el),
                Some(JsxAttrValue::Fragment { children, .. }) => t_jsx_children_exec(c, st, children),
                _ => {},
            },
            JsxAttrOrSpread::Spread { expr, .. } => t_expr_exec(c, st, expr),
        }
        i = i + 1;
    }
}

fn t_jsx_children_exec(c: bool, st: &mut PcState, v: &Vec<JsxChild>)
    ensures
        sv(*final(st)) == t_jsx_children(c, sv(*old(st)), v@, 0),
    decreases v@, 0int,
{
    let ghost s0 = sv(*st);
    let mut i: usize = 0;
    while i < v.len()
        invariant
            i <= v@.len(),
            t_jsx_children(c, sv(*st), v@, i as int) == t_jsx_children(c, s0, v@, 0),
        decreases v@.len() - i,
    {
        match &v[i] {
            JsxChild::Container { expr: Some(x), .. } => t_expr_exec(c, st, x),
            JsxChild::Element(el) => t_jsx_exec(c, st, el),
            JsxChild::Fragment { children, .. } => t_jsx_children_exec(c, st, children),
            _ => {},
        }
        i = i + 1;
    }
}

// ---------------------------------------------------------------------------
// What the rule reports.

/// The state after the first pass.
pub open spec fn collected(p: Program) -> PcView {
    t_stmts(true, init_view(), p.body@, 0)
}

/// The state after the second pass, which starts from the scopes and the
/// groups of the first, in the program's scope.
pub open spec fn visited(p: Program) -> PcView {
    t_stmts(false, PcView { cur: None, ..collected(p) }, p.body@, 0)
}

/// The declarations whose group is initialized, in the order they were
/// recorded.
pub open spec fn initialized_spans(entries: Seq<(Span, usize)>, groups: Seq<Status>) -> Seq<Span>
    decreases entries.len(),
{
    if entries.len() == 0 {
        Seq::empty()
    } else {
        let (span, g) = entries.last();
        initialized_spans(entries.drop_last(), groups) + if g < groups.len() && groups[g as int]
            == Status::Initialized {
            seq![span]
        } else {
            Seq::empty()
        }
    }
}

/// The declarations that the rule reports, in source order.
pub open spec fn reported(p: Program) -> Seq<Span> {
    let st = visited(p);
    dedup(sort_spans(initialized_spans(st.entries, st.groups)))
}

pub open spec fn message(src: Seq<char>, span: Span) -> Seq<char> {
    "`"@ + text_of(src, span) + "` is never reassigned"@
}

pub open spec fn never_reassigned_diag(src: Seq<char>, span: Span) -> DiagnosticView {
    hinted_diag(span, CODE@, message(src, span), HINT@)
}

/// The diagnostics of the rule on a program.
pub open spec fn prefer_const_diags(p: Program) -> Seq<DiagnosticView> {
    reported(p).map_values(|s: Span| never_reassigned_diag(p.source@, s))
}

/// The rule reports in strictly increasing source order, so no declaration
/// twice, each diagnostic with its code and the hint to use `const`.
pub proof fn lemma_reports_in_source_order(p: Program)
    ensures
        forall|i: int, j: int|
            0 <= i < j < prefer_const_diags(p).len() ==> span_lt(
                #[trigger] prefer_const_diags(p)[i].range,
                #[trigger] prefer_const_diags(p)[j].range,
            ),
        forall|i: int|
            0 <= i < prefer_const_diags(p).len() ==> (#[trigger] prefer_const_diags(p)[i]).code == CODE@
                && prefer_const_diags(p)[i].hint == Some(HINT@),
{
    let st = visited(p);
    lemma_sort_spans_sorted(initialized_spans(st.entries, st.groups));
    lemma_dedup_strict(sort_spans(initialized_spans(st.entries, st.groups)));
    let r = reported(p);
    let d = prefer_const_diags(p);
    assert forall|i: int, j: int| 0 <= i < j < d.len() implies span_lt(#[trigger] d[i].range, #[trigger] d[j].range) by {
        assert(d[i].range == r[i] && d[j].range == r[j]);
    }
}

fn initialized_spans_exec(st: &PcState) -> (r: Vec<Span>)
    ensures
        r@ == initialized_spans(st.entries@, st.groups@),
{
    let ghost e = st.entries@;
    let mut out: Vec<Span> = Vec::new();
    let mut i: usize = 0;
    while i < st.entries.len()
        invariant
            i <= e.len(),
            e == st.entries@,
            out@ == initialized_spans(e.take(i as int), st.groups@),
        decreases e.len() - i,
    {
        assert(e.take(i + 1).drop_last() =~= e.take(i as int));
        let (span, g) = st.entries[i];
        if g < st.groups.len() && st.groups[g] == Status::Initialized {
            out.push(span);
        }
        i = i + 1;
    }
    assert(e.take(i as int) =~= e);
    out
}

fn never_reassigned(src: &str, span: Span) -> (r: Diagnostic)
    ensures
        r@ == never_reassigned_diag(src@, span),
{
    let text = text_or_empty(src, span);
    let mut msg = String::from_str("`");
    msg.append(text.as_str());
    msg.append("` is never reassigned");
    Diagnostic::with_hint(span, CODE, msg, String::from_str(HINT))
}

impl PreferConst {
    /// The tags of the rule: it belongs to the recommended set.
    pub fn tags(&self) -> (r: Vec<&'static str>)
        ensures
            crate::tags::tag_views(r@) == seq![crate::tags::RECOMMENDED@],
    {
        crate::tags::recommended()
    }

    pub fn code(&self) -> (r: &'static str)
        ensures
            r@ == CODE@,
    {
        CODE
    }

    /// The diagnostics of the rule on a program, in source order.
    pub fn lint(&self, program: &Program) -> (r: Vec<Diagnostic>)
        ensures
            diag_views(r@) == prefer_const_diags(*program),
    {
        let mut st = first_pass(program);
        st.cur = None;
        t_stmts_exec(false, &mut st, &program.body);
        assert(sv(st) == visited(*program));
        let spans = initialized_spans_exec(&st);
        let sorted = dedup_exec(&sort_spans_exec(&spans));
        let ghost want = prefer_const_diags(*program);
        assert(sorted@ == reported(*program));
        let src = program.source.as_str();
        let mut out: Vec<Diagnostic> = Vec::new();
        let mut i: usize = 0;
        assert(diag_views(out@) =~= want.take(0));
        while i < sorted.len()
            invariant
                i <= sorted@.len(),
                sorted@ == reported(*program),
                want == prefer_const_diags(*program),
                want.len() == sorted@.len(),
                src@ == program.source@,
                diag_views(out@) == want.take(i as int),
            decreases sorted@.len() - i,
        {
            let d = never_reassigned(src, sorted[i]);
            push_diag(&mut out, d);
            assert(want.take(i + 1) =~= want.take(i as int).push(want[i as int]));
            i = i + 1;
        }
        assert(want.take(i as int) =~= want);
        out
    }
}

// ---------------------------------------------------------------------------
// What the first pass records, as ordered lists.

/// Scope keys in order: the program's first, then the constructs' spans in
/// source order.
pub open spec fn key_before(a: Option<Span>, b: Option<Span>) -> bool {
    match (a, b) {
        (None, _) => true,
        (Some(_), None) => false,
        (Some(x), Some(y)) => span_before(x, y),
    }
}

/// A key put into an ordered list of keys, unless it is there already.
pub open spec fn insert_key(s: Seq<Option<Span>>, k: Option<Span>) -> Seq<Option<Span>>
    decreases s.len(),
{
    if s.contains(k) {
        s
    } else if s.len() == 0 {
        seq![k]
    } else if key_before(s.last(), k) {
        s.push(k)
    } else {
        insert_key(s.drop_last(), k).push(s.last())
    }
}

/// Each key that opened a scope, once, in order.
pub open spec fn sorted_keys(keys: Seq<(Option<Span>, usize)>) -> Seq<Option<Span>>
    decreases keys.len(),
{
    if keys.len() == 0 {
        Seq::empty()
    } else {
        insert_key(sorted_keys(keys.drop_last()), keys.last().0)
    }
}

/// Whether `a` comes before `b`, or is `b`, in the order of their characters'
/// codes (which is the order of their UTF-8 bytes), from index `k` on.
pub open spec fn text_le_from(a: Seq<char>, b: Seq<char>, k: int) -> bool
    decreases a.len() - k,
{
    if k < 0 || k >= a.len() {
        true
    } else if k >= b.len() {
        false
    } else if a[k] != b[k] {
        (a[k] as u32) < (b[k] as u32)
    } else {
        text_le_from(a, b, k + 1)
    }
}

/// A name put into an ordered list of names, unless it is there already.
pub open spec fn insert_name(s: Seq<Seq<char>>, n: Seq<char>) -> Seq<Seq<char>>
    decreases s.len(),
{
    if s.contains(n) {
        s
    } else if s.len() == 0 {
        seq![n]
    } else if text_le_from(s.last(), n, 0) {
        s.push(n)
    } else {
        insert_name(s.drop_last(), n).push(s.last())
    }
}

/// The names that scope `i` declares, each once, in order.
pub open spec fn names_in(vars: Seq<(usize, Seq<char>, Span)>, i: usize) -> Seq<Seq<char>>
    decreases vars.len(),
{
    if vars.len() == 0 {
        Seq::empty()
    } else {
        let r = names_in(vars.drop_last(), i);
        if vars.last().0 == i {
            insert_name(r, vars.last().1)
        } else {
            r
        }
    }
}

/// The names of each scope, scope by scope in the order of their keys; for a
/// key that opened several scopes, the last one's.
pub open spec fn collected_scopes(st: PcView) -> Seq<Seq<Seq<char>>> {
    sorted_keys(st.keys).map_values(
        |k: Option<Span>|
            match scope_of(st.keys, k) {
                Some(i) => names_in(st.vars, i),
                None => Seq::empty(),
            },
    )
}

/// The groups that hold a declaration, each once, by the first declaration
/// it holds.
pub open spec fn live_groups(entries: Seq<(Span, usize)>) -> Seq<usize>
    decreases entries.len(),
{
    if entries.len() == 0 {
        Seq::empty()
    } else {
        let r = live_groups(entries.drop_last());
        if r.contains(entries.last().1) {
            r
        } else {
            r.push(entries.last().1)
        }
    }
}

pub open spec fn group_status(groups: Seq<Status>, g: usize) -> Status {
    if g < groups.len() {
        groups[g as int]
    } else {
        Status::Declared
    }
}

/// The status of each group that holds a declaration.
pub open spec fn group_statuses(st: PcView) -> Seq<Status> {
    live_groups(st.entries).map_values(|g: usize| group_status(st.groups, g))
}

fn contains_key(v: &Vec<Option<Span>>, k: Option<Span>) -> (r: bool)
    ensures
        r == v@.contains(k),
{
    let mut i: usize = 0;
    while i < v.len()
        invariant
            i <= v@.len(),
            forall|j: int| 0 <= j < i ==> v@[j] != k,
        decreases v@.len() - i,
    {
        if opt_span_eq(v[i], k) {
            assert(v@[i as int] == k);
            return true;
        }
        i = i + 1;
    }
    false
}

fn key_before_exec(a: Option<Span>, b: Option<Span>) -> (r: bool)
    ensures
        r == key_before(a, b),
{
    match (a, b) {
        (None, _) => true,
        (Some(_), None) => false,
        (Some(x), Some(y)) => span_before_exec(x, y),
    }
}

fn insert_key_exec(v: &mut Vec<Option<Span>>, k: Option<Span>)
    ensures
        final(v)@ == insert_key(old(v)@, k),
    decreases old(v)@.len(),
{
    if contains_key(v, k) {
        return;
    }
    if v.len() == 0 {
        v.push(k);
        assert(v@ =~= seq![k]);
        return;
    }
    let last = v[v.len() - 1];
    if key_before_exec(last, k) {
        v.push(k);
    } else {
        v.pop();
        insert_key_exec(v, k);
        v.push(last);
    }
}

fn text_le(a: &str, b: &str) -> (r: bool)
    ensures
        r == text_le_from(a@, b@, 0),
{
    let la = a.unicode_len();
    let lb = b.unicode_len();
    let mut k: usize = 0;
    loop
        invariant
            la == a@.len(),
            lb == b@.len(),
            k <= la,
            text_le_from(a@, b@, 0) == text_le_from(a@, b@, k as int),
        decreases la - k,
    {
        if k >= la {
            return true;
        }
        if k >= lb {
            return false;
        }
        let x = a.get_char(k);
        let y = b.get_char(k);
        if x != y {
            return (x as u32) < (y as u32);
        }
        k = k + 1;
    }
}

fn contains_name(v: &Vec<String>, n: &str) -> (r: bool)
    ensures
        r == names_view(v@).contains(n@),
{
    let mut i: usize = 0;
    while i < v.len()
        invariant
            i <= v@.len(),
            forall|j: int| 0 <= j < i ==> names_view(v@)[j] != n@,
        decreases v@.len() - i,
    {
        if str_eq(v[i].as_str(), n) {
            assert(names_view(v@)[i as int] == n@);
            return true;
        }
        i = i + 1;
    }
    false
}

fn insert_name_exec(v: &mut Vec<String>, n: &String)
    ensures
        names_view(final(v)@) == insert_name(names_view(old(v)@), n@),
    decreases old(v)@.len(),
{
    let ghost o = names_view(v@);
    if contains_name(v, n.as_str()) {
        return;
    }
    if v.len() == 0 {
        v.push(n.clone());
        assert(names_view(v@) =~= seq![n@]);
        return;
    }
    if text_le(v[v.len() - 1].as_str(), n.as_str()) {
        v.push(n.clone());
        assert(names_view(v@) =~= o.push(n@));
    } else {
        let last = v.pop().unwrap();
        assert(names_view(v@) =~= o.drop_last());
        insert_name_exec(v, n);
        let ghost mid = names_view(v@);
        let ghost lv = last@;
        v.push(last);
        assert(names_view(v@) =~= mid.push(lv));
    }
}

fn names_in_exec(vars: &Vec<(usize, String, Span)>, i: usize) -> (r: Vec<String>)
    ensures
        names_view(r@) == names_in(vars_view(vars@), i),
{
    let ghost vv = vars_view(vars@);
    let mut out: Vec<String> = Vec::new();
    let mut k: usize = 0;
    assert(names_view(out@) =~= names_in(vv.take(0), i));
    while k < vars.len()
        invariant
            k <= vars@.len(),
            vv == vars_view(vars@),
            names_view(out@) == names_in(vv.take(k as int), i),
        decreases vars@.len() - k,
    {
        assert(vv.take(k + 1).drop_last() =~= vv.take(k as int));
        if vars[k].0 == i {
            insert_name_exec(&mut out, &vars[k].1);
        }
        k = k + 1;
    }
    assert(vv.take(k as int) =~= vv);
    out
}

fn first_pass(program: &Program) -> (st: PcState)
    ensures
        sv(st) == collected(*program),
{
    let mut st = PcState {
        parents: vec![None],
        vars: Vec::new(),
        keys: vec![(None, 0usize)],
        cur: None,
        entries: Vec::new(),
        groups: Vec::new(),
    };
    assert(sv(st) =~= init_view());
    t_stmts_exec(true, &mut st, &program.body);
    st
}

/// What the first pass of the rule records of a program: the names that each
/// scope declares, scope by scope (the program's first, then by the span of
/// the construct that opened it); the status of each group that holds a
/// declaration; and how many declarations are in a group that is
/// initialized.
pub struct Collected {
    pub scopes: Vec<Vec<String>>,
    pub groups: Vec<Status>,
    pub initialized: usize,
}

pub open spec fn scopes_view(v: Seq<Vec<String>>) -> Seq<Seq<Seq<char>>> {
    v.map_values(|s: Vec<String>| names_view(s@))
}

impl PreferConst {
    /// What the first pass records of a program.
    pub fn collect(&self, program: &Program) -> (r: Collected)
        ensures
            scopes_view(r.scopes@) == collected_scopes(collected(*program)),
            r.groups@ == group_statuses(collected(*program)),
            r.initialized == initialized_spans(collected(*program).entries, collected(*program).groups).len(),
    {
        let st = first_pass(program);
        let ghost c = sv(st);
        let mut keys: Vec<Option<Span>> = Vec::new();
        let mut k: usize = 0;
        assert(keys@ =~= sorted_keys(st.keys@.take(0)));
        while k < st.keys.len()
            invariant
                k <= st.keys@.len(),
                keys@ == sorted_keys(st.keys@.take(k as int)),
            decreases st.keys@.len() - k,
        {
            assert(st.keys@.take(k + 1).drop_last() =~= st.keys@.take(k as int));
            insert_key_exec(&mut keys, st.keys[k].0);
            k = k + 1;
        }
        assert(st.keys@.take(k as int) =~= st.keys@);
        let ghost want = collected_scopes(c);
        let mut scopes: Vec<Vec<String>> = Vec::new();
        let mut j: usize = 0;
        assert(scopes_view(scopes@) =~= want.take(0));
        while j < keys.len()
            invariant
                j <= keys@.len(),
                c == sv(st),
                keys@ == sorted_keys(st.keys@),
                want == collected_scopes(c),
                want.len() == keys@.len(),
                scopes_view(scopes@) == want.take(j as int),
            decreases keys@.len() - j,
        {
            let names = match scope_of_exec(&st.keys, keys[j]) {
                Some(i) => names_in_exec(&st.vars, i),
                None => Vec::new(),
            };
            let ghost nv = names_view(names@);
            assert(nv == want[j as int]);
            let ghost before = scopes@;
            scopes.push(names);
            assert(scopes_view(scopes@) =~= scopes_view(before).push(nv));
            assert(want.take(j + 1) =~= want.take(j as int).push(want[j as int]));
            j = j + 1;
        }
        assert(want.take(j as int) =~= want);
        let mut seen: Vec<usize> = Vec::new();
        let mut groups: Vec<Status> = Vec::new();
        let mut e: usize = 0;
        assert(seen@ =~= live_groups(st.entries@.take(0)));
        while e < st.entries.len()
            invariant
                e <= st.entries@.len(),
                seen@ == live_groups(st.entries@.take(e as int)),
                groups@ == seen@.map_values(|g: usize| group_status(st.groups@, g)),
            decreases st.entries@.len() - e,
        {
            assert(st.entries@.take(e + 1).drop_last() =~= st.entries@.take(e as int));
            let g = st.entries[e].1;
            let mut found = false;
            let mut q: usize = 0;
            while q < seen.len()
                invariant
                    q <= seen@.len(),
                    found == exists|x: int| 0 <= x < q && seen@[x] == g,
                decreases seen@.len() - q,
            {
                if seen[q] == g {
                    found = true;
                }
                q = q + 1;
            }
            if !found {
                let s = if g < st.groups.len() {
                    st.groups[g]
                } else {
                    Status::Declared
                };
                let ghost gb = groups@;
                let ghost sb = seen@;
                seen.push(g);
                groups.push(s);
                assert(groups@ =~= seen@.map_values(|x: usize| group_status(st.groups@, x)));
            } else {
                proof {
                    let x = choose|x: int| 0 <= x < seen@.len() && seen@[x] == g;
                    assert(seen@.contains(g));
                }
            }
            e = e + 1;
        }
        assert(st.entries@.take(e as int) =~= st.entries@);
        let spans = initialized_spans_exec(&st);
        Collected { scopes, groups, initialized: spans.len() }
    }
}

} // verus!
