//! Traversal of the syntax tree. A walk lists the nodes of a program in
//! source order as a sequence of events: entering a node, then the events of
//! its children, then leaving it. The rules read that sequence.

use vstd::prelude::*;
use crate::ast::{Ident, Lit, TsTypeElement, TsEnumMember, ExprOrSpread, PropName, MemberProp, Callee, Block, Param, Function, ArrowBody, ClassMember, Class, Prop, JsxAttrValue, JsxAttrOrSpread, JsxChild, JsxElement, Expr, ObjectPatProp, Pat, VarDeclarator, VarDecl, ForInit, ForHead, ImportSpecifier, ExportSpecifier, TsModuleBlock, TsType, CatchClause, SwitchCase, Stmt, Program};

verus! {

/// A node of the tree, as a value.
pub enum Node {
    Stmt(Stmt),
    Expr(Expr),
    Pat(Pat),
    Function(Function),
    Class(Class),
    ClassMember(ClassMember),
    Prop(Prop),
    VarDecl(VarDecl),
    VarDeclarator(VarDeclarator),
    Param(Param),
    TsType(TsType),
    TsModuleBlock(TsModuleBlock),
    JsxElement(JsxElement),
    JsxAttr(JsxAttrOrSpread),
    ImportSpecifier(ImportSpecifier),
    ExportSpecifier(ExportSpecifier),
}

pub enum SEvent {
    Enter(Node),
    Exit(Node),
}

/// A node of the tree, borrowed from the program.
#[derive(Clone, Copy)]
pub enum NodeRef<'a> {
    Stmt(&'a Stmt),
    Expr(&'a Expr),
    Pat(&'a Pat),
    Function(&'a Function),
    Class(&'a Class),
    ClassMember(&'a ClassMember),
    Prop(&'a Prop),
    VarDecl(&'a VarDecl),
    VarDeclarator(&'a VarDeclarator),
    Param(&'a Param),
    TsType(&'a TsType),
    TsModuleBlock(&'a TsModuleBlock),
    JsxElement(&'a JsxElement),
    JsxAttr(&'a JsxAttrOrSpread),
    ImportSpecifier(&'a ImportSpecifier),
    ExportSpecifier(&'a ExportSpecifier),
}

#[derive(Clone, Copy)]
pub enum Event<'a> {
    Enter(NodeRef<'a>),
    Exit(NodeRef<'a>),
}

impl<'a> View for NodeRef<'a> {
    type V = Node;

    open spec fn view(&self) -> Node {
        match *self {
            NodeRef::Stmt(n) => Node::Stmt(*n),
            NodeRef::Expr(n) => Node::Expr(*n),
            NodeRef::Pat(n) => Node::Pat(*n),
            NodeRef::Function(n) => Node::Function(*n),
            NodeRef::Class(n) => Node::Class(*n),
            NodeRef::ClassMember(n) => Node::ClassMember(*n),
            NodeRef::Prop(n) => Node::Prop(*n),
            NodeRef::VarDecl(n) => Node::VarDecl(*n),
            NodeRef::VarDeclarator(n) => Node::VarDeclarator(*n),
            NodeRef::Param(n) => Node::Param(*n),
            NodeRef::TsType(n) => Node::TsType(*n),
            NodeRef::TsModuleBlock(n) => Node::TsModuleBlock(*n),
            NodeRef::JsxElement(n) => Node::JsxElement(*n),
            NodeRef::JsxAttr(n) => Node::JsxAttr(*n),
            NodeRef::ImportSpecifier(n) => Node::ImportSpecifier(*n),
            NodeRef::ExportSpecifier(n) => Node::ExportSpecifier(*n),
        }
    }
}

impl<'a> View for Event<'a> {
    type V = SEvent;

    open spec fn view(&self) -> SEvent {
        match *self {
            Event::Enter(n) => SEvent::Enter(n@),
            Event::Exit(n) => SEvent::Exit(n@),
        }
    }
}

/// The events of a borrowed event list, as values.
pub open spec fn event_views<'a>(v: Seq<Event<'a>>) -> Seq<SEvent> {
    v.map_values(|e: Event<'a>| e@)
}

/// Entering `n`, then `inner`, then leaving `n`.
pub open spec fn wrap(n: Node, inner: Seq<SEvent>) -> Seq<SEvent> {
    seq![SEvent::Enter(n)] + inner + seq![SEvent::Exit(n)]
}

// ---------------------------------------------------------------------------
// What a walk lists, node kind by node kind.

pub open spec fn stmt_events(s: Stmt) -> Seq<SEvent>
    decreases s, 0int,
{
    wrap(Node::Stmt(s), match s {
        Stmt::Expr { expr, .. } => expr_events(expr),
        Stmt::Block(b) => stmts_events(b.stmts@, 0),
        Stmt::Empty(_) => Seq::empty(),
        Stmt::Var(d) => var_decl_events(d),
        Stmt::If { test, cons, alt, .. } => expr_events(test) + stmt_events(*cons)
            + opt_stmt_events(alt),
        Stmt::For { init, test, update, body, .. } => for_init_events(init) + opt_expr_events(test)
            + opt_expr_events(update) + stmt_events(*body),
        Stmt::ForIn { left, right, body, .. } => for_head_events(left) + expr_events(right)
            + stmt_events(*body),
        Stmt::ForOf { left, right, body, .. } => for_head_events(left) + expr_events(right)
            + stmt_events(*body),
        Stmt::While { test, body, .. } => expr_events(test) + stmt_events(*body),
        Stmt::DoWhile { body, test, .. } => stmt_events(*body) + expr_events(test),
        Stmt::Labeled { body, .. } => stmt_events(*body),
        Stmt::Break { .. } => Seq::empty(),
        Stmt::Continue { .. } => Seq::empty(),
        Stmt::Return { arg, .. } => opt_expr_events(arg),
        Stmt::Throw { arg, .. } => expr_events(arg),
        Stmt::Try { block, handler, finalizer, .. } => stmts_events(block.stmts@, 0)
            + catch_events(handler) + opt_block_events(finalizer),
        Stmt::With { object, body, .. } => expr_events(object) + stmt_events(*body),
        Stmt::Switch { discriminant, cases, .. } => expr_events(discriminant) + cases_events(
            cases@,
            0,
        ),
        Stmt::Fn(f) => function_events(f),
        Stmt::Class(c) => class_events(c),
        Stmt::Import { specifiers, .. } => import_specs_events(specifiers@, 0),
        Stmt::ExportNamed { specifiers, .. } => export_specs_events(specifiers@, 0),
        Stmt::ExportDecl { decl, .. } => stmt_events(*decl),
        Stmt::ExportDefaultExpr { expr, .. } => expr_events(expr),
        Stmt::TsModule { body, .. } => match body {
            Some(b) => wrap(Node::TsModuleBlock(b), stmts_events(b.stmts@, 0)),
            None => Seq::empty(),
        },
        Stmt::TsTypeAlias { ty, .. } => ts_type_events(ty),
        Stmt::TsInterface { types, .. } => ts_types_events(types@, 0),
        Stmt::TsEnum { members, .. } => enum_members_events(members@, 0),
    })
}

pub open spec fn enum_members_events(s: Seq<TsEnumMember>, i: int) -> Seq<SEvent>
    decreases s, s.len() - i,
{
    if 0 <= i < s.len() {
        opt_expr_events(s[i].init) + enum_members_events(s, i + 1)
    } else {
        Seq::empty()
    }
}

pub open spec fn stmts_events(s: Seq<Stmt>, i: int) -> Seq<SEvent>
    decreases s, s.len() - i,
{
    if 0 <= i < s.len() {
        stmt_events(s[i]) + stmts_events(s, i + 1)
    } else {
        Seq::empty()
    }
}

pub open spec fn cases_events(s: Seq<SwitchCase>, i: int) -> Seq<SEvent>
    decreases s, s.len() - i,
{
    if 0 <= i < s.len() {
        opt_expr_events(s[i].test) + stmts_events(s[i].cons@, 0) + cases_events(s, i + 1)
    } else {
        Seq::empty()
    }
}

pub open spec fn opt_expr_events(e: Option<Expr>) -> Seq<SEvent>
    decreases e, 0int,
{
    match e {
        Some(e) => expr_events(e),
        None => Seq::empty(),
    }
}

pub open spec fn for_head_events(h: ForHead) -> Seq<SEvent>
    decreases h, 0int,
{
    match h {
        ForHead::Var(d) => var_decl_events(d),
        ForHead::Pat(p) => pat_events(p),
    }
}

pub open spec fn var_decl_events(d: VarDecl) -> Seq<SEvent>
    decreases d, 0int,
{
    wrap(Node::VarDecl(d), declarators_events(d.decls@, 0))
}

pub open spec fn declarators_events(s: Seq<VarDeclarator>, i: int) -> Seq<SEvent>
    decreases s, s.len() - i,
{
    if 0 <= i < s.len() {
        wrap(Node::VarDeclarator(s[i]), pat_events(s[i].name) + opt_expr_events(s[i].init))
            + declarators_events(s, i + 1)
    } else {
        Seq::empty()
    }
}

pub open spec fn expr_events(e: Expr) -> Seq<SEvent>
    decreases e, 0int,
{
    wrap(Node::Expr(e), match e {
        Expr::This(_) => Seq::empty(),
        Expr::Super(_) => Seq::empty(),
        Expr::Ident(_) => Seq::empty(),
        Expr::Lit(_) => Seq::empty(),
        Expr::Template { exprs, .. } => exprs_events(exprs@, 0),
        Expr::TaggedTemplate { tag, exprs, .. } => expr_events(*tag) + exprs_events(exprs@, 0),
        Expr::Array { elems, .. } => elems_events(elems@, 0),
        Expr::Object { props, .. } => props_events(props@, 0),
        Expr::Fn(f) => function_events(f),
        Expr::Arrow(a) => pats_events(a.params@, 0) + arrow_body_events(a.body)
            + opt_ts_type_events(a.return_type),
        Expr::Class(c) => class_events(c),
        Expr::Unary { arg, .. } => expr_events(*arg),
        Expr::Update { arg, .. } => expr_events(*arg),
        Expr::Bin { left, right, .. } => expr_events(*left) + expr_events(*right),
        Expr::Assign { left, right, .. } => pat_events(*left) + expr_events(*right),
        Expr::Member { obj, prop, .. } => expr_events(*obj) + member_prop_events(prop),
        Expr::Call { callee, args, .. } => callee_events(callee) + args_events(args@, 0),
        Expr::New { callee, args, .. } => expr_events(*callee) + args_events(args@, 0),
        Expr::Sequence { exprs, .. } => exprs_events(exprs@, 0),
        Expr::Cond { test, cons, alt, .. } => expr_events(*test) + expr_events(*cons) + expr_events(
            *alt,
        ),
        Expr::Await { arg, .. } => expr_events(*arg),
        Expr::Yield { arg, .. } => opt_box_expr_events(arg),
        Expr::Paren { expr, .. } => expr_events(*expr),
        Expr::Jsx(el) => jsx_element_events(el),
        Expr::TsAs { expr, ty, .. } => expr_events(*expr) + ts_type_events(ty),
        Expr::TsSatisfies { expr, ty, .. } => expr_events(*expr) + ts_type_events(ty),
        Expr::TsTypeAssertion { expr, ty, .. } => expr_events(*expr) + ts_type_events(ty),
        Expr::TsNonNull { expr, .. } => expr_events(*expr),
        Expr::MetaProp(_) => Seq::empty(),
        Expr::JsxFragment { children, .. } => jsx_children_events(children@, 0),
        Expr::TsInstantiation { expr, type_args, .. } => expr_events(*expr) + ts_types_events(
            type_args@,
            0,
        ),
    })
}

pub open spec fn exprs_events(s: Seq<Expr>, i: int) -> Seq<SEvent>
    decreases s, s.len() - i,
{
    if 0 <= i < s.len() {
        expr_events(s[i]) + exprs_events(s, i + 1)
    } else {
        Seq::empty()
    }
}

pub open spec fn elems_events(s: Seq<Option<ExprOrSpread>>, i: int) -> Seq<SEvent>
    decreases s, s.len() - i,
{
    if 0 <= i < s.len() {
        elem_events(s[i]) + elems_events(s, i + 1)
    } else {
        Seq::empty()
    }
}

pub open spec fn args_events(s: Seq<ExprOrSpread>, i: int) -> Seq<SEvent>
    decreases s, s.len() - i,
{
    if 0 <= i < s.len() {
        expr_events(s[i].expr) + args_events(s, i + 1)
    } else {
        Seq::empty()
    }
}

pub open spec fn prop_name_events(k: PropName) -> Seq<SEvent>
    decreases k, 0int,
{
    match k {
        PropName::Computed { expr: x, .. } => expr_events(*x),
        _ => Seq::empty(),
    }
}

pub open spec fn prop_events(p: Prop) -> Seq<SEvent>
    decreases p, 0int,
{
    wrap(Node::Prop(p), match p {
        Prop::KeyValue { key, value, .. } => prop_name_events(key) + expr_events(value),
        Prop::Shorthand(_) => Seq::empty(),
        Prop::Method { key, func, .. } => prop_name_events(key) + function_events(func),
        Prop::Spread { expr, .. } => expr_events(expr),
    })
}

pub open spec fn props_events(s: Seq<Prop>, i: int) -> Seq<SEvent>
    decreases s, s.len() - i,
{
    if 0 <= i < s.len() {
        prop_events(s[i]) + props_events(s, i + 1)
    } else {
        Seq::empty()
    }
}

pub open spec fn function_events(f: Function) -> Seq<SEvent>
    decreases f, 0int,
{
    wrap(
        Node::Function(f),
        params_events(f.params@, 0) + opt_block_events(f.body) + opt_ts_type_events(f.return_type),
    )
}

pub open spec fn param_events(p: Param) -> Seq<SEvent>
    decreases p, 0int,
{
    wrap(Node::Param(p), pat_events(p.pat))
}

pub open spec fn params_events(s: Seq<Param>, i: int) -> Seq<SEvent>
    decreases s, s.len() - i,
{
    if 0 <= i < s.len() {
        param_events(s[i]) + params_events(s, i + 1)
    } else {
        Seq::empty()
    }
}

pub open spec fn class_events(c: Class) -> Seq<SEvent>
    decreases c, 0int,
{
    wrap(Node::Class(c), opt_box_expr_events(c.super_class) + members_events(c.members@, 0))
}

pub open spec fn member_events(m: ClassMember) -> Seq<SEvent>
    decreases m, 0int,
{
    wrap(Node::ClassMember(m), match m {
        ClassMember::Method { key, func, .. } => prop_name_events(key) + function_events(func),
        ClassMember::Prop { key, type_ann, value, .. } => prop_name_events(key)
            + opt_ts_type_events(type_ann) + opt_expr_events(value),
        ClassMember::Accessor { key, type_ann, value, .. } => prop_name_events(key)
            + opt_ts_type_events(type_ann) + opt_expr_events(value),
        ClassMember::StaticBlock { body, .. } => stmts_events(body.stmts@, 0),
    })
}

pub open spec fn members_events(s: Seq<ClassMember>, i: int) -> Seq<SEvent>
    decreases s, s.len() - i,
{
    if 0 <= i < s.len() {
        member_events(s[i]) + members_events(s, i + 1)
    } else {
        Seq::empty()
    }
}

pub open spec fn pat_events(p: Pat) -> Seq<SEvent>
    decreases p, 0int,
{
    wrap(Node::Pat(p), match p {
        Pat::Ident { type_ann, .. } => opt_ts_type_events(type_ann),
        Pat::Array { elems, type_ann, .. } => opt_pats_events(elems@, 0) + opt_ts_type_events(
            type_ann,
        ),
        Pat::Object { props, type_ann, .. } => pat_props_events(props@, 0) + opt_ts_type_events(
            type_ann,
        ),
        Pat::Rest { arg, .. } => pat_events(*arg),
        Pat::Assign { left, right, .. } => pat_events(*left) + expr_events(*right),
        Pat::Expr(x) => expr_events(*x),
    })
}

pub open spec fn pats_events(s: Seq<Pat>, i: int) -> Seq<SEvent>
    decreases s, s.len() - i,
{
    if 0 <= i < s.len() {
        pat_events(s[i]) + pats_events(s, i + 1)
    } else {
        Seq::empty()
    }
}

pub open spec fn opt_pats_events(s: Seq<Option<Pat>>, i: int) -> Seq<SEvent>
    decreases s, s.len() - i,
{
    if 0 <= i < s.len() {
        opt_pat_events(s[i]) + opt_pats_events(s, i + 1)
    } else {
        Seq::empty()
    }
}

pub open spec fn pat_props_events(s: Seq<ObjectPatProp>, i: int) -> Seq<SEvent>
    decreases s, s.len() - i,
{
    if 0 <= i < s.len() {
        pat_prop_events(s[i]) + pat_props_events(s, i + 1)
    } else {
        Seq::empty()
    }
}

pub open spec fn ts_type_events(t: TsType) -> Seq<SEvent>
    decreases t, 0int,
{
    wrap(Node::TsType(t), match t {
        TsType::Ref { type_args, .. } => match type_args {
            Some(a) => ts_types_events(a@, 0),
            None => Seq::empty(),
        },
        TsType::TypeLit { members, .. } => type_elements_events(members@, 0),
        TsType::Other { types, .. } => ts_types_events(types@, 0),
        _ => Seq::empty(),
    })
}

/// The annotations of the members of a type literal.
pub open spec fn type_elements_events(s: Seq<TsTypeElement>, i: int) -> Seq<SEvent>
    decreases s, s.len() - i,
{
    if 0 <= i < s.len() {
        opt_ts_type_events(s[i].type_ann) + type_elements_events(s, i + 1)
    } else {
        Seq::empty()
    }
}

pub open spec fn opt_ts_type_events(t: Option<TsType>) -> Seq<SEvent>
    decreases t, 0int,
{
    match t {
        Some(t) => ts_type_events(t),
        None => Seq::empty(),
    }
}

pub open spec fn ts_types_events(s: Seq<TsType>, i: int) -> Seq<SEvent>
    decreases s, s.len() - i,
{
    if 0 <= i < s.len() {
        ts_type_events(s[i]) + ts_types_events(s, i + 1)
    } else {
        Seq::empty()
    }
}

pub open spec fn jsx_element_events(el: JsxElement) -> Seq<SEvent>
    decreases el, 0int,
{
    wrap(Node::JsxElement(el), jsx_attrs_events(el.attrs@, 0) + jsx_children_events(el.children@, 0))
}

pub open spec fn jsx_attr_events(a: JsxAttrOrSpread) -> Seq<SEvent>
    decreases a, 0int,
{
    wrap(Node::JsxAttr(a), match a {
        JsxAttrOrSpread::Attr { value, .. } => match value {
            Some(JsxAttrValue::Container(Some(x))) => expr_events(*x),
            Some(JsxAttrValue::Element(el)) => jsx_element_events(*el),
            Some(JsxAttrValue::Fragment { children, .. }) => jsx_children_events(children@, 0),
            _ => Seq::empty(),
        },
        JsxAttrOrSpread::Spread { expr, .. } => expr_events(expr),
    })
}

pub open spec fn jsx_attrs_events(s: Seq<JsxAttrOrSpread>, i: int) -> Seq<SEvent>
    decreases s, s.len() - i,
{
    if 0 <= i < s.len() {
        jsx_attr_events(s[i]) + jsx_attrs_events(s, i + 1)
    } else {
        Seq::empty()
    }
}

pub open spec fn jsx_children_events(s: Seq<JsxChild>, i: int) -> Seq<SEvent>
    decreases s, s.len() - i,
{
    if 0 <= i < s.len() {
        jsx_child_events(s[i]) + jsx_children_events(s, i + 1)
    } else {
        Seq::empty()
    }
}

pub open spec fn import_specs_events(s: Seq<ImportSpecifier>, i: int) -> Seq<SEvent>
    decreases s, s.len() - i,
{
    if 0 <= i < s.len() {
        wrap(Node::ImportSpecifier(s[i]), Seq::empty()) + import_specs_events(s, i + 1)
    } else {
        Seq::empty()
    }
}

pub open spec fn export_specs_events(s: Seq<ExportSpecifier>, i: int) -> Seq<SEvent>
    decreases s, s.len() - i,
{
    if 0 <= i < s.len() {
        wrap(Node::ExportSpecifier(s[i]), Seq::empty()) + export_specs_events(s, i + 1)
    } else {
        Seq::empty()
    }
}

pub open spec fn opt_stmt_events(s: Option<Box<Stmt>>) -> Seq<SEvent>
    decreases s, 0int,
{
    match s {
        Some(s) => stmt_events(*s),
        None => Seq::empty(),
    }
}

pub open spec fn for_init_events(init: Option<ForInit>) -> Seq<SEvent>
    decreases init, 0int,
{
    match init {
        Some(ForInit::Var(d)) => var_decl_events(d),
        Some(ForInit::Expr(e)) => expr_events(e),
        None => Seq::empty(),
    }
}

pub open spec fn catch_events(h: Option<CatchClause>) -> Seq<SEvent>
    decreases h, 0int,
{
    match h {
        Some(h) => opt_pat_events(h.param) + stmts_events(h.body.stmts@, 0),
        None => Seq::empty(),
    }
}

pub open spec fn opt_block_events(b: Option<Block>) -> Seq<SEvent>
    decreases b, 0int,
{
    match b {
        Some(b) => stmts_events(b.stmts@, 0),
        None => Seq::empty(),
    }
}

pub open spec fn arrow_body_events(b: ArrowBody) -> Seq<SEvent>
    decreases b, 0int,
{
    match b {
        ArrowBody::Block(b) => stmts_events(b.stmts@, 0),
        ArrowBody::Expr(x) => expr_events(*x),
    }
}

pub open spec fn member_prop_events(p: MemberProp) -> Seq<SEvent>
    decreases p, 0int,
{
    match p {
        MemberProp::Computed(x) => expr_events(*x),
        _ => Seq::empty(),
    }
}

pub open spec fn callee_events(c: Callee) -> Seq<SEvent>
    decreases c, 0int,
{
    match c {
        Callee::Expr(x) => expr_events(*x),
        _ => Seq::empty(),
    }
}

pub open spec fn opt_box_expr_events(e: Option<Box<Expr>>) -> Seq<SEvent>
    decreases e, 0int,
{
    match e {
        Some(x) => expr_events(*x),
        None => Seq::empty(),
    }
}

pub open spec fn elem_events(e: Option<ExprOrSpread>) -> Seq<SEvent>
    decreases e, 0int,
{
    match e {
        Some(x) => expr_events(x.expr),
        None => Seq::empty(),
    }
}

pub open spec fn opt_pat_events(p: Option<Pat>) -> Seq<SEvent>
    decreases p, 0int,
{
    match p {
        Some(p) => pat_events(p),
        None => Seq::empty(),
    }
}

pub open spec fn pat_prop_events(p: ObjectPatProp) -> Seq<SEvent>
    decreases p, 0int,
{
    match p {
        ObjectPatProp::KeyValue { key, value, .. } => prop_name_events(key) + pat_events(value),
        ObjectPatProp::Rest { arg, .. } => pat_events(arg),
    }
}

pub open spec fn jsx_child_events(c: JsxChild) -> Seq<SEvent>
    decreases c, 0int,
{
    match c {
        JsxChild::Text { .. } => Seq::empty(),
        JsxChild::Container { expr, .. } => opt_expr_events(expr),
        JsxChild::Element(el) => jsx_element_events(el),
        JsxChild::Fragment { children, .. } => jsx_children_events(children@, 0),
    }
}

/// All events of a program, in source order.
pub open spec fn program_events(p: Program) -> Seq<SEvent> {
    stmts_events(p.body@, 0)
}


// ---------------------------------------------------------------------------
// The walk itself.

proof fn lemma_event_views_push<'a>(v: Seq<Event<'a>>, e: Event<'a>)
    ensures
        event_views(v.push(e)) == event_views(v).push(e@),
{
    assert(event_views(v.push(e)) =~= event_views(v).push(e@));
}

fn push_event<'a>(out: &mut Vec<Event<'a>>, e: Event<'a>)
    ensures
        event_views(final(out)@) == event_views(old(out)@).push(e@),
{
    proof {
        lemma_event_views_push(out@, e);
    }
    out.push(e);
}

#[verifier::spinoff_prover]
#[verifier::rlimit(40)]
fn walk_stmt<'a>(s: &'a Stmt, out: &mut Vec<Event<'a>>)
    ensures
        event_views(final(out)@) == event_views(old(out)@) + stmt_events(*s),
    decreases *s, 0int,
{
    let ghost o = event_views(out@);
    push_event(out, Event::Enter(NodeRef::Stmt(s)));
    match s {
        Stmt::Expr { expr, .. } => walk_expr(expr, out),
        Stmt::Block(b) => walk_stmts(&b.stmts, out),
        Stmt::Empty(_) => {},
        Stmt::Var(d) => walk_var_decl(d, out),
        Stmt::If { test, cons, alt, .. } => {
            walk_expr(test, out);
            walk_stmt(cons, out);
            walk_opt_stmt(alt, out);
        },
        Stmt::For { init, test, update, body, .. } => {
            walk_for_init(init, out);
            walk_opt_expr(test, out);
            walk_opt_expr(update, out);
            walk_stmt(body, out);
        },
        Stmt::ForIn { left, right, body, .. } => {
            walk_for_head(left, out);
            walk_expr(right, out);
            walk_stmt(body, out);
        },
        Stmt::ForOf { left, right, body, .. } => {
            walk_for_head(left, out);
            walk_expr(right, out);
            walk_stmt(body, out);
        },
        Stmt::While { test, body, .. } => {
            walk_expr(test, out);
            walk_stmt(body, out);
        },
        Stmt::DoWhile { body, test, .. } => {
            walk_stmt(body, out);
            walk_expr(test, out);
        },
        Stmt::Labeled { body, .. } => walk_stmt(body, out),
        Stmt::Break { .. } => {},
        Stmt::Continue { .. } => {},
        Stmt::Return { arg, .. } => walk_opt_expr(arg, out),
        Stmt::Throw { arg, .. } => walk_expr(arg, out),
        Stmt::Try { block, handler, finalizer, .. } => {
            walk_stmts(&block.stmts, out);
            walk_catch(handler, out);
            walk_opt_block(finalizer, out);
        },
        Stmt::With { object, body, .. } => {
            walk_expr(object, out);
            walk_stmt(body, out);
        },
        Stmt::Switch { discriminant, cases, .. } => {
            walk_expr(discriminant, out);
            walk_cases(cases, out);
        },
        Stmt::Fn(f) => walk_function(f, out),
        Stmt::Class(c) => walk_class(c, out),
        Stmt::Import { specifiers, .. } => walk_import_specs(specifiers, out),
        Stmt::ExportNamed { specifiers, .. } => walk_export_specs(specifiers, out),
        Stmt::ExportDecl { decl, .. } => walk_stmt(decl, out),
        Stmt::ExportDefaultExpr { expr, .. } => walk_expr(expr, out),
        Stmt::TsModule { body, .. } => match body {
            Some(b) => {
                push_event(out, Event::Enter(NodeRef::TsModuleBlock(b)));
                walk_stmts(&b.stmts, out);
                push_event(out, Event::Exit(NodeRef::TsModuleBlock(b)));
            },
            None => {},
        },
        Stmt::TsTypeAlias { ty, .. } => walk_ts_type(ty, out),
        Stmt::TsInterface { types, .. } => walk_ts_types(types, out),
        Stmt::TsEnum { members, .. } => walk_enum_members(members, out),
    }
    push_event(out, Event::Exit(NodeRef::Stmt(s)));
    assert(event_views(out@) =~= o + stmt_events(*s));
}

fn walk_stmts<'a>(v: &'a Vec<Stmt>, out: &mut Vec<Event<'a>>)
    ensures
        event_views(final(out)@) == event_views(old(out)@) + stmts_events(v@, 0),
    decreases v@, 1int,
{
    let ghost o = event_views(out@);
    let mut i: usize = 0;
    while i < v.len()
        invariant
            i <= v.len(),
            event_views(out@) + stmts_events(v@, i as int) =~= o + stmts_events(v@, 0),
        decreases v.len() - i,
    {
        walk_stmt(&v[i], out);
        i = i + 1;
    }
}

fn walk_cases<'a>(v: &'a Vec<SwitchCase>, out: &mut Vec<Event<'a>>)
    ensures
        event_views(final(out)@) == event_views(old(out)@) + cases_events(v@, 0),
    decreases v@, 1int,
{
    let ghost o = event_views(out@);
    let mut i: usize = 0;
    while i < v.len()
        invariant
            i <= v.len(),
            event_views(out@) + cases_events(v@, i as int) =~= o + cases_events(v@, 0),
        decreases v.len() - i,
    {
        let ghost before = event_views(out@);
        walk_opt_expr(&v[i].test, out);
        walk_stmts(&v[i].cons, out);
        assert(event_views(out@) =~= before + opt_expr_events(v@[i as int].test) + stmts_events(
            v@[i as int].cons@,
            0,
        ));
        i = i + 1;
    }
}

fn walk_opt_stmt<'a>(s: &'a Option<Box<Stmt>>, out: &mut Vec<Event<'a>>)
    ensures
        event_views(final(out)@) == event_views(old(out)@) + opt_stmt_events(*s),
    decreases *s, 0int,
{
    match s {
        Some(s) => walk_stmt(s, out),
        None => {},
    }
}

fn walk_for_init<'a>(init: &'a Option<ForInit>, out: &mut Vec<Event<'a>>)
    ensures
        event_views(final(out)@) == event_views(old(out)@) + for_init_events(*init),
    decreases *init, 0int,
{
    match init {
        Some(ForInit::Var(d)) => walk_var_decl(d, out),
        Some(ForInit::Expr(e)) => walk_expr(e, out),
        None => {},
    }
}

fn walk_catch<'a>(h: &'a Option<CatchClause>, out: &mut Vec<Event<'a>>)
    ensures
        event_views(final(out)@) == event_views(old(out)@) + catch_events(*h),
    decreases *h, 0int,
{
    match h {
        Some(h) => {
            walk_opt_pat(&h.param, out);
            walk_stmts(&h.body.stmts, out);
        },
        None => {},
    }
}

fn walk_opt_block<'a>(b: &'a Option<Block>, out: &mut Vec<Event<'a>>)
    ensures
        event_views(final(out)@) == event_views(old(out)@) + opt_block_events(*b),
    decreases *b, 0int,
{
    match b {
        Some(b) => walk_stmts(&b.stmts, out),
        None => {},
    }
}

fn walk_opt_expr<'a>(e: &'a Option<Expr>, out: &mut Vec<Event<'a>>)
    ensures
        event_views(final(out)@) == event_views(old(out)@) + opt_expr_events(*e),
    decreases *e, 0int,
{
    match e {
        Some(e) => walk_expr(e, out),
        None => {},
    }
}

fn walk_for_head<'a>(h: &'a ForHead, out: &mut Vec<Event<'a>>)
    ensures
        event_views(final(out)@) == event_views(old(out)@) + for_head_events(*h),
    decreases *h, 0int,
{
    match h {
        ForHead::Var(d) => walk_var_decl(d, out),
        ForHead::Pat(p) => walk_pat(p, out),
    }
}

#[verifier::spinoff_prover]
fn walk_var_decl<'a>(d: &'a VarDecl, out: &mut Vec<Event<'a>>)
    ensures
        event_views(final(out)@) == event_views(old(out)@) + var_decl_events(*d),
    decreases *d, 0int,
{
    let ghost o = event_views(out@);
    push_event(out, Event::Enter(NodeRef::VarDecl(d)));
    walk_declarators(&d.decls, out);
    push_event(out, Event::Exit(NodeRef::VarDecl(d)));
    assert(event_views(out@) =~= o + var_decl_events(*d));
}

fn walk_declarators<'a>(v: &'a Vec<VarDeclarator>, out: &mut Vec<Event<'a>>)
    ensures
        event_views(final(out)@) == event_views(old(out)@) + declarators_events(v@, 0),
    decreases v@, 1int,
{
    let ghost o = event_views(out@);
    let mut i: usize = 0;
    while i < v.len()
        invariant
            i <= v.len(),
            event_views(out@) + declarators_events(v@, i as int) =~= o + declarators_events(v@, 0),
        decreases v.len() - i,
    {
        let ghost before = event_views(out@);
        push_event(out, Event::Enter(NodeRef::VarDeclarator(&v[i])));
        walk_pat(&v[i].name, out);
        walk_opt_expr(&v[i].init, out);
        push_event(out, Event::Exit(NodeRef::VarDeclarator(&v[i])));
        assert(event_views(out@) =~= before + wrap(
            Node::VarDeclarator(v@[i as int]),
            pat_events(v@[i as int].name) + opt_expr_events(v@[i as int].init),
        ));
        i = i + 1;
    }
}

#[verifier::spinoff_prover]
#[verifier::rlimit(40)]
fn walk_expr<'a>(e: &'a Expr, out: &mut Vec<Event<'a>>)
    ensures
        event_views(final(out)@) == event_views(old(out)@) + expr_events(*e),
    decreases *e, 0int,
{
    let ghost o = event_views(out@);
    push_event(out, Event::Enter(NodeRef::Expr(e)));
    match e {
        Expr::This(_) => {},
        Expr::Super(_) => {},
        Expr::Ident(_) => {},
        Expr::Lit(_) => {},
        Expr::Template { exprs, .. } => walk_exprs(exprs, out),
        Expr::TaggedTemplate { tag, exprs, .. } => {
            walk_expr(tag, out);
            walk_exprs(exprs, out);
        },
        Expr::Array { elems, .. } => walk_elems(elems, out),
        Expr::Object { props, .. } => walk_props(props, out),
        Expr::Fn(f) => walk_function(f, out),
        Expr::Arrow(a) => {
            walk_pats(&a.params, out);
            walk_arrow_body(&a.body, out);
            walk_opt_ts_type(&a.return_type, out);
        },
        Expr::Class(c) => walk_class(c, out),
        Expr::Unary { arg, .. } => walk_expr(arg, out),
        Expr::Update { arg, .. } => walk_expr(arg, out),
        Expr::Bin { left, right, .. } => {
            walk_expr(left, out);
            walk_expr(right, out);
        },
        Expr::Assign { left, right, .. } => {
            walk_pat(left, out);
            walk_expr(right, out);
        },
        Expr::Member { obj, prop, .. } => {
            walk_expr(obj, out);
            walk_member_prop(prop, out);
        },
        Expr::Call { callee, args, .. } => {
            walk_callee(callee, out);
            walk_args(args, out);
        },
        Expr::New { callee, args, .. } => {
            walk_expr(callee, out);
            walk_args(args, out);
        },
        Expr::Sequence { exprs, .. } => walk_exprs(exprs, out),
        Expr::Cond { test, cons, alt, .. } => {
            walk_expr(test, out);
            walk_expr(cons, out);
            walk_expr(alt, out);
        },
        Expr::Await { arg, .. } => walk_expr(arg, out),
        Expr::Yield { arg, .. } => walk_opt_box_expr(arg, out),
        Expr::Paren { expr, .. } => walk_expr(expr, out),
        Expr::Jsx(el) => walk_jsx_element(el, out),
        Expr::TsAs { expr, ty, .. } => {
            walk_expr(expr, out);
            walk_ts_type(ty, out);
        },
        Expr::TsSatisfies { expr, ty, .. } => {
            walk_expr(expr, out);
            walk_ts_type(ty, out);
        },
        Expr::TsTypeAssertion { expr, ty, .. } => {
            walk_expr(expr, out);
            walk_ts_type(ty, out);
        },
        Expr::TsNonNull { expr, .. } => walk_expr(expr, out),
        Expr::MetaProp(_) => {},
        Expr::JsxFragment { children, .. } => walk_jsx_children(children, out),
        Expr::TsInstantiation { expr, type_args, .. } => {
            walk_expr(expr, out);
            walk_ts_types(type_args, out);
        },
    }
    push_event(out, Event::Exit(NodeRef::Expr(e)));
    assert(event_views(out@) =~= o + expr_events(*e));
}

fn walk_exprs<'a>(v: &'a Vec<Expr>, out: &mut Vec<Event<'a>>)
    ensures
        event_views(final(out)@) == event_views(old(out)@) + exprs_events(v@, 0),
    decreases v@, 1int,
{
    let ghost o = event_views(out@);
    let mut i: usize = 0;
    while i < v.len()
        invariant
            i <= v.len(),
            event_views(out@) + exprs_events(v@, i as int) =~= o + exprs_events(v@, 0),
        decreases v.len() - i,
    {
        walk_expr(&v[i], out);
        i = i + 1;
    }
}

fn walk_elems<'a>(v: &'a Vec<Option<ExprOrSpread>>, out: &mut Vec<Event<'a>>)
    ensures
        event_views(final(out)@) == event_views(old(out)@) + elems_events(v@, 0),
    decreases v@, 1int,
{
    let ghost o = event_views(out@);
    let mut i: usize = 0;
    while i < v.len()
        invariant
            i <= v.len(),
            event_views(out@) + elems_events(v@, i as int) =~= o + elems_events(v@, 0),
        decreases v.len() - i,
    {
        walk_elem(&v[i], out);
        i = i + 1;
    }
}

fn walk_elem<'a>(e: &'a Option<ExprOrSpread>, out: &mut Vec<Event<'a>>)
    ensures
        event_views(final(out)@) == event_views(old(out)@) + elem_events(*e),
    decreases *e, 0int,
{
    match e {
        Some(x) => walk_expr(&x.expr, out),
        None => {},
    }
}

fn walk_args<'a>(v: &'a Vec<ExprOrSpread>, out: &mut Vec<Event<'a>>)
    ensures
        event_views(final(out)@) == event_views(old(out)@) + args_events(v@, 0),
    decreases v@, 1int,
{
    let ghost o = event_views(out@);
    let mut i: usize = 0;
    while i < v.len()
        invariant
            i <= v.len(),
            event_views(out@) + args_events(v@, i as int) =~= o + args_events(v@, 0),
        decreases v.len() - i,
    {
        walk_expr(&v[i].expr, out);
        i = i + 1;
    }
}

fn walk_arrow_body<'a>(b: &'a ArrowBody, out: &mut Vec<Event<'a>>)
    ensures
        event_views(final(out)@) == event_views(old(out)@) + arrow_body_events(*b),
    decreases *b, 0int,
{
    match b {
        ArrowBody::Block(b) => walk_stmts(&b.stmts, out),
        ArrowBody::Expr(x) => walk_expr(x, out),
    }
}

fn walk_member_prop<'a>(p: &'a MemberProp, out: &mut Vec<Event<'a>>)
    ensures
        event_views(final(out)@) == event_views(old(out)@) + member_prop_events(*p),
    decreases *p, 0int,
{
    match p {
        MemberProp::Computed(x) => walk_expr(x, out),
        _ => {},
    }
}

fn walk_callee<'a>(c: &'a Callee, out: &mut Vec<Event<'a>>)
    ensures
        event_views(final(out)@) == event_views(old(out)@) + callee_events(*c),
    decreases *c, 0int,
{
    match c {
        Callee::Expr(x) => walk_expr(x, out),
        _ => {},
    }
}

fn walk_opt_box_expr<'a>(e: &'a Option<Box<Expr>>, out: &mut Vec<Event<'a>>)
    ensures
        event_views(final(out)@) == event_views(old(out)@) + opt_box_expr_events(*e),
    decreases *e, 0int,
{
    match e {
        Some(x) => walk_expr(x, out),
        None => {},
    }
}

fn walk_prop_name<'a>(k: &'a PropName, out: &mut Vec<Event<'a>>)
    ensures
        event_views(final(out)@) == event_views(old(out)@) + prop_name_events(*k),
    decreases *k, 0int,
{
    match k {
        PropName::Computed { expr: x, .. } => walk_expr(x, out),
        _ => {},
    }
}

fn walk_prop<'a>(p: &'a Prop, out: &mut Vec<Event<'a>>)
    ensures
        event_views(final(out)@) == event_views(old(out)@) + prop_events(*p),
    decreases *p, 0int,
{
    let ghost o = event_views(out@);
    push_event(out, Event::Enter(NodeRef::Prop(p)));
    match p {
        Prop::KeyValue { key, value, .. } => {
            walk_prop_name(key, out);
            walk_expr(value, out);
        },
        Prop::Shorthand(_) => {},
        Prop::Method { key, func, .. } => {
            walk_prop_name(key, out);
            walk_function(func, out);
        },
        Prop::Spread { expr, .. } => walk_expr(expr, out),
    }
    push_event(out, Event::Exit(NodeRef::Prop(p)));
    assert(event_views(out@) =~= o + prop_events(*p));
}

fn walk_props<'a>(v: &'a Vec<Prop>, out: &mut Vec<Event<'a>>)
    ensures
        event_views(final(out)@) == event_views(old(out)@) + props_events(v@, 0),
    decreases v@, 1int,
{
    let ghost o = event_views(out@);
    let mut i: usize = 0;
    while i < v.len()
        invariant
            i <= v.len(),
            event_views(out@) + props_events(v@, i as int) =~= o + props_events(v@, 0),
        decreases v.len() - i,
    {
        walk_prop(&v[i], out);
        i = i + 1;
    }
}

fn walk_function<'a>(f: &'a Function, out: &mut Vec<Event<'a>>)
    ensures
        event_views(final(out)@) == event_views(old(out)@) + function_events(*f),
    decreases *f, 0int,
{
    let ghost o = event_views(out@);
    push_event(out, Event::Enter(NodeRef::Function(f)));
    walk_params(&f.params, out);
    walk_opt_block(&f.body, out);
    walk_opt_ts_type(&f.return_type, out);
    push_event(out, Event::Exit(NodeRef::Function(f)));
    assert(event_views(out@) =~= o + function_events(*f));
}

fn walk_param<'a>(p: &'a Param, out: &mut Vec<Event<'a>>)
    ensures
        event_views(final(out)@) == event_views(old(out)@) + param_events(*p),
    decreases *p, 0int,
{
    let ghost o = event_views(out@);
    push_event(out, Event::Enter(NodeRef::Param(p)));
    walk_pat(&p.pat, out);
    push_event(out, Event::Exit(NodeRef::Param(p)));
    assert(event_views(out@) =~= o + param_events(*p));
}

fn walk_params<'a>(v: &'a Vec<Param>, out: &mut Vec<Event<'a>>)
    ensures
        event_views(final(out)@) == event_views(old(out)@) + params_events(v@, 0),
    decreases v@, 1int,
{
    let ghost o = event_views(out@);
    let mut i: usize = 0;
    while i < v.len()
        invariant
            i <= v.len(),
            event_views(out@) + params_events(v@, i as int) =~= o + params_events(v@, 0),
        decreases v.len() - i,
    {
        walk_param(&v[i], out);
        i = i + 1;
    }
}

fn walk_class<'a>(c: &'a Class, out: &mut Vec<Event<'a>>)
    ensures
        event_views(final(out)@) == event_views(old(out)@) + class_events(*c),
    decreases *c, 0int,
{
    let ghost o = event_views(out@);
    push_event(out, Event::Enter(NodeRef::Class(c)));
    walk_opt_box_expr(&c.super_class, out);
    walk_members(&c.members, out);
    push_event(out, Event::Exit(NodeRef::Class(c)));
    assert(event_views(out@) =~= o + class_events(*c));
}

fn walk_member<'a>(m: &'a ClassMember, out: &mut Vec<Event<'a>>)
    ensures
        event_views(final(out)@) == event_views(old(out)@) + member_events(*m),
    decreases *m, 0int,
{
    let ghost o = event_views(out@);
    push_event(out, Event::Enter(NodeRef::ClassMember(m)));
    match m {
        ClassMember::Method { key, func, .. } => {
            walk_prop_name(key, out);
            walk_function(func, out);
        },
        ClassMember::Prop { key, type_ann, value, .. } => {
            walk_prop_name(key, out);
            walk_opt_ts_type(type_ann, out);
            walk_opt_expr(value, out);
        },
        ClassMember::Accessor { key, type_ann, value, .. } => {
            walk_prop_name(key, out);
            walk_opt_ts_type(type_ann, out);
            walk_opt_expr(value, out);
        },
        ClassMember::StaticBlock { body, .. } => walk_stmts(&body.stmts, out),
    }
    push_event(out, Event::Exit(NodeRef::ClassMember(m)));
    assert(event_views(out@) =~= o + member_events(*m));
}

fn walk_members<'a>(v: &'a Vec<ClassMember>, out: &mut Vec<Event<'a>>)
    ensures
        event_views(final(out)@) == event_views(old(out)@) + members_events(v@, 0),
    decreases v@, 1int,
{
    let ghost o = event_views(out@);
    let mut i: usize = 0;
    while i < v.len()
        invariant
            i <= v.len(),
            event_views(out@) + members_events(v@, i as int) =~= o + members_events(v@, 0),
        decreases v.len() - i,
    {
        walk_member(&v[i], out);
        i = i + 1;
    }
}

fn walk_pat<'a>(p: &'a Pat, out: &mut Vec<Event<'a>>)
    ensures
        event_views(final(out)@) == event_views(old(out)@) + pat_events(*p),
    decreases *p, 0int,
{
    let ghost o = event_views(out@);
    push_event(out, Event::Enter(NodeRef::Pat(p)));
    match p {
        Pat::Ident { type_ann, .. } => walk_opt_ts_type(type_ann, out),
        Pat::Array { elems, type_ann, .. } => {
            walk_opt_pats(elems, out);
            walk_opt_ts_type(type_ann, out);
        },
        Pat::Object { props, type_ann, .. } => {
            walk_pat_props(props, out);
            walk_opt_ts_type(type_ann, out);
        },
        Pat::Rest { arg, .. } => walk_pat(arg, out),
        Pat::Assign { left, right, .. } => {
            walk_pat(left, out);
            walk_expr(right, out);
        },
        Pat::Expr(x) => walk_expr(x, out),
    }
    push_event(out, Event::Exit(NodeRef::Pat(p)));
    assert(event_views(out@) =~= o + pat_events(*p));
}

fn walk_pats<'a>(v: &'a Vec<Pat>, out: &mut Vec<Event<'a>>)
    ensures
        event_views(final(out)@) == event_views(old(out)@) + pats_events(v@, 0),
    decreases v@, 1int,
{
    let ghost o = event_views(out@);
    let mut i: usize = 0;
    while i < v.len()
        invariant
            i <= v.len(),
            event_views(out@) + pats_events(v@, i as int) =~= o + pats_events(v@, 0),
        decreases v.len() - i,
    {
        walk_pat(&v[i], out);
        i = i + 1;
    }
}

fn walk_opt_pat<'a>(p: &'a Option<Pat>, out: &mut Vec<Event<'a>>)
    ensures
        event_views(final(out)@) == event_views(old(out)@) + opt_pat_events(*p),
    decreases *p, 0int,
{
    match p {
        Some(p) => walk_pat(p, out),
        None => {},
    }
}

fn walk_opt_pats<'a>(v: &'a Vec<Option<Pat>>, out: &mut Vec<Event<'a>>)
    ensures
        event_views(final(out)@) == event_views(old(out)@) + opt_pats_events(v@, 0),
    decreases v@, 1int,
{
    let ghost o = event_views(out@);
    let mut i: usize = 0;
    while i < v.len()
        invariant
            i <= v.len(),
            event_views(out@) + opt_pats_events(v@, i as int) =~= o + opt_pats_events(v@, 0),
        decreases v.len() - i,
    {
        walk_opt_pat(&v[i], out);
        i = i + 1;
    }
}

fn walk_pat_prop<'a>(p: &'a ObjectPatProp, out: &mut Vec<Event<'a>>)
    ensures
        event_views(final(out)@) == event_views(old(out)@) + pat_prop_events(*p),
    decreases *p, 0int,
{
    match p {
        ObjectPatProp::KeyValue { key, value, .. } => {
            walk_prop_name(key, out);
            walk_pat(value, out);
        },
        ObjectPatProp::Rest { arg, .. } => walk_pat(arg, out),
    }
}

fn walk_pat_props<'a>(v: &'a Vec<ObjectPatProp>, out: &mut Vec<Event<'a>>)
    ensures
        event_views(final(out)@) == event_views(old(out)@) + pat_props_events(v@, 0),
    decreases v@, 1int,
{
    let ghost o = event_views(out@);
    let mut i: usize = 0;
    while i < v.len()
        invariant
            i <= v.len(),
            event_views(out@) + pat_props_events(v@, i as int) =~= o + pat_props_events(v@, 0),
        decreases v.len() - i,
    {
        walk_pat_prop(&v[i], out);
        i = i + 1;
    }
}

fn walk_ts_type<'a>(t: &'a TsType, out: &mut Vec<Event<'a>>)
    ensures
        event_views(final(out)@) == event_views(old(out)@) + ts_type_events(*t),
    decreases *t, 0int,
{
    let ghost o = event_views(out@);
    push_event(out, Event::Enter(NodeRef::TsType(t)));
    match t {
        TsType::Ref { type_args, .. } => match type_args {
            Some(a) => walk_ts_types(a, out),
            None => {},
        },
        TsType::TypeLit { members, .. } => walk_type_elements(members, out),
        TsType::Other { types, .. } => walk_ts_types(types, out),
        _ => {},
    }
    push_event(out, Event::Exit(NodeRef::TsType(t)));
    assert(event_views(out@) =~= o + ts_type_events(*t));
}

fn walk_opt_ts_type<'a>(t: &'a Option<TsType>, out: &mut Vec<Event<'a>>)
    ensures
        event_views(final(out)@) == event_views(old(out)@) + opt_ts_type_events(*t),
    decreases *t, 0int,
{
    match t {
        Some(t) => walk_ts_type(t, out),
        None => {},
    }
}

fn walk_type_elements<'a>(v: &'a Vec<TsTypeElement>, out: &mut Vec<Event<'a>>)
    ensures
        event_views(final(out)@) == event_views(old(out)@) + type_elements_events(v@, 0),
    decreases v@, 1int,
{
    let ghost o = event_views(out@);
    let mut i: usize = 0;
    while i < v.len()
        invariant
            i <= v.len(),
            event_views(out@) + type_elements_events(v@, i as int) =~= o + type_elements_events(v@, 0),
        decreases v.len() - i,
    {
        walk_opt_ts_type(&v[i].type_ann, out);
        i = i + 1;
    }
}

fn walk_enum_members<'a>(v: &'a Vec<TsEnumMember>, out: &mut Vec<Event<'a>>)
    ensures
        event_views(final(out)@) == event_views(old(out)@) + enum_members_events(v@, 0),
    decreases v@, 1int,
{
    let ghost o = event_views(out@);
    let mut i: usize = 0;
    while i < v.len()
        invariant
            i <= v.len(),
            event_views(out@) + enum_members_events(v@, i as int) =~= o + enum_members_events(v@, 0),
        decreases v.len() - i,
    {
        walk_opt_expr(&v[i].init, out);
        i = i + 1;
    }
}

fn walk_ts_types<'a>(v: &'a Vec<TsType>, out: &mut Vec<Event<'a>>)
    ensures
        event_views(final(out)@) == event_views(old(out)@) + ts_types_events(v@, 0),
    decreases v@, 1int,
{
    let ghost o = event_views(out@);
    let mut i: usize = 0;
    while i < v.len()
        invariant
            i <= v.len(),
            event_views(out@) + ts_types_events(v@, i as int) =~= o + ts_types_events(v@, 0),
        decreases v.len() - i,
    {
        walk_ts_type(&v[i], out);
        i = i + 1;
    }
}

fn walk_jsx_element<'a>(el: &'a JsxElement, out: &mut Vec<Event<'a>>)
    ensures
        event_views(final(out)@) == event_views(old(out)@) + jsx_element_events(*el),
    decreases *el, 0int,
{
    let ghost o = event_views(out@);
    push_event(out, Event::Enter(NodeRef::JsxElement(el)));
    walk_jsx_attrs(&el.attrs, out);
    walk_jsx_children(&el.children, out);
    push_event(out, Event::Exit(NodeRef::JsxElement(el)));
    assert(event_views(out@) =~= o + jsx_element_events(*el));
}

fn walk_jsx_attr<'a>(a: &'a JsxAttrOrSpread, out: &mut Vec<Event<'a>>)
    ensures
        event_views(final(out)@) == event_views(old(out)@) + jsx_attr_events(*a),
    decreases *a, 0int,
{
    let ghost o = event_views(out@);
    push_event(out, Event::Enter(NodeRef::JsxAttr(a)));
    match a {
        JsxAttrOrSpread::Attr { value, .. } => match value {
            Some(JsxAttrValue::Container(Some(x))) => walk_expr(x, out),
            Some(JsxAttrValue::Element(el)) => walk_jsx_element(el, out),
            Some(JsxAttrValue::Fragment { children, .. }) => walk_jsx_children(children, out),
            _ => {},
        },
        JsxAttrOrSpread::Spread { expr, .. } => walk_expr(expr, out),
    }
    push_event(out, Event::Exit(NodeRef::JsxAttr(a)));
    assert(event_views(out@) =~= o + jsx_attr_events(*a));
}

fn walk_jsx_attrs<'a>(v: &'a Vec<JsxAttrOrSpread>, out: &mut Vec<Event<'a>>)
    ensures
        event_views(final(out)@) == event_views(old(out)@) + jsx_attrs_events(v@, 0),
    decreases v@, 1int,
{
    let ghost o = event_views(out@);
    let mut i: usize = 0;
    while i < v.len()
        invariant
            i <= v.len(),
            event_views(out@) + jsx_attrs_events(v@, i as int) =~= o + jsx_attrs_events(v@, 0),
        decreases v.len() - i,
    {
        walk_jsx_attr(&v[i], out);
        i = i + 1;
    }
}

fn walk_jsx_child<'a>(c: &'a JsxChild, out: &mut Vec<Event<'a>>)
    ensures
        event_views(final(out)@) == event_views(old(out)@) + jsx_child_events(*c),
    decreases *c, 0int,
{
    match c {
        JsxChild::Text { .. } => {},
        JsxChild::Container { expr, .. } => walk_opt_expr(expr, out),
        JsxChild::Element(el) => walk_jsx_element(el, out),
        JsxChild::Fragment { children, .. } => walk_jsx_children(children, out),
    }
}

fn walk_jsx_children<'a>(v: &'a Vec<JsxChild>, out: &mut Vec<Event<'a>>)
    ensures
        event_views(final(out)@) == event_views(old(out)@) + jsx_children_events(v@, 0),
    decreases v@, 1int,
{
    let ghost o = event_views(out@);
    let mut i: usize = 0;
    while i < v.len()
        invariant
            i <= v.len(),
            event_views(out@) + jsx_children_events(v@, i as int) =~= o + jsx_children_events(
                v@,
                0,
            ),
        decreases v.len() - i,
    {
        walk_jsx_child(&v[i], out);
        i = i + 1;
    }
}

fn walk_import_specs<'a>(v: &'a Vec<ImportSpecifier>, out: &mut Vec<Event<'a>>)
    ensures
        event_views(final(out)@) == event_views(old(out)@) + import_specs_events(v@, 0),
    decreases v@, 1int,
{
    let ghost o = event_views(out@);
    let mut i: usize = 0;
    while i < v.len()
        invariant
            i <= v.len(),
            event_views(out@) + import_specs_events(v@, i as int) =~= o + import_specs_events(
                v@,
                0,
            ),
        decreases v.len() - i,
    {
        push_event(out, Event::Enter(NodeRef::ImportSpecifier(&v[i])));
        push_event(out, Event::Exit(NodeRef::ImportSpecifier(&v[i])));
        i = i + 1;
    }
}

fn walk_export_specs<'a>(v: &'a Vec<ExportSpecifier>, out: &mut Vec<Event<'a>>)
    ensures
        event_views(final(out)@) == event_views(old(out)@) + export_specs_events(v@, 0),
    decreases v@, 1int,
{
    let ghost o = event_views(out@);
    let mut i: usize = 0;
    while i < v.len()
        invariant
            i <= v.len(),
            event_views(out@) + export_specs_events(v@, i as int) =~= o + export_specs_events(
                v@,
                0,
            ),
        decreases v.len() - i,
    {
        push_event(out, Event::Enter(NodeRef::ExportSpecifier(&v[i])));
        push_event(out, Event::Exit(NodeRef::ExportSpecifier(&v[i])));
        i = i + 1;
    }
}

/// Lists the events of a program in source order.
pub fn walk_program<'a>(p: &'a Program) -> (r: Vec<Event<'a>>)
    ensures
        event_views(r@) == program_events(*p),
{
    let mut out: Vec<Event<'a>> = Vec::new();
    assert(event_views(out@) =~= Seq::empty());
    walk_stmts(&p.body, &mut out);
    assert(event_views(out@) =~= program_events(*p));
    out
}

} // verus!
