//! The rules on programs written as source text. Each source is parsed with
//! deno_ast and converted into the library's syntax tree.

use deno_ast::swc::ast as s;
use deno_ast::swc::common::comments::CommentKind as SwcCommentKind;
use deno_ast::swc::common::Spanned;
use deno_ast::{MediaType, ModuleSpecifier, ParseParams};
use deno_lint::ast as a;
use deno_lint::diagnostic::Diagnostic;

// ---------------------------------------------------------------------------
// From source text to the library's tree.

fn sp(span: deno_ast::swc::common::Span) -> a::Span {
    // deno_ast starts the first byte of the source at position 1.
    a::Span { lo: span.lo.0 as usize - 1, hi: span.hi.0 as usize - 1 }
}

fn join(lo: deno_ast::swc::common::Span, hi: deno_ast::swc::common::Span) -> a::Span {
    a::Span { lo: sp(lo).lo, hi: sp(hi).hi }
}

/// The source text, and the syntax context that scope analysis gives a name
/// that no declaration binds.
struct Src<'a> {
    code: &'a str,
    unresolved: deno_ast::swc::common::SyntaxContext,
}

impl Src<'_> {
    /// The mark of the binding that a name with syntax context `ctxt` refers to.
    fn binding(&self, ctxt: deno_ast::swc::common::SyntaxContext) -> Option<u32> {
        if ctxt == self.unresolved {
            None
        } else {
            Some(ctxt.as_u32())
        }
    }
}

impl std::ops::Deref for Src<'_> {
    type Target = str;
    fn deref(&self) -> &str {
        self.code
    }
}

fn ident(i: &s::Ident) -> a::Ident {
    a::Ident { span: sp(i.span), name: i.sym.to_string(), binding: None }
}

/// A name read as a reference, with the binding it resolves to.
fn ident_ref(text: &Src, i: &s::Ident) -> a::Ident {
    a::Ident { span: sp(i.span), name: i.sym.to_string(), binding: text.binding(i.ctxt) }
}

fn ident_name(i: &s::IdentName) -> a::Ident {
    a::Ident { span: sp(i.span), name: i.sym.to_string(), binding: None }
}

fn private_name(p: &s::PrivateName) -> a::Ident {
    a::Ident { span: sp(p.span), name: p.name.to_string(), binding: None }
}

fn str_lit(x: &s::Str) -> a::StrLit {
    a::StrLit { span: sp(x.span), value: x.value.to_string_lossy().into_owned() }
}

fn num_lit(n: &s::Number) -> a::NumLit {
    let v = n.value;
    let whole = if v >= 0.0 && v.trunc() < 18446744073709551616.0 { Some(v.trunc() as u64) } else { None };
    a::NumLit { span: sp(n.span), whole, has_fraction: v.fract() != 0.0, value_text: v.to_string() }
}

fn lit(l: &s::Lit) -> a::Lit {
    match l {
        s::Lit::Str(x) => a::Lit::Str(str_lit(x)),
        s::Lit::Num(n) => a::Lit::Num(num_lit(n)),
        s::Lit::Bool(b) => a::Lit::Bool(sp(b.span), b.value),
        s::Lit::Null(n) => a::Lit::Null(sp(n.span)),
        s::Lit::BigInt(b) => a::Lit::BigInt(sp(b.span)),
        s::Lit::Regex(r) => a::Lit::Regex(sp(r.span)),
        s::Lit::JSXText(t) => panic!("JSX text as a literal at {:?}", t.span),
    }
}

fn unary_op(op: s::UnaryOp) -> a::UnaryOp {
    match op {
        s::UnaryOp::Minus => a::UnaryOp::Minus,
        s::UnaryOp::Plus => a::UnaryOp::Plus,
        s::UnaryOp::Bang => a::UnaryOp::Bang,
        s::UnaryOp::Tilde => a::UnaryOp::Tilde,
        s::UnaryOp::TypeOf => a::UnaryOp::TypeOf,
        s::UnaryOp::Void => a::UnaryOp::Void,
        s::UnaryOp::Delete => a::UnaryOp::Delete,
    }
}

fn bin_op(op: s::BinaryOp) -> a::BinOp {
        match op {
        s::BinaryOp::EqEq => a::BinOp::EqEq,
        s::BinaryOp::NotEq => a::BinOp::NotEq,
        s::BinaryOp::EqEqEq => a::BinOp::EqEqEq,
        s::BinaryOp::NotEqEq => a::BinOp::NotEqEq,
        s::BinaryOp::Lt => a::BinOp::Lt,
        s::BinaryOp::LtEq => a::BinOp::LtEq,
        s::BinaryOp::Gt => a::BinOp::Gt,
        s::BinaryOp::GtEq => a::BinOp::GtEq,
        s::BinaryOp::LShift => a::BinOp::LShift,
        s::BinaryOp::RShift => a::BinOp::RShift,
        s::BinaryOp::ZeroFillRShift => a::BinOp::ZeroFillRShift,
        s::BinaryOp::Add => a::BinOp::Add,
        s::BinaryOp::Sub => a::BinOp::Sub,
        s::BinaryOp::Mul => a::BinOp::Mul,
        s::BinaryOp::Div => a::BinOp::Div,
        s::BinaryOp::Mod => a::BinOp::Mod,
        s::BinaryOp::BitOr => a::BinOp::BitOr,
        s::BinaryOp::BitXor => a::BinOp::BitXor,
        s::BinaryOp::BitAnd => a::BinOp::BitAnd,
        s::BinaryOp::LogicalOr => a::BinOp::LogicalOr,
        s::BinaryOp::LogicalAnd => a::BinOp::LogicalAnd,
        s::BinaryOp::In => a::BinOp::In,
        s::BinaryOp::InstanceOf => a::BinOp::InstanceOf,
        s::BinaryOp::Exp => a::BinOp::Exp,
        s::BinaryOp::NullishCoalescing => a::BinOp::NullishCoalescing,
    }
}

fn assign_op(op: s::AssignOp) -> a::AssignOp {
    match op {
        s::AssignOp::Assign => a::AssignOp::Assign,
        s::AssignOp::AddAssign => a::AssignOp::AddAssign,
        s::AssignOp::SubAssign => a::AssignOp::SubAssign,
        s::AssignOp::MulAssign => a::AssignOp::MulAssign,
        s::AssignOp::DivAssign => a::AssignOp::DivAssign,
        s::AssignOp::ModAssign => a::AssignOp::ModAssign,
        s::AssignOp::LShiftAssign => a::AssignOp::LShiftAssign,
        s::AssignOp::RShiftAssign => a::AssignOp::RShiftAssign,
        s::AssignOp::ZeroFillRShiftAssign => a::AssignOp::ZeroFillRShiftAssign,
        s::AssignOp::BitOrAssign => a::AssignOp::BitOrAssign,
        s::AssignOp::BitXorAssign => a::AssignOp::BitXorAssign,
        s::AssignOp::BitAndAssign => a::AssignOp::BitAndAssign,
        s::AssignOp::ExpAssign => a::AssignOp::ExpAssign,
        s::AssignOp::AndAssign => a::AssignOp::AndAssign,
        s::AssignOp::OrAssign => a::AssignOp::OrAssign,
        s::AssignOp::NullishAssign => a::AssignOp::NullishAssign,
    }
}

fn bx(text: &Src, e: &s::Expr) -> Box<a::Expr> {
    Box::new(expr(text, e))
}

/// The span of an element or an argument, `...` included.
fn elem_span(x: &s::ExprOrSpread) -> a::Span {
    match x.spread {
        Some(dots) => join(dots, x.expr.span()),
        None => sp(x.expr.span()),
    }
}

fn args(text: &Src, v: &[s::ExprOrSpread]) -> Vec<a::ExprOrSpread> {
    v.iter().map(|x| a::ExprOrSpread { span: elem_span(x), spread: x.spread.is_some(), expr: expr(text, &x.expr) }).collect()
}

fn member_prop(text: &Src, p: &s::MemberProp) -> a::MemberProp {
    match p {
        s::MemberProp::Ident(i) => a::MemberProp::Ident(ident_name(i)),
        s::MemberProp::PrivateName(p) => a::MemberProp::Private(private_name(p)),
        s::MemberProp::Computed(c) => a::MemberProp::Computed(bx(text, &c.expr)),
    }
}

fn member(text: &Src, m: &s::MemberExpr, optional: bool) -> a::Expr {
    a::Expr::Member { span: sp(m.span), obj: bx(text, &m.obj), prop: member_prop(text, &m.prop), optional }
}

fn super_prop(text: &Src, m: &s::SuperPropExpr) -> a::Expr {
    let prop = match &m.prop {
        s::SuperProp::Ident(i) => a::MemberProp::Ident(ident_name(i)),
        s::SuperProp::Computed(c) => a::MemberProp::Computed(bx(text, &c.expr)),
    };
    a::Expr::Member {
        span: sp(m.span),
        obj: Box::new(a::Expr::Super(sp(m.obj.span))),
        prop,
        optional: false,
    }
}

fn expr(text: &Src, e: &s::Expr) -> a::Expr {
    match e {
        s::Expr::This(t) => a::Expr::This(sp(t.span)),
        s::Expr::Array(x) => a::Expr::Array {
            span: sp(x.span),
            elems: x
                .elems
                .iter()
                .map(|el| el.as_ref().map(|y| a::ExprOrSpread { span: elem_span(y), spread: y.spread.is_some(), expr: expr(text, &y.expr) }))
                .collect(),
        },
        s::Expr::Object(o) => a::Expr::Object { span: sp(o.span), props: o.props.iter().map(|x| prop_or_spread(text, x)).collect() },
        s::Expr::Fn(f) => a::Expr::Fn(function(text, &f.function, f.ident.as_ref())),
        s::Expr::Unary(u) => a::Expr::Unary { span: sp(u.span), op: unary_op(u.op), arg: bx(text, &u.arg) },
        s::Expr::Update(u) => a::Expr::Update { span: sp(u.span), arg: bx(text, &u.arg) },
        s::Expr::Bin(b) => a::Expr::Bin { span: sp(b.span), op: bin_op(b.op), left: bx(text, &b.left), right: bx(text, &b.right) },
        s::Expr::Assign(x) => a::Expr::Assign {
            span: sp(x.span),
            op: assign_op(x.op),
            left: Box::new(assign_target(text, &x.left)),
            right: bx(text, &x.right),
        },
        s::Expr::Member(m) => member(text, m, false),
        s::Expr::SuperProp(m) => super_prop(text, m),
        s::Expr::Cond(c) => a::Expr::Cond { span: sp(c.span), test: bx(text, &c.test), cons: bx(text, &c.cons), alt: bx(text, &c.alt) },
        s::Expr::Call(c) => a::Expr::Call {
            span: sp(c.span),
            callee: match &c.callee {
                s::Callee::Super(x) => a::Callee::Super(sp(x.span)),
                s::Callee::Import(x) => a::Callee::Import(sp(x.span)),
                s::Callee::Expr(x) => a::Callee::Expr(bx(text, x)),
            },
            args: args(text, &c.args),
            optional: false,
        },
        s::Expr::New(n) => a::Expr::New {
            span: sp(n.span),
            callee: bx(text, &n.callee),
            args: n.args.as_ref().map(|v| args(text, v)).unwrap_or_default(),
        },
        s::Expr::Seq(x) => a::Expr::Sequence { span: sp(x.span), exprs: x.exprs.iter().map(|y| expr(text, y)).collect() },
        s::Expr::Ident(i) => a::Expr::Ident(ident_ref(text, i)),
        s::Expr::Lit(l) => a::Expr::Lit(lit(l)),
        s::Expr::Tpl(t) => a::Expr::Template {
            span: sp(t.span),
            exprs: t.exprs.iter().map(|y| expr(text, y)).collect(),
            quasis: t
                .quasis
                .iter()
                .map(|q| tpl_element(q))
                .collect(),
        },
        s::Expr::TaggedTpl(t) => a::Expr::TaggedTemplate {
            span: sp(t.span),
            tag: bx(text, &t.tag),
            exprs: t.tpl.exprs.iter().map(|y| expr(text, y)).collect(),
            quasis: t.tpl.quasis.iter().map(|q| tpl_element(q)).collect(),
        },
        s::Expr::Arrow(x) => a::Expr::Arrow(a::ArrowFn {
            span: sp(x.span),
            params: x.params.iter().map(|x| pat(text, x)).collect(),
            body: match &*x.body {
                s::BlockStmtOrExpr::BlockStmt(b) => a::ArrowBody::Block(block(text, b)),
                s::BlockStmtOrExpr::Expr(y) => a::ArrowBody::Expr(bx(text, y)),
            },
            is_async: x.is_async,
            return_type: x.return_type.as_ref().map(|t| ts_type(text, &t.type_ann)),
        }),
        s::Expr::Class(c) => a::Expr::Class(class(text, &c.class, c.ident.as_ref())),
        s::Expr::Yield(y) => a::Expr::Yield { span: sp(y.span), arg: y.arg.as_ref().map(|x| bx(text, x)), delegate: y.delegate },
        s::Expr::Await(x) => a::Expr::Await { span: sp(x.span), arg: bx(text, &x.arg) },
        s::Expr::Paren(p) => a::Expr::Paren { span: sp(p.span), expr: bx(text, &p.expr) },
        s::Expr::JSXElement(el) => a::Expr::Jsx(jsx_element(text, el)),
        s::Expr::TsTypeAssertion(t) => a::Expr::TsTypeAssertion { span: sp(t.span), expr: bx(text, &t.expr), ty: ts_type(text, &t.type_ann) },
        // `x as const` is an `as` expression whose type names `const`.
        s::Expr::TsConstAssertion(t) => a::Expr::TsAs {
            span: sp(t.span),
            expr: bx(text, &t.expr),
            ty: a::TsType::Ref {
                span: a::Span { lo: sp(t.span).hi - 5, hi: sp(t.span).hi },
                name: a::Ident { span: a::Span { lo: sp(t.span).hi - 5, hi: sp(t.span).hi }, name: "const".to_string(), binding: None },
                type_args: None,
            },
        },
        s::Expr::TsNonNull(t) => a::Expr::TsNonNull { span: sp(t.span), expr: bx(text, &t.expr) },
        s::Expr::TsAs(t) => a::Expr::TsAs { span: sp(t.span), expr: bx(text, &t.expr), ty: ts_type(text, &t.type_ann) },
        s::Expr::TsSatisfies(t) => a::Expr::TsSatisfies { span: sp(t.span), expr: bx(text, &t.expr), ty: ts_type(text, &t.type_ann) },
        s::Expr::OptChain(c) => match &*c.base {
            s::OptChainBase::Member(m) => member(text, m, c.optional),
            s::OptChainBase::Call(call) => a::Expr::Call {
                span: sp(c.span),
                callee: a::Callee::Expr(bx(text, &call.callee)),
                args: args(text, &call.args),
                optional: c.optional,
            },
        },
        s::Expr::MetaProp(m) => a::Expr::MetaProp(sp(m.span)),
        s::Expr::JSXFragment(f) => a::Expr::JsxFragment { span: sp(f.span), children: jsx_children(text, &f.children) },
        s::Expr::TsInstantiation(t) => a::Expr::TsInstantiation {
            span: sp(t.span),
            expr: bx(text, &t.expr),
            type_args: t.type_args.params.iter().map(|x| ts_type(text, x)).collect(),
        },
        other => panic!("expression not held by the tree: {:?}", other.span()),
    }
}

fn tpl_element(q: &s::TplElement) -> a::TplElement {
    a::TplElement {
        span: sp(q.span),
        raw: q.raw.to_string(),
        cooked: q.cooked.as_ref().map(|c| c.to_string_lossy().into_owned()),
    }
}

fn prop_name(text: &Src, k: &s::PropName) -> a::PropName {
    match k {
        s::PropName::Ident(i) => a::PropName::Ident(ident_name(i)),
        s::PropName::Str(x) => a::PropName::Str(str_lit(x)),
        s::PropName::Num(n) => a::PropName::Num(num_lit(n)),
        s::PropName::Computed(c) => a::PropName::Computed { span: sp(c.span), expr: bx(text, &c.expr) },
        s::PropName::BigInt(b) => a::PropName::BigInt(sp(b.span)),
    }
}

fn empty_function(text: &Src, span: deno_ast::swc::common::Span, params: Vec<a::Param>, body: Option<&s::BlockStmt>) -> a::Function {
    a::Function {
        span: sp(span),
        id: None,
        params,
        body: body.map(|x| block(text, x)),
        is_async: false,
        is_generator: false,
        return_type: None,
        declare: false,
    }
}

fn prop_or_spread(text: &Src, p: &s::PropOrSpread) -> a::Prop {
    match p {
        s::PropOrSpread::Spread(x) => a::Prop::Spread { span: join(x.dot3_token, x.expr.span()), expr: expr(text, &x.expr) },
        s::PropOrSpread::Prop(p) => match &**p {
            s::Prop::Shorthand(i) => a::Prop::Shorthand(ident_ref(text, i)),
            s::Prop::KeyValue(kv) => a::Prop::KeyValue { span: sp(kv.span()), key: prop_name(text, &kv.key), value: expr(text, &kv.value) },
            s::Prop::Getter(g) => a::Prop::Method {
                span: sp(g.span),
                key: prop_name(text, &g.key),
                func: method_function(empty_function(text, g.span, vec![], g.body.as_ref()), text, sp(g.key.span()).hi),
                kind: a::MethodKind::Getter,
            },
            s::Prop::Setter(x) => a::Prop::Method {
                span: sp(x.span),
                key: prop_name(text, &x.key),
                func: method_function(
                    empty_function(text, x.span, vec![a::Param { span: sp(x.param.span()), pat: pat(text, &x.param) }], x.body.as_ref()),
                    text,
                    sp(x.key.span()).hi,
                ),
                kind: a::MethodKind::Setter,
            },
            s::Prop::Method(m) => a::Prop::Method {
                span: sp(m.span()),
                key: prop_name(text, &m.key),
                func: method_function(function(text, &m.function, None), text, sp(m.key.span()).hi),
                kind: a::MethodKind::Method,
            },
            s::Prop::Assign(x) => panic!("assignment property at {:?}", x.span),
        },
    }
}

/// A method's function, which starts at the parenthesis that opens its
/// parameters, after the key that ends at `key_hi`.
fn method_function(mut f: a::Function, text: &Src, key_hi: usize) -> a::Function {
    let open = key_hi + text[key_hi..].find('(').expect("a method has parameters");
    f.span.lo = open;
    f
}

fn function(text: &Src, f: &s::Function, id: Option<&s::Ident>) -> a::Function {
    a::Function {
        span: sp(f.span),
        id: id.map(ident),
        params: f.params.iter().map(|p| a::Param { span: sp(p.span), pat: pat(text, &p.pat) }).collect(),
        body: f.body.as_ref().map(|x| block(text, x)),
        is_async: f.is_async,
        is_generator: f.is_generator,
        return_type: f.return_type.as_ref().map(|t| ts_type(text, &t.type_ann)),
        declare: false,
    }
}

fn method_kind(k: s::MethodKind) -> a::MethodKind {
    match k {
        s::MethodKind::Method => a::MethodKind::Method,
        s::MethodKind::Getter => a::MethodKind::Getter,
        s::MethodKind::Setter => a::MethodKind::Setter,
    }
}

fn class(text: &Src, k: &s::Class, id: Option<&s::Ident>) -> a::Class {
    let mut members = vec![];
    for m in &k.body {
        match m {
            s::ClassMember::Constructor(k) => {
                let params = k
                    .params
                    .iter()
                    .map(|p| match p {
                        s::ParamOrTsParamProp::Param(p) => a::Param { span: sp(p.span), pat: pat(text, &p.pat) },
                        s::ParamOrTsParamProp::TsParamProp(p) => a::Param {
                            span: sp(p.span),
                            pat: match &p.param {
                                s::TsParamPropParam::Ident(b) => binding_ident(text, b),
                                s::TsParamPropParam::Assign(x) => a::Pat::Assign {
                                    span: sp(x.span),
                                    left: Box::new(pat(text, &x.left)),
                                    right: bx(text, &x.right),
                                },
                            },
                        },
                    })
                    .collect();
                members.push(a::ClassMember::Method {
                    span: sp(k.span),
                    key: prop_name(text, &k.key),
                    func: method_function(empty_function(text, k.span, params, k.body.as_ref()), text, sp(k.key.span()).hi),
                    kind: a::MethodKind::Constructor,
                    is_static: false,
                });
            }
            s::ClassMember::Method(x) => members.push(a::ClassMember::Method {
                span: sp(x.span),
                key: prop_name(text, &x.key),
                func: method_function(function(text, &x.function, None), text, sp(x.key.span()).hi),
                kind: method_kind(x.kind),
                is_static: x.is_static,
            }),
            s::ClassMember::PrivateMethod(x) => members.push(a::ClassMember::Method {
                span: sp(x.span),
                key: a::PropName::Private(private_name(&x.key)),
                func: method_function(function(text, &x.function, None), text, sp(x.key.span).hi),
                kind: method_kind(x.kind),
                is_static: x.is_static,
            }),
            s::ClassMember::ClassProp(x) => members.push(a::ClassMember::Prop {
                span: sp(x.span),
                key: prop_name(text, &x.key),
                type_ann: x.type_ann.as_ref().map(|t| ts_type(text, &t.type_ann)),
                value: x.value.as_ref().map(|v| expr(text, v)),
                is_static: x.is_static,
            }),
            s::ClassMember::PrivateProp(x) => members.push(a::ClassMember::Prop {
                span: sp(x.span),
                key: a::PropName::Private(private_name(&x.key)),
                type_ann: x.type_ann.as_ref().map(|t| ts_type(text, &t.type_ann)),
                value: x.value.as_ref().map(|v| expr(text, v)),
                is_static: x.is_static,
            }),
            s::ClassMember::Empty(_) | s::ClassMember::TsIndexSignature(_) => {}
            s::ClassMember::AutoAccessor(x) => members.push(a::ClassMember::Accessor {
                span: sp(x.span),
                key: match &x.key {
                    s::Key::Private(k) => a::PropName::Private(private_name(k)),
                    s::Key::Public(k) => prop_name(text, k),
                },
                type_ann: x.type_ann.as_ref().map(|t| ts_type(text, &t.type_ann)),
                value: x.value.as_ref().map(|v| expr(text, v)),
                is_static: x.is_static,
            }),
            s::ClassMember::StaticBlock(b) => members.push(a::ClassMember::StaticBlock { span: sp(b.span), body: block(text, &b.body) }),
            other => panic!("class member not held by the tree: {:?}", other.span()),
        }
    }
    a::Class {
        span: sp(k.span),
        id: id.map(ident),
        super_class: k.super_class.as_ref().map(|x| bx(text, x)),
        members,
        declare: false,
    }
}

fn binding_ident(text: &Src, b: &s::BindingIdent) -> a::Pat {
    a::Pat::Ident {
        span: sp(b.id.span),
        name: b.id.sym.to_string(),
        binding: text.binding(b.id.ctxt),
        type_ann: b.type_ann.as_ref().map(|t| ts_type(text, &t.type_ann)),
    }
}

fn pat(text: &Src, p: &s::Pat) -> a::Pat {
    match p {
        s::Pat::Ident(b) => binding_ident(text, b),
        s::Pat::Array(x) => array_pat(text, x),
        s::Pat::Rest(r) => a::Pat::Rest { span: sp(r.span), arg: Box::new(pat(text, &r.arg)) },
        s::Pat::Object(o) => object_pat(text, o),
        s::Pat::Assign(x) => a::Pat::Assign { span: sp(x.span), left: Box::new(pat(text, &x.left)), right: bx(text, &x.right) },
        s::Pat::Expr(e) => a::Pat::Expr(bx(text, e)),
        s::Pat::Invalid(i) => panic!("invalid pattern at {:?}", i.span),
    }
}

fn array_pat(text: &Src, x: &s::ArrayPat) -> a::Pat {
    a::Pat::Array {
        span: sp(x.span),
        elems: x.elems.iter().map(|el| el.as_ref().map(|x| pat(text, x))).collect(),
        type_ann: x.type_ann.as_ref().map(|t| ts_type(text, &t.type_ann)),
    }
}

fn object_pat(text: &Src, o: &s::ObjectPat) -> a::Pat {
    a::Pat::Object {
        span: sp(o.span),
        props: o
            .props
            .iter()
            .map(|p| match p {
                s::ObjectPatProp::KeyValue(kv) => a::ObjectPatProp::KeyValue {
                    span: sp(kv.span()),
                    key: prop_name(text, &kv.key),
                    value: pat(text, &kv.value),
                    shorthand: false,
                },
                s::ObjectPatProp::Assign(x) => {
                    let name = binding_ident(text, &x.key);
                    a::ObjectPatProp::KeyValue {
                        span: sp(x.span),
                        key: a::PropName::Ident(ident(&x.key.id)),
                        value: match &x.value {
                            Some(v) => a::Pat::Assign { span: sp(x.span), left: Box::new(name), right: bx(text, v) },
                            None => name,
                        },
                        shorthand: true,
                    }
                }
                s::ObjectPatProp::Rest(r) => a::ObjectPatProp::Rest { span: sp(r.span), arg: pat(text, &r.arg) },
            })
            .collect(),
        type_ann: o.type_ann.as_ref().map(|t| ts_type(text, &t.type_ann)),
    }
}

fn assign_target(text: &Src, t: &s::AssignTarget) -> a::Pat {
    match t {
        s::AssignTarget::Simple(x) => match x {
            s::SimpleAssignTarget::Ident(b) => binding_ident(text, b),
            s::SimpleAssignTarget::Member(m) => a::Pat::Expr(Box::new(member(text, m, false))),
            s::SimpleAssignTarget::SuperProp(m) => a::Pat::Expr(Box::new(super_prop(text, m))),
            s::SimpleAssignTarget::Paren(p) => a::Pat::Expr(Box::new(a::Expr::Paren { span: sp(p.span), expr: bx(text, &p.expr) })),
            s::SimpleAssignTarget::TsAs(t) => a::Pat::Expr(Box::new(a::Expr::TsAs { span: sp(t.span), expr: bx(text, &t.expr), ty: ts_type(text, &t.type_ann) })),
            s::SimpleAssignTarget::TsSatisfies(t) => a::Pat::Expr(Box::new(a::Expr::TsSatisfies { span: sp(t.span), expr: bx(text, &t.expr), ty: ts_type(text, &t.type_ann) })),
            s::SimpleAssignTarget::TsNonNull(t) => a::Pat::Expr(Box::new(a::Expr::TsNonNull { span: sp(t.span), expr: bx(text, &t.expr) })),
            s::SimpleAssignTarget::TsTypeAssertion(t) => a::Pat::Expr(Box::new(a::Expr::TsTypeAssertion { span: sp(t.span), expr: bx(text, &t.expr), ty: ts_type(text, &t.type_ann) })),
            other => panic!("assignment target not held by the tree: {:?}", other.span()),
        },
        s::AssignTarget::Pat(p) => match p {
            s::AssignTargetPat::Array(x) => array_pat(text, x),
            s::AssignTargetPat::Object(o) => object_pat(text, o),
            s::AssignTargetPat::Invalid(i) => panic!("invalid target at {:?}", i.span),
        },
    }
}

/// The name of a type reference, read from the source text before its type
/// arguments.
fn ref_name(text: &Src, r: &s::TsTypeRef) -> a::Ident {
    let lo = sp(r.span).lo;
    let end = match &r.type_params {
        Some(p) => sp(p.span).lo,
        None => sp(r.span).hi,
    };
    let text = text[lo..end].trim_end();
    a::Ident { span: a::Span { lo, hi: lo + text.len() }, name: text.to_string(), binding: None }
}

fn type_elements(text: &Src, members: &[s::TsTypeElement]) -> Vec<a::TsTypeElement> {
    let key = |k: &s::Expr| match k {
        s::Expr::Ident(i) => Some(ident(i)),
        _ => None,
    };
    let ann = |t: &Option<Box<s::TsTypeAnn>>| t.as_ref().map(|t| ts_type(text, &t.type_ann));
    members
        .iter()
        .map(|m| match m {
            s::TsTypeElement::TsPropertySignature(p) => {
                a::TsTypeElement { span: sp(p.span), kind: a::TsElementKind::Property, key: key(&p.key), type_ann: ann(&p.type_ann) }
            }
            s::TsTypeElement::TsMethodSignature(p) => {
                a::TsTypeElement { span: sp(p.span), kind: a::TsElementKind::Method, key: key(&p.key), type_ann: ann(&p.type_ann) }
            }
            s::TsTypeElement::TsGetterSignature(p) => {
                a::TsTypeElement { span: sp(p.span), kind: a::TsElementKind::Getter, key: key(&p.key), type_ann: ann(&p.type_ann) }
            }
            s::TsTypeElement::TsSetterSignature(p) => {
                a::TsTypeElement { span: sp(p.span), kind: a::TsElementKind::Setter, key: key(&p.key), type_ann: None }
            }
            s::TsTypeElement::TsCallSignatureDecl(p) => {
                a::TsTypeElement { span: sp(p.span), kind: a::TsElementKind::Other, key: None, type_ann: ann(&p.type_ann) }
            }
            s::TsTypeElement::TsConstructSignatureDecl(p) => {
                a::TsTypeElement { span: sp(p.span), kind: a::TsElementKind::Other, key: None, type_ann: ann(&p.type_ann) }
            }
            s::TsTypeElement::TsIndexSignature(p) => {
                a::TsTypeElement { span: sp(p.span), kind: a::TsElementKind::Other, key: None, type_ann: ann(&p.type_ann) }
            }
        })
        .collect()
}

fn element_types(text: &Src, members: &[s::TsTypeElement]) -> Vec<a::TsType> {
    let mut out = vec![];
    for m in members {
        let ann = match m {
            s::TsTypeElement::TsPropertySignature(p) => &p.type_ann,
            s::TsTypeElement::TsMethodSignature(p) => &p.type_ann,
            s::TsTypeElement::TsGetterSignature(p) => &p.type_ann,
            s::TsTypeElement::TsCallSignatureDecl(p) => &p.type_ann,
            s::TsTypeElement::TsConstructSignatureDecl(p) => &p.type_ann,
            s::TsTypeElement::TsIndexSignature(p) => &p.type_ann,
            s::TsTypeElement::TsSetterSignature(_) => continue,
        };
        if let Some(t) = ann {
            out.push(ts_type(text, &t.type_ann));
        }
    }
    out
}

fn ts_type(text: &Src, t: &s::TsType) -> a::TsType {
    let span = sp(t.span());
    let other = |types: Vec<a::TsType>| a::TsType::Other { span, types };
    match t {
        s::TsType::TsTypeRef(r) => a::TsType::Ref {
            span,
            name: ref_name(text, r),
            type_args: r.type_params.as_ref().map(|p| p.params.iter().map(|x| ts_type(text, x)).collect()),
        },
        s::TsType::TsThisType(x) => a::TsType::This(sp(x.span)),
        s::TsType::TsKeywordType(x) => a::TsType::Keyword(sp(x.span)),
        s::TsType::TsArrayType(x) => other(vec![ts_type(text, &x.elem_type)]),
        s::TsType::TsTupleType(x) => other(x.elem_types.iter().map(|e| ts_type(text, &e.ty)).collect()),
        s::TsType::TsOptionalType(x) => other(vec![ts_type(text, &x.type_ann)]),
        s::TsType::TsRestType(x) => other(vec![ts_type(text, &x.type_ann)]),
        s::TsType::TsUnionOrIntersectionType(s::TsUnionOrIntersectionType::TsUnionType(u)) => {
            other(u.types.iter().map(|x| ts_type(text, x)).collect())
        }
        s::TsType::TsUnionOrIntersectionType(s::TsUnionOrIntersectionType::TsIntersectionType(u)) => {
            other(u.types.iter().map(|x| ts_type(text, x)).collect())
        }
        s::TsType::TsConditionalType(c) => other(vec![
            ts_type(text, &c.check_type),
            ts_type(text, &c.extends_type),
            ts_type(text, &c.true_type),
            ts_type(text, &c.false_type),
        ]),
        s::TsType::TsParenthesizedType(x) => other(vec![ts_type(text, &x.type_ann)]),
        s::TsType::TsTypeOperator(x) => other(vec![ts_type(text, &x.type_ann)]),
        s::TsType::TsIndexedAccessType(x) => other(vec![ts_type(text, &x.obj_type), ts_type(text, &x.index_type)]),
        s::TsType::TsFnOrConstructorType(s::TsFnOrConstructorType::TsFnType(f)) => other(vec![ts_type(text, &f.type_ann.type_ann)]),
        s::TsType::TsFnOrConstructorType(s::TsFnOrConstructorType::TsConstructorType(f)) => {
            other(vec![ts_type(text, &f.type_ann.type_ann)])
        }
        s::TsType::TsTypeLit(l) => a::TsType::TypeLit { span, members: type_elements(text, &l.members) },
        s::TsType::TsLitType(l) => match &l.lit {
            s::TsLit::Str(x) => a::TsType::Lit { span, lit: a::Lit::Str(str_lit(x)) },
            s::TsLit::Number(n) => a::TsType::Lit { span, lit: a::Lit::Num(num_lit(n)) },
            s::TsLit::Bool(b) => a::TsType::Lit { span, lit: a::Lit::Bool(sp(b.span), b.value) },
            s::TsLit::BigInt(b) => a::TsType::Lit { span, lit: a::Lit::BigInt(sp(b.span)) },
            s::TsLit::Tpl(_) => other(vec![]),
        },
        _ => other(vec![]),
    }
}

fn block(text: &Src, b: &s::BlockStmt) -> a::Block {
    a::Block { span: sp(b.span), stmts: b.stmts.iter().map(|x| stmt(text, x)).collect() }
}

fn var_decl(text: &Src, v: &s::VarDecl) -> a::VarDecl {
    a::VarDecl {
        span: sp(v.span),
        kind: match v.kind {
            s::VarDeclKind::Var => a::VarKind::Var,
            s::VarDeclKind::Let => a::VarKind::Let,
            s::VarDeclKind::Const => a::VarKind::Const,
        },
        declare: v.declare,
        decls: v
            .decls
            .iter()
            .map(|d| a::VarDeclarator { span: sp(d.span), name: pat(text, &d.name), init: d.init.as_ref().map(|x| expr(text, x)) })
            .collect(),
    }
}

fn using_decl(text: &Src, u: &s::UsingDecl) -> a::VarDecl {
    a::VarDecl {
        span: sp(u.span),
        kind: if u.is_await { a::VarKind::AwaitUsing } else { a::VarKind::Using },
        declare: false,
        decls: u
            .decls
            .iter()
            .map(|d| a::VarDeclarator { span: sp(d.span), name: pat(text, &d.name), init: d.init.as_ref().map(|x| expr(text, x)) })
            .collect(),
    }
}

fn for_head(text: &Src, h: &s::ForHead) -> a::ForHead {
    match h {
        s::ForHead::VarDecl(v) => a::ForHead::Var(var_decl(text, v)),
        s::ForHead::Pat(p) => a::ForHead::Pat(pat(text, p)),
        s::ForHead::UsingDecl(u) => a::ForHead::Var(using_decl(text, u)),
    }
}

fn module_export_name(n: &s::ModuleExportName) -> a::ModuleExportName {
    match n {
        s::ModuleExportName::Ident(i) => a::ModuleExportName::Ident(ident(i)),
        s::ModuleExportName::Str(x) => a::ModuleExportName::Str(str_lit(x)),
    }
}

fn ts_module(text: &Src, m: &s::TsModuleDecl) -> a::Stmt {
    a::Stmt::TsModule {
        span: sp(m.span),
        declare: m.declare,
        kind: if m.global {
            a::TsModuleKind::Global
        } else if m.namespace {
            a::TsModuleKind::Namespace
        } else {
            a::TsModuleKind::Module
        },
        name: match &m.id {
            s::TsModuleName::Ident(i) => a::TsModuleName::Ident(ident(i)),
            s::TsModuleName::Str(x) => a::TsModuleName::Str(str_lit(x)),
        },
        body: m.body.as_ref().map(|x| namespace_body(text, x)),
    }
}

fn namespace_body(text: &Src, b: &s::TsNamespaceBody) -> a::TsModuleBlock {
    match b {
        s::TsNamespaceBody::TsModuleBlock(b) => a::TsModuleBlock { span: sp(b.span), stmts: b.body.iter().map(|x| module_item(text, x)).collect() },
        // `namespace A.B {}`: the inner namespace stands alone in the outer one.
        s::TsNamespaceBody::TsNamespaceDecl(d) => a::TsModuleBlock {
            span: sp(d.span),
            stmts: vec![a::Stmt::TsModule {
                span: sp(d.span),
                declare: d.declare,
                kind: a::TsModuleKind::Namespace,
                name: a::TsModuleName::Ident(ident(&d.id)),
                body: Some(namespace_body(text, &d.body)),
            }],
        },
    }
}

fn interface(text: &Src, i: &s::TsInterfaceDecl) -> a::Stmt {
    a::Stmt::TsInterface {
        span: sp(i.span),
        declare: i.declare,
        id: ident(&i.id),
        members: type_elements(text, &i.body.body),
        types: element_types(text, &i.body.body),
        method_spans: i
            .body
            .body
            .iter()
            .filter_map(|e| match e {
                s::TsTypeElement::TsMethodSignature(m) => Some(sp(m.span)),
                _ => None,
            })
            .collect(),
    }
}

fn decl(text: &Src, d: &s::Decl) -> a::Stmt {
    match d {
        s::Decl::Class(c) => a::Stmt::Class(a::Class { declare: c.declare, ..class(text, &c.class, Some(&c.ident)) }),
        s::Decl::Fn(f) => a::Stmt::Fn(a::Function { declare: f.declare, ..function(text, &f.function, Some(&f.ident)) }),
        s::Decl::Var(v) => a::Stmt::Var(var_decl(text, v)),
        s::Decl::Using(u) => a::Stmt::Var(using_decl(text, u)),
        s::Decl::TsTypeAlias(t) => a::Stmt::TsTypeAlias { span: sp(t.span), declare: t.declare, id: ident(&t.id), ty: ts_type(text, &t.type_ann) },
        s::Decl::TsEnum(e) => a::Stmt::TsEnum {
            span: sp(e.span),
            declare: e.declare,
            id: ident(&e.id),
            members: e
                .members
                .iter()
                .map(|m| a::TsEnumMember {
                    span: sp(m.span),
                    id: match &m.id {
                        s::TsEnumMemberId::Ident(i) => Some(ident(i)),
                        s::TsEnumMemberId::Str(_) => None,
                    },
                    init: m.init.as_ref().map(|x| expr(text, x)),
                })
                .collect(),
        },
        s::Decl::TsInterface(i) => interface(text, i),
        s::Decl::TsModule(m) => ts_module(text, m),
        other => panic!("declaration not held by the tree: {:?}", other.span()),
    }
}

fn stmt(text: &Src, x: &s::Stmt) -> a::Stmt {
    match x {
        s::Stmt::Block(b) => a::Stmt::Block(block(text, b)),
        s::Stmt::Empty(e) => a::Stmt::Empty(sp(e.span)),
        s::Stmt::Debugger(d) => a::Stmt::Empty(sp(d.span)),
        s::Stmt::With(w) => a::Stmt::With { span: sp(w.span), object: expr(text, &w.obj), body: Box::new(stmt(text, &w.body)) },
        s::Stmt::Return(r) => a::Stmt::Return { span: sp(r.span), arg: r.arg.as_ref().map(|x| expr(text, x)) },
        s::Stmt::Labeled(l) => a::Stmt::Labeled { span: sp(l.span), label: ident(&l.label), body: Box::new(stmt(text, &l.body)) },
        s::Stmt::Break(b) => a::Stmt::Break { span: sp(b.span), label: b.label.as_ref().map(ident) },
        s::Stmt::Continue(c) => a::Stmt::Continue { span: sp(c.span), label: c.label.as_ref().map(ident) },
        s::Stmt::If(i) => a::Stmt::If {
            span: sp(i.span),
            test: expr(text, &i.test),
            cons: Box::new(stmt(text, &i.cons)),
            alt: i.alt.as_ref().map(|y| Box::new(stmt(text, y))),
        },
        s::Stmt::Switch(w) => a::Stmt::Switch {
            span: sp(w.span),
            discriminant: expr(text, &w.discriminant),
            cases: w
                .cases
                .iter()
                .map(|k| a::SwitchCase { span: sp(k.span), test: k.test.as_ref().map(|t| expr(text, t)), cons: k.cons.iter().map(|x| stmt(text, x)).collect() })
                .collect(),
        },
        s::Stmt::Throw(t) => a::Stmt::Throw { span: sp(t.span), arg: expr(text, &t.arg) },
        s::Stmt::Try(t) => a::Stmt::Try {
            span: sp(t.span),
            block: block(text, &t.block),
            handler: t.handler.as_ref().map(|h| a::CatchClause { span: sp(h.span), param: h.param.as_ref().map(|x| pat(text, x)), body: block(text, &h.body) }),
            finalizer: t.finalizer.as_ref().map(|x| block(text, x)),
        },
        s::Stmt::While(w) => a::Stmt::While { span: sp(w.span), test: expr(text, &w.test), body: Box::new(stmt(text, &w.body)) },
        s::Stmt::DoWhile(d) => a::Stmt::DoWhile { span: sp(d.span), body: Box::new(stmt(text, &d.body)), test: expr(text, &d.test) },
        s::Stmt::For(f) => a::Stmt::For {
            span: sp(f.span),
            init: f.init.as_ref().map(|i| match i {
                s::VarDeclOrExpr::VarDecl(v) => a::ForInit::Var(var_decl(text, v)),
                s::VarDeclOrExpr::Expr(e) => a::ForInit::Expr(expr(text, e)),
            }),
            test: f.test.as_ref().map(|t| expr(text, t)),
            update: f.update.as_ref().map(|u| expr(text, u)),
            body: Box::new(stmt(text, &f.body)),
        },
        s::Stmt::ForIn(f) => a::Stmt::ForIn { span: sp(f.span), left: for_head(text, &f.left), right: expr(text, &f.right), body: Box::new(stmt(text, &f.body)) },
        s::Stmt::ForOf(f) => a::Stmt::ForOf {
            span: sp(f.span),
            is_await: f.is_await,
            left: for_head(text, &f.left),
            right: expr(text, &f.right),
            body: Box::new(stmt(text, &f.body)),
        },
        s::Stmt::Decl(d) => decl(text, d),
        s::Stmt::Expr(e) => a::Stmt::Expr { span: sp(e.span), expr: expr(text, &e.expr) },
    }
}

fn module_item(text: &Src, m: &s::ModuleItem) -> a::Stmt {
    match m {
        s::ModuleItem::Stmt(x) => stmt(text, x),
        s::ModuleItem::ModuleDecl(d) => match d {
            s::ModuleDecl::Import(i) => a::Stmt::Import {
                span: sp(i.span),
                specifiers: i
                    .specifiers
                    .iter()
                    .map(|x| match x {
                        s::ImportSpecifier::Named(n) => a::ImportSpecifier::Named {
                            span: sp(n.span),
                            local: ident(&n.local),
                            imported: match &n.imported {
                                Some(m) => module_export_name(m),
                                None => a::ModuleExportName::Ident(ident(&n.local)),
                            },
                        },
                        s::ImportSpecifier::Default(n) => a::ImportSpecifier::Default { span: sp(n.span), local: ident(&n.local) },
                        s::ImportSpecifier::Namespace(n) => a::ImportSpecifier::Namespace { span: sp(n.span), local: ident(&n.local) },
                    })
                    .collect(),
                src: str_lit(&i.src),
            },
            s::ModuleDecl::ExportDecl(e) => a::Stmt::ExportDecl { span: sp(e.span), decl: Box::new(decl(text, &e.decl)) },
            s::ModuleDecl::ExportNamed(n) => a::Stmt::ExportNamed {
                span: sp(n.span),
                specifiers: n
                    .specifiers
                    .iter()
                    .map(|x| match x {
                        s::ExportSpecifier::Named(n) => a::ExportSpecifier {
                            span: sp(n.span),
                            local: module_export_name(&n.orig),
                            exported: module_export_name(n.exported.as_ref().unwrap_or(&n.orig)),
                            namespace: false,
                        },
                        s::ExportSpecifier::Namespace(n) => a::ExportSpecifier {
                            span: sp(n.span),
                            local: module_export_name(&n.name),
                            exported: module_export_name(&n.name),
                            namespace: true,
                        },
                        other => panic!("export specifier not held by the tree: {:?}", other.span()),
                    })
                    .collect(),
                src: n.src.as_ref().map(|x| str_lit(x)),
            },
            s::ModuleDecl::ExportDefaultDecl(e) => a::Stmt::ExportDefaultExpr {
                span: sp(e.span),
                expr: match &e.decl {
                    s::DefaultDecl::Class(c) => a::Expr::Class(class(text, &c.class, c.ident.as_ref())),
                    s::DefaultDecl::Fn(f) => a::Expr::Fn(function(text, &f.function, f.ident.as_ref())),
                    s::DefaultDecl::TsInterfaceDecl(i) => {
                        return a::Stmt::ExportDecl { span: sp(e.span), decl: Box::new(interface(text, i)) };
                    }
                },
            },
            s::ModuleDecl::ExportDefaultExpr(e) => a::Stmt::ExportDefaultExpr { span: sp(e.span), expr: expr(text, &e.expr) },
            // `export * from "m"` and `export * as ns from "m"` re-export a module.
            s::ModuleDecl::ExportAll(e) => a::Stmt::ExportNamed { span: sp(e.span), specifiers: vec![], src: Some(str_lit(&e.src)) },
            // `export = value` exports a single value.
            s::ModuleDecl::TsExportAssignment(e) => a::Stmt::ExportDefaultExpr { span: sp(e.span), expr: expr(text, &e.expr) },
            // `export as namespace N;` only names the module for scripts.
            s::ModuleDecl::TsNamespaceExport(e) => a::Stmt::Empty(sp(e.span)),
            other => panic!("module declaration not held by the tree: {:?}", other.span()),
        },
    }
}

fn jsx_name(text: &Src, n: &s::JSXElementName) -> a::Ident {
    match n {
        s::JSXElementName::Ident(i) => ident(i),
        s::JSXElementName::JSXMemberExpr(m) => a::Ident { span: sp(m.span), name: jsx_member_name(m), binding: None },
        s::JSXElementName::JSXNamespacedName(x) => a::Ident { span: sp(x.span), name: format!("{}:{}", x.ns.sym, x.name.sym), binding: None },
    }
}

fn jsx_member_name(m: &s::JSXMemberExpr) -> String {
    let obj = match &m.obj {
        s::JSXObject::Ident(i) => i.sym.to_string(),
        s::JSXObject::JSXMemberExpr(inner) => jsx_member_name(inner),
    };
    format!("{}.{}", obj, m.prop.sym)
}

fn jsx_element(text: &Src, el: &s::JSXElement) -> a::JsxElement {
    a::JsxElement {
        span: sp(el.span),
        opening_span: sp(el.opening.span),
        name: jsx_name(text, &el.opening.name),
        attrs: el
            .opening
            .attrs
            .iter()
            .map(|x| match x {
                s::JSXAttrOrSpread::JSXAttr(at) => a::JsxAttrOrSpread::Attr {
                    span: sp(at.span),
                    name: match &at.name {
                        s::JSXAttrName::Ident(i) => ident_name(i),
                        s::JSXAttrName::JSXNamespacedName(x) => a::Ident { span: sp(x.span), name: format!("{}:{}", x.ns.sym, x.name.sym), binding: None },
                    },
                    value: at.value.as_ref().map(|v| match v {
                        s::JSXAttrValue::Str(x) => a::JsxAttrValue::Str(str_lit(x)),
                        s::JSXAttrValue::JSXExprContainer(c) => a::JsxAttrValue::Container(match &c.expr {
                            s::JSXExpr::JSXEmptyExpr(_) => None,
                            s::JSXExpr::Expr(e) => Some(bx(text, e)),
                        }),
                        s::JSXAttrValue::JSXElement(e) => a::JsxAttrValue::Element(Box::new(jsx_element(text, e))),
                        s::JSXAttrValue::JSXFragment(f) => a::JsxAttrValue::Fragment { span: sp(f.span), children: jsx_children(text, &f.children) },
                    }),
                },
                s::JSXAttrOrSpread::SpreadElement(x) => a::JsxAttrOrSpread::Spread { span: join(x.dot3_token, x.expr.span()), expr: expr(text, &x.expr) },
            })
            .collect(),
        children: jsx_children(text, &el.children),
    }
}

fn jsx_children(text: &Src, children: &[s::JSXElementChild]) -> Vec<a::JsxChild> {
    children
        .iter()
        .map(|k| match k {
            s::JSXElementChild::JSXText(t) => a::JsxChild::Text { span: sp(t.span), value: t.value.to_string() },
            s::JSXElementChild::JSXExprContainer(x) => a::JsxChild::Container {
                span: sp(x.span),
                expr: match &x.expr {
                    s::JSXExpr::JSXEmptyExpr(_) => None,
                    s::JSXExpr::Expr(e) => Some(expr(text, e)),
                },
            },
            s::JSXElementChild::JSXElement(e) => a::JsxChild::Element(jsx_element(text, e)),
            s::JSXElementChild::JSXFragment(f) => a::JsxChild::Fragment { span: sp(f.span), children: jsx_children(text, &f.children) },
            s::JSXElementChild::JSXSpreadChild(x) => a::JsxChild::Container { span: sp(x.span), expr: Some(expr(text, &x.expr)) },
            other => panic!("JSX child not held by the tree: {:?}", other.span()),
        })
        .collect()
}

fn parse_as(src: &str, media_type: MediaType, file: &str) -> a::Program {
    let parsed = deno_ast::parse_module(ParseParams {
        specifier: ModuleSpecifier::parse(file).unwrap(),
        text: src.into(),
        media_type,
        capture_tokens: false,
        scope_analysis: true,
        maybe_syntax: None,
    })
    .unwrap_or_else(|e| panic!("cannot parse {:?}: {:?}", src, e));
    let cx = Src { code: src, unresolved: parsed.unresolved_context() };
    let program = parsed.program();
    let body = match &*program {
        s::Program::Module(m) => m.body.iter().map(|x| module_item(&cx, x)).collect(),
        s::Program::Script(x) => x.body.iter().map(|y| stmt(&cx, y)).collect(),
    };
    let comments = parsed
        .comments()
        .get_vec()
        .iter()
        .map(|c| a::Comment {
            span: sp(c.span),
            kind: match c.kind {
                SwcCommentKind::Line => a::CommentKind::Line,
                SwcCommentKind::Block => a::CommentKind::Block,
            },
            text: c.text.to_string(),
        })
        .collect();
    a::Program { source: src.to_string(), body, comments }
}

fn ts(src: &str) -> a::Program {
    parse_as(src, MediaType::TypeScript, "file:///foo.ts")
}

fn jsx(src: &str) -> a::Program {
    parse_as(src, MediaType::Jsx, "file:///foo.jsx")
}

fn tsx(src: &str) -> a::Program {
    parse_as(src, MediaType::Tsx, "file:///foo.tsx")
}

// ---------------------------------------------------------------------------
// Checking what a rule reports.

/// Line (from 1) and column (in characters, from 0) of a byte offset.
fn line_col(source: &str, offset: usize) -> (usize, usize) {
    let before = &source[..offset];
    let line = before.matches('\n').count() + 1;
    let line_start = before.rfind('\n').map(|i| i + 1).unwrap_or(0);
    (line, source[line_start..offset].chars().count())
}

struct Exp<'a> {
    line: usize,
    col: usize,
    message: &'a str,
    hint: Option<&'a str>,
    fixes: Vec<(&'a str, String)>,
}

fn e<'a>(line: usize, col: usize, message: &'a str) -> Exp<'a> {
    Exp { line, col, message, hint: None, fixes: vec![] }
}

fn eh<'a>(line: usize, col: usize, message: &'a str, hint: &'a str) -> Exp<'a> {
    Exp { line, col, message, hint: Some(hint), fixes: vec![] }
}

impl<'a> Exp<'a> {
    fn fix(mut self, description: &'a str, fixed: &str) -> Self {
        self.fixes.push((description, fixed.to_string()));
        self
    }
}

fn apply_fix(source: &str, changes: &[deno_lint::diagnostic::LintFixChange]) -> String {
    let mut out = source.to_string();
    let mut sorted: Vec<_> = changes.iter().collect();
    sorted.sort_by_key(|c| c.range.lo);
    sorted.reverse();
    for c in sorted {
        out.replace_range(c.range.lo..c.range.hi, &c.new_text);
    }
    out
}

fn check_diags(source: &str, code: &str, diags: &[Diagnostic], expected: &[Exp]) {
    assert_eq!(diags.len(), expected.len(), "number of diagnostics for {:?}: {:?}", source, diags);
    // The linter reports the diagnostics of a file ordered by where they start.
    let mut diags: Vec<&Diagnostic> = diags.iter().collect();
    diags.sort_by_key(|d| d.range.lo);
    for (d, x) in diags.into_iter().zip(expected) {
        assert_eq!(line_col(source, d.range.lo), (x.line, x.col), "position in {:?}", source);
        assert_eq!(d.code, code);
        assert_eq!(d.message, x.message, "message in {:?}", source);
        if let Some(h) = x.hint {
            assert_eq!(d.hint.as_deref(), Some(h), "hint in {:?}", source);
        }
        if !x.fixes.is_empty() {
            assert_eq!(d.fixes.len(), x.fixes.len(), "fixes in {:?}", source);
            for (f, (desc, fixed)) in d.fixes.iter().zip(&x.fixes) {
                assert_eq!(&f.description, desc);
                assert_eq!(&apply_fix(source, &f.changes), fixed, "fix of {:?}", source);
            }
        }
    }
}

fn assert_ok(lint: impl Fn(&a::Program) -> Vec<Diagnostic>, parse: fn(&str) -> a::Program, sources: &[&str]) {
    for src in sources {
        let d = lint(&parse(src));
        assert!(d.is_empty(), "unexpected diagnostics for {:?}: {:?}", src, d);
    }
}

fn assert_err(
    lint: impl Fn(&a::Program) -> Vec<Diagnostic>,
    parse: fn(&str) -> a::Program,
    code: &str,
    cases: Vec<(&str, Vec<Exp>)>,
) {
    for (src, expected) in cases {
        let d = lint(&parse(src));
        check_diags(src, code, &d, &expected);
    }
}

// ---------------------------------------------------------------------------
// The rules.

use deno_lint::rules::no_with::{self, NoWith};

#[test]
fn no_with_no_with_invalid() {
    assert_err(|p| NoWith.lint(p), ts, no_with::CODE, vec![(
        "with (someVar) { console.log('asdf'); }",
        vec![e(1, 0, no_with::MESSAGE)],
    )]);
}

use deno_lint::rules::no_sparse_arrays::{self, NoSparseArrays};

#[test]
fn no_sparse_arrays_valid() {
    assert_ok(|p| NoSparseArrays.lint(p), ts, &["const sparseArray1 = [1,null,3];"]);
}

#[test]
fn no_sparse_arrays_invalid() {
    assert_err(|p| NoSparseArrays.lint(p), ts, no_sparse_arrays::CODE, vec![(
        "const sparseArray = [1,,3];",
        vec![e(1, 20, no_sparse_arrays::MESSAGE)],
    )]);
}

use deno_lint::rules::no_string_refs::{self, NoStringRefs};

#[test]
fn no_string_refs_valid() {
    assert_ok(|p| NoStringRefs.lint(p), jsx, &[
        r#"<div ref={() => {}} />"#,
        r#"<App ref={() => {}} />"#,
        r#"<div ref={foo} />"#,
    ]);
}

#[test]
fn no_string_refs_invalid() {
    let (m, h) = (no_string_refs::MESSAGE, no_string_refs::HINT);
    assert_err(|p| NoStringRefs.lint(p), jsx, no_string_refs::CODE, vec![
        (r#"<div ref="asdf" />"#, vec![eh(1, 5, m, h)]),
        (r#"<App ref="asdf" />"#, vec![eh(1, 5, m, h)]),
    ]);
}

use deno_lint::rules::no_this_alias::{self, NoThisAlias};

#[test]
fn no_this_alias_valid() {
    assert_ok(|p| NoThisAlias.lint(p), ts, &[
        "const self = foo(this);",
        "const self = 'this';",
        "const { props, state } = this;",
        "const [foo] = this;",
    ]);
}

#[test]
fn no_this_alias_invalid() {
    let m = no_this_alias::MESSAGE;
    assert_err(|p| NoThisAlias.lint(p), ts, no_this_alias::CODE, vec![
        ("const self = this;", vec![e(1, 0, m)]),
        (
            "
var unscoped = this;

function testFunction() {
  let inFunction = this;
}

const testLambda = () => {
  const inLambda = this;
};",
            vec![e(2, 0, m), e(5, 2, m), e(9, 2, m)],
        ),
        (
            "
class TestClass {
  constructor() {
    const inConstructor = this;
    const asThis: this = this;

    const asString = 'this';
    const asArray = [this];
    const asArrayString = ['this'];
  }

  public act(scope: this = this) {
    const inMemberFunction = this;
  }
}",
            vec![e(4, 4, m), e(5, 4, m), e(13, 4, m)],
        ),
        ("const foo = function() { const self = this; };", vec![e(1, 25, m)]),
    ]);
}

use deno_lint::rules::no_throw_literal::{self, NoThrowLiteral};

#[test]
fn no_throw_literal_valid() {
    assert_ok(|p| NoThrowLiteral.lint(p), ts, &["throw e"]);
}

#[test]
fn no_throw_literal_invalid() {
    let (o, u) = (no_throw_literal::ERR_OBJECT_EXPECTED, no_throw_literal::UNDEFINED);
    assert_err(|p| NoThrowLiteral.lint(p), ts, no_throw_literal::CODE, vec![
        (r#"throw 'kumiko'"#, vec![e(1, 0, o)]),
        (r#"throw true"#, vec![e(1, 0, o)]),
        (r#"throw 1096"#, vec![e(1, 0, o)]),
        (r#"throw null"#, vec![e(1, 0, o)]),
        (r#"throw undefined"#, vec![e(1, 0, u)]),
    ]);
}

use deno_lint::rules::no_this_before_super::{self, NoThisBeforeSuper};

#[test]
fn no_this_before_super_valid() {
    assert_ok(|p| NoThisBeforeSuper.lint(p), ts, &[
        r#"
class A {
  constructor() {
    this.a = 0;
  }
}
      "#,
        r#"
class A extends B {
  constructor() {
    super();
    this.a = 0;
  }
}
      "#,
        r#"
class A extends B {
  foo() {
    this.a = 0;
  }
}
      "#,
        r#"
class A extends B {
  constructor() {
    function foo() {
      this.bar();
    }
  }
}
      "#,
        r#"
class A extends B {
  constructor() {
    const foo = () => {
      this.bar();
    };
  }
}
      "#,
        r#"
class A extends B {
  constructor() {
    super({
      foo() {
        this.bar();
      }
    });
  }
}
      "#,
        r#"
class A extends class extends B {
  constructor() {
    super();
    this.a = 0;
  }
} {
    constructor() {
      super();
      this.a = 0;
    }
}
      "#,
        r#"
class A extends B {
  constructor() {
    super();
    this.a = 0;
  }
  foo() {
    class C extends D {
      constructor() {
        super();
        this.c = 1;
      }
    }
  }
}
      "#,
    ]);
}

#[test]
fn no_this_before_super_invalid() {
    let (m, h) = (no_this_before_super::MESSAGE, no_this_before_super::HINT);
    assert_err(|p| NoThisBeforeSuper.lint(p), ts, no_this_before_super::CODE, vec![
        (
            r#"
class A extends B {
  constructor() {
    this.a = 0;
    super();
  }
}
      "#,
            vec![eh(4, 4, m, h)],
        ),
        (
            r#"
class A extends B {
  constructor() {
    this.foo();
    super();
  }
}
      "#,
            vec![eh(4, 4, m, h)],
        ),
        (
            r#"
class A extends B {
  constructor() {
    super.foo();
    super();
  }
}
    "#,
            vec![eh(4, 4, m, h)],
        ),
        (
            r#"
class A extends B {
  constructor() {
    super(this.foo());
  }
}
    "#,
            vec![eh(4, 10, m, h)],
        ),
        (
            r#"
class A extends B {
  constructor() {
    super();
  }
}
class C extends D {
  constructor() {
    this.c = 42;
    super();
  }
}
    "#,
            vec![eh(9, 4, m, h)],
        ),
        (
            r#"
class A extends class extends B {
  constructor() {
    this.a = 0;
    super();
  }
} {
    constructor() {
      super();
      this.a = 0;
    }
}
      "#,
            vec![eh(4, 4, m, h)],
        ),
        (
            r#"
class A extends class extends B {
  constructor() {
    super();
    this.a = 0;
  }
} {
    constructor() {
      this.a = 0;
      super();
    }
}
      "#,
            vec![eh(9, 6, m, h)],
        ),
        (
            r#"
class A extends B {
  constructor() {
    super();
    this.a = 0;
  }
  foo() {
    class C extends D {
      constructor() {
        this.c = 1;
      }
    }
  }
}
      "#,
            vec![eh(10, 8, m, h)],
        ),
        (
            r#"
class A extends B {
  constructor() {
    this.a = 0;
    super();
  }
  foo() {
    class C extends D {
      constructor() {
        super();
        this.c = 1;
      }
    }
  }
}
      "#,
            vec![eh(4, 4, m, h)],
        ),
        (
            r#"
class A {
  constructor() {
    this.a = 0;
  }
  foo() {
    class C extends D {
      constructor() {
        this.c = 1;
      }
    }
  }
}
      "#,
            vec![eh(9, 8, m, h)],
        ),
        (
            r#"
class A extends B {
  constructor() {
    this.a = 0;
  }
  foo() {
    class C {
      constructor() {
        this.c = 1;
      }
    }
  }
}
      "#,
            vec![eh(4, 4, m, h)],
        ),
        (
            r#"
class A extends B {
  constructor() {
    super();
    this.a = 0;
    class C extends D {
      constructor() {
        this.c = 1;
      }
    }
  }
}
      "#,
            vec![eh(8, 8, m, h)],
        ),
    ]);
}

use deno_lint::rules::no_unversioned_import::{self, NoUnversionedImport};

#[test]
fn no_with_valid() {
    assert_ok(|p| NoUnversionedImport.lint(p), ts, &[
        r#"import foo from "foo";"#,
        r#"import foo from "@foo/bar";"#,
        r#"import foo from "./foo";"#,
        r#"import foo from "../foo";"#,
        r#"import foo from "~/foo";"#,
        r#"import foo from "npm:foo@1.2.3";"#,
        r#"import foo from "npm:foo@latest";"#,
        r#"import foo from "npm:foo@^1.2.3";"#,
        r#"import foo from "npm:@foo/bar@1.2.3";"#,
        r#"import foo from "npm:@foo/bar@^1.2.3";"#,
        r#"import foo from "jsr:@foo/bar@1.2.3";"#,
        r#"import foo from "jsr:@foo/bar@^1.2.3";"#,
        r#"import("foo")"#,
        r#"import("@foo/bar")"#,
        r#"import("./foo")"#,
        r#"import("../foo")"#,
        r#"import("~/foo")"#,
        r#"import("npm:foo@1.2.3")"#,
        r#"import("npm:foo@^1.2.3")"#,
        r#"import("npm:@foo/bar@1.2.3")"#,
        r#"import("npm:@foo/bar@^1.2.3")"#,
        r#"import("jsr:@foo/bar@1.2.3")"#,
        r#"import("jsr:@foo/bar@^1.2.3")"#,
    ]);
}

#[test]
fn no_unversioned_import_no_with_invalid() {
    let (m, h) = (no_unversioned_import::MESSAGE, no_unversioned_import::HINT);
    assert_err(|p| NoUnversionedImport.lint(p), ts, no_unversioned_import::CODE, vec![
        (r#"import foo from "jsr:@foo/foo";"#, vec![eh(1, 16, m, h)]),
        (r#"import foo from "npm:foo";"#, vec![eh(1, 16, m, h)]),
        (r#"import foo from "npm:@foo/bar";"#, vec![eh(1, 16, m, h)]),
        (r#"import("jsr:@foo/foo");"#, vec![eh(1, 7, m, h)]),
        (r#"import("npm:foo");"#, vec![eh(1, 7, m, h)]),
        (r#"import("npm:@foo/bar");"#, vec![eh(1, 7, m, h)]),
    ]);
}

use deno_lint::rules::non_generic_typed_array::{self as typed, NonGenericTypedArray};

#[test]
fn ensure_typed_arrays_sorted() {
    let mut sorted = typed::TYPED_ARRAYS.iter().collect::<Vec<_>>();
    sorted.sort();
    assert_eq!(sorted, typed::TYPED_ARRAYS.iter().collect::<Vec<_>>());
}

#[test]
fn non_generic_typed_array_no_window_valid() {
    assert_ok(|p| NonGenericTypedArray.lint(p), ts, &[
        "type Test = Uint8Array<ArrayBuffer>;",
        "type Test = Uint8Array<ArrayBufferLike>;",
        "function test(): Uint8Array<ArrayBufferLike> {}",
        "function value(typed: Uint8Array) {}",
        "class Class { method(typed: Uint8Array) {} }",
    ]);
}

#[test]
fn non_generic_typed_array_no_window_invalid() {
    let (m, h) = (typed::MESSAGE, typed::HINT);
    assert_err(|p| NonGenericTypedArray.lint(p), ts, typed::CODE, vec![
        (
            r#"type Test = Uint8Array;"#,
            vec![eh(1, 12, m, h)
                .fix(typed::FIX_DESC_ARRAY_BUFFER, "type Test = Uint8Array<ArrayBuffer>;")
                .fix(typed::FIX_DESC_ARRAY_BUFFER_LIKE, "type Test = Uint8Array<ArrayBufferLike>;")
                .fix(typed::FIX_DESC_SHARED_ARRAY_BUFFER, "type Test = Uint8Array<SharedArrayBuffer>;")],
        ),
        (
            r#"function test(): Uint8Array {}"#,
            vec![eh(1, 17, m, h)
                .fix(typed::FIX_DESC_ARRAY_BUFFER, "function test(): Uint8Array<ArrayBuffer> {}")
                .fix(typed::FIX_DESC_ARRAY_BUFFER_LIKE, "function test(): Uint8Array<ArrayBufferLike> {}")
                .fix(typed::FIX_DESC_SHARED_ARRAY_BUFFER, "function test(): Uint8Array<SharedArrayBuffer> {}")],
        ),
    ]);
}

use deno_lint::diagnostic::Severity;
use deno_lint::rules::node_builtin_specifier::{self as node, NodeBuiltinsSpecifier};

#[test]
fn node_specifier_valid() {
    assert_ok(|p| NodeBuiltinsSpecifier.lint(p), ts, &[
        r#"import "node:path";"#,
        r#"import "node:fs";"#,
        r#"import "node:fs/promises";"#,
        r#"import * as fs from "node:fs";"#,
        r#"import * as fsPromises from "node:fs/promises";"#,
        r#"import fsPromises from "node:fs/promises";"#,
        r#"await import("node:fs");"#,
        r#"await import("node:fs/promises");"#,
    ]);
}

#[test]
fn node_specifier_invalid() {
    let (m, h, f) = (node::MESSAGE, node::HINT, node::FIX_DESC);
    let cases = vec![
        (r#"import "path";"#, vec![eh(1, 7, m, h).fix(f, r#"import "node:path";"#)]),
        (r#"import "fs";"#, vec![eh(1, 7, m, h).fix(f, r#"import "node:fs";"#)]),
        (r#"import "fs/promises";"#, vec![eh(1, 7, m, h).fix(f, r#"import "node:fs/promises";"#)]),
        (r#"import * as fs from "fs";"#, vec![eh(1, 20, m, h).fix(f, r#"import * as fs from "node:fs";"#)]),
        (
            r#"import * as fsPromises from "fs/promises";"#,
            vec![eh(1, 28, m, h).fix(f, r#"import * as fsPromises from "node:fs/promises";"#)],
        ),
        (
            r#"import fsPromises from "fs/promises";"#,
            vec![eh(1, 23, m, h).fix(f, r#"import fsPromises from "node:fs/promises";"#)],
        ),
        (r#"await import("fs");"#, vec![eh(1, 13, m, h).fix(f, r#"await import("node:fs");"#)]),
        (r#"await import("fs/promises");"#, vec![eh(1, 13, m, h).fix(f, r#"await import("node:fs/promises");"#)]),
    ];
    for (src, _) in &cases {
        for d in NodeBuiltinsSpecifier.lint(&ts(src)) {
            assert_eq!(d.severity, Severity::Warning);
        }
    }
    assert_err(|p| NodeBuiltinsSpecifier.lint(p), ts, node::CODE, cases);
}

use deno_lint::rules::number_arg_out_of_range::{self as num_arg, NumberArgOutOfRange};

#[test]
fn number_arg_out_of_range_valid() {
    assert_ok(|p| NumberArgOutOfRange.lint(p), ts, &[
        "x.toString(16);",
        "x.toFixed(2);",
        "x.toExponential(0);",
        "x.toPrecision(10);",
        "x.toString();",
        "x.toString(y);",
        "x.slice(64);",
    ]);
}

#[test]
fn number_arg_out_of_range_invalid() {
    let s = ("The argument to `toString` must be between 2 and 36", "Pass a value between 2 and 36");
    let f = ("The argument to `toFixed` must be between 0 and 20", "Pass a value between 0 and 20");
    let p = ("The argument to `toPrecision` must be between 1 and 21", "Pass a value between 1 and 21");
    let x = ("The argument to `toExponential` must be between 0 and 20", "Pass a value between 0 and 20");
    assert_err(|prog| NumberArgOutOfRange.lint(prog), ts, num_arg::CODE, vec![
        ("x.toString(1);", vec![eh(1, 0, s.0, s.1)]),
        ("x.toString(43);", vec![eh(1, 0, s.0, s.1)]),
        ("x.toFixed(22);", vec![eh(1, 0, f.0, f.1)]),
        ("x.toPrecision(0);", vec![eh(1, 0, p.0, p.1)]),
        ("x.toPrecision(100);", vec![eh(1, 0, p.0, p.1)]),
        ("x['toExponential'](22);", vec![eh(1, 0, x.0, x.1)]),
    ]);
}

use deno_lint::rules::no_ts_ignore::{self, NoTsIgnore};

#[test]
fn no_ts_ignore_valid() {
    assert_ok(|p| NoTsIgnore.lint(p), ts, &[
        r#"/* @ts-ignore */"#,
        r#"/** @ts-ignore */"#,
        r#"/*
// @ts-ignore in a block
*/
"#,
    ]);
}

#[test]
fn no_ts_ignore_invalid() {
    let (m, h) = (no_ts_ignore::MESSAGE, no_ts_ignore::HINT);
    assert_err(|p| NoTsIgnore.lint(p), ts, no_ts_ignore::CODE, vec![
        (r#"// @ts-ignore"#, vec![eh(1, 0, m, h)]),
        (
            r#"if (false) {
// @ts-ignore: Unreachable code error
console.log('hello');
}"#,
            vec![eh(2, 0, m, h)],
        ),
        (r#"// @ts-ignore"#, vec![eh(1, 0, m, h)]),
        (r#"/// @ts-ignore"#, vec![eh(1, 0, m, h)]),
        (r#"//@ts-ignore"#, vec![eh(1, 0, m, h)]),
        (r#"// @ts-ignore    "#, vec![eh(1, 0, m, h)]),
    ]);
}

use deno_lint::rules::react_no_danger_with_children::{self as danger_children, ReactNoDangerWithChildren};

#[test]
fn jsx_no_danger_with_children_valid() {
    assert_ok(|p| ReactNoDangerWithChildren.lint(p), jsx, &[
        r#"<div dangerouslySetInnerHTML={{ __html: "foo" }} />"#,
        r#"<div dangerouslySetInnerHTML={{ __html: "foo" }}></div>"#,
        r#"<div dangerouslySetInnerHTML={{ __html: "foo" }}>
      </div>"#,
    ]);
}

#[test]
fn jsx_no_danger_with_children_invalid() {
    assert_err(|p| ReactNoDangerWithChildren.lint(p), jsx, danger_children::CODE, vec![(
        r#"<div dangerouslySetInnerHTML={{ __html: "foo" }}>foo</div>"#,
        vec![eh(1, 5, danger_children::MESSAGE, danger_children::HINT)],
    )]);
}

use deno_lint::rules::no_unused_labels::{self, NoUnusedLabels};

#[test]
fn no_unused_label_valid() {
    assert_ok(|p| NoUnusedLabels.lint(p), ts, &[
        "LABEL: for (let i = 0; i < 5; i++) { a(); break LABEL; }",
        "LABEL: for (let i = 0; i < 5; i++) { a(); if (i < 3) { continue LABEL; } b(); if (i > 3) { break LABEL; } }",
        "LABEL: { a(); b(); break LABEL; c(); }",
        "A: { B: break B; C: for (var i = 0; i < 10; ++i) { foo(); if (a) break A; if (c) continue C; bar(); } }",
        "LABEL: while(true) { break LABEL; }",
        "LABEL: break LABEL;",
    ]);
}

#[test]
fn no_unused_label_invalid() {
    let c = no_unused_labels::CODE;
    assert_err(|p| NoUnusedLabels.lint(p), ts, c, vec![
        ("LABEL: var a = 0;", vec![e(1, 0, "`LABEL` label is never used")]),
        ("LABEL: if (something) { a(); }", vec![e(1, 0, "`LABEL` label is never used")]),
        ("LABEL: for (let i = 0; i < 5; i++) { a(); b(); }", vec![e(1, 0, "`LABEL` label is never used")]),
        ("A: for (var i = 0; i < 10; ++i) { B: break A; }", vec![e(1, 34, "`B` label is never used")]),
        ("A: { let A = 0; console.log(A); }", vec![e(1, 0, "`A` label is never used")]),
    ]);
}

use deno_lint::rules::no_top_level_await::{self, NoTopLevelAwait};

#[test]
fn no_top_level_await_valid() {
    assert_ok(|p| NoTopLevelAwait.lint(p), ts, &[
        r#"async function foo() { await bar(); }"#,
        r#"const foo = async function () { await bar()};"#,
        r#"const foo = () => { await bar()};"#,
        r#"async function foo() { for await (item of items){}}"#,
        r#"async function foo() { await bar(); }"#,
        r#"class Foo {
        async foo() { await task(); }
        private async bar(){ await task(); }
      }"#,
        r#"const foo = { bar : async () => { await task()} }"#,
    ]);
}

#[test]
fn no_top_level_await_invalid() {
    let m = no_top_level_await::MESSAGE;
    assert_err(|p| NoTopLevelAwait.lint(p), ts, no_top_level_await::CODE, vec![
        (r#"await foo()"#, vec![e(1, 0, m)]),
        (r#"for await (item of items) {}"#, vec![e(1, 0, m)]),
    ]);
}

use deno_lint::rules::no_unneeded_ternary::{self, NoUnneededTernary};

#[test]
fn no_unneeded_ternary_valid() {
    assert_ok(|p| NoUnneededTernary.lint(p), ts, &[
        r#"config.newIsCap = config.newIsCap !== false"#,
        r#"var a = x === 2 ? 'Yes' : 'No';"#,
        r#"var a = x === 2 ? true : 'No';"#,
        r#"var a = x === 2 ? 'Yes' : false;"#,
        r#"var a = x === 2 ? 'true' : 'false';"#,
    ]);
}

#[test]
fn no_unneeded_ternary_invalid() {
    let m = no_unneeded_ternary::MESSAGE;
    assert_err(|p| NoUnneededTernary::new().lint(p), ts, no_unneeded_ternary::CODE, vec![
        (r#"x === 2 ? true : false;"#, vec![e(1, 0, m)]),
        (r#"x >= 2 ? true : false;"#, vec![e(1, 0, m)]),
        (r#"x ? true : false;"#, vec![e(1, 0, m)]),
        (r#"x === 1 ? false : true;"#, vec![e(1, 0, m)]),
        (r#"x != 1 ? false : true;"#, vec![e(1, 0, m)]),
        (r#"foo() ? false : true;"#, vec![e(1, 0, m)]),
        (r#"!foo() ? false : true;"#, vec![e(1, 0, m)]),
    ]);
}

use deno_lint::rules::no_var::{self, NoVar};

#[test]
fn no_var_valid() {
    assert_ok(|p| NoVar.lint(p), ts, &[
        r#"let foo = 0; const bar = 1"#,
        r#"declare global {
  namespace globalThis {
    var test: string
  }
}"#,
        r#"declare global {
  var test: string
}"#,
    ]);
}

#[test]
fn no_var_invalid() {
    let m = no_var::MESSAGE;
    assert_err(|p| NoVar.lint(p), ts, no_var::CODE, vec![
        ("var foo = 0;", vec![e(1, 0, m)]),
        ("let foo = 0; var bar = 1;", vec![e(1, 13, m)]),
        ("let foo = 0; var bar = 1; var x = 2;", vec![e(1, 13, m), e(1, 26, m)]),
    ]);
}

use deno_lint::rules::prefer_namespace_keyword::{self, PreferNamespaceKeyword};

#[test]
fn prefer_namespace_keyword_valid() {
    assert_ok(|p| PreferNamespaceKeyword.lint(p), ts, &[
        "declare module 'foo';",
        "declare module 'foo' {}",
        "namespace foo {}",
        "declare namespace foo {}",
        "declare global {}",
    ]);
}

#[test]
fn prefer_namespace_keyword_invalid() {
    let m = prefer_namespace_keyword::MESSAGE;
    assert_err(|p| PreferNamespaceKeyword.lint(p), ts, prefer_namespace_keyword::CODE, vec![
        (r#"module foo {}"#, vec![e(1, 0, m)]),
        (
            r#"
      declare module foo {
        declare module bar {}
      }"#,
            vec![e(2, 6, m), e(3, 8, m)],
        ),
    ]);
}

use deno_lint::rules::react_no_danger::{self, ReactNoDanger};

/// The linter's `deno-lint-ignore` directives, which the linter applies to what
/// a rule reports: a diagnostic that starts on the line after a comment
/// `deno-lint-ignore` naming its code, or naming none, is dropped.
fn without_ignored(source: &str, code: &str, diags: Vec<Diagnostic>) -> Vec<Diagnostic> {
    let lines: Vec<&str> = source.lines().collect();
    diags
        .into_iter()
        .filter(|d| {
            let (line, _) = line_col(source, d.range.lo);
            if line < 2 {
                return true;
            }
            let before = lines[line - 2];
            match before.find("deno-lint-ignore") {
                Some(at) => {
                    let rest = before[at + "deno-lint-ignore".len()..].trim_start_matches('-');
                    let codes: Vec<&str> = rest
                        .split(|c: char| c.is_whitespace() || c == '*' || c == '/' || c == '}' || c == '{')
                        .filter(|w| !w.is_empty())
                        .collect();
                    !(codes.is_empty() || codes.contains(&code))
                }
                None => true,
            }
        })
        .collect()
}

#[test]
fn no_danger_valid() {
    let sources = [
        // non derived classes.
        "<div />",
        // A `{/* deno-lint-ignore */}` block comment suppresses the next
        // line, since `//` line comments aren't valid inside JSX children.
        "<div>\n        {/* deno-lint-ignore react-no-danger */}\n        <div dangerouslySetInnerHTML={{}} />\n      </div>",
    ];
    for src in sources {
        let d = without_ignored(src, react_no_danger::CODE, ReactNoDanger.lint(&jsx(src)));
        assert!(d.is_empty(), "unexpected diagnostics for {:?}: {:?}", src, d);
    }
    // Without the directive, the element is reported.
    let src = "<div>\n        <div dangerouslySetInnerHTML={{}} />\n      </div>";
    assert_eq!(without_ignored(src, react_no_danger::CODE, ReactNoDanger.lint(&jsx(src))).len(), 1);
}

#[test]
fn no_danger_invalid() {
    let (m, h) = (react_no_danger::MESSAGE, react_no_danger::HINT);
    assert_err(|p| ReactNoDanger.lint(p), jsx, react_no_danger::CODE, vec![
        ("<div dangerouslySetInnerHTML />", vec![eh(1, 5, m, h)]),
        (r#"<div dangerouslySetInnerHTML="" />"#, vec![eh(1, 5, m, h)]),
        ("<div dangerouslySetInnerHTML={{}} />", vec![eh(1, 5, m, h)]),
    ]);
}

use deno_lint::rules::require_yield::{self, RequireYield};

#[test]
fn require_yield_valid() {
    assert_ok(|p| RequireYield.lint(p), ts, &[r#"
function foo() {}
function* bar() {
  yield "bar";
}
function* emptyBar() {}

class Fizz {
  *fizz() {
    yield "fizz";
  }

  *#buzz() {
    yield "buzz";
  }
}

const obj = {
  *foo() {
    yield "foo";
  }
};
      "#]);
}

#[test]
fn require_yield_invalid() {
    let m = require_yield::MESSAGE;
    assert_err(|p| RequireYield.lint(p), ts, require_yield::CODE, vec![
        (r#"function* bar() { return "bar"; }"#, vec![e(1, 0, m)]),
        (r#"(function* foo() { return "foo"; })();"#, vec![e(1, 1, m)]),
        (r#"function* nested() { function* gen() { yield "gen"; } }"#, vec![e(1, 0, m)]),
        (r#"const obj = { *foo() { return "foo"; } };"#, vec![e(1, 18, m)]),
        (
            r#"
class Fizz {
  *fizz() {
    return "fizz";
  }

  *#buzz() {
    return "buzz";
  }
}
    "#,
            vec![e(3, 7, m), e(7, 8, m)],
        ),
    ]);
}

use deno_lint::rules::no_useless_rename::{self, NoUselessRename};

#[test]
fn console_allowed() {
    assert_ok(|p| NoUselessRename.lint(p), ts, &[
        r#"import { foo as bar } from "foo";"#,
        r#"const { foo: bar } = obj;"#,
        r#"export { foo as bar };"#,
    ]);
}

#[test]
fn no_console_invalid() {
    let (m, h) = (no_useless_rename::MESSAGE, no_useless_rename::HINT);
    assert_err(|p| NoUselessRename.lint(p), ts, no_useless_rename::CODE, vec![
        (r#"import { foo as foo } from "foo";"#, vec![eh(1, 9, m, h)]),
        (r#"const { foo: foo } = obj;"#, vec![eh(1, 6, m, h)]),
        (r#"export { foo as foo };"#, vec![eh(1, 9, m, h)]),
    ]);
}

use deno_lint::rules::react_use_jsx_in_jsx::{self, ReactUseJsxInJsx};

#[test]
fn react_use_jsx_in_jsx_valid_jsx() {
    assert_ok(|p| ReactUseJsxInJsx::new().lint(p), tsx, &[r#"<div><Hi /></div>"#]);
}

#[test]
fn react_use_jsx_in_jsx_valid_non_component_fn_call() {
    assert_ok(|p| ReactUseJsxInJsx::new().lint(p), tsx, &[r#"<div>{ok()}</div>"#]);
}

#[test]
fn react_use_jsx_in_jsx_valid_non_component_field_fn_call() {
    assert_ok(|p| ReactUseJsxInJsx::new().lint(p), tsx, &[r#"<div>{a.b.c()}</div>"#]);
}

#[test]
fn react_use_jsx_in_jsx_valid_non_jsx_context() {
    assert_ok(|p| ReactUseJsxInJsx::new().lint(p), tsx, &[r#"React.createElement("div", {}, MyComponent());"#]);
}

#[test]
fn react_use_jsx_in_jsx_invalid() {
    let (m, h) = (react_use_jsx_in_jsx::MESSAGE, react_use_jsx_in_jsx::HINT);
    assert_err(|p| ReactUseJsxInJsx::new().lint(p), tsx, react_use_jsx_in_jsx::CODE, vec![(
        r#"<div>{Hi()}</div>"#,
        vec![eh(1, 6, m, h)],
    )]);
}

use deno_lint::rules::no_setter_return::{self, NoSetterReturn};

#[test]
fn no_setter_return_valid() {
    assert_ok(|p| NoSetterReturn::new().lint(p), ts, &[
        "function foo() { return 1; }",
        "function set(val) { return 1; }",
        "var foo = function() { return 1; };",
        "var foo = function set() { return 1; };",
        "var set = function() { return 1; };",
        "var set = function set(val) { return 1; };",
        "var set = val => { return 1; };",
        "var set = val => 1;",
        "({ set a(val) { }}); function foo() { return 1; }",
        "({ set a(val) { }}); (function () { return 1; });",
        "({ set a(val) { }}); (() => { return 1; });",
        "({ set a(val) { }}); (() => 1);",
        "({ set foo(val) { return; } })",
        "({ set foo(val) { if (val) { return; } } })",
        "class A { set foo(val) { return; } }",
        "(class { set foo(val) { if (val) { return; } else { return; } return; } })",
        "class A { set foo(val) { try {} catch(e) { return; } } }",
        "({ get foo() { return 1; } })",
        "({ get set() { return 1; } })",
        "({ set(val) { return 1; } })",
        "({ set: function(val) { return 1; } })",
        "({ foo: function set(val) { return 1; } })",
        "({ set: function set(val) { return 1; } })",
        "({ set: (val) => { return 1; } })",
        "({ set: (val) => 1 })",
        "set = { foo(val) { return 1; } };",
        "class A { constructor(val) { return 1; } }",
        "class set { constructor(val) { return 1; } }",
        "class set { foo(val) { return 1; } }",
        "var set = class { foo(val) { return 1; } }",
        "(class set { foo(val) { return 1; } })",
        "class A { get foo() { return val; } }",
        "class A { get set() { return val; } }",
        "class A { set(val) { return 1; } }",
        "class A { static set(val) { return 1; } }",
        "({ set: set = function set(val) { return 1; } } = {})",
        "({ set: set = (val) => 1 } = {})",
        "({ set foo(val) { function foo(val) { return 1; } } })",
        "({ set foo(val) { var foo = function(val) { return 1; } } })",
        "({ set foo(val) { var foo = (val) => { return 1; } } })",
        "({ set foo(val) { var foo = (val) => 1; } })",
        "({ set [function() { return 1; }](val) {} })",
        "({ set [() => { return 1; }](val) {} })",
        "({ set [() => 1](val) {} })",
        "({ set foo(val = function() { return 1; }) {} })",
        "({ set foo(val = v => 1) {} })",
        "(class { set foo(val) { function foo(val) { return 1; } } })",
        "(class { set foo(val) { var foo = function(val) { return 1; } } })",
        "(class { set foo(val) { var foo = (val) => { return 1; } } })",
        "(class { set foo(val) { var foo = (val) => 1; } })",
        "(class { set [function() { return 1; }](val) {} })",
        "(class { set [() => { return 1; }](val) {} })",
        "(class { set [() => 1](val) {} })",
        "(class { set foo(val = function() { return 1; }) {} })",
        "(class { set foo(val = (v) => 1) {} })",
        "Object.defineProperty(foo, 'bar', { set(val) { return; } })",
        "Reflect.defineProperty(foo, 'bar', { set(val) { if (val) { return; } } })",
        "Object.defineProperties(foo, { bar: { set(val) { try { return; } catch(e){} } } })",
        "Object.create(foo, { bar: { set: function(val) { return; } } })",
        "x = { set(val) { return 1; } }",
        "x = { foo: { set(val) { return 1; } } }",
        "Object.defineProperty(foo, 'bar', { value(val) { return 1; } })",
        "Reflect.defineProperty(foo, 'bar', { value: function set(val) { return 1; } })",
        "Object.defineProperties(foo, { bar: { [set](val) { return 1; } } })",
        "Object.create(foo, { bar: { 'set ': function(val) { return 1; } } })",
        "Object.defineProperty(foo, 'bar', { [`set `]: (val) => { return 1; } })",
        "Reflect.defineProperty(foo, 'bar', { Set(val) { return 1; } })",
        "Object.defineProperties(foo, { bar: { value: (val) => 1 } })",
        "Object.create(foo, { set: { value: function(val) { return 1; } } })",
        "Object.defineProperty(foo, 'bar', { baz(val) { return 1; } })",
        "Reflect.defineProperty(foo, 'bar', { get(val) { return 1; } })",
        "Object.create(foo, { set: function(val) { return 1; } })",
        "Object.defineProperty(foo, { set: (val) => 1 })",
        "Object.defineProperty(foo, 'bar', { set(val) { function foo() { return 1; } } })",
        "Reflect.defineProperty(foo, 'bar', { set(val) { var foo = function() { return 1; } } })",
        "Object.defineProperties(foo, { bar: { set(val) { () => { return 1 }; } } })",
        "Object.create(foo, { bar: { set: (val) => { (val) => 1; } } })",
    ]);
}


#[test]
fn no_setter_return_invalid() {
    assert_err(|p| NoSetterReturn::new().lint(p), ts, no_setter_return::CODE, vec![
        (r#"const a = { set setter(a) { return "something"; } };"#, vec![e(1, 28, no_setter_return::MESSAGE)]),
        (r#"
class b {
  set setterA(a) {
    return "something";
  }
  private set setterB(a) {
    return "something";
  }
}
      "#, vec![e(4, 4, no_setter_return::MESSAGE), e(7, 4, no_setter_return::MESSAGE)]),
        ("({ set a(val){ return val + 1; } })", vec![e(1, 15, no_setter_return::MESSAGE)]),
        ("({ set a(val) { return 1; } })", vec![e(1, 16, no_setter_return::MESSAGE)]),
        ("class A { set a(val) { return 1; } }", vec![e(1, 23, no_setter_return::MESSAGE)]),
        ("class A { static set a(val) { return 1; } }", vec![e(1, 30, no_setter_return::MESSAGE)]),
        ("(class { set a(val) { return 1; } })", vec![e(1, 22, no_setter_return::MESSAGE)]),
        ("({ set a(val) { return val; } })", vec![e(1, 16, no_setter_return::MESSAGE)]),
        ("class A { set a(val) { return undefined; } }", vec![e(1, 23, no_setter_return::MESSAGE)]),
        ("(class { set a(val) { return null; } })", vec![e(1, 22, no_setter_return::MESSAGE)]),
        ("({ set a(val) { return x + y; } })", vec![e(1, 16, no_setter_return::MESSAGE)]),
        ("class A { set a(val) { return foo(); } }", vec![e(1, 23, no_setter_return::MESSAGE)]),
        ("(class { set a(val) { return this._a; } })", vec![e(1, 22, no_setter_return::MESSAGE)]),
        ("({ set a(val) { return this.a; } })", vec![e(1, 16, no_setter_return::MESSAGE)]),
        ("({ set a(val) { if (foo) { return 1; }; } })", vec![e(1, 27, no_setter_return::MESSAGE)]),
        ("class A { set a(val) { try { return 1; } catch(e) {} } }", vec![e(1, 29, no_setter_return::MESSAGE)]),
        ("(class { set a(val) { while (foo){ if (bar) break; else return 1; } } })", vec![e(1, 56, no_setter_return::MESSAGE)]),
        ("({ set a(val) { return 1; }, set b(val) { return 1; } })", vec![e(1, 16, no_setter_return::MESSAGE), e(1, 42, no_setter_return::MESSAGE)]),
        ("class A { set a(val) { return 1; } set b(val) { return 1; } }", vec![e(1, 23, no_setter_return::MESSAGE), e(1, 48, no_setter_return::MESSAGE)]),
        ("(class { set a(val) { return 1; } static set b(val) { return 1; } })", vec![e(1, 22, no_setter_return::MESSAGE), e(1, 54, no_setter_return::MESSAGE)]),
        ("({ set a(val) { if(val) { return 1; } else { return 2 }; } })", vec![e(1, 26, no_setter_return::MESSAGE), e(1, 45, no_setter_return::MESSAGE)]),
        ("class A { set a(val) { switch(val) { case 1: return x; case 2: return y; default: return z } } }", vec![e(1, 45, no_setter_return::MESSAGE), e(1, 63, no_setter_return::MESSAGE), e(1, 82, no_setter_return::MESSAGE)]),
        ("(class { static set a(val) { if (val > 0) { this._val = val; return val; } return false; } })", vec![e(1, 61, no_setter_return::MESSAGE), e(1, 75, no_setter_return::MESSAGE)]),
        ("({ set a(val) { if(val) { return 1; } else { return; }; } })", vec![e(1, 26, no_setter_return::MESSAGE)]),
        ("class A { set a(val) { switch(val) { case 1: return x; case 2: return; default: return z } } }", vec![e(1, 45, no_setter_return::MESSAGE), e(1, 80, no_setter_return::MESSAGE)]),
        ("(class { static set a(val) { if (val > 0) { this._val = val; return; } return false; } })", vec![e(1, 71, no_setter_return::MESSAGE)]),
        ("({ set a(val) { function b(){} return b(); } })", vec![e(1, 31, no_setter_return::MESSAGE)]),
        ("class A { set a(val) { return () => {}; } }", vec![e(1, 23, no_setter_return::MESSAGE)]),
        ("(class { set a(val) { function b(){ return 1; } return 2; } })", vec![e(1, 48, no_setter_return::MESSAGE)]),
        ("({ set a(val) { function b(){ return; } return 1; } })", vec![e(1, 40, no_setter_return::MESSAGE)]),
        ("class A { set a(val) { var x = function() { return 1; }; return 2; } }", vec![e(1, 57, no_setter_return::MESSAGE)]),
        ("(class { set a(val) { var x = () => { return; }; return 2; } })", vec![e(1, 49, no_setter_return::MESSAGE)]),
        ("function f(){}; ({ set a(val) { return 1; } });", vec![e(1, 32, no_setter_return::MESSAGE)]),
        ("x = function f(){}; class A { set a(val) { return 1; } };", vec![e(1, 43, no_setter_return::MESSAGE)]),
        ("x = () => {}; A = class { set a(val) { return 1; } };", vec![e(1, 39, no_setter_return::MESSAGE)]),
        ("return; ({ set a(val) { return 1; } }); return 2;", vec![e(1, 24, no_setter_return::MESSAGE)]),
    ]);
}


use deno_lint::rules::no_unnecessary_await::{self, NoUnnecessaryAwait};

#[test]
fn no_unnecessary_await_valid() {
    assert_ok(|p| NoUnnecessaryAwait.lint(p), ts, &[
        "await {then}",
        "await a ? b : c",
        "await a || b",
        "await a && b",
        "await a ?? b",
        "await new Foo()",
        "await tagged``",
        "class A { async foo() { await this }}",
        "async function * foo() {await (yield bar);}",
        "await (1, Promise.resolve())",
    ]);
}


#[test]
fn no_unnecessary_await_invalid() {
    assert_err(|p| NoUnnecessaryAwait.lint(p), ts, no_unnecessary_await::CODE, vec![
        ("await []", vec![eh(1, 0, no_unnecessary_await::MESSAGE, no_unnecessary_await::HINT)]),
        ("await [Promise.resolve()]", vec![eh(1, 0, no_unnecessary_await::MESSAGE, no_unnecessary_await::HINT)]),
        ("await (() => {})", vec![eh(1, 0, no_unnecessary_await::MESSAGE, no_unnecessary_await::HINT)]),
        ("await (() => Promise.resolve())", vec![eh(1, 0, no_unnecessary_await::MESSAGE, no_unnecessary_await::HINT)]),
        ("await (a === b)", vec![eh(1, 0, no_unnecessary_await::MESSAGE, no_unnecessary_await::HINT)]),
        ("await (a instanceof Promise)", vec![eh(1, 0, no_unnecessary_await::MESSAGE, no_unnecessary_await::HINT)]),
        ("await (a > b)", vec![eh(1, 0, no_unnecessary_await::MESSAGE, no_unnecessary_await::HINT)]),
        ("await class {}", vec![eh(1, 0, no_unnecessary_await::MESSAGE, no_unnecessary_await::HINT)]),
        ("await class extends Promise {}", vec![eh(1, 0, no_unnecessary_await::MESSAGE, no_unnecessary_await::HINT)]),
        ("await function() {}", vec![eh(1, 0, no_unnecessary_await::MESSAGE, no_unnecessary_await::HINT)]),
        ("await function name() {}", vec![eh(1, 0, no_unnecessary_await::MESSAGE, no_unnecessary_await::HINT)]),
        ("await function() { return Promise.resolve() }", vec![eh(1, 0, no_unnecessary_await::MESSAGE, no_unnecessary_await::HINT)]),
        ("await 0", vec![eh(1, 0, no_unnecessary_await::MESSAGE, no_unnecessary_await::HINT)]),
        ("await 1", vec![eh(1, 0, no_unnecessary_await::MESSAGE, no_unnecessary_await::HINT)]),
        ("await \"\"", vec![eh(1, 0, no_unnecessary_await::MESSAGE, no_unnecessary_await::HINT)]),
        ("await \"string\"", vec![eh(1, 0, no_unnecessary_await::MESSAGE, no_unnecessary_await::HINT)]),
        ("await true", vec![eh(1, 0, no_unnecessary_await::MESSAGE, no_unnecessary_await::HINT)]),
        ("await false", vec![eh(1, 0, no_unnecessary_await::MESSAGE, no_unnecessary_await::HINT)]),
        ("await null", vec![eh(1, 0, no_unnecessary_await::MESSAGE, no_unnecessary_await::HINT)]),
        ("await 0n", vec![eh(1, 0, no_unnecessary_await::MESSAGE, no_unnecessary_await::HINT)]),
        ("await 1n", vec![eh(1, 0, no_unnecessary_await::MESSAGE, no_unnecessary_await::HINT)]),
        ("await `${Promise.resolve()}`", vec![eh(1, 0, no_unnecessary_await::MESSAGE, no_unnecessary_await::HINT)]),
        ("await !Promise.resolve()", vec![eh(1, 0, no_unnecessary_await::MESSAGE, no_unnecessary_await::HINT)]),
        ("await void Promise.resolve()", vec![eh(1, 0, no_unnecessary_await::MESSAGE, no_unnecessary_await::HINT)]),
        ("await +Promise.resolve()", vec![eh(1, 0, no_unnecessary_await::MESSAGE, no_unnecessary_await::HINT)]),
        ("await ~1", vec![eh(1, 0, no_unnecessary_await::MESSAGE, no_unnecessary_await::HINT)]),
        ("await ++foo", vec![eh(1, 0, no_unnecessary_await::MESSAGE, no_unnecessary_await::HINT)]),
        ("await foo--", vec![eh(1, 0, no_unnecessary_await::MESSAGE, no_unnecessary_await::HINT)]),
        ("await (Promise.resolve(), 1)", vec![eh(1, 0, no_unnecessary_await::MESSAGE, no_unnecessary_await::HINT)]),
        ("async function foo() {+await +1}", vec![eh(1, 23, no_unnecessary_await::MESSAGE, no_unnecessary_await::HINT)]),
        ("async function foo() {-await-1}", vec![eh(1, 23, no_unnecessary_await::MESSAGE, no_unnecessary_await::HINT)]),
        ("async function foo() {+await -1}", vec![eh(1, 23, no_unnecessary_await::MESSAGE, no_unnecessary_await::HINT)]),
        ("await await this.assertTotalDocumentCount(expectedFormattedTotalDocCount);", vec![eh(1, 0, no_unnecessary_await::MESSAGE, no_unnecessary_await::HINT)]),
        ("async function foo() {+await ++a}", vec![eh(1, 23, no_unnecessary_await::MESSAGE, no_unnecessary_await::HINT)]),
        ("async function foo() {-await --a}", vec![eh(1, 23, no_unnecessary_await::MESSAGE, no_unnecessary_await::HINT)]),
    ]);
}


use deno_lint::rules::prefer_ascii::{self, PreferAscii};

fn hint(c: char) -> String {
    format!(
        "`{}` is \\u{{{:04x}}} and this is not an ASCII. Consider replacing it with an ASCII character",
        c, c as u32
    )
}

#[test]
fn prefer_ascii_valid() {
    assert_ok(|p| PreferAscii.lint(p), ts, &[
        r#"const pi = Math.PI;"#,
        r#"const ninja = "ninja";"#,
        r#"
function hello(name: string) {
  console.log(`Hello, ${name}`);
}
      "#,
        r#"// "comments" are also checked"#,
        r#"/* "comments" are also checked */"#,
    ]);
}


#[test]
fn prefer_ascii_invalid() {
    assert_err(|p| PreferAscii.lint(p), ts, prefer_ascii::CODE, vec![
        (r#"const π = Math.PI;"#, vec![eh(1, 6, prefer_ascii::MESSAGE, &hint('π'))]),
        (r#"const ninja = "🥷";"#, vec![eh(1, 15, prefer_ascii::MESSAGE, &hint('🥷'))]),
        (r#"function こんにちは(名前: string) {}"#, vec![eh(1, 9, prefer_ascii::MESSAGE, &hint('こ')), eh(1, 10, prefer_ascii::MESSAGE, &hint('ん')), eh(1, 11, prefer_ascii::MESSAGE, &hint('に')), eh(1, 12, prefer_ascii::MESSAGE, &hint('ち')), eh(1, 13, prefer_ascii::MESSAGE, &hint('は')), eh(1, 15, prefer_ascii::MESSAGE, &hint('名')), eh(1, 16, prefer_ascii::MESSAGE, &hint('前'))]),
        (r#"// “comments” are also checked"#, vec![eh(1, 3, prefer_ascii::MESSAGE, &hint('“')), eh(1, 12, prefer_ascii::MESSAGE, &hint('”'))]),
        (r#"/* “comments” are also checked */"#, vec![eh(1, 3, prefer_ascii::MESSAGE, &hint('“')), eh(1, 12, prefer_ascii::MESSAGE, &hint('”'))]),
    ]);
}


use deno_lint::rules::no_thenable::{self, NoThenable};

#[test]
fn no_thenable_valid() {
    assert_ok(|p| NoThenable.lint(p), ts, &[
        "const then = {}",
        "const notThen = then",
        "const then = then.then",
        "const foo = {notThen: 1}",
        "const foo = {notThen() {}}",
        "const foo = {[then]: 1}",
        r#"const NOT_THEN = "no-then";const foo = {[NOT_THEN]: 1}"#,
        "function foo({then}) {}",
        "({[Symbol.prototype]: 1})",
        "class then {}",
        "class Foo {notThen}",
        "class Foo {notThen() {}}",
        "class Foo {[then]}",
        "class Foo {#then}",
        "class Foo {#then() {}}",
        "class Foo {[then]() {}}",
        "class Foo {get notThen() {}}",
        "class Foo {get #then() {}}",
        "class Foo {get [then]() {}}",
        "class Foo {static notThen}",
        "class Foo {static notThen() {}}",
        "class Foo {static #then}",
        "class Foo {static #then() {}}",
        "class Foo {static [then]}",
        "class Foo {static [then]() {}}",
        "class Foo {static get notThen() {}}",
        "class Foo {static get #then() {}}",
        "class Foo {static get [then]() {}}",
        "class Foo {notThen = then}",
        "class Foo {[Symbol.property]}",
        "class Foo {static [Symbol.property]}",
        "class Foo {get [Symbol.property]() {}}",
        "class Foo {[Symbol.property]() {}}",
        "class Foo {static get [Symbol.property]() {}}",
        "foo[then] = 1",
        "foo.notThen = 1",
        "then.notThen = then.then",
        r#"const NOT_THEN = "no-then";foo[NOT_THEN] = 1"#,
        "foo.then ++",
        "++ foo.then",
        "delete foo.then",
        "typeof foo.then",
        "foo.then != 1",
        "foo[Symbol.property] = 1",
        "Object.fromEntries([then, 1])",
        "Object.fromEntries([,,])",
        "Object.fromEntries([[,,],[]])",
        r#"const NOT_THEN = "not-then";Object.fromEntries([[NOT_THEN, 1]])"#,
        r#"Object.fromEntries([[["then", 1]]])"#,
        r#"NotObject.fromEntries([["then", 1]])"#,
        r#"Object.notFromEntries([["then", 1]])"#,
        r#"Object.fromEntries?.([["then", 1]])"#,
        r#"Object?.fromEntries([["then", 1]])"#,
        r#"Object.fromEntries([[..."then", 1]])"#,
        r#"Object.fromEntries([["then", 1]], extraArgument)"#,
        r#"Object.fromEntries(...[["then", 1]])"#,
        "Object.fromEntries([[Symbol.property, 1]])",
        "Object.defineProperty(foo, then, 1)",
        r#"Object.defineProperty(foo, "not-then", 1)"#,
        r#"const then = "no-then";Object.defineProperty(foo, then, 1)"#,
        "Reflect.defineProperty(foo, then, 1)",
        r#"Reflect.defineProperty(foo, "not-then", 1)"#,
        r#"const then = "no-then";Reflect.defineProperty(foo, then, 1)"#,
        r#"Object.defineProperty(foo, "then", )"#,
        r#"Object.defineProperty(...foo, "then", 1)"#,
        r#"Object.defineProperty(foo, ...["then", 1])"#,
        "Object.defineProperty(foo, Symbol.property, 1)",
        "Reflect.defineProperty(foo, Symbol.property, 1)",
        r#"export {default} from "then""#,
        "const then = 1; export {then as notThen}",
        "export default then",
        "export function notThen(){}",
        "export class notThen {}",
        "export default function then (){}",
        "export default class then {}",
        "export default function (){}",
        "export default class {}",
        "export const notThen = 1",
        "export const {then: notThen} = 1",
        "export const {then: notThen = then} = 1",
    ]);
}


#[test]
fn no_thenable_object_invalid() {
    assert_err(|p| NoThenable.lint(p), ts, no_thenable::CODE, vec![
        ("const foo = {then: 1}", vec![eh(1, 13, no_thenable::OBJECT_MESSAGE, no_thenable::HINT)]),
        (r#"const foo = {["then"]: 1}"#, vec![eh(1, 14, no_thenable::OBJECT_MESSAGE, no_thenable::HINT)]),
        ("const foo = {[`then`]: 1}", vec![eh(1, 14, no_thenable::OBJECT_MESSAGE, no_thenable::HINT)]),
        (r#"const THEN = "then";const foo = {[THEN]: 1}"#, vec![eh(1, 13, no_thenable::OBJECT_MESSAGE, no_thenable::HINT)]),
        ("const foo = {then() {}}", vec![eh(1, 13, no_thenable::OBJECT_MESSAGE, no_thenable::HINT)]),
        (r#"const foo = {["then"]() {}}"#, vec![eh(1, 14, no_thenable::OBJECT_MESSAGE, no_thenable::HINT)]),
        ("const foo = {[`then`]() {}}", vec![eh(1, 14, no_thenable::OBJECT_MESSAGE, no_thenable::HINT)]),
        (r#"const THEN = "then";const foo = {[THEN]() {}}"#, vec![eh(1, 13, no_thenable::OBJECT_MESSAGE, no_thenable::HINT)]),
        ("const foo = {get then() {}}", vec![eh(1, 17, no_thenable::OBJECT_MESSAGE, no_thenable::HINT)]),
        (r#"const foo = {get ["then"]() {}}"#, vec![eh(1, 18, no_thenable::OBJECT_MESSAGE, no_thenable::HINT)]),
        ("const foo = {get [`then`]() {}}", vec![eh(1, 18, no_thenable::OBJECT_MESSAGE, no_thenable::HINT)]),
        (r#"const THEN = "then";const foo = {get [THEN]() {}}"#, vec![eh(1, 13, no_thenable::OBJECT_MESSAGE, no_thenable::HINT)]),
        (r#"Object.defineProperty(foo, "then", 1)"#, vec![eh(1, 27, no_thenable::OBJECT_MESSAGE, no_thenable::HINT)]),
        ("Object.defineProperty(foo, `then`, 1)", vec![eh(1, 27, no_thenable::OBJECT_MESSAGE, no_thenable::HINT)]),
        (r#"const THEN = "then";Object.defineProperty(foo, THEN, 1)"#, vec![eh(1, 13, no_thenable::OBJECT_MESSAGE, no_thenable::HINT)]),
        (r#"Reflect.defineProperty(foo, "then", 1)"#, vec![eh(1, 28, no_thenable::OBJECT_MESSAGE, no_thenable::HINT)]),
        ("Reflect.defineProperty(foo, `then`, 1)", vec![eh(1, 28, no_thenable::OBJECT_MESSAGE, no_thenable::HINT)]),
        (r#"const THEN = "then";Reflect.defineProperty(foo, THEN, 1)"#, vec![eh(1, 13, no_thenable::OBJECT_MESSAGE, no_thenable::HINT)]),
        (r#"Object.fromEntries([["then", 1]])"#, vec![eh(1, 21, no_thenable::OBJECT_MESSAGE, no_thenable::HINT)]),
        (r#"Object.fromEntries([["then"]])"#, vec![eh(1, 21, no_thenable::OBJECT_MESSAGE, no_thenable::HINT)]),
        ("Object.fromEntries([[`then`, 1]])", vec![eh(1, 21, no_thenable::OBJECT_MESSAGE, no_thenable::HINT)]),
        (r#"const THEN = "then";Object.fromEntries([[THEN, 1]])"#, vec![eh(1, 13, no_thenable::OBJECT_MESSAGE, no_thenable::HINT)]),
        (r#"Object.fromEntries([foo, ["then", 1]])"#, vec![eh(1, 26, no_thenable::OBJECT_MESSAGE, no_thenable::HINT)]),
    ]);
}


#[test]
fn no_thenable_class_invalid() {
    assert_err(|p| NoThenable.lint(p), ts, no_thenable::CODE, vec![
        ("class Foo {then}", vec![eh(1, 11, no_thenable::CLASS_MESSAGE, no_thenable::HINT)]),
        ("const Foo = class {then}", vec![eh(1, 19, no_thenable::CLASS_MESSAGE, no_thenable::HINT)]),
        (r#"class Foo {["then"]}"#, vec![eh(1, 12, no_thenable::CLASS_MESSAGE, no_thenable::HINT)]),
        ("class Foo {[`then`]}", vec![eh(1, 12, no_thenable::CLASS_MESSAGE, no_thenable::HINT)]),
        (r#"const THEN = "then";class Foo {[THEN]}"#, vec![eh(1, 13, no_thenable::CLASS_MESSAGE, no_thenable::HINT)]),
        ("class Foo {then() {}}", vec![eh(1, 11, no_thenable::CLASS_MESSAGE, no_thenable::HINT)]),
        (r#"class Foo {["then"]() {}}"#, vec![eh(1, 12, no_thenable::CLASS_MESSAGE, no_thenable::HINT)]),
        ("class Foo {[`then`]() {}}", vec![eh(1, 12, no_thenable::CLASS_MESSAGE, no_thenable::HINT)]),
        (r#"const THEN = "then";class Foo {[THEN]() {}}"#, vec![eh(1, 13, no_thenable::CLASS_MESSAGE, no_thenable::HINT)]),
        ("class Foo {static then}", vec![eh(1, 18, no_thenable::CLASS_MESSAGE, no_thenable::HINT)]),
        (r#"class Foo {static ["then"]}"#, vec![eh(1, 19, no_thenable::CLASS_MESSAGE, no_thenable::HINT)]),
        ("class Foo {static [`then`]}", vec![eh(1, 19, no_thenable::CLASS_MESSAGE, no_thenable::HINT)]),
        (r#"const THEN = "then";class Foo {static [THEN]}"#, vec![eh(1, 13, no_thenable::CLASS_MESSAGE, no_thenable::HINT)]),
        ("class Foo {static then() {}}", vec![eh(1, 18, no_thenable::CLASS_MESSAGE, no_thenable::HINT)]),
        (r#"class Foo {static ["then"]() {}}"#, vec![eh(1, 19, no_thenable::CLASS_MESSAGE, no_thenable::HINT)]),
        ("class Foo {static [`then`]() {}}", vec![eh(1, 19, no_thenable::CLASS_MESSAGE, no_thenable::HINT)]),
        (r#"const THEN = "then";class Foo {static [THEN]() {}}"#, vec![eh(1, 13, no_thenable::CLASS_MESSAGE, no_thenable::HINT)]),
        ("class Foo {get then() {}}", vec![eh(1, 15, no_thenable::CLASS_MESSAGE, no_thenable::HINT)]),
        (r#"class Foo {get ["then"]() {}}"#, vec![eh(1, 16, no_thenable::CLASS_MESSAGE, no_thenable::HINT)]),
        ("class Foo {get [`then`]() {}}", vec![eh(1, 16, no_thenable::CLASS_MESSAGE, no_thenable::HINT)]),
        (r#"const THEN = "then";class Foo {get [THEN]() {}}"#, vec![eh(1, 13, no_thenable::CLASS_MESSAGE, no_thenable::HINT)]),
        ("class Foo {set then(v) {}}", vec![eh(1, 15, no_thenable::CLASS_MESSAGE, no_thenable::HINT)]),
        (r#"class Foo {set ["then"](v) {}}"#, vec![eh(1, 16, no_thenable::CLASS_MESSAGE, no_thenable::HINT)]),
        ("class Foo {set [`then`](v) {}}", vec![eh(1, 16, no_thenable::CLASS_MESSAGE, no_thenable::HINT)]),
        (r#"const THEN = "then";class Foo {set [THEN](v) {}}"#, vec![eh(1, 13, no_thenable::CLASS_MESSAGE, no_thenable::HINT)]),
        ("class Foo {static get then() {}}", vec![eh(1, 22, no_thenable::CLASS_MESSAGE, no_thenable::HINT)]),
        (r#"class Foo {static get ["then"]() {}}"#, vec![eh(1, 23, no_thenable::CLASS_MESSAGE, no_thenable::HINT)]),
        ("class Foo {static get [`then`]() {}}", vec![eh(1, 23, no_thenable::CLASS_MESSAGE, no_thenable::HINT)]),
        (r#"const THEN = "then";class Foo {static get [THEN]() {}}"#, vec![eh(1, 13, no_thenable::CLASS_MESSAGE, no_thenable::HINT)]),
        ("foo.then = 1", vec![eh(1, 0, no_thenable::CLASS_MESSAGE, no_thenable::HINT)]),
        (r#"foo["then"] = 1"#, vec![eh(1, 4, no_thenable::CLASS_MESSAGE, no_thenable::HINT)]),
        ("foo[`then`] = 1", vec![eh(1, 4, no_thenable::CLASS_MESSAGE, no_thenable::HINT)]),
        (r#"const THEN = "then";foo[THEN] = 1"#, vec![eh(1, 13, no_thenable::CLASS_MESSAGE, no_thenable::HINT)]),
        ("foo.then += 1", vec![eh(1, 0, no_thenable::CLASS_MESSAGE, no_thenable::HINT)]),
        ("foo.then ||= 1", vec![eh(1, 0, no_thenable::CLASS_MESSAGE, no_thenable::HINT)]),
        ("foo.then ??= 1", vec![eh(1, 0, no_thenable::CLASS_MESSAGE, no_thenable::HINT)]),
    ]);
}


#[test]
fn no_thenable_export_invalid() {
    assert_err(|p| NoThenable.lint(p), ts, no_thenable::CODE, vec![
        ("const then = 1; export {then}", vec![eh(1, 24, no_thenable::EXPORT_MESSAGE, no_thenable::HINT)]),
        ("const notThen = 1; export {notThen as then}", vec![eh(1, 38, no_thenable::EXPORT_MESSAGE, no_thenable::HINT)]),
        (r#"export {then} from "foo""#, vec![eh(1, 8, no_thenable::EXPORT_MESSAGE, no_thenable::HINT)]),
        ("export function then() {}", vec![eh(1, 16, no_thenable::EXPORT_MESSAGE, no_thenable::HINT)]),
        ("export async function then() {}", vec![eh(1, 22, no_thenable::EXPORT_MESSAGE, no_thenable::HINT)]),
        ("export function * then() {}", vec![eh(1, 18, no_thenable::EXPORT_MESSAGE, no_thenable::HINT)]),
        ("export async function * then() {}", vec![eh(1, 24, no_thenable::EXPORT_MESSAGE, no_thenable::HINT)]),
        ("export class then {}", vec![eh(1, 13, no_thenable::EXPORT_MESSAGE, no_thenable::HINT)]),
        ("export const then = 1", vec![eh(1, 13, no_thenable::EXPORT_MESSAGE, no_thenable::HINT)]),
        ("export let then = 1", vec![eh(1, 11, no_thenable::EXPORT_MESSAGE, no_thenable::HINT)]),
        ("export var then = 1", vec![eh(1, 11, no_thenable::EXPORT_MESSAGE, no_thenable::HINT)]),
        ("export const [then] = 1", vec![eh(1, 14, no_thenable::EXPORT_MESSAGE, no_thenable::HINT)]),
        ("export let [then] = 1", vec![eh(1, 12, no_thenable::EXPORT_MESSAGE, no_thenable::HINT)]),
        ("export var [then] = 1", vec![eh(1, 12, no_thenable::EXPORT_MESSAGE, no_thenable::HINT)]),
        ("export const [, then] = 1", vec![eh(1, 16, no_thenable::EXPORT_MESSAGE, no_thenable::HINT)]),
        ("export let [, then] = 1", vec![eh(1, 14, no_thenable::EXPORT_MESSAGE, no_thenable::HINT)]),
        ("export var [, then] = 1", vec![eh(1, 14, no_thenable::EXPORT_MESSAGE, no_thenable::HINT)]),
        ("export const [, ...then] = 1", vec![eh(1, 19, no_thenable::EXPORT_MESSAGE, no_thenable::HINT)]),
        ("export let [, ...then] = 1", vec![eh(1, 17, no_thenable::EXPORT_MESSAGE, no_thenable::HINT)]),
        ("export var [, ...then] = 1", vec![eh(1, 17, no_thenable::EXPORT_MESSAGE, no_thenable::HINT)]),
        ("export const {then} = 1", vec![eh(1, 14, no_thenable::EXPORT_MESSAGE, no_thenable::HINT)]),
        ("export let {then} = 1", vec![eh(1, 12, no_thenable::EXPORT_MESSAGE, no_thenable::HINT)]),
        ("export var {then} = 1", vec![eh(1, 12, no_thenable::EXPORT_MESSAGE, no_thenable::HINT)]),
        ("export const {foo, ...then} = 1", vec![eh(1, 22, no_thenable::EXPORT_MESSAGE, no_thenable::HINT)]),
        ("export let {foo, ...then} = 1", vec![eh(1, 20, no_thenable::EXPORT_MESSAGE, no_thenable::HINT)]),
        ("export var {foo, ...then} = 1", vec![eh(1, 20, no_thenable::EXPORT_MESSAGE, no_thenable::HINT)]),
        ("export const {foo: {bar: [{baz: then}]}} = 1", vec![eh(1, 32, no_thenable::EXPORT_MESSAGE, no_thenable::HINT)]),
        ("export const notThen = 1, then = 1", vec![eh(1, 26, no_thenable::EXPORT_MESSAGE, no_thenable::HINT)]),
    ]);
}


use deno_lint::rules::no_useless_fallback_in_spread::{self as fallback, NoUselessFallbackInSpread};

#[test]
fn no_useless_fallback_in_spread_valid() {
    assert_ok(|p| NoUselessFallbackInSpread.lint(p), ts, &[
        "const array = [...(foo || [])]",
        "const array = [...(foo || {})]",
        "const array = [...(foo && {})]",
        "const object = {...(foo && {})}",
        "const object = {...({} || foo)}",
        "const object = {...({} && foo)}",
        "const object = {...({} ?? foo)}",
        "const object = {...(foo ? foo : {})}",
        "const object = {...foo}",
        "const object = {...(foo ?? ({} || {}))}",
        "const {...foo} = object",
        "function foo({...bar}){}",
        "const object = {...(foo || {}).toString()}",
        "const object = {...fn(foo || {})}",
        "const object = call({}, ...(foo || {}))",
        r#"const object = {...(foo || {not: "empty"})}"#,
        "const object = {...(foo || {...{}})}",
    ]);
}


#[test]
fn no_useless_fallback_in_spread_invalid() {
    assert_err(|p| NoUselessFallbackInSpread.lint(p), ts, fallback::CODE, vec![
        ("const object = {...(foo || {})}", vec![eh(1, 16, fallback::MESSAGE, fallback::HINT)]),
        ("const object = {...(foo ?? {})}", vec![eh(1, 16, fallback::MESSAGE, fallback::HINT)]),
        ("const object = {...(foo ?? (( {} )))}", vec![eh(1, 16, fallback::MESSAGE, fallback::HINT)]),
        ("const object = {...((( foo )) ?? (( {} )))}", vec![eh(1, 16, fallback::MESSAGE, fallback::HINT)]),
        ("const object = {...(( (( foo )) ?? (( {} )) ))}", vec![eh(1, 16, fallback::MESSAGE, fallback::HINT)]),
        ("async ()=> ({...((await foo) || {})})", vec![eh(1, 13, fallback::MESSAGE, fallback::HINT)]),
        ("const object = {...(0 || {})}", vec![eh(1, 16, fallback::MESSAGE, fallback::HINT)]),
        ("const object = {...((-0) || {})}", vec![eh(1, 16, fallback::MESSAGE, fallback::HINT)]),
        ("const object = {...(.0 || {})}", vec![eh(1, 16, fallback::MESSAGE, fallback::HINT)]),
        ("const object = {...(0n || {})}", vec![eh(1, 16, fallback::MESSAGE, fallback::HINT)]),
        ("const object = {...(false || {})}", vec![eh(1, 16, fallback::MESSAGE, fallback::HINT)]),
        ("const object = {...(null || {})}", vec![eh(1, 16, fallback::MESSAGE, fallback::HINT)]),
        ("const object = {...(undefined || {})}", vec![eh(1, 16, fallback::MESSAGE, fallback::HINT)]),
        ("const object = {...((a && b) || {})}", vec![eh(1, 16, fallback::MESSAGE, fallback::HINT)]),
        ("const object = {...(NaN || {})}", vec![eh(1, 16, fallback::MESSAGE, fallback::HINT)]),
        (r#"const object = {...("" || {})}"#, vec![eh(1, 16, fallback::MESSAGE, fallback::HINT)]),
        ("const object = {...([] || {})}", vec![eh(1, 16, fallback::MESSAGE, fallback::HINT)]),
        ("const object = {...({} || {})}", vec![eh(1, 16, fallback::MESSAGE, fallback::HINT)]),
        ("const object = {...(foo || {}),}", vec![eh(1, 16, fallback::MESSAGE, fallback::HINT)]),
        ("const object = {...((foo ?? {}) || {})}", vec![eh(1, 16, fallback::MESSAGE, fallback::HINT)]),
        ("const object = {...((foo && {}) || {})}", vec![eh(1, 16, fallback::MESSAGE, fallback::HINT)]),
        ("const object = {...(foo && {} || {})}", vec![eh(1, 16, fallback::MESSAGE, fallback::HINT)]),
        ("const object = {...({...(foo || {})})}", vec![eh(1, 21, fallback::MESSAGE, fallback::HINT)]),
        ("const object = {...({...((0, foo) || {})})}", vec![eh(1, 21, fallback::MESSAGE, fallback::HINT)]),
        ("function foo(a = {...(bar || {})}){}", vec![eh(1, 18, fallback::MESSAGE, fallback::HINT)]),
        ("const object = {...(document.all || {})}", vec![eh(1, 16, fallback::MESSAGE, fallback::HINT)]),
    ]);
}


use deno_lint::rules::no_single_promise_in_promise_methods::{self as single_promise, NoSinglePromiseInPromiseMethods};

fn promise_message(method: &str) -> String {
    format!("Wrapping single-element array with `Promise.{}()` is unnecessary.", method)
}

#[test]
fn no_single_promise_in_promise_methods_valid() {
    assert_ok(|p| NoSinglePromiseInPromiseMethods.lint(p), ts, &[
        "Promise.race([promise, anotherPromise])",
        "Promise.race(notArrayLiteral)",
        "Promise.race([...promises])",
        "Promise.any([promise, anotherPromise])",
        "Promise.notListedMethod([promise])",
        "Promise[race]([promise])",
        "Promise.race([,])",
        "NotPromise.race([promise])",
        "Promise?.race([promise])",
        "Promise.race?.([promise])",
        "Promise.race(...[promise])",
        "Promise.race([promise], extraArguments)",
        "Promise.race()",
        "new Promise.race([promise])",
        "globalThis.Promise.race([promise])",
        r#"Promise["race"]([promise])"#,
        "Promise.allSettled([promise])",
    ]);
}


#[test]
fn no_single_promise_in_promise_methods_invalid() {
    assert_err(|p| NoSinglePromiseInPromiseMethods.lint(p), ts, single_promise::CODE, vec![
        ("await Promise.race([(0, promise)])", vec![eh(1, 6, &promise_message("race"), single_promise::HINT)]),
        ("async function * foo() {await Promise.race([yield promise])}", vec![eh(1, 30, &promise_message("race"), single_promise::HINT)]),
        ("async function * foo() {await Promise.race([yield* promise])}", vec![eh(1, 30, &promise_message("race"), single_promise::HINT)]),
        ("await Promise.race([() => promise,],)", vec![eh(1, 6, &promise_message("race"), single_promise::HINT)]),
        ("await Promise.race([a ? b : c,],)", vec![eh(1, 6, &promise_message("race"), single_promise::HINT)]),
        ("await Promise.race([x ??= y,],)", vec![eh(1, 6, &promise_message("race"), single_promise::HINT)]),
        ("await Promise.race([x ||= y,],)", vec![eh(1, 6, &promise_message("race"), single_promise::HINT)]),
        ("await Promise.race([x &&= y,],)", vec![eh(1, 6, &promise_message("race"), single_promise::HINT)]),
        ("await Promise.race([x |= y,],)", vec![eh(1, 6, &promise_message("race"), single_promise::HINT)]),
        ("await Promise.race([x ^= y,],)", vec![eh(1, 6, &promise_message("race"), single_promise::HINT)]),
        ("await Promise.race([x | y,],)", vec![eh(1, 6, &promise_message("race"), single_promise::HINT)]),
        ("await Promise.race([x ^ y,],)", vec![eh(1, 6, &promise_message("race"), single_promise::HINT)]),
        ("await Promise.race([x & y,],)", vec![eh(1, 6, &promise_message("race"), single_promise::HINT)]),
        ("await Promise.race([x !== y,],)", vec![eh(1, 6, &promise_message("race"), single_promise::HINT)]),
        ("await Promise.race([x == y,],)", vec![eh(1, 6, &promise_message("race"), single_promise::HINT)]),
        ("await Promise.race([x in y,],)", vec![eh(1, 6, &promise_message("race"), single_promise::HINT)]),
        ("await Promise.race([x >>> y,],)", vec![eh(1, 6, &promise_message("race"), single_promise::HINT)]),
        ("await Promise.race([x + y,],)", vec![eh(1, 6, &promise_message("race"), single_promise::HINT)]),
        ("await Promise.race([x / y,],)", vec![eh(1, 6, &promise_message("race"), single_promise::HINT)]),
        ("await Promise.race([x ** y,],)", vec![eh(1, 6, &promise_message("race"), single_promise::HINT)]),
        ("await Promise.race([promise,],)", vec![eh(1, 6, &promise_message("race"), single_promise::HINT)]),
        ("await Promise.race([getPromise(),],)", vec![eh(1, 6, &promise_message("race"), single_promise::HINT)]),
        ("await Promise.race([promises[0],],)", vec![eh(1, 6, &promise_message("race"), single_promise::HINT)]),
        ("await Promise.race([await promise])", vec![eh(1, 6, &promise_message("race"), single_promise::HINT)]),
        ("await Promise.any([promise])", vec![eh(1, 6, &promise_message("any"), single_promise::HINT)]),
        ("await Promise.race([promise])", vec![eh(1, 6, &promise_message("race"), single_promise::HINT)]),
        ("await Promise.race([new Promise(() => {})])", vec![eh(1, 6, &promise_message("race"), single_promise::HINT)]),
        ("+await Promise.race([+1])", vec![eh(1, 7, &promise_message("race"), single_promise::HINT)]),
        ("await Promise.race([(x,y)])\n[0].toString()", vec![eh(1, 6, &promise_message("race"), single_promise::HINT)]),
        ("Promise.race([promise,],)", vec![eh(1, 0, &promise_message("race"), single_promise::HINT)]),
        ("foo\nPromise.race([(0, promise),],)", vec![eh(2, 0, &promise_message("race"), single_promise::HINT)]),
        ("foo\nPromise.race([[array][0],],)", vec![eh(2, 0, &promise_message("race"), single_promise::HINT)]),
        ("Promise.race([promise]).then()", vec![eh(1, 0, &promise_message("race"), single_promise::HINT)]),
        ("Promise.race([1]).then()", vec![eh(1, 0, &promise_message("race"), single_promise::HINT)]),
        ("Promise.race([1.]).then()", vec![eh(1, 0, &promise_message("race"), single_promise::HINT)]),
        ("Promise.race([.1]).then()", vec![eh(1, 0, &promise_message("race"), single_promise::HINT)]),
        ("Promise.race([(0, promise)]).then()", vec![eh(1, 0, &promise_message("race"), single_promise::HINT)]),
        ("const _ = () => Promise.race([ a ?? b ,],)", vec![eh(1, 16, &promise_message("race"), single_promise::HINT)]),
        ("Promise.race([ {a} = 1 ,],)", vec![eh(1, 0, &promise_message("race"), single_promise::HINT)]),
        ("Promise.race([ function () {} ,],)", vec![eh(1, 0, &promise_message("race"), single_promise::HINT)]),
        ("Promise.race([ class {} ,],)", vec![eh(1, 0, &promise_message("race"), single_promise::HINT)]),
        ("Promise.race([ new Foo ,],).then()", vec![eh(1, 0, &promise_message("race"), single_promise::HINT)]),
        ("Promise.race([ new Foo ,],).toString", vec![eh(1, 0, &promise_message("race"), single_promise::HINT)]),
        ("foo(Promise.race([promise]))", vec![eh(1, 4, &promise_message("race"), single_promise::HINT)]),
        ("Promise.race([promise]).foo = 1", vec![eh(1, 0, &promise_message("race"), single_promise::HINT)]),
        ("Promise.race([promise])[0] ||= 1", vec![eh(1, 0, &promise_message("race"), single_promise::HINT)]),
        ("Promise.race([undefined]).then()", vec![eh(1, 0, &promise_message("race"), single_promise::HINT)]),
        ("Promise.race([null]).then()", vec![eh(1, 0, &promise_message("race"), single_promise::HINT)]),
        ("Promise.all([promise])", vec![eh(1, 0, &promise_message("all"), single_promise::HINT)]),
        ("await Promise.all([promise])", vec![eh(1, 6, &promise_message("all"), single_promise::HINT)]),
        ("const foo = () => Promise.all([promise])", vec![eh(1, 18, &promise_message("all"), single_promise::HINT)]),
        ("const foo = await Promise.all([promise])", vec![eh(1, 18, &promise_message("all"), single_promise::HINT)]),
        ("foo = await Promise.all([promise])", vec![eh(1, 12, &promise_message("all"), single_promise::HINT)]),
        ("const foo = await Promise.race([promise])", vec![eh(1, 18, &promise_message("race"), single_promise::HINT)]),
        ("const foo = () => Promise.race([promise])", vec![eh(1, 18, &promise_message("race"), single_promise::HINT)]),
        ("foo = await Promise.race([promise])", vec![eh(1, 12, &promise_message("race"), single_promise::HINT)]),
        ("const results = await Promise.any([promise])", vec![eh(1, 22, &promise_message("any"), single_promise::HINT)]),
        ("const results = await Promise.race([promise])", vec![eh(1, 22, &promise_message("race"), single_promise::HINT)]),
        ("const [foo] = await Promise.all([promise])", vec![eh(1, 20, &promise_message("all"), single_promise::HINT)]),
        ("Promise.all([x] as const).then()", vec![eh(1, 0, &promise_message("all"), single_promise::HINT)]),
        ("Promise.all([x] satisfies any[]).then()", vec![eh(1, 0, &promise_message("all"), single_promise::HINT)]),
        ("Promise.all([x as const]).then()", vec![eh(1, 0, &promise_message("all"), single_promise::HINT)]),
        ("Promise.all([x!]).then()", vec![eh(1, 0, &promise_message("all"), single_promise::HINT)]),
        ("Promise.all(['one']).then(something);", vec![eh(1, 0, &promise_message("all"), single_promise::HINT)]),
        ("async function run() {\n  await Promise.all([\n    new Promise((resolve) => resolve(true)),\n  ]);\n}", vec![eh(2, 8, &promise_message("all"), single_promise::HINT)]),
    ]);
}


use deno_lint::rules::no_sync_fn_in_async_fn::{self, NoSyncFnInAsyncFn};

#[test]
fn no_sync_fn_in_async_fn_is_valid() {
    assert_ok(|p| NoSyncFnInAsyncFn.lint(p), ts, &[
        r#"
      function foo(things) {
        Deno.readTextFileSync("");
      }
      "#,
        r#"
      const foo = (things) => {
        Deno.readTextFileSync("");
      }
      "#,
        r#"
      const foo = function(things) {
        Deno.readTextFileSync("");
      }
      "#,
        r#"
      class Foo {
        foo(things) {
          Deno.readTextFileSync("");
        }
      }
      "#,
    ]);
}


#[test]
fn no_sync_fn_in_async_fn_is_invalid() {
    assert_err(|p| NoSyncFnInAsyncFn.lint(p), ts, no_sync_fn_in_async_fn::CODE, vec![
        (r#"
      async function foo(things) {
        Deno.readTextFileSync("");
      }
      "#, vec![eh(3, 8, no_sync_fn_in_async_fn::MESSAGE, "Consider changing this to an async equivalent: `await Deno.readTextFile(..)`")]),
        (r#"
      const foo = async (things) => {
        Deno.readTextFileSync("");
      }
      "#, vec![eh(3, 8, no_sync_fn_in_async_fn::MESSAGE, "Consider changing this to an async equivalent: `await Deno.readTextFile(..)`")]),
        (r#"
      const foo = async function (things) {
        Deno.readTextFileSync("");
      }
      "#, vec![eh(3, 8, no_sync_fn_in_async_fn::MESSAGE, "Consider changing this to an async equivalent: `await Deno.readTextFile(..)`")]),
    ]);
}


use deno_lint::rules::no_unsafe_finally::{self as unsafe_finally, NoUnsafeFinally};

#[test]
fn no_unsafe_finally_valid() {
    assert_ok(|p| NoUnsafeFinally.lint(p), ts, &[
        r#"
let foo = function() {
  try {
    return 1;
  } catch(err) {
    return 2;
  } finally {
    console.log("hola!");
  }
};
     "#,
        r#"
let foo = function() {
  try {
    return 1;
  } catch(err) {
    return 2;
  } finally {
    let a = function() {
      return "hola!";
    }
  }
};
     "#,
        r#"
let foo = function() {
  try {
    return 1;
  } catch(err) {
    return 2;
  } finally {
    function bar() {
      return "hola!";
    }
  }
};
     "#,
        r#"
let foo = function() {
  try {
    return 1;
  } catch(err) {
    return 2;
  } finally {
    const f = (x) => {
      return x + 1;
    };
  }
};
     "#,
        r#"
let foo = function() {
  try {
    return 1;
  } catch(err) {
    return 2;
  } finally {
    class Foo {
      method(x: number): number {
        return x * 2;
      }
    }
  }
};
     "#,
        r#"
let foo = function(a) {
  try {
    return 1;
  } catch(err) {
    return 2;
  } finally {
    switch(a) {
      case 1: {
        console.log("hola!")
        break;
      }
    }
  }
};
      "#,
        r#"
try {
  throw 42;
} catch (err) {
  console.log('hi');
} finally {
  while (true) break;
}
      "#,
        r#"
try {
  throw 42;
} catch (err) {
  console.log('hi');
} finally {
  while (true) continue;
}
      "#,
        r#"
try {
  throw 42;
} catch (err) {
  console.log('hi');
} finally {
  do {
    break;
  } while (true)
}
      "#,
        r#"
try {
  throw 42;
} catch (err) {
  console.log('hi');
} finally {
  do {
    continue;
  } while (true)
}
      "#,
        r#"
try {
  throw 42;
} catch (err) {
  console.log('hi');
} finally {
  label: while (true) {
    if (x) break label;
    else continue;
  }
}
      "#,
        r#"
try {
  throw 42;
} catch (err) {
  console.log('hi');
} finally {
  for (let i = 0; i < 100; i++) {
    break;
  }
}
      "#,
        r#"
try {
  throw 42;
} catch (err) {
  console.log('hi');
} finally {
  for (let i = 0; i < 100; i++) {
    continue;
  }
}
      "#,
        r#"
try {
  throw 42;
} catch (err) {
  console.log('hi');
} finally {
  for (const x of xs) {
    continue;
  }
}
      "#,
        r#"
try {
  throw 42;
} catch (err) {
  console.log('hi');
} finally {
  for (const x of xs) {
    break;
  }
}
      "#,
        r#"
try {
  throw 42;
} catch (err) {
  console.log('hi');
} finally {
  for (const x in xs) {
    continue;
  }
}
      "#,
        r#"
try {
  throw 42;
} catch (err) {
  console.log('hi');
} finally {
  for (const x in xs) {
    break;
  }
}
      "#,
        r#"
      "#,
        r#"
      "#,
    ]);
}


#[test]
fn no_unsafe_finally_invalid() {
    assert_err(|p| NoUnsafeFinally.lint(p), ts, unsafe_finally::CODE, vec![
        (r#"
let foo = function() {
  try {
    return 1;
  } catch(err) {
    return 2;
  } finally {
    break;
  }
};
     "#, vec![eh(8, 4, unsafe_finally::BREAK_MESSAGE, unsafe_finally::HINT)]),
        (r#"
let foo = function() {
  try {
    return 1;
  } catch(err) {
    return 2;
  } finally {
    continue;
  }
};
     "#, vec![eh(8, 4, unsafe_finally::CONTINUE_MESSAGE, unsafe_finally::HINT)]),
        (r#"
let foo = function() {
  try {
    return 1;
  } catch(err) {
    return 2;
  } finally {
    return 3;
  }
};
          "#, vec![eh(8, 4, unsafe_finally::RETURN_MESSAGE, unsafe_finally::HINT)]),
        (r#"
let foo = function() {
  try {
    return 1;
  } catch(err) {
    return 2;
  } finally {
    throw new Error;
  }
};
     "#, vec![eh(8, 4, unsafe_finally::THROW_MESSAGE, unsafe_finally::HINT)]),
        (r#"
try {}
finally {
  try {}
  finally {
    throw new Error;
  }
}
     "#, vec![eh(6, 4, unsafe_finally::THROW_MESSAGE, unsafe_finally::HINT)]),
        (r#"
function foo() {
  try {}
  finally {
    if (x) {
      return 0;
    } else {
      return 1;
    }
  }
}
     "#, vec![eh(6, 6, unsafe_finally::RETURN_MESSAGE, unsafe_finally::HINT), eh(8, 6, unsafe_finally::RETURN_MESSAGE, unsafe_finally::HINT)]),
        (r#"
function foo() {
  try {}
  finally {
    return () => {
      return 0;
    };
  }
}
     "#, vec![eh(5, 4, unsafe_finally::RETURN_MESSAGE, unsafe_finally::HINT)]),
        (r#"
function foo() {
  label: try {
    return 0;
  } finally {
    break label;
  }
}
     "#, vec![eh(6, 4, unsafe_finally::BREAK_MESSAGE, unsafe_finally::HINT)]),
        (r#"
function foo() {
  while (x) {
    try {}
    finally {
      break;
    }
  }
}
     "#, vec![eh(6, 6, unsafe_finally::BREAK_MESSAGE, unsafe_finally::HINT)]),
        (r#"
function foo() {
  while (x) {
    try {}
    finally {
      continue;
    }
  }
}
     "#, vec![eh(6, 6, unsafe_finally::CONTINUE_MESSAGE, unsafe_finally::HINT)]),
        (r#"
function foo() {
  switch (x) {
    case 0:
      try {}
      finally {
        break;
      }
  }
}
     "#, vec![eh(7, 8, unsafe_finally::BREAK_MESSAGE, unsafe_finally::HINT)]),
        (r#"
function foo() {
  a: while (x) {
    try {}
    finally {
      switch (y) {
        case 0:
          break a;
      }
    }
  }
}
     "#, vec![eh(8, 10, unsafe_finally::BREAK_MESSAGE, unsafe_finally::HINT)]),
        (r#"
function foo() {
  while (x) {
    try {}
    finally {
      switch (y) {
        case 0:
          continue;
      }
    }
  }
}
     "#, vec![eh(8, 10, unsafe_finally::CONTINUE_MESSAGE, unsafe_finally::HINT)]),
        (r#"
function foo() {
  a: switch (x) {
    case 0:
      try {}
      finally {
        switch (y) {
          case 1:
            break a;
        }
      }
  }
}
     "#, vec![eh(9, 12, unsafe_finally::BREAK_MESSAGE, unsafe_finally::HINT)]),
    ]);
}


use deno_lint::rules::no_unsafe_negation::{self as unsafe_negation, NoUnsafeNegation};

#[test]
fn no_unsafe_negation_valid() {
    assert_ok(|p| NoUnsafeNegation.lint(p), ts, &[
        "1 in [1, 2, 3]",
        "key in object",
        "foo instanceof Date",
        "!(1 in [1, 2, 3])",
        "!(key in object)",
        "!(foo instanceof Date)",
        "(!key) in object",
        "(!foo) instanceof Date",
    ]);
}


#[test]
fn no_unsafe_negation_invalid() {
    assert_err(|p| NoUnsafeNegation.lint(p), ts, unsafe_negation::CODE, vec![
        ("!1 in [1, 2, 3]", vec![eh(1, 0, "Unexpected negating the left operand of `in` operator", unsafe_negation::HINT)]),
        ("!key in object", vec![eh(1, 0, "Unexpected negating the left operand of `in` operator", unsafe_negation::HINT)]),
        ("!foo instanceof Date", vec![eh(1, 0, "Unexpected negating the left operand of `instanceof` operator", unsafe_negation::HINT)]),
    ]);
}


use deno_lint::rules::no_self_compare::{self as self_compare, NoSelfCompare};

#[test]
fn no_self_compare_valid() {
    assert_ok(|p| NoSelfCompare.lint(p), ts, &[
        "if (x === y) { }",
        "if (1 === 2) { }",
        "y=x*x",
        "foo.bar.baz === foo.bar.qux",
        "if ('x' === 'y') { }",
    ]);
}


#[test]
fn no_self_compare_invalid() {
    assert_err(|p| NoSelfCompare.lint(p), ts, self_compare::CODE, vec![
        ("if (x === x) { }", vec![eh(1, 4, "`x` is compared to itself", self_compare::HINT)]),
        ("if (x == x) { }", vec![eh(1, 4, "`x` is compared to itself", self_compare::HINT)]),
        ("if (x !== x) { }", vec![eh(1, 4, "`x` is compared to itself", self_compare::HINT)]),
        ("if (x > x) { }", vec![eh(1, 4, "`x` is compared to itself", self_compare::HINT)]),
        ("if (x < x) { }", vec![eh(1, 4, "`x` is compared to itself", self_compare::HINT)]),
        ("if (x >= x) { }", vec![eh(1, 4, "`x` is compared to itself", self_compare::HINT)]),
        ("if (x <= x) { }", vec![eh(1, 4, "`x` is compared to itself", self_compare::HINT)]),
        ("foo.bar().baz.qux >= foo.bar().baz.qux", vec![eh(1, 0, "`foo.bar().baz.qux` is compared to itself", self_compare::HINT)]),
        ("foo.bar().baz['qux'] >= foo.bar().baz['qux']", vec![eh(1, 0, "`foo.bar().baz['qux']` is compared to itself", self_compare::HINT)]),
        ("if ('x' > 'x') { }", vec![eh(1, 4, "`'x'` is compared to itself", self_compare::HINT)]),
        ("do {} while (x === x)", vec![eh(1, 13, "`x` is compared to itself", self_compare::HINT)]),
        ("x === x ? console.log('foo') : console.log('bar');", vec![eh(1, 0, "`x` is compared to itself", self_compare::HINT)]),
    ]);
}



use deno_lint::rules::quotes::{self as quotes_rule, Quotes};

#[test]
fn quotes_valid() {
    assert_ok(|p| Quotes.lint(p), ts, &[
        r#"var foo = "bar";"#,
        r#"var foo = 1;"#,
        r#"var foo = `bar`;"#,
        r#"var foo = `bar${baz}`;"#,
        r#"var foo = "don't";"#,
        r#"var obj = {"key0": 0, "key1": 1};"#,
        r#"class Foo { "bar"(){} }"#,
        r#"class C { "f"; "m"() {} }"#,
        r#"var foo = `back${x}tick`;"#,
        "var foo = `back\ntick`;",
        r#"var foo = tag`backtick`;"#,
        r#""use strict"; var foo = "bar";"#,
    ]);
}

#[test]
fn quotes_invalid() {
    let m = quotes_rule::MESSAGE;
    let h = quotes_rule::HINT;
    assert_err(|p| Quotes.lint(p), ts, quotes_rule::CODE, vec![
        (r#"var foo = 'bar';"#, vec![eh(1, 10, m, h)]),
        (r#"var foo = 'don\'t';"#, vec![eh(1, 10, m, h)]),
        (r#"var msg = 'Plugin ' + name + ' not found'"#, vec![eh(1, 10, m, h), eh(1, 29, m, h)]),
        (r#"class C { 'foo'; }"#, vec![eh(1, 10, m, h)]),
        (r#"class C { 'foo'() {} }"#, vec![eh(1, 10, m, h)]),
        (r#"var obj = {['key1']: 1};"#, vec![eh(1, 12, m, h)]),
        (r#"{ 'use strict'; }"#, vec![eh(1, 2, m, h)]),
        (r#"('foo'); 'bar';"#, vec![eh(1, 1, m, h), eh(1, 9, m, h)]),
    ]);
}

#[test]
fn quotes_import_export_and_jsx() {
    let m = quotes_rule::MESSAGE;
    let h = quotes_rule::HINT;
    assert_ok(|p| Quotes.lint(p), ts, &[r#"import { a } from "mod";"#]);
    assert_err(|p| Quotes.lint(p), ts, quotes_rule::CODE, vec![
        (r#"import { a } from 'mod';"#, vec![eh(1, 18, m, h)]),
        (r#"export { a } from 'mod';"#, vec![eh(1, 18, m, h)]),
        (r#"declare module 'm' {}"#, vec![eh(1, 15, m, h)]),
    ]);
    assert_err(|p| Quotes.lint(p), tsx, quotes_rule::CODE, vec![
        (r#"<div a='x' />"#, vec![eh(1, 7, m, h)]),
    ]);
}


use deno_lint::rules::no_self_assign::{self as self_assign, NoSelfAssign};

#[test]
fn no_self_assign_valid() {
    assert_ok(|p| NoSelfAssign.lint(p), ts, &[
        "var a = a;",
        "a = b",
        "a += a",
        "a = +a",
        "a = [a]",
        "let a = a",
        "const a = a",
        "[a] = a",
        "[a = 1] = [a]",
        "[a, b] = [b, a]",
        "[a, , b] = [, b, a]",
        "[b, a] = [...b, a]",
        "[...a] = [...a, 1]",
        "[a, ...b] = [0, ...b, 1]",
        "[a, b] = {a, b}",
        "({a} = a)",
        "({a = 1} = {a})",
        "({a: b} = {a})",
        "({a} = {a: b})",
        "({a} = {[a]: a})",
        "({[a]: b} = {[a]: b})",
        "({'foo': a, 1: a} = {'bar': a, 2: a})",
        "({a, ...b} = {a, ...b})",
        "a.b = a.c",
        "a.b = c.b",
        "a.b = a[b]",
        "a[b] = a.b",
        "a.b().c = a.b().c",
        "b().c = b().c",
        "a.null = a[/(?<zero>0)/]",
        "a[b + 1] = a[b + 1]",
        "this.x = this.y",
        "this.x = options.x",
        "this.name = this.constructor.name",
        r#"
        class Foo {
          constructor() {
            this.#bar = this.bar
          }
        }
      "#,
    ]);
}


#[test]
fn no_self_assign_invalid() {
    assert_err(|p| NoSelfAssign.lint(p), ts, self_assign::CODE, vec![
        ("a = a", vec![eh(1, 4, "`a` is assigned to itself", self_assign::HINT)]),
        ("[a] = [a]", vec![eh(1, 7, "`a` is assigned to itself", self_assign::HINT)]),
        ("[a, b] = [a, b]", vec![eh(1, 10, "`a` is assigned to itself", self_assign::HINT), eh(1, 13, "`b` is assigned to itself", self_assign::HINT)]),
        ("[a, b] = [a, c]", vec![eh(1, 10, "`a` is assigned to itself", self_assign::HINT)]),
        ("[a, b] = [, b]", vec![eh(1, 12, "`b` is assigned to itself", self_assign::HINT)]),
        ("[a, ...b] = [a, ...b]", vec![eh(1, 13, "`a` is assigned to itself", self_assign::HINT), eh(1, 19, "`b` is assigned to itself", self_assign::HINT)]),
        ("[[a], {b}] = [[a], {b}]", vec![eh(1, 15, "`a` is assigned to itself", self_assign::HINT), eh(1, 20, "`b` is assigned to itself", self_assign::HINT)]),
        ("({a} = {a})", vec![eh(1, 8, "`a` is assigned to itself", self_assign::HINT)]),
        ("({a: b} = {a: b})", vec![eh(1, 14, "`b` is assigned to itself", self_assign::HINT)]),
        ("({'a': b} = {'a': b})", vec![eh(1, 18, "`b` is assigned to itself", self_assign::HINT)]),
        ("({a: b} = {'a': b})", vec![eh(1, 16, "`b` is assigned to itself", self_assign::HINT)]),
        ("({'a': b} = {a: b})", vec![eh(1, 16, "`b` is assigned to itself", self_assign::HINT)]),
        ("({1: b} = {1: b})", vec![eh(1, 14, "`b` is assigned to itself", self_assign::HINT)]),
        ("({1: b} = {'1': b})", vec![eh(1, 16, "`b` is assigned to itself", self_assign::HINT)]),
        ("({'1': b} = {1: b})", vec![eh(1, 16, "`b` is assigned to itself", self_assign::HINT)]),
        ("({['a']: b} = {a: b})", vec![eh(1, 18, "`b` is assigned to itself", self_assign::HINT)]),
        ("({'a': b} = {[`a`]: b})", vec![eh(1, 20, "`b` is assigned to itself", self_assign::HINT)]),
        ("({1: b} = {[1]: b})", vec![eh(1, 16, "`b` is assigned to itself", self_assign::HINT)]),
        ("({a, b} = {a, b})", vec![eh(1, 11, "`a` is assigned to itself", self_assign::HINT), eh(1, 14, "`b` is assigned to itself", self_assign::HINT)]),
        ("({a, b} = {b, a})", vec![eh(1, 11, "`b` is assigned to itself", self_assign::HINT), eh(1, 14, "`a` is assigned to itself", self_assign::HINT)]),
        ("({a, b} = {c, a})", vec![eh(1, 14, "`a` is assigned to itself", self_assign::HINT)]),
        ("({a: {b}, c: [d]} = {a: {b}, c: [d]})", vec![eh(1, 25, "`b` is assigned to itself", self_assign::HINT), eh(1, 33, "`d` is assigned to itself", self_assign::HINT)]),
        ("({a, b} = {a, ...x, b})", vec![eh(1, 20, "`b` is assigned to itself", self_assign::HINT)]),
        ("a.b = a.b", vec![eh(1, 6, "`b` is assigned to itself", self_assign::HINT)]),
        ("a.b.c = a.b.c", vec![eh(1, 8, "`c` is assigned to itself", self_assign::HINT)]),
        ("a[b] = a[b]", vec![eh(1, 7, "`b` is assigned to itself", self_assign::HINT)]),
        ("a['b'] = a['b']", vec![eh(1, 9, "`b` is assigned to itself", self_assign::HINT)]),
        ("a[\n    'b'] = a[\n    'b']", vec![eh(2, 11, "`b` is assigned to itself", self_assign::HINT)]),
        ("this.x = this.x", vec![eh(1, 9, "`x` is assigned to itself", self_assign::HINT)]),
        ("a['/(?<zero>0)/'] = a[/(?<zero>0)/]", vec![eh(1, 20, "`/(?<zero>0)/` is assigned to itself", self_assign::HINT)]),
        ("foo = () => { a = a; };", vec![eh(1, 18, "`a` is assigned to itself", self_assign::HINT)]),
        (r#"
        class Foo {
          constructor() {
            this.#bar = this.#bar
          }
        }
      "#, vec![eh(4, 24, "`bar` is assigned to itself", self_assign::HINT)]),
    ]);
}



use deno_lint::rules::no_shadow_restricted_names::{self as shadow_restricted, NoShadowRestrictedNames};

#[test]
fn no_shadow_restricted_names_valid() {
    assert_ok(|p| NoShadowRestrictedNames.lint(p), ts, &[
        "function foo(bar){ var baz; }",
        "!function foo(bar){ var baz; }",
        "!function(bar){ var baz; }",
        "try {} catch(e) {}",
        "export default function() {}",
        "try {} catch {}",
        "var undefined;",
        "var undefined; doSomething(undefined);",
        "var undefined; var undefined;",
        "let undefined",
        "let [...foo] = []",
        "function bar (...rest) {}",
    ]);
}


#[test]
fn no_shadow_restricted_names_invalid() {
    assert_err(|p| NoShadowRestrictedNames.lint(p), ts, shadow_restricted::CODE, vec![
        ("function NaN(NaN) { var NaN; !function NaN(NaN) { try {} catch(NaN) {} }; }", vec![e(1, 9, "Shadowing of global property NaN"), e(1, 13, "Shadowing of global property NaN"), e(1, 24, "Shadowing of global property NaN"), e(1, 39, "Shadowing of global property NaN"), e(1, 43, "Shadowing of global property NaN"), e(1, 63, "Shadowing of global property NaN")]),
        ("function undefined(undefined) { !function undefined(undefined) { try {} catch(undefined) {} }; }", vec![e(1, 9, "Shadowing of global property undefined"), e(1, 19, "Shadowing of global property undefined"), e(1, 42, "Shadowing of global property undefined"), e(1, 52, "Shadowing of global property undefined"), e(1, 78, "Shadowing of global property undefined")]),
        ("function Infinity(Infinity) { var Infinity; !function Infinity(Infinity) { try {} catch(Infinity) {} }; }", vec![e(1, 9, "Shadowing of global property Infinity"), e(1, 18, "Shadowing of global property Infinity"), e(1, 34, "Shadowing of global property Infinity"), e(1, 54, "Shadowing of global property Infinity"), e(1, 63, "Shadowing of global property Infinity"), e(1, 88, "Shadowing of global property Infinity")]),
        ("function arguments(arguments) { var arguments; !function arguments(arguments) { try {} catch(arguments) {} }; }", vec![e(1, 9, "Shadowing of global property arguments"), e(1, 19, "Shadowing of global property arguments"), e(1, 36, "Shadowing of global property arguments"), e(1, 57, "Shadowing of global property arguments"), e(1, 67, "Shadowing of global property arguments"), e(1, 93, "Shadowing of global property arguments")]),
        ("function eval(eval) { var eval; !function eval(eval) { try {} catch(eval) {} }; }", vec![e(1, 9, "Shadowing of global property eval"), e(1, 14, "Shadowing of global property eval"), e(1, 26, "Shadowing of global property eval"), e(1, 42, "Shadowing of global property eval"), e(1, 47, "Shadowing of global property eval"), e(1, 68, "Shadowing of global property eval")]),
        ("var eval = (eval) => { var eval; !function eval(eval) { try {} catch(eval) {} }; }", vec![e(1, 4, "Shadowing of global property eval"), e(1, 12, "Shadowing of global property eval"), e(1, 27, "Shadowing of global property eval"), e(1, 43, "Shadowing of global property eval"), e(1, 48, "Shadowing of global property eval"), e(1, 69, "Shadowing of global property eval")]),
        ("var {undefined} = obj; var {a: undefined} = obj; var {a: {b: {undefined}}} = obj; var {a, ...undefined} = obj;", vec![e(1, 5, "Shadowing of global property undefined"), e(1, 31, "Shadowing of global property undefined"), e(1, 62, "Shadowing of global property undefined"), e(1, 93, "Shadowing of global property undefined")]),
        ("var [undefined] = [1]", vec![e(1, 5, "Shadowing of global property undefined")]),
        ("var undefined; undefined = 5;", vec![e(1, 15, "Shadowing of global property undefined")]),
        ("var [...undefined] = []", vec![e(1, 8, "Shadowing of global property undefined")]),
        ("try {} catch { try{} catch(NaN) {} }", vec![e(1, 27, "Shadowing of global property NaN")]),
        ("f = () => { NaN = 42; };", vec![e(1, 12, "Shadowing of global property NaN")]),
    ]);
}



use deno_lint::rules::no_useless_length_check::{self as length_check, NoUselessLengthCheck};

#[test]
fn no_useless_length_check_valid() {
    assert_ok(|p| NoUselessLengthCheck.lint(p), ts, &[
        "array.length === 0 ?? array.every(Boolean)",
        "array.length === 0 && array.every(Boolean)",
        "(array.length === 0) + (array.every(Boolean))",
        "array.length === 1 || array.every(Boolean)",
        r#"array.length === "0" || array.every(Boolean)"#,
        "array.length === 0. || array.every(Boolean)",
        "array.length === 0x0 || array.every(Boolean)",
        "array.length !== 0 || array.every(Boolean)",
        "array.length == 0 || array.every(Boolean)",
        "0 === array.length || array.every(Boolean)",
        "array?.length === 0 || array.every(Boolean)",
        "array.notLength === 0 || array.every(Boolean)",
        "array[length] === 0 || array.every(Boolean)",
        "array.length === 0 || array.every?.(Boolean)",
        "array.length === 0 || array?.every(Boolean)",
        "array.length === 0 || array.every",
        "array.length === 0 || array[every](Boolean)",
        "array1.length === 0 || array2.every(Boolean)",
        "array.length !== 0 ?? array.some(Boolean)",
        "array.length !== 0 || array.some(Boolean)",
        "(array.length !== 0) - (array.some(Boolean))",
        "array.length !== 1 && array.some(Boolean)",
        r#"array.length !== "0" && array.some(Boolean)"#,
        "array.length !== 0. && array.some(Boolean)",
        "array.length !== 0x0 && array.some(Boolean)",
        "array.length === 0 && array.some(Boolean)",
        "array.length <= 0 && array.some(Boolean)",
        "array.length != 0 && array.some(Boolean)",
        "0 !== array.length && array.some(Boolean)",
        "array?.length !== 0 && array.some(Boolean)",
        "array.notLength !== 0 && array.some(Boolean)",
        "array[length] !== 0 && array.some(Boolean)",
        "array.length !== 0 && array.some?.(Boolean)",
        "array.length !== 0 && array?.some(Boolean)",
        "array.length !== 0 && array.some",
        "array.length !== 0 && array.notSome(Boolean)",
        "array.length !== 0 && array[some](Boolean)",
        "array1.length !== 0 && array2.some(Boolean)",
        "array.length > 0 ?? array.some(Boolean)",
        "array.length > 0 || array.some(Boolean)",
        "(array.length > 0) - (array.some(Boolean))",
        "array.length > 1 && array.some(Boolean)",
        r#"array.length > "0" && array.some(Boolean)"#,
        "array.length > 0. && array.some(Boolean)",
        "array.length > 0x0 && array.some(Boolean)",
        "array.length >= 0 && array.some(Boolean)",
        "0 > array.length && array.some(Boolean)",
        "0 < array.length && array.some(Boolean)",
        "array?.length > 0 && array.some(Boolean)",
        "array.notLength > 0 && array.some(Boolean)",
        "array.length > 0 && array.some?.(Boolean)",
        "array.length > 0 && array?.some(Boolean)",
        "array.length > 0 && array.some",
        "array.length > 0 && array.notSome(Boolean)",
        "array.length > 0 && array[some](Boolean)",
        "array1.length > 0 && array2.some(Boolean)",
        "if (
                foo &&
                array.length !== 0 &&
                bar &&
                array.some(Boolean)
            ) {
                // ...
            }",
        "(foo && array.length === 0) || array.every(Boolean) && foo",
        "array.length === 0 || (array.every(Boolean) && foo)",
        "(foo || array.length > 0) && array.some(Boolean)",
        "array.length > 0 && (array.some(Boolean) || foo)",
    ]);
}


#[test]
fn no_useless_length_check_invalid() {
    assert_err(|p| NoUselessLengthCheck.lint(p), ts, length_check::CODE, vec![
        ("array.length === 0 || array.every(Boolean)", vec![eh(1, 0, length_check::MESSAGE, length_check::HINT_EVERY)]),
        ("array.length > 0 && array.some(Boolean)", vec![eh(1, 0, length_check::MESSAGE, length_check::HINT_SOME)]),
        ("array.length !== 0 && array.some(Boolean)", vec![eh(1, 0, length_check::MESSAGE, length_check::HINT_SOME)]),
        ("if ((( array.length > 0 )) && array.some(Boolean));", vec![eh(1, 7, length_check::MESSAGE, length_check::HINT_SOME)]),
        ("if (
                array.length !== 0 &&
                array.some(Boolean) &&
                foo
            ) {
                // ...
            }", vec![eh(2, 16, length_check::MESSAGE, length_check::HINT_SOME)]),
        ("(array.length === 0 || array.every(Boolean)) || foo", vec![eh(1, 1, length_check::MESSAGE, length_check::HINT_EVERY)]),
        ("foo || (array.length === 0 || array.every(Boolean))", vec![eh(1, 8, length_check::MESSAGE, length_check::HINT_EVERY)]),
        ("(array.length > 0 && array.some(Boolean)) && foo", vec![eh(1, 1, length_check::MESSAGE, length_check::HINT_SOME)]),
        ("foo && (array.length > 0 && array.some(Boolean))", vec![eh(1, 8, length_check::MESSAGE, length_check::HINT_SOME)]),
        ("array.every(Boolean) || array.length === 0", vec![eh(1, 24, length_check::MESSAGE, length_check::HINT_EVERY)]),
        ("array.some(Boolean) && array.length !== 0", vec![eh(1, 23, length_check::MESSAGE, length_check::HINT_SOME)]),
        ("array.some(Boolean) && array.length > 0", vec![eh(1, 23, length_check::MESSAGE, length_check::HINT_SOME)]),
        ("foo && array.length > 0 && array.some(Boolean)", vec![eh(1, 7, length_check::MESSAGE, length_check::HINT_SOME)]),
        ("foo || array.length === 0 || array.every(Boolean)", vec![eh(1, 7, length_check::MESSAGE, length_check::HINT_EVERY)]),
        ("(foo || array.length === 0) || array.every(Boolean)", vec![eh(1, 8, length_check::MESSAGE, length_check::HINT_EVERY)]),
        ("array.length === 0 || (array.every(Boolean) || foo)", vec![eh(1, 0, length_check::MESSAGE, length_check::HINT_EVERY)]),
        ("(foo && array.length > 0) && array.some(Boolean)", vec![eh(1, 8, length_check::MESSAGE, length_check::HINT_SOME)]),
        ("array.length > 0 && (array.some(Boolean) && foo)", vec![eh(1, 0, length_check::MESSAGE, length_check::HINT_SOME)]),
        ("array.every(Boolean) || array.length === 0 || array.every(Boolean)", vec![eh(1, 24, length_check::MESSAGE, length_check::HINT_EVERY), eh(1, 24, length_check::MESSAGE, length_check::HINT_EVERY)]),
        ("array.length === 0 || array.every(Boolean) || array.length === 0", vec![eh(1, 0, length_check::MESSAGE, length_check::HINT_EVERY), eh(1, 46, length_check::MESSAGE, length_check::HINT_EVERY)]),
        ("array1.every(Boolean)
            || (( array1.length === 0 || array2.length === 0 )) // Both useless
            || array2.every(Boolean)", vec![eh(2, 18, length_check::MESSAGE, length_check::HINT_EVERY), eh(2, 41, length_check::MESSAGE, length_check::HINT_EVERY)]),
        ("function isUselessLengthCheckNode({node, operator, siblings}) {
                return (
                    (
                        operator === '||' &&
                        zeroLengthChecks.has(node) &&
                        siblings.length > 0 &&
                        siblings.some(condition =>
                            arrayEveryCalls.has(condition) &&
                            isSameReference(node.left.object, condition.callee.object)
                        )
                    ) ||
                    (
                        operator === '&&' &&
                        nonZeroLengthChecks.has(node) &&
                        siblings.length > 0 &&
                        siblings.some(condition =>
                            arraySomeCalls.has(condition) &&
                            isSameReference(node.left.object, condition.callee.object)
                        )
                    )
                );
            }", vec![eh(6, 24, length_check::MESSAGE, length_check::HINT_SOME), eh(15, 24, length_check::MESSAGE, length_check::HINT_SOME)]),
    ]);
}



use deno_lint::rules::prefer_as_const::{self as as_const, PreferAsConst};

#[test]
fn prefer_as_const_valid() {
    assert_ok(|p| PreferAsConst.lint(p), ts, &[
        "let foo = 'baz' as const;",
        "let foo = 1 as const;",
        "let foo = { bar: 'baz' as const };",
        "let foo = { bar: 1 as const };",
        "let foo = { bar: 'baz' };",
        "let foo = { bar: 2 };",
        "let foo = <bar>'bar';",
        "let foo = <string>'bar';",
        "let foo = 'bar' as string;",
        "let foo = `bar` as `bar`;",
        "let foo = `bar` as `foo`;",
        "let foo = `bar` as 'bar';",
        "let foo: string = 'bar';",
        "let foo: number = 1;",
        "let foo: 'bar' = baz;",
        "let foo = 'bar';",
        "class foo { bar: 'baz' = 'baz'; }",
        "class foo { bar = 'baz'; }",
        "let foo: 'bar';",
        "let foo = { bar };",
        "let foo: 'baz' = 'baz' as const;",
    ]);
}


#[test]
fn prefer_as_const_invalid() {
    assert_err(|p| PreferAsConst.lint(p), ts, as_const::CODE, vec![
        ("let foo = { bar: 'baz' as 'baz' };", vec![eh(1, 26, as_const::MESSAGE, as_const::HINT)]),
        ("let foo = { bar: 1 as 1 };", vec![eh(1, 22, as_const::MESSAGE, as_const::HINT)]),
        ("let [x]: 'bar' = 'bar';", vec![eh(1, 9, as_const::MESSAGE, as_const::HINT)]),
        ("let {x}: 'bar' = 'bar';", vec![eh(1, 9, as_const::MESSAGE, as_const::HINT)]),
        ("let foo: 'bar' = 'bar';", vec![eh(1, 9, as_const::MESSAGE, as_const::HINT)]),
        ("let foo: 2 = 2;", vec![eh(1, 9, as_const::MESSAGE, as_const::HINT)]),
        ("let foo: 'bar' = 'bar' as 'bar';", vec![eh(1, 26, as_const::MESSAGE, as_const::HINT)]),
        ("let foo = <'bar'>'bar';", vec![eh(1, 11, as_const::MESSAGE, as_const::HINT)]),
        ("let foo = <4>4;", vec![eh(1, 11, as_const::MESSAGE, as_const::HINT)]),
        ("let foo = 'bar' as 'bar';", vec![eh(1, 19, as_const::MESSAGE, as_const::HINT)]),
        ("let foo = 5 as 5;", vec![eh(1, 15, as_const::MESSAGE, as_const::HINT)]),
        ("let foo: 1.23456 = 1.23456;", vec![eh(1, 9, as_const::MESSAGE, as_const::HINT)]),
        ("let foo: 2 = 2, bar: 3 = 3;", vec![eh(1, 9, as_const::MESSAGE, as_const::HINT), eh(1, 21, as_const::MESSAGE, as_const::HINT)]),
        ("let foo = () => { let x: 'x' = 'x'; };", vec![eh(1, 25, as_const::MESSAGE, as_const::HINT)]),
    ]);
}


#[test]
fn quotes_in_literal_types() {
    assert_err(|p| Quotes.lint(p), ts, quotes_rule::CODE, vec![
        ("let a: 'x' = \"x\";", vec![eh(1, 7, quotes_rule::MESSAGE, quotes_rule::HINT)]),
    ]);
}


use deno_lint::rules::require_await::{self as require_await, RequireAwait};

#[test]
fn require_await_valid() {
    assert_ok(|p| RequireAwait.lint(p), ts, &[
        "async function foo() { await doSomething() }",
        "(async function() { await doSomething() })",
        "async () => { await doSomething() }",
        "async () => await doSomething()",
        "({ async foo() { await doSomething() } })",
        "class A { async foo() { await doSomething() } }",
        "(class { async foo() { await doSomething() } })",
        "async function foo() { await (async () => { await doSomething() }) }",
        "async function foo() { const bar = <number>await doSomething() }",
        "async function foo() {}",
        "async () => {}",
        "function foo() { doSomething() }",
        "async function foo() { for await (x of xs); }",
        "async function foo() { await using foo = doSomething(); }",
        "await foo()",
        r#"
for await (let num of asyncIterable) {
    console.log(num);
}
      "#,
        "async function* run() { yield * anotherAsyncGenerator() }",
        r#"
async function* run() {
  await new Promise(resolve => setTimeout(resolve, 100));
  yield 'Hello';
  console.log('World');
}
      "#,
        "async function* run() { }",
        "const foo = async function *(){}",
        r#"const foo = async function *(){ console.log("bar") }"#,
        r#"async function* run() { console.log("bar") }"#,
    ]);
}


#[test]
fn require_await_invalid() {
    assert_err(|p| RequireAwait.lint(p), ts, require_await::CODE, vec![
        ("async function foo() { doSomething() }", vec![eh(1, 0, "Async function 'foo' has no 'await' expression or 'await using' declaration.", require_await::HINT)]),
        ("(async function() { doSomething() })", vec![eh(1, 1, require_await::ANONYMOUS_FUNCTION, require_await::HINT)]),
        ("async () => { doSomething() }", vec![eh(1, 0, require_await::ARROW_FUNCTION, require_await::HINT)]),
        ("async () => doSomething()", vec![eh(1, 0, require_await::ARROW_FUNCTION, require_await::HINT)]),
        ("({ async foo() { doSomething() } })", vec![eh(1, 12, "Async method 'foo' has no 'await' expression or 'await using' declaration.", require_await::HINT)]),
        ("class A { async foo() { doSomething() } }", vec![eh(1, 19, "Async method 'foo' has no 'await' expression or 'await using' declaration.", require_await::HINT)]),
        ("class A { private async foo() { doSomething() } }", vec![eh(1, 27, "Async method 'foo' has no 'await' expression or 'await using' declaration.", require_await::HINT)]),
        ("(class { async foo() { doSomething() } })", vec![eh(1, 18, "Async method 'foo' has no 'await' expression or 'await using' declaration.", require_await::HINT)]),
        ("(class { async ''() { doSomething() } })", vec![eh(1, 17, "Async method '' has no 'await' expression or 'await using' declaration.", require_await::HINT)]),
        ("async function foo() { async () => { await doSomething() } }", vec![eh(1, 0, "Async function 'foo' has no 'await' expression or 'await using' declaration.", require_await::HINT)]),
        ("async function foo() { await (async () => { doSomething() }) }", vec![eh(1, 30, require_await::ARROW_FUNCTION, require_await::HINT)]),
    ]);
}



use deno_lint::rules::no_window::{self as window_rule, NoWindow};

#[test]
fn no_window_no_window_valid() {
    assert_ok(|p| NoWindow.lint(p), ts, &[
        "fetch();",
        "self.fetch();",
        "globalThis.fetch();",
        "const window = 42; window.fetch();",
        r#"const window = 42; window["fetch"]();"#,
        r#"const window = 42; window[`fetch`]();"#,
        "const window = 42; window.alert();",
        r#"const window = 42; window["alert"]();"#,
        r#"const window = 42; window[`alert`]();"#,
        "const params: { window: number } = { window: 23 };",
        "x.window",
    ]);
}


#[test]
fn no_window_no_window_invalid() {
    let m = window_rule::MESSAGE;
    let h = window_rule::HINT;
    let d = window_rule::FIX_DESC;
    assert_err(|p| NoWindow.lint(p), ts, window_rule::CODE, vec![
        (r#"window.fetch()"#, vec![eh(1, 0, m, h).fix(d, "globalThis.fetch()")]),
        (r#"window["fetch"]()"#, vec![eh(1, 0, m, h).fix(d, r#"globalThis["fetch"]()"#)]),
        (r#"window[`fetch`]()"#, vec![eh(1, 0, m, h).fix(d, "globalThis[`fetch`]()")]),
        (
            r#"
function foo() {
  const window = 42;
  return window;
}
window;"#,
            vec![eh(6, 0, m, h).fix(d, "
function foo() {
  const window = 42;
  return window;
}
globalThis;")],
        ),
        (r#"window.console.log()"#, vec![eh(1, 0, m, h).fix(d, "globalThis.console.log()")]),
    ]);
}


use deno_lint::rules::no_window_global::{self as window_global, NoWindowGlobal};

#[test]
fn no_window_global_valid() {
    assert_ok(|p| NoWindowGlobal.lint(p), ts, &[
        "fetch();",
        "self.fetch();",
        "globalThis.fetch();",
        "const window = 42; window.fetch();",
        r#"const window = 42; window["fetch"]();"#,
        r#"const window = 42; window[`fetch`]();"#,
        "const window = 42; window.alert();",
        r#"const window = 42; window["alert"]();"#,
        r#"const window = 42; window[`alert`]();"#,
    ]);
}


#[test]
fn no_window_global_invalid() {
    assert_err(|p| NoWindowGlobal.lint(p), ts, window_global::CODE, vec![
        (r#"window.fetch()"#, vec![eh(1, 0, window_global::MESSAGE, window_global::HINT)]),
        (r#"window["fetch"]()"#, vec![eh(1, 0, window_global::MESSAGE, window_global::HINT)]),
        (r#"window[`fetch`]()"#, vec![eh(1, 0, window_global::MESSAGE, window_global::HINT)]),
        (r#"
function foo() {
  const window = 42;
  return window;
}
window;
      "#, vec![eh(6, 0, window_global::MESSAGE, window_global::HINT)]),
    ]);
}



use deno_lint::rules::no_window_prefix::{self as window_prefix, NoWindowPrefix};

#[test]
fn no_deprecated_deno_api_valid() {
    assert_ok(|p| NoWindowPrefix.lint(p), ts, &[
        "fetch();",
        "self.fetch();",
        "globalThis.fetch();",
        "Deno.metrics();",
        "self.Deno.metrics();",
        "globalThis.Deno.metrics();",
        "onload();",
        "self.onload();",
        "globalThis.onload();",
        "window.onload();",
        r#"window["onload"]();"#,
        r#"window[`onload`]();"#,
        "onunload();",
        "self.onunload();",
        "globalThis.onunload();",
        "window.onunload();",
        r#"window["onunload"]();"#,
        r#"window[`onunload`]();"#,
        "closed;",
        "self.closed;",
        "globalThis.closed;",
        "window.closed;",
        r#"window["closed"];"#,
        r#"window[`closed`];"#,
        "alert();",
        "self.alert();",
        "globalThis.alert();",
        "window.alert();",
        r#"window["alert"]();"#,
        r#"window[`alert`]();"#,
        "confirm();",
        "self.confirm();",
        "globalThis.confirm();",
        "window.confirm();",
        r#"window["confirm"]();"#,
        r#"window[`confirm`]();"#,
        "prompt();",
        "self.prompt();",
        "globalThis.prompt();",
        "window.prompt();",
        r#"window["prompt"]();"#,
        r#"window[`prompt`]();"#,
        "localStorage;",
        "self.localStorage;",
        "globalThis.localStorage;",
        "window.localStorage;",
        r#"window["localStorage"];"#,
        r#"window[`localStorage`];"#,
        "sessionStorage;",
        "self.sessionStorage;",
        "globalThis.sessionStorage;",
        "window.sessionStorage;",
        r#"window["sessionStorage"];"#,
        r#"window[`sessionStorage`];"#,
        "window;",
        "self.window;",
        "globalThis.window;",
        "window.window;",
        r#"window["window"];"#,
        r#"window[`window`];"#,
        "Navigator;",
        "self.Navigator;",
        "globalThis.Navigator;",
        "window.Navigator;",
        r#"window["Navigator"];"#,
        r#"window[`Navigator`];"#,
        "const window = 42; window.fetch();",
        r#"const window = 42; window["fetch"]();"#,
        r#"const window = 42; window[`fetch`]();"#,
        "const window = 42; window.alert();",
        r#"const window = 42; window["alert"]();"#,
        r#"const window = 42; window[`alert`]();"#,
        r#"const f = "fetch"; window[f]();"#,
        r#"const f = "fetch"; window[`${f}`]();"#,
        r#"foo.window.fetch();"#,
    ]);
}


#[test]
fn no_deprecated_deno_api_invalid() {
    assert_err(|p| NoWindowPrefix.lint(p), ts, window_prefix::CODE, vec![
        (r#"window.fetch()"#, vec![eh(1, 0, window_prefix::MESSAGE, window_prefix::HINT)]),
        (r#"window["fetch"]()"#, vec![eh(1, 0, window_prefix::MESSAGE, window_prefix::HINT)]),
        (r#"window[`fetch`]()"#, vec![eh(1, 0, window_prefix::MESSAGE, window_prefix::HINT)]),
        (r#"
function foo() {
  const window = 42;
  return window;
}
window.fetch();
      "#, vec![eh(6, 0, window_prefix::MESSAGE, window_prefix::HINT)]),
    ]);
}



use deno_lint::rules::react_rules_of_hooks::{self as hooks, ReactRulesOfHooks};

#[test]
fn rules_of_hooks_valid() {
    assert_ok(|p| ReactRulesOfHooks.lint(p), jsx, &[
        r#"function Foo() { useState(0) }"#,
        r#"function useFoo() { useState(0) }"#,
        r#"export default () => { useState(0) }"#,
        r#"export const Foo = () => { useState(0) }"#,
        r#"export function Foo() { useState(0) }"#,
        r#"const Foo = () => { useState(0) }"#,
        r#"const useFoo = () => { useState(0) }"#,
        r#"function foo() { return function Foo() { useState(0) }}"#,
        r#"function foo() { return () => { useState(0) }}"#,
        r#"function useFoo() { useState(0) }"#,
        r#"function useFoo() { const foo = useState(0); }"#,
        r#"function userHook() {}
function doAThing() {
  userHook()
}"#,
        r#"function Foo() {
  if (condition) {
    bar = 1;
  }
  const [foo, setFoo] = useState(false);
}"#,
        r#"function Foo() {
  if (condition) {
    bar.map(x => { return 2; })
  }
  const [foo, setFoo] = useState(false);
}"#,
        r#"function Foo() {
        useCustomHook(val ?? 0);
        useState(0);
      }"#,
    ]);
}


#[test]
fn rules_of_hooks_invalid() {
    assert_err(|p| ReactRulesOfHooks.lint(p), jsx, hooks::CODE, vec![
        (r#"function foo() { useState(0) }"#, vec![eh(1, 17, hooks::OUTSIDE_COMPONENT_MESSAGE, hooks::OUTSIDE_COMPONENT_HINT)]),
        (r#"const foo = () => { useState(0) }"#, vec![eh(1, 20, hooks::OUTSIDE_COMPONENT_MESSAGE, hooks::OUTSIDE_COMPONENT_HINT)]),
        (r#"export const foo = () => { useState(0) }"#, vec![eh(1, 27, hooks::OUTSIDE_COMPONENT_MESSAGE, hooks::OUTSIDE_COMPONENT_HINT)]),
        (r#"function Foo() { if (cond) { useState(0) } }"#, vec![eh(1, 29, hooks::CONDITIONALLY_MESSAGE, hooks::CONDITIONALLY_HINT)]),
        (r#"function Foo() { if (cond) { const [state, setState] = useState(0) } }"#, vec![eh(1, 55, hooks::CONDITIONALLY_MESSAGE, hooks::CONDITIONALLY_HINT)]),
        (r#"function Foo() { if (cond) { const { value, setValue } = useCustomHook() } }"#, vec![eh(1, 57, hooks::CONDITIONALLY_MESSAGE, hooks::CONDITIONALLY_HINT)]),
        (r#"function Foo() { for (let i = 0; i < 10; i++) { useState(0) } }"#, vec![eh(1, 48, hooks::LOOP_MESSAGE, hooks::LOOP_HINT)]),
        (r#"function Foo() { for (let i = 0; i < 10; i++) { const [state, setState] = useState(0) } }"#, vec![eh(1, 74, hooks::LOOP_MESSAGE, hooks::LOOP_HINT)]),
        (r#"function Foo() { for (let a in b) { useState(0) } }"#, vec![eh(1, 36, hooks::LOOP_MESSAGE, hooks::LOOP_HINT)]),
        (r#"function Foo() { for (let a of b) { useState(0) } }"#, vec![eh(1, 36, hooks::LOOP_MESSAGE, hooks::LOOP_HINT)]),
        (r#"function Foo() { while (cond) { useState(0) } }"#, vec![eh(1, 32, hooks::LOOP_MESSAGE, hooks::LOOP_HINT)]),
        (r#"function Foo() { if (cond) { return } useState(0) }"#, vec![eh(1, 38, hooks::CONDITIONALLY_MESSAGE, hooks::CONDITIONALLY_HINT)]),
        (r#"function Foo() { if (cond) { return } const [state, setState] = useState(0) }"#, vec![eh(1, 64, hooks::CONDITIONALLY_MESSAGE, hooks::CONDITIONALLY_HINT)]),
        (r#"function Foo() { try { useState(0) } catch {} }"#, vec![eh(1, 23, hooks::TRY_CATCH_MESSAGE, hooks::TRY_CATCH_HINT)]),
        (r#"function foo() { const foo = useState(0); }"#, vec![eh(1, 29, hooks::OUTSIDE_COMPONENT_MESSAGE, hooks::OUTSIDE_COMPONENT_HINT)]),
    ]);
}



use deno_lint::rules::prefer_object_shorthand::{self as shorthand, PreferObjectShorthand};

#[test]
fn prefer_object_shorthand_valid() {
    assert_ok(|p| PreferObjectShorthand.lint(p), ts, &[
        "({ foo });",
        "({ foo: bar });",
        "({ 'foo': foo });",
        "({ [foo]: foo });",
        "({ foo() {} });",
        "({ [foo]() {} });",
        "({ foo: function foo() {} });",
        "({ foo: () => {} });",
    ]);
}

#[test]
fn prefer_object_shorthand_invalid() {
    let (pm, ph, pd) = (shorthand::PROPERTY_MESSAGE, shorthand::PROPERTY_HINT, shorthand::PROPERTY_FIX_DESC);
    let (mm, mh, md) = (shorthand::METHOD_MESSAGE, shorthand::METHOD_HINT, shorthand::METHOD_FIX_DESC);
    assert_err(|p| PreferObjectShorthand.lint(p), ts, shorthand::CODE, vec![
        ("({ foo: foo });", vec![eh(1, 3, pm, ph).fix(pd, "({ foo });")]),
        ("({ foo: function() {} });", vec![eh(1, 3, mm, mh).fix(md, "({ foo() {} });")]),
        ("({ foo: async function() {} });", vec![eh(1, 3, mm, mh).fix(md, "({ async foo() {} });")]),
        ("({ foo: async function*() {} });", vec![eh(1, 3, mm, mh).fix(md, "({ async *foo() {} });")]),
        ("({ foo: function*() {} });", vec![eh(1, 3, mm, mh).fix(md, "({ *foo() {} });")]),
        (r#"({ "foo": function() {} });"#, vec![eh(1, 3, mm, mh).fix(md, r#"({ "foo"() {} });"#)]),
        ("({ [foo]: function() {} });", vec![eh(1, 3, mm, mh).fix(md, "({ [foo]() {} });")]),
        (
            "({ foo: foo, bar: function() {} });",
            vec![
                eh(1, 3, pm, ph).fix(pd, "({ foo, bar: function() {} });"),
                eh(1, 13, mm, mh).fix(md, "({ foo: foo, bar() {} });"),
            ],
        ),
    ]);
}


use deno_lint::rules::require_jsdoc::{self as jsdoc, RequireJsdoc};

#[test]
fn require_jsdoc_valid() {
    assert_ok(|p| RequireJsdoc.lint(p), ts, &[
        r#"/** doc */ export function a() {}"#,
        r#"/** doc */ export default function() {}"#,
        r#"/** doc */ export class A {
        /** doc */
        constructor() { }
        /** doc */  
        b() {}
        #d() {}
      }"#,
        r#"/** doc */ export interface A {
        /** doc */
        b(): string;
      }"#,
        r#"/** doc */ export default class {
        /** doc */
        constructor() { }
        /** doc */  
        b() {}
        #d() {}
      }"#,
        r#"/** doc */ export default interface A {
        /** doc */
        b(): string;
      }"#,
        r#"/** doc */ export default function a() {}"#,
        r#"/** doc */ export default () => {}"#,
        r#"/** doc */ export default class A {
        /** doc */
        constructor() { }
        /** doc */  
        b() {}
        #d() {}
      }"#,
    ]);
}


#[test]
fn require_jsdoc_invalid() {
    assert_err(|p| RequireJsdoc.lint(p), ts, jsdoc::CODE, vec![
        (r#"export function test() {}"#, vec![e(1, 0, jsdoc::MESSAGE)]),
        (r#"export class A{ constructor(){} b(){}}"#, vec![e(1, 0, jsdoc::MESSAGE), e(1, 16, jsdoc::MESSAGE), e(1, 32, jsdoc::MESSAGE)]),
        (r#"export interface A{ bar(): string;}"#, vec![e(1, 0, jsdoc::MESSAGE), e(1, 20, jsdoc::MESSAGE)]),
        (r#"export default function() {}"#, vec![e(1, 0, jsdoc::MESSAGE)]),
        (r#"export default class{ constructor(){} b(){}}"#, vec![e(1, 0, jsdoc::MESSAGE), e(1, 22, jsdoc::MESSAGE), e(1, 38, jsdoc::MESSAGE)]),
        (r#"export default class A{ constructor(){} b(){}};"#, vec![e(1, 0, jsdoc::MESSAGE), e(1, 24, jsdoc::MESSAGE), e(1, 40, jsdoc::MESSAGE)]),
        (r#"export default interface A{ bar(): string;}"#, vec![e(1, 0, jsdoc::MESSAGE), e(1, 28, jsdoc::MESSAGE)]),
        (r#"export default () => {};"#, vec![e(1, 0, jsdoc::MESSAGE)]),
        (r#"export default function a(){};"#, vec![e(1, 0, jsdoc::MESSAGE)]),
    ]);
}



use deno_lint::rules::rust_style::{screaming_snake_cased, snake_cased, underscored, upper_camel_cased};

#[test]
fn test_is_underscored() {
    let tests = [
        ("foo_bar", true),
        ("fooBar", false),
        ("FooBar", false),
        ("foo_bar_baz", true),
        ("_foo_bar_baz", true),
        ("__foo_bar_baz__", true),
        ("__fooBar_baz__", true),
        ("__fooBarBaz__", false),
        ("Sha3_224", true),
        ("SHA3_224", false),
    ];
    for &(input, expected) in tests.iter() {
        assert_eq!(expected, underscored(input), "{}", input);
    }
}

#[test]
fn test_is_snake_cased() {
    let tests = [
        ("foo_bar", true),
        ("fooBar", false),
        ("FooBar", false),
        ("foo_bar_baz", true),
        ("_foo_bar_baz", true),
        ("__foo_bar_baz__", true),
        ("__fooBar_baz__", false),
        ("__fooBarBaz__", false),
        ("Sha3_224", false),
        ("SHA3_224", false),
    ];
    for &(input, expected) in tests.iter() {
        assert_eq!(expected, snake_cased(input), "{}", input);
    }
}

#[test]
fn test_is_screaming_snake_cased() {
    let tests = [
        ("foo_bar", false),
        ("fooBar", false),
        ("FooBar", false),
        ("foo_bar_baz", false),
        ("_foo_bar_baz", false),
        ("__foo_bar_baz__", false),
        ("__fooBar_baz__", false),
        ("__fooBarBaz__", false),
        ("Sha3_224", false),
        ("SHA3_224", true),
    ];
    for &(input, expected) in tests.iter() {
        assert_eq!(expected, screaming_snake_cased(input), "{}", input);
    }
}

#[test]
fn test_is_upper_camel_cased() {
    let tests = [
        ("foo_bar", false),
        ("fooBar", false),
        ("FooBar", true),
        ("foo_bar_baz", false),
        ("_foo_bar_baz", false),
        ("__foo_bar_baz__", false),
        ("__fooBar_baz__", false),
        ("__fooBarBaz__", false),
        ("Sha3_224", false),
        ("SHA3_224", true),
    ];
    for &(input, expected) in tests.iter() {
        assert_eq!(expected, upper_camel_cased(input), "{}", input);
    }
}

#[test]
fn underscored_edge_cases() {
    assert!(!underscored(""));
    assert!(!underscored("___"));
    assert!(!underscored("_a_"));
    assert!(underscored("a__b"));
}


use deno_lint::rules::prefer_set_size::{self as set_size, PreferSetSize};

#[test]
fn prefer_set_size_valid() {
    assert_ok(|p| PreferSetSize.lint(p), ts, &[
        "new Set(foo).size",
        "for (const foo of bar) console.log([...foo].length)",
        "[...new Set(array), foo].length",
        "[foo, ...new Set(array), ].length",
        "[...new Set(array)].notLength",
        "[...new Set(array)]?.length",
        "[...new Set(array)][length]",
        r#"[...new Set(array)]["length"]"#,
        "[...new NotSet(array)].length",
        "[...Set(array)].length",
        "const foo = new NotSet([]);[...foo].length;",
        "let foo = new Set([]);[...foo].length;",
        "const {foo} = new Set([]);[...foo].length;",
        "const [foo] = new Set([]);[...foo].length;",
        "[...foo].length",
        "var foo = new Set(); var foo = new Set(); [...foo].length",
        "[,].length",
        "Array.from(foo).length",
        "Array.from(new NotSet(array)).length",
        "Array.from(Set(array)).length",
        "Array.from(new Set(array)).notLength",
        "Array.from(new Set(array))?.length",
        "Array.from(new Set(array))[length]",
        r#"Array.from(new Set(array))["length"]"#,
        "Array.from(new Set(array), mapFn).length",
        "Array?.from(new Set(array)).length",
        "Array.from?.(new Set(array)).length",
        "const foo = new NotSet([]);Array.from(foo).length;",
        "let foo = new Set([]);Array.from(foo).length;",
        "const {foo} = new Set([]);Array.from(foo).length;",
        "const [foo] = new Set([]);Array.from(foo).length;",
        "var foo = new Set(); var foo = new Set(); Array.from(foo).length",
        "NotArray.from(new Set(array)).length",
    ]);
}


#[test]
fn prefer_set_size_invalid() {
    assert_err(|p| PreferSetSize.lint(p), ts, set_size::CODE, vec![
        ("[...new Set(array)].length", vec![eh(1, 0, set_size::MESSAGE, set_size::HINT)]),
        ("const foo = new Set([]);
            console.log([...foo].length);", vec![eh(2, 24, set_size::MESSAGE, set_size::HINT)]),
        ("function isUnique(array) {
                return[...new Set(array)].length === array.length
            }", vec![eh(2, 22, set_size::MESSAGE, set_size::HINT)]),
        ("[...new Set(array),].length", vec![eh(1, 0, set_size::MESSAGE, set_size::HINT)]),
        ("[...(( new Set(array) ))].length", vec![eh(1, 0, set_size::MESSAGE, set_size::HINT)]),
        ("(( [...new Set(array)] )).length", vec![eh(1, 0, set_size::MESSAGE, set_size::HINT)]),
        ("foo
            ;[...new Set(array)].length", vec![eh(2, 13, set_size::MESSAGE, set_size::HINT)]),
        ("[/* comment */...new Set(array)].length", vec![eh(1, 0, set_size::MESSAGE, set_size::HINT)]),
        ("[...new /* comment */ Set(array)].length", vec![eh(1, 0, set_size::MESSAGE, set_size::HINT)]),
        ("Array.from(new Set(array)).length", vec![eh(1, 0, set_size::MESSAGE, set_size::HINT)]),
        ("const foo = new Set([]);
            console.log(Array.from(foo).length);", vec![eh(2, 24, set_size::MESSAGE, set_size::HINT)]),
        ("Array.from((( new Set(array) ))).length", vec![eh(1, 0, set_size::MESSAGE, set_size::HINT)]),
        ("(( Array.from(new Set(array)) )).length", vec![eh(1, 0, set_size::MESSAGE, set_size::HINT)]),
        ("Array.from(/* comment */ new Set(array)).length", vec![eh(1, 0, set_size::MESSAGE, set_size::HINT)]),
        ("Array.from(new /* comment */ Set(array)).length", vec![eh(1, 0, set_size::MESSAGE, set_size::HINT)]),
        ("function isUnique(array) {
                return Array.from(new Set(array)).length === array.length
            }", vec![eh(2, 23, set_size::MESSAGE, set_size::HINT)]),
    ]);
}


use deno_lint::rules::prefer_const::{self, PreferConst};

#[test]
fn prefer_const_valid() {
    assert_ok(|p| PreferConst.lint(p), ts, &[
        r#"var x = 0;"#,
        r#"let x;"#,
        r#"let x = 0; x += 1;"#,
        r#"let x = 0; x -= 1;"#,
        r#"let x = 0; x++;"#,
        r#"let x = 0; ++x;"#,
        r#"let x = 0; x--;"#,
        r#"let x = 0; --x;"#,
        r#"let x; { x = 0; } foo(x);"#,
        r#"let x = 0; x = 1;"#,
        r#"const x = 0;"#,
        r#"for (let i = 0, end = 10; i < end; ++i) {}"#,
        r#"for (let i = 0, end = 10; i < end; i += 2) {}"#,
        r#"for (let i in [1,2,3]) { i = 0; }"#,
        r#"for (let x of [1,2,3]) { x = 0; }"#,
        r#"(function() { var x = 0; })();"#,
        r#"(function() { let x; })();"#,
        r#"(function() { let x; { x = 0; } foo(x); })();"#,
        r#"(function() { let x = 0; x = 1; })();"#,
        r#"(function() { const x = 0; })();"#,
        r#"(function() { for (let i = 0, end = 10; i < end; ++i) {} })();"#,
        r#"(function() { for (let i in [1,2,3]) { i = 0; } })();"#,
        r#"(function() { for (let x of [1,2,3]) { x = 0; } })();"#,
        r#"(function(x = 0) { })();"#,
        r#"let a; while (a = foo());"#,
        r#"let a; do {} while (a = foo());"#,
        r#"let a; for (; a = foo(); );"#,
        r#"let a; for (;; ++a);"#,
        r#"let a; for (const {b = ++a} in foo());"#,
        r#"let a; for (const {b = ++a} of foo());"#,
        r#"let a; for (const x of [1,2,3]) { if (a) {} a = foo(); }"#,
        r#"let a; for (const x of [1,2,3]) { a = a || foo(); bar(a); }"#,
        r#"let a; for (const x of [1,2,3]) { foo(++a); }"#,
        r#"let a; function foo() { if (a) {} a = bar(); }"#,
        r#"let a; function foo() { a = a || bar(); baz(a); }"#,
        r#"let a; function foo() { bar(++a); }"#,
        r#"
      let id;
      function foo() {
          if (typeof id !== 'undefined') {
              return;
          }
          id = setInterval(() => {}, 250);
      }
      foo();
      "#,
        r#"let a; function init() { a = foo(); }"#,
        r#"let a; if (true) a = 0; foo(a);"#,
        r#"
        (function (a) {
            let b;
            ({ a, b } = obj);
        })();
        "#,
        r#"
        (function (a) {
            let b;
            ([ a, b ] = obj);
        })();
        "#,
        r#"var a; { var b; ({ a, b } = obj); }"#,
        r#"let a; { let b; ({ a, b } = obj); }"#,
        r#"var a; { var b; ([ a, b ] = obj); }"#,
        r#"let a; { let b; ([ a, b ] = obj); }"#,
        r#"let x; { x = 0; foo(x); }"#,
        r#"(function() { let x; { x = 0; foo(x); } })();"#,
        r#"let x; for (const a of [1,2,3]) { x = foo(); bar(x); }"#,
        r#"(function() { let x; for (const a of [1,2,3]) { x = foo(); bar(x); } })();"#,
        r#"let x; for (x of array) { x; }"#,
        r#"let predicate; [typeNode.returnType, predicate] = foo();"#,
        r#"let predicate; [typeNode.returnType, ...predicate] = foo();"#,
        r#"let predicate; [typeNode.returnType,, predicate] = foo();"#,
        r#"let predicate; [typeNode.returnType=5, predicate] = foo();"#,
        r#"let predicate; [[typeNode.returnType=5], predicate] = foo();"#,
        r#"let predicate; [[typeNode.returnType, predicate]] = foo();"#,
        r#"let predicate; [typeNode.returnType, [predicate]] = foo();"#,
        r#"let predicate; [, [typeNode.returnType, predicate]] = foo();"#,
        r#"let predicate; [, {foo:typeNode.returnType, predicate}] = foo();"#,
        r#"let predicate; [, {foo:typeNode.returnType, ...predicate}] = foo();"#,
        r#"let a; const b = {}; ({ a, c: b.c } = func());"#,
        r#"const x = [1,2]; let y; [,y] = x; y = 0;"#,
        r#"const x = [1,2,3]; let y, z; [y,,z] = x; y = 0; z = 0;"#,
        r#"try { foo(); } catch (e) {}"#,
        r#"let a; try { foo(); a = 1; } catch (e) {}"#,
        r#"let a; try { foo(); } catch (e) { a = 1; }"#,
        r#"let a; const b = (a = foo === bar || baz === qux);"#,
        r#"let i = 0; b[i++] = 0;"#,
        r#"
      function foo() {
        a += 1;
      }
      let a = 1;
      foo();
      "#,
        r#"
      let a = 1;
      function foo() {
        function bar() {
          a++;
        }
        let a = 9999;
        bar();
        console.log(a); // 10000
      }
      foo();
      a *= 2;
      console.log(a); // 2
      "#,
        r#"let a = 0; for (a in [1, 2, 3]) foo(a);"#,
        r#"let a = 0; for (a of [1, 2, 3]) foo(a);"#,
        r#"let a = 0; for (a = 0; a < 10; a++) foo(a);"#,
        r#"let {a, b} = obj; b = 0;"#,
        r#"let a, b; ({a, b} = obj); b++;"#,
        r#"let a, b, c; ({a, b} = obj1); ({b, c} = obj2); b++;"#,
        r#"let {a = 0, b} = obj; b = 0; foo(a, b);"#,
        r#"let {a: {b, c}} = {a: {b: 1, c: 2}}; b = 3;"#,
        r#"let a, b; ({a = 0, b} = obj); b = 0; foo(a, b);"#,
        r#"let { name, ...otherStuff } = obj; otherStuff = {};"#,
        r#"(function() { let {a: x = -1, b: y} = {a:1,b:2}; y = 0; })();"#,
        r#"(function() { let [x = -1, y] = [1,2]; y = 0; })();"#,
        r#"let {a: x = -1, b: y} = {a:1,b:2}; y = 0;"#,
        r#"let [x = -1, y] = [1,2]; y = 0;"#,
        r#"let a; switch (foo) { case 0: a = 0; break; }"#,
        r#"let a; switch (foo) { case 0: bar(); break; default: a = "default"; break; }"#,
        r#"let a; switch (foo) { case 0: { a = 0; break; } }"#,
        r#"let x = 0; const funcA = (someNumber: number = x++) => { return someNumber; };"#,
        r#"let x = 0; const funcA = (someNumber: number = x = x + 1) => { return someNumber; };"#,
        r#"let x = 0; const funcA = (someNumber: number = x += 1) => { return someNumber; };"#,
        r#"let x = 0; function foo(someNumber: number = x++) { return someNumber; };"#,
        r#"let x = 0; function foo(someNumber: number = x = x + 1) { return someNumber; };"#,
        r#"let x = 0; function foo(someNumber: number = x += 1) { return someNumber; };"#,
    ]);
}

#[test]
fn prefer_const_invalid() {
    assert_err(|p| PreferConst.lint(p), ts, prefer_const::CODE, vec![
        (r#"let x = 1;"#, vec![eh(1, 4, "`x` is never reassigned", prefer_const::HINT)]),
        (r#"let x = 1; foo(x);"#, vec![eh(1, 4, "`x` is never reassigned", prefer_const::HINT)]),
        (r#"for (let i in [1,2,3]) { foo(i); }"#, vec![eh(1, 9, "`i` is never reassigned", prefer_const::HINT)]),
        (r#"for (let x of [1,2,3]) { foo(x); }"#, vec![eh(1, 9, "`x` is never reassigned", prefer_const::HINT)]),
        (r#"(function() { let x = 1; foo(x); })();"#, vec![eh(1, 18, "`x` is never reassigned", prefer_const::HINT)]),
        (r#"(function() { for (let i in [1,2,3]) { foo(i); } })();"#, vec![eh(1, 23, "`i` is never reassigned", prefer_const::HINT)]),
        (r#"(function() { for (let x of [1,2,3]) { foo(x); } })();"#, vec![eh(1, 23, "`x` is never reassigned", prefer_const::HINT)]),
        (r#"let f = (function() { let g = x; })(); f = 1;"#, vec![eh(1, 26, "`g` is never reassigned", prefer_const::HINT)]),
        (r#"let x = 0; { let x = 1; foo(x); } x = 0;"#, vec![eh(1, 17, "`x` is never reassigned", prefer_const::HINT)]),
        (r#"for (let i = 0; i < 10; ++i) { let x = 1; foo(x); }"#, vec![eh(1, 35, "`x` is never reassigned", prefer_const::HINT)]),
        (r#"for (let i in [1,2,3]) { let x = 1; foo(x); }"#, vec![eh(1, 9, "`i` is never reassigned", prefer_const::HINT), eh(1, 29, "`x` is never reassigned", prefer_const::HINT)]),
        (r#"
var foo = function() {
    for (const b of c) {
       let a;
       a = 1;
   }
};
    "#, vec![eh(4, 11, "`a` is never reassigned", prefer_const::HINT)]),
        (r#"
var foo = function() {
    for (const b of c) {
       let a;
       ({a} = 1);
   }
};
    "#, vec![eh(4, 11, "`a` is never reassigned", prefer_const::HINT)]),
        (r#"let x; x = 0;"#, vec![eh(1, 4, "`x` is never reassigned", prefer_const::HINT)]),
        (r#"switch (a) { case 0: let x; x = 0; }"#, vec![eh(1, 25, "`x` is never reassigned", prefer_const::HINT)]),
        (r#"(function() { let x; x = 1; })();"#, vec![eh(1, 18, "`x` is never reassigned", prefer_const::HINT)]),
        (r#"let [a] = [1]"#, vec![eh(1, 5, "`a` is never reassigned", prefer_const::HINT)]),
        (r#"let {a} = obj"#, vec![eh(1, 5, "`a` is never reassigned", prefer_const::HINT)]),
        (r#"let {a = 0, b} = obj, c = a; b = a;"#, vec![eh(1, 22, "`c` is never reassigned", prefer_const::HINT)]),
        (r#"let x; function foo() { bar(x); } x = 0;"#, vec![eh(1, 4, "`x` is never reassigned", prefer_const::HINT)]),
        (r#"/*eslint use-x:error*/ let x = 1"#, vec![eh(1, 27, "`x` is never reassigned", prefer_const::HINT)]),
        (r#"/*eslint use-x:error*/ { let x = 1 }"#, vec![eh(1, 29, "`x` is never reassigned", prefer_const::HINT)]),
        (r#"let { foo, bar } = baz;"#, vec![eh(1, 6, "`foo` is never reassigned", prefer_const::HINT), eh(1, 11, "`bar` is never reassigned", prefer_const::HINT)]),
        (r#"const x = [1,2]; let [,y] = x;"#, vec![eh(1, 23, "`y` is never reassigned", prefer_const::HINT)]),
        (r#"const x = [1,2,3]; let [y,,z] = x;"#, vec![eh(1, 24, "`y` is never reassigned", prefer_const::HINT), eh(1, 27, "`z` is never reassigned", prefer_const::HINT)]),
        (r#"let predicate; [, {foo:returnType, predicate}] = foo();"#, vec![eh(1, 4, "`predicate` is never reassigned", prefer_const::HINT)]),
        (r#"let predicate; [, {foo:returnType, predicate}, ...bar ] = foo();"#, vec![eh(1, 4, "`predicate` is never reassigned", prefer_const::HINT)]),
        (r#"let predicate; [, {foo:returnType, ...predicate} ] = foo();"#, vec![eh(1, 4, "`predicate` is never reassigned", prefer_const::HINT)]),
        (r#"let x = 'x', y = 'y';"#, vec![eh(1, 4, "`x` is never reassigned", prefer_const::HINT), eh(1, 13, "`y` is never reassigned", prefer_const::HINT)]),
        (r#"let x = 'x', y = 'y'; x = 1"#, vec![eh(1, 13, "`y` is never reassigned", prefer_const::HINT)]),
        (r#"let x = 1, y = 'y'; let z = 1;"#, vec![eh(1, 4, "`x` is never reassigned", prefer_const::HINT), eh(1, 11, "`y` is never reassigned", prefer_const::HINT), eh(1, 24, "`z` is never reassigned", prefer_const::HINT)]),
        (r#"let { a, b, c } = obj; let { x, y, z } = anotherObj; x = 2;"#, vec![eh(1, 6, "`a` is never reassigned", prefer_const::HINT), eh(1, 9, "`b` is never reassigned", prefer_const::HINT), eh(1, 12, "`c` is never reassigned", prefer_const::HINT)]),
        (r#"let x = 'x', y = 'y'; function someFunc() { let a = 1, b = 2; foo(a, b) }"#, vec![eh(1, 4, "`x` is never reassigned", prefer_const::HINT), eh(1, 13, "`y` is never reassigned", prefer_const::HINT), eh(1, 48, "`a` is never reassigned", prefer_const::HINT), eh(1, 55, "`b` is never reassigned", prefer_const::HINT)]),
        (r#"let someFunc = () => { let a = 1, b = 2; foo(a, b) }"#, vec![eh(1, 4, "`someFunc` is never reassigned", prefer_const::HINT), eh(1, 27, "`a` is never reassigned", prefer_const::HINT), eh(1, 34, "`b` is never reassigned", prefer_const::HINT)]),
        (r#"let {a, b} = c, d;"#, vec![eh(1, 5, "`a` is never reassigned", prefer_const::HINT), eh(1, 8, "`b` is never reassigned", prefer_const::HINT)]),
        (r#"let {a, b, c} = {}, e, f;"#, vec![eh(1, 5, "`a` is never reassigned", prefer_const::HINT), eh(1, 8, "`b` is never reassigned", prefer_const::HINT), eh(1, 11, "`c` is never reassigned", prefer_const::HINT)]),
        (r#"
function a() {
  let foo = 0,
  bar = 1;
  foo = 1;
}
function b() {
  let foo = 0,
  bar = 2;
  foo = 2;
}
    "#, vec![eh(4, 2, "`bar` is never reassigned", prefer_const::HINT), eh(9, 2, "`bar` is never reassigned", prefer_const::HINT)]),
        (r#"
let foo = function(a, b) {
  let c, d, e;
  ({ x: a, y: c } = bar());
  function inner() {
    d = 'd';
  }
  e = 'e';
};
if (true) foo = 'foo';
    "#, vec![eh(3, 12, "`e` is never reassigned", prefer_const::HINT)]),
        (r#"
let e;
try {
  foo();
} catch (e) {
  e = 1;
  e++;
}
e = 2;
    "#, vec![eh(2, 4, "`e` is never reassigned", prefer_const::HINT)]),
    ]);
}

#[test]
fn issue1145_panic_while_scope_analysis() {
    let src = r#"
for await (let [[...x] = function() { initCount += 1; }()] of [[values]]) {
  assert(Array.isArray(x));
  assert.sameValue(x[0], 2);
}
      "#;
    let _ = PreferConst.lint(&ts(src));
}

#[test]
fn prefer_const_groups_and_order() {
    // A destructuring declares one group: one reassigned name keeps the
    // other from being reported.
    assert_ok(|p| PreferConst.lint(p), ts, &["let [a, b] = [1, 2]; a = 3;"]);
    // Separate declarators are separate groups, reported in source order.
    assert_err(|p| PreferConst.lint(p), ts, prefer_const::CODE, vec![
        ("let b = 1, a = 2; foo(a, b);", vec![
            eh(1, 4, "`b` is never reassigned", prefer_const::HINT),
            eh(1, 11, "`a` is never reassigned", prefer_const::HINT),
        ]),
        // Assigned once from the scope that declares it, after a bare `let`.
        ("let x; x = 0;", vec![eh(1, 4, "`x` is never reassigned", prefer_const::HINT)]),
    ]);
    // Assigned from an inner function: that counts as a reassignment.
    assert_ok(|p| PreferConst.lint(p), ts, &["let x; function f() { x = 0; }"]);
}

use deno_lint::rules::rust_style::{self as rust_style_rule, IdentToCheck, RustStyle, to_camelcase, to_rust_style};

#[test]
fn rust_style_valid() {
    assert_ok(|p| RustStyle.lint(p), ts, &[
        r#"first_name = "Ichigo""#,
        r#"FIRST_NAME = "Ichigo""#,
        r#"__my_private_variable = "Hoshimiya""#,
        r#"my_private_variable_ = "Hoshimiya""#,
        r#"do_something()"#,
        r#"new do_something"#,
        r#"new DoSomething"#,
        r#"new do_something()"#,
        r#"new DoSomething()"#,
        r#"foo.do_something()"#,
        r#"var foo = bar.baz_boom;"#,
        r#"var foo = bar.baz_boom.something;"#,
        r#"foo.boom_pow.qux = bar.baz_boom.something;"#,
        r#"if (bar.baz_boom) {}"#,
        r#"var obj = { key: foo.bar_baz };"#,
        r#"var arr = [foo.bar_baz];"#,
        r#"[foo.bar_baz]"#,
        r#"var arr = [foo.bar_baz.qux];"#,
        r#"[foo.bar_baz.nesting]"#,
        r#"if (foo.bar_baz === boom.bam_pow) { [foo.baz_boom] }"#,
        r#"var o = {key: 1}"#,
        r#"var o = {_leading: 1}"#,
        r#"var o = {trailing_: 1}"#,
        r#"const { ['foo']: _foo } = obj;"#,
        r#"const { [_foo_]: foo } = obj;"#,
        r#"var { category_id: category } = query;"#,
        r#"var { _leading } = query;"#,
        r#"var { trailing_ } = query;"#,
        r#"var { or_middle } = query;"#,
        r#"var { category_id = 1 } = query;"#,
        r#"var { category_id: { property_test } } = query;"#,
        r#"const { no_camelcased = false } = bar;"#,
        r#"import { camelCased } from "external module";"#,
        r#"import { _leading } from "external module";"#,
        r#"import { trailing_ } from "external module";"#,
        r#"import { or_middle } from "external module";"#,
        r#"import { camelCased as no_camelcased } from "external-module";"#,
        r#"import { no_camelcased as _leading } from "external-module";"#,
        r#"import { no_camelcased as trailing_ } from "external-module";"#,
        r#"import { camelCased as no_camelcased, anotherCamelCased } from "external-module";"#,
        r#"import { camelCased } from 'mod'"#,
        r#"import { no_camelcased } from 'mod'"#,
        r#"var _no_camelcased = aGlobalVariable"#,
        r#"var no_camelcased = _aGlobalVariable"#,
        r#"function foo({ camelCased: no_camelcased }) {};"#,
        r#"function foo({ no_camelcased: _leading }) {};"#,
        r#"function foo({ no_camelcased: trailing_ }) {};"#,
        r#"function foo({ no_camelcased = 'default value' }) {};"#,
        r#"function foo({ _leading = 'default value' }) {};"#,
        r#"function foo({ trailing_ = 'default value' }) {};"#,
        r#"function foo({ no_camelcased }) {};"#,
        r#"function foo({ _leading }) {}"#,
        r#"function foo({ trailing_ }) {}"#,
        r#"({obj} = baz.fo_o);"#,
        r#"([obj] = baz.fo_o);"#,
        r#"([obj.foo = obj.fo_o] = bar);"#,
        r#"const f = function no_camelcased() {};"#,
        r#"const c = class UpperCamelCased {};"#,
        r#"class UpperCamelCased {};"#,
        r#"first_name = "Akari""#,
        r#"__private_first_name = "Akari""#,
        r#"obj.foo_bar = function(){};"#,
        r#"bar_baz.foo = function(){};"#,
        r#"[foo_bar.baz]"#,
        r#"if (foo.bar_baz === boom.bam_pow) { [foo_bar.baz] }"#,
        r#"foo.bar_baz = boom.bam_pow"#,
        r#"foo.qux.boom_pow = { bar: boom.bam_pow }"#,
        r#"obj.a_b = 2;"#,
        r#"var { [categoryId]: category_id } = query;"#,
        r#"a_global_variable.foo()"#,
        r#"a_global_variable[undefined]"#,
        r#"var snake_cased = camelCased"#,
        r#"({ a: obj.fo_o } = bar);"#,
        r#"({ a: obj.fo_o.b_ar } = baz);"#,
        r#"({ a: { b: { c: obj.fo_o } } } = bar);"#,
        r#"({ a: { b: { c: obj.fo_o.b_ar } } } = baz);"#,
        r#"([obj.fo_o] = bar);"#,
        r#"([obj.fo_o = 1] = bar);"#,
        r#"({ a: [obj.fo_o] } = bar);"#,
        r#"({ a: { b: [obj.fo_o] } } = bar);"#,
        r#"([obj.fo_o.ba_r] = baz);"#,
        r#"obj.o_k.non_camelcase = 0"#,
        r#"(obj?.o_k).non_camelcase = 0"#,
        r#"({...obj.fo_o} = baz);"#,
        r#"({...obj.fo_o.ba_r} = baz);"#,
        r#"({c: {...obj.fo_o }} = baz);"#,
        r#"not_ignored_foo = 0;"#,
        r#"const obj = { "created_at": "2020-10-30T13:16:45+09:00" }"#,
        r#"const obj = { "createdAt": "2020-10-30T13:16:45+09:00" }"#,
        r#"const obj = { "created_at": created_at }"#,
        r#"const obj = { "createdAt": created_at }"#,
        r#"declare function foo_bar(a_b: number): void;"#,
        r#"declare function fooBar(aB: number): void;"#,
        r#"declare const foo_bar: number;"#,
        r#"declare const fooBar: number;"#,
        r#"declare const foo_bar: number, snake_case: string;"#,
        r#"declare const fooBar: number, camelCase: string;"#,
        r#"declare let foo_bar: { some_property: string; };"#,
        r#"declare let fooBar: { someProperty: string; };"#,
        r#"declare var foo_bar: number;"#,
        r#"declare var fooBar: number;"#,
        r#"declare class foo_bar { some_method(some_param: boolean): string; };"#,
        r#"declare class fooBar { someMethod(someParam: boolean): string; };"#,
        r#"export declare const foo_bar: number;"#,
        r#"export declare const fooBar: number;"#,
        r#"declare type foo_bar = { some_var: string; };"#,
        r#"declare type fooBar = { someVar: string; };"#,
        r#"declare interface foo_bar { some_var: string; }"#,
        r#"declare interface fooBar { someVar: string; }"#,
        r#"declare namespace foo_bar {}"#,
        r#"declare namespace fooBar {}"#,
        r#"declare enum foo_bar { variant_one, variant_two }"#,
        r#"declare enum fooVar { variantOne, variantTwo }"#,
        r#"function foo_bar(){}"#,
        r#"var foo = { bar_baz: boom.bam_pow }"#,
        r#"var o = { bar_baz: 1 }"#,
        r#"var o = { bar_baz }"#,
        r#"var { category_id: category_alias } = query;"#,
        r#"var { category_id: category_id } = query;"#,
        r#"import * as no_camelcased from "external-module";"#,
        r#"import { no_camelcased as no_camel_cased } from "external module";"#,
        r#"import { camelCased as no_camel_cased } from "external module";"#,
        r#"import no_camelcased, { anotherCamelCased as another_no_camelcased } from "external-module";"#,
        r#"import snake_cased from 'mod'"#,
        r#"import * as snake_cased from 'mod'"#,
        r#"export * as snake_cased from 'mod'"#,
        r#"function foo({ no_camelcased }) {};"#,
        r#"function foo({ no_camelcased = 'default value' }) {};"#,
        r#"const no_camelcased = 0; function foo({ camelcased_value = no_camelcased }) {}"#,
        r#"const { bar: no_camelcased } = foo;"#,
        r#"function foo({ value_1: my_default }) {}"#,
        r#"function foo({ isCamelcased: no_camelcased }) {};"#,
        r#"function foo({ isCamelcased: { no_camelcased } }) {};"#,
        r#"var { foo: bar_baz = 1 } = quz;"#,
        r#"const f = function no_camelcased() {};"#,
        r#"type Foo = { snake_case: number; };"#,
        r#"interface Foo { snake_case: number; };"#,
        r#"namespace FooBar { const snake_case = 42; }"#,
    ]);
}

#[test]
fn rust_style_invalid() {
    assert_err(|p| RustStyle.lint(p), ts, rust_style_rule::CODE, vec![
        (r#"function fooBar(){}"#, vec![eh(1, 9, "Identifier 'fooBar' is not in rust style.", "Consider renaming `fooBar` to `foo_bar`")]),
        (r#"var foo = { barBaz: boom.bam_pow }"#, vec![eh(1, 12, "Identifier 'barBaz' is not in rust style.", r#"Consider renaming `barBaz` to `bar_baz`, or wrapping it in quotation mark like `"barBaz"`"#)]),
        (r#"var o = { barBaz: 1 }"#, vec![eh(1, 10, "Identifier 'barBaz' is not in rust style.", r#"Consider renaming `barBaz` to `bar_baz`, or wrapping it in quotation mark like `"barBaz"`"#)]),
        (r#"var o = { barBaz }"#, vec![eh(1, 10, "Identifier 'barBaz' is not in rust style.", r#"Consider writing `bar_baz: barBaz` or `"barBaz": barBaz`"#)]),
        (r#"var { category_id: categoryAlias } = query;"#, vec![eh(1, 19, "Identifier 'categoryAlias' is not in rust style.", "Consider renaming `categoryAlias` to `category_alias`")]),
        (r#"var { category_id: categoryId } = query;"#, vec![eh(1, 19, "Identifier 'categoryId' is not in rust style.", "Consider renaming `categoryId` to `category_id`")]),
        (r#"import * as camelCased from "external-module";"#, vec![eh(1, 12, "Identifier 'camelCased' is not in rust style.", "Consider renaming `camelCased` to `camel_cased`")]),
        (r#"import { no_camelcased as camelCased } from "external module";"#, vec![eh(1, 26, "Identifier 'camelCased' is not in rust style.", "Consider renaming `camelCased` to `camel_cased`")]),
        (r#"import { camelCased as camelCased } from "external module";"#, vec![eh(1, 23, "Identifier 'camelCased' is not in rust style.", "Consider renaming `camelCased` to `camel_cased`")]),
        (r#"import camelCased, { anotherCamelCased as no_camelcased } from "external-module";"#, vec![eh(1, 7, "Identifier 'camelCased' is not in rust style.", "Consider renaming `camelCased` to `camel_cased`")]),
        (r#"import no_camelcased, { another_no_camelcased as camelCased } from "external-module";"#, vec![eh(1, 49, "Identifier 'camelCased' is not in rust style.", "Consider renaming `camelCased` to `camel_cased`")]),
        (r#"import camelCased from 'mod'"#, vec![eh(1, 7, "Identifier 'camelCased' is not in rust style.", "Consider renaming `camelCased` to `camel_cased`")]),
        (r#"import * as camelCased from 'mod'"#, vec![eh(1, 12, "Identifier 'camelCased' is not in rust style.", "Consider renaming `camelCased` to `camel_cased`")]),
        (r#"export * as camelCased from 'mod'"#, vec![eh(1, 12, "Identifier 'camelCased' is not in rust style.", "Consider renaming `camelCased` to `camel_cased`")]),
        (r#"function foo({ camelCased }) {};"#, vec![eh(1, 15, "Identifier 'camelCased' is not in rust style.", "Consider renaming `camelCased` to `camel_cased`")]),
        (r#"function foo({ camelCased = 'default value' }) {};"#, vec![eh(1, 15, "Identifier 'camelCased' is not in rust style.", "Consider renaming `camelCased` to `camel_cased`")]),
        (r#"const camelCased = 0; function foo({ camelCased_value = no_camelcased }) {}"#, vec![eh(1, 6, "Identifier 'camelCased' is not in rust style.", "Consider renaming `camelCased` to `camel_cased`"), eh(1, 37, "Identifier 'camelCased_value' is not in rust style.", "Consider renaming `camelCased_value` to `camel_cased_value`")]),
        (r#"const { bar: camelCased } = foo;"#, vec![eh(1, 13, "Identifier 'camelCased' is not in rust style.", "Consider renaming `camelCased` to `camel_cased`")]),
        (r#"function foo({ value_1: myDefault }) {}"#, vec![eh(1, 24, "Identifier 'myDefault' is not in rust style.", "Consider renaming `myDefault` to `my_default`")]),
        (r#"function foo({ is_not_camelcased: camelCased }) {};"#, vec![eh(1, 34, "Identifier 'camelCased' is not in rust style.", "Consider renaming `camelCased` to `camel_cased`")]),
        (r#"function foo({ is_not_camelcased: { camelCased } }) {};"#, vec![eh(1, 36, "Identifier 'camelCased' is not in rust style.", "Consider renaming `camelCased` to `camel_cased`")]),
        (r#"var { foo: barBaz = 1 } = quz;"#, vec![eh(1, 11, "Identifier 'barBaz' is not in rust style.", "Consider renaming `barBaz` to `bar_baz`")]),
        (r#"const f = function camelCased() {};"#, vec![eh(1, 19, "Identifier 'camelCased' is not in rust style.", "Consider renaming `camelCased` to `camel_cased`")]),
        (r#"const c = class no_camelcased {};"#, vec![eh(1, 16, "Identifier 'no_camelcased' is not in rust style.", "Consider renaming `no_camelcased` to `NoCamelcased`")]),
        (r#"class no_camelcased {}"#, vec![eh(1, 6, "Identifier 'no_camelcased' is not in rust style.", "Consider renaming `no_camelcased` to `NoCamelcased`")]),
        (r#"type foo_bar = string;"#, vec![eh(1, 5, "Identifier 'foo_bar' is not in rust style.", "Consider renaming `foo_bar` to `FooBar`")]),
        (r#"type Foo = { camelCase: number; };"#, vec![eh(1, 13, "Identifier 'camelCase' is not in rust style.", r#"Consider renaming `camelCase` to `camel_case`, or wrapping it in quotation mark like `"camelCase"`"#)]),
        (r#"interface foo_bar { ok: string; };"#, vec![eh(1, 10, "Identifier 'foo_bar' is not in rust style.", "Consider renaming `foo_bar` to `FooBar`")]),
        (r#"interface Foo { camelCase: number; };"#, vec![eh(1, 16, "Identifier 'camelCase' is not in rust style.", r#"Consider renaming `camelCase` to `camel_case`, or wrapping it in quotation mark like `"camelCase"`"#)]),
        (r#"namespace foo_bar {}"#, vec![eh(1, 10, "Identifier 'foo_bar' is not in rust style.", "Consider renaming `foo_bar` to `FooBar`")]),
        (r#"namespace FooBar { const camelCase = 42; }"#, vec![eh(1, 25, "Identifier 'camelCase' is not in rust style.", "Consider renaming `camelCase` to `camel_case`")]),
        (r#"enum foo_bar { VariantOne }"#, vec![eh(1, 5, "Identifier 'foo_bar' is not in rust style.", "Consider renaming `foo_bar` to `FooBar`")]),
        (r#"enum FooBar { variant_one }"#, vec![eh(1, 14, "Identifier 'variant_one' is not in rust style.", "Consider renaming `variant_one` to `VariantOne`")]),
        (r#"firstName = "Ichigo""#, vec![eh(1, 0, "Identifier 'firstName' is not in rust style.", "Consider renaming `firstName` to `first_name`")]),
        (r#"__myPrivateVariable = "Hoshimiya""#, vec![eh(1, 0, "Identifier '__myPrivateVariable' is not in rust style.", "Consider renaming `__myPrivateVariable` to `__my_private_variable`")]),
        (r#"myPrivateVariable_ = "Hoshimiya""#, vec![eh(1, 0, "Identifier 'myPrivateVariable_' is not in rust style.", "Consider renaming `myPrivateVariable_` to `my_private_variable_`")]),
        (r#"function doSomething(){}"#, vec![eh(1, 9, "Identifier 'doSomething' is not in rust style.", "Consider renaming `doSomething` to `do_something`")]),
        (r#"import { no_camelcased as camelCased } from "external-module";"#, vec![eh(1, 26, "Identifier 'camelCased' is not in rust style.", "Consider renaming `camelCased` to `camel_cased`")]),
        (r#"import { no_camelcased as camelCased, anotherCamelCased } from "external-module";"#, vec![eh(1, 26, "Identifier 'camelCased' is not in rust style.", "Consider renaming `camelCased` to `camel_cased`")]),
        (r#"var _camelCased = aGlobalVariable"#, vec![eh(1, 4, "Identifier '_camelCased' is not in rust style.", "Consider renaming `_camelCased` to `_camel_cased`")]),
        (r#"var camelCased = _aGlobalVariable"#, vec![eh(1, 4, "Identifier 'camelCased' is not in rust style.", "Consider renaming `camelCased` to `camel_cased`")]),
        (r#"function foo({ no_camelcased: camelCased }) {};"#, vec![eh(1, 30, "Identifier 'camelCased' is not in rust style.", "Consider renaming `camelCased` to `camel_cased`")]),
        (r#"function foo({ camelCased = 'default value' }) {};"#, vec![eh(1, 15, "Identifier 'camelCased' is not in rust style.", "Consider renaming `camelCased` to `camel_cased`")]),
        (r#"function foo({ camelCased }) {};"#, vec![eh(1, 15, "Identifier 'camelCased' is not in rust style.", "Consider renaming `camelCased` to `camel_cased`")]),
        (r#"const f = function camelCased() {};"#, vec![eh(1, 19, "Identifier 'camelCased' is not in rust style.", "Consider renaming `camelCased` to `camel_cased`")]),
        (r#"const c = class camelCased {};"#, vec![eh(1, 16, "Identifier 'camelCased' is not in rust style.", "Consider renaming `camelCased` to `CamelCased`")]),
        (r#"const c = class snake_cased {};"#, vec![eh(1, 16, "Identifier 'snake_cased' is not in rust style.", "Consider renaming `snake_cased` to `SnakeCased`")]),
        (r#"class snake_cased {};"#, vec![eh(1, 6, "Identifier 'snake_cased' is not in rust style.", "Consider renaming `snake_cased` to `SnakeCased`")]),
        (r#"class camelCased {};"#, vec![eh(1, 6, "Identifier 'camelCased' is not in rust style.", "Consider renaming `camelCased` to `CamelCased`")]),
        (r#"var { [category_id]: categoryId } = query;"#, vec![eh(1, 21, "Identifier 'categoryId' is not in rust style.", "Consider renaming `categoryId` to `category_id`")]),
        (r#"var camelCased = snake_cased"#, vec![eh(1, 4, "Identifier 'camelCased' is not in rust style.", "Consider renaming `camelCased` to `camel_cased`")]),
    ]);
}

#[test]
fn test_to_camelcase() {
    let tests = [
        ("foo_bar", "fooBar"),
        ("fooBar", "fooBar"),
        ("FooBar", "FooBar"),
        ("foo_bar_baz", "fooBarBaz"),
        ("_foo_bar_baz", "_fooBarBaz"),
        ("__foo_bar_baz__", "__fooBarBaz__"),
        ("Sha3_224", "SHA3_224"),
        ("SHA3_224", "SHA3_224"),
        ("_leading", "_leading"),
        ("trailing_", "trailing_"),
        ("_bothEnds_", "_bothEnds_"),
    ];
    for &(input, expected) in tests.iter() {
        assert_eq!(expected, to_camelcase(input));
    }
}

#[test]
fn test_to_rust_style() {
    let tests = [
        ("fooBar", "foo_bar"),
        ("foo_bar", "foo_bar"),
        ("FooBar", "FooBar"),
        ("_FooBar", "_FooBar"),
        ("fooBarBaz", "foo_bar_baz"),
        ("_fooBarBaz", "_foo_bar_baz"),
        ("__fooBarBaz__", "__foo_bar_baz__"),
        ("Sha3_224", "Sha3_224"),
        ("SHA3_224", "SHA3_224"),
        ("_leading", "_leading"),
        ("trailing_", "trailing_"),
        ("_bothends_", "_bothends_"),
    ];
    for &(input, expected) in tests.iter() {
        assert_eq!(expected, to_rust_style(input));
    }
}

#[test]
fn test_to_hint() {
    fn s(s: &str) -> String {
        s.to_string()
    }
    let tests = [
        (IdentToCheck::Variable(s("fooBar")), "Consider renaming `fooBar` to `foo_bar`"),
        (IdentToCheck::Function(s("fooBar")), "Consider renaming `fooBar` to `foo_bar`"),
        (IdentToCheck::Class(s("foo_bar")), "Consider renaming `foo_bar` to `FooBar`"),
        (
            IdentToCheck::ObjectPat { key_name: s("fooBar"), value_name: None, has_default: false, is_destructuring: true },
            "Consider replacing `{ fooBar }` with `{ fooBar: foo_bar }`",
        ),
        (
            IdentToCheck::ObjectPat {
                key_name: s("fooBar"),
                value_name: Some(s("camelCase")),
                has_default: false,
                is_destructuring: true,
            },
            "Consider renaming `camelCase` to `camel_case`",
        ),
        (
            IdentToCheck::ObjectPat { key_name: s("fooBar"), value_name: None, has_default: true, is_destructuring: true },
            "Consider replacing `{ fooBar = .. }` with `{ fooBar: foo_bar = .. }`",
        ),
        (
            IdentToCheck::ObjectPat { key_name: s("fooBar"), value_name: None, has_default: true, is_destructuring: false },
            // not destructuring, so suggest a rename
            "Consider renaming `fooBar` to `foo_bar`",
        ),
        (
            IdentToCheck::ObjectPat {
                key_name: s("foo_bar"),
                value_name: Some(s("camelCase")),
                has_default: true,
                is_destructuring: true,
            },
            "Consider renaming `camelCase` to `camel_case`",
        ),
        (
            IdentToCheck::NamedImport { local: s("fooBar"), imported: None },
            "Consider replacing `{ fooBar }` with `{ fooBar as foo_bar }`",
        ),
        (
            IdentToCheck::NamedImport { local: s("fooBar"), imported: Some(s("camelCase")) },
            "Consider renaming `fooBar` to `foo_bar`",
        ),
    ];
    for (error_ident, expected) in tests.iter() {
        assert_eq!(*expected, error_ident.to_hint());
    }
}

#[test]
fn rust_style_reports_each_name_once_in_source_order() {
    // Ambient declarations are passed over, inside and out.
    assert_ok(|p| RustStyle.lint(p), ts, &["declare namespace fooBar { const camelCase = 1; }"]);
    // A pascal-case hint for a name with no underscore to remove.
    assert_err(|p| RustStyle.lint(p), ts, rust_style_rule::CODE, vec![
        ("class fooBar {}", vec![eh(1, 6, "Identifier 'fooBar' is not in rust style.", "Consider renaming `fooBar` to `FooBar`")]),
        ("let aB = 1; let cD = 2;", vec![
            eh(1, 4, "Identifier 'aB' is not in rust style.", "Consider renaming `aB` to `a_b`"),
            eh(1, 16, "Identifier 'cD' is not in rust style.", "Consider renaming `cD` to `c_d`"),
        ]),
    ]);
}

use deno_lint::rules::prefer_const::Status;

#[test]
fn collector_works_function() {
    let src = r#"
let global1;
function foo({ param1, key: param2 }) {
  let inner1 = 2;
}
let global2 = 42;
    "#;
    let c = PreferConst.collect(&ts(src));
    let expected: Vec<Vec<&str>> = vec![
        vec!["global1", "global2"],
        vec!["inner1", "param1", "param2"],
    ];
    assert_eq!(c.scopes, expected);
}

#[test]
fn collector_works_arrow_function() {
    let src = r#"
let global1;
const arrow = (param1, ...param2) => {
  let inner1;
};
let global2 = 42;
    "#;
    let c = PreferConst.collect(&ts(src));
    let expected: Vec<Vec<&str>> = vec![
        vec!["global1", "global2"],
        vec!["inner1", "param1"],
    ];
    assert_eq!(c.scopes, expected);
}

#[test]
fn collector_works_block() {
    let src = r#"
let global1;
{
  let inner1 = 1;
  let inner2;
}
let global2 = 42;
    "#;
    let c = PreferConst.collect(&ts(src));
    let expected: Vec<Vec<&str>> = vec![
        vec!["global1", "global2"],
        vec!["inner1", "inner2"],
    ];
    assert_eq!(c.scopes, expected);
}

#[test]
fn collector_works_if_1() {
    let src = r#"
let global1;
if (true) {
  let inner1 = 1;
  let inner2;
}
let global2 = 42;
    "#;
    let c = PreferConst.collect(&ts(src));
    let expected: Vec<Vec<&str>> = vec![
        vec!["global1", "global2"],
        vec!["inner1", "inner2"],
    ];
    assert_eq!(c.scopes, expected);
}

#[test]
fn collector_works_if_2() {
    let src = r#"
let global1;
if (true) {
  let cons = 1;
} else {
  let alt = 3;
}
let global2 = 42;
    "#;
    let c = PreferConst.collect(&ts(src));
    let expected: Vec<Vec<&str>> = vec![
        vec!["global1", "global2"],
        vec!["cons"],
        vec!["alt"],
    ];
    assert_eq!(c.scopes, expected);
}

#[test]
fn collector_works_if_3() {
    let src = r#"
let global1;
if (true) {
  let cons1 = 1;
} else if (false) {
  let cons2 = 2;
} else {
  let alt;
}
let global2 = 42;
    "#;
    let c = PreferConst.collect(&ts(src));
    let expected: Vec<Vec<&str>> = vec![
        vec!["global1", "global2"],
        vec!["cons1"],
        vec!["cons2"],
        vec!["alt"],
    ];
    assert_eq!(c.scopes, expected);
}

#[test]
fn collector_works_if_4() {
    let src = r#"
let global1;
if (true) foo();
else if (false) bar();
else baz();
let global2 = 42;
    "#;
    let c = PreferConst.collect(&ts(src));
    let expected: Vec<Vec<&str>> = vec![
        vec!["global1", "global2"],
        Vec::<&str>::new(),
        Vec::<&str>::new(),
        Vec::<&str>::new(),
    ];
    assert_eq!(c.scopes, expected);
}

#[test]
fn collector_works_switch_1() {
    let src = r#"
let global1;
switch (foo) {
  case 0:
    global1 = 0;
}
    "#;
    let c = PreferConst.collect(&ts(src));
    let expected: Vec<Vec<&str>> = vec![
        vec!["global1"],
        Vec::<&str>::new(),
    ];
    assert_eq!(c.scopes, expected);
}

#[test]
fn collector_works_switch_2() {
    let src = r#"
let global1;
switch (foo) {
  case 0:
    global1 = 0;
  case 1: {
    let case1;
  }
  default:
    console.log("default");
}
    "#;
    let c = PreferConst.collect(&ts(src));
    let expected: Vec<Vec<&str>> = vec![
        vec!["global1"],
        Vec::<&str>::new(),
        vec!["case1"],
    ];
    assert_eq!(c.scopes, expected);
}

#[test]
fn collector_works_switch_3() {
    let src = r#"
let global1;
switch (foo) {
  case 0: {
    let case0;
  }
  case 1: {
    let case1;
  }
  default: {
    let case2 = 42;
    case2++;
    console.log(case2);
  }
}
    "#;
    let c = PreferConst.collect(&ts(src));
    let expected: Vec<Vec<&str>> = vec![
        vec!["global1"],
        Vec::<&str>::new(),
        vec!["case0"],
        vec!["case1"],
        vec!["case2"],
    ];
    assert_eq!(c.scopes, expected);
}

#[test]
fn collector_works_for_1() {
    let src = r#"
let global1;
for (let i = 0, j = 10; i < 10; i++) {
  let inner;
  j--;
}
let global2 = 42;
    "#;
    let c = PreferConst.collect(&ts(src));
    let expected: Vec<Vec<&str>> = vec![
        vec!["global1", "global2"],
        vec!["i", "inner", "j"],
    ];
    assert_eq!(c.scopes, expected);
}

#[test]
fn collector_works_for_2() {
    let src = r#"
let global1;
for (let i = 0, j = 10; i < 10; i++) i += 2;
let global2 = 42;
    "#;
    let c = PreferConst.collect(&ts(src));
    let expected: Vec<Vec<&str>> = vec![
        vec!["global1", "global2"],
        vec!["i", "j"],
    ];
    assert_eq!(c.scopes, expected);
}

#[test]
fn collector_works_for_3() {
    let src = r#"
let global1 = 0;
for (global1 = 0; global1 < 10; ++global1) foo();
let global2 = 42;
    "#;
    let c = PreferConst.collect(&ts(src));
    let expected: Vec<Vec<&str>> = vec![
        vec!["global1", "global2"],
        Vec::<&str>::new(),
    ];
    assert_eq!(c.scopes, expected);
}

#[test]
fn collector_works_for_of_1() {
    let src = r#"
let global1;
for (let i of [1, 2, 3]) {
  let inner;
}
let global2 = 42;
    "#;
    let c = PreferConst.collect(&ts(src));
    let expected: Vec<Vec<&str>> = vec![
        vec!["global1", "global2"],
        vec!["i", "inner"],
    ];
    assert_eq!(c.scopes, expected);
}

#[test]
fn collector_works_for_of_2() {
    let src = r#"
let global1;
for (let { i, j } of [{ i: 1, j: 2 }, { i : 3, j: 4 }]) i += 2;
let global2 = 42;
    "#;
    let c = PreferConst.collect(&ts(src));
    let expected: Vec<Vec<&str>> = vec![
        vec!["global1", "global2"],
        vec!["i", "j"],
    ];
    assert_eq!(c.scopes, expected);
}

#[test]
fn collector_works_for_of_3() {
    let src = r#"
let global1 = 0;
for (global1 of [1, 2, 3]) foo();
let global2 = 42;
    "#;
    let c = PreferConst.collect(&ts(src));
    let expected: Vec<Vec<&str>> = vec![
        vec!["global1", "global2"],
        Vec::<&str>::new(),
    ];
    assert_eq!(c.scopes, expected);
}

#[test]
fn collector_works_for_in_1() {
    let src = r#"
let global1;
for (let i in [1, 2, 3]) {
  let inner;
}
let global2 = 42;
    "#;
    let c = PreferConst.collect(&ts(src));
    let expected: Vec<Vec<&str>> = vec![
        vec!["global1", "global2"],
        vec!["i", "inner"],
    ];
    assert_eq!(c.scopes, expected);
}

#[test]
fn collector_works_for_in_2() {
    let src = r#"
let global1;
for (let i in [1, 2, 3]) i += 2;
let global2 = 42;
    "#;
    let c = PreferConst.collect(&ts(src));
    let expected: Vec<Vec<&str>> = vec![
        vec!["global1", "global2"],
        vec!["i"],
    ];
    assert_eq!(c.scopes, expected);
}

#[test]
fn collector_works_for_in_3() {
    let src = r#"
let global1 = 0;
for (global1 in [1, 2, 3]) foo();
let global2 = 42;
    "#;
    let c = PreferConst.collect(&ts(src));
    let expected: Vec<Vec<&str>> = vec![
        vec!["global1", "global2"],
        Vec::<&str>::new(),
    ];
    assert_eq!(c.scopes, expected);
}

#[test]
fn collector_works_while_1() {
    let src = r#"
let global1;
while (true) {
  let inner;
}
let global2 = 42;
    "#;
    let c = PreferConst.collect(&ts(src));
    let expected: Vec<Vec<&str>> = vec![
        vec!["global1", "global2"],
        vec!["inner"],
    ];
    assert_eq!(c.scopes, expected);
}

#[test]
fn collector_works_while_2() {
    let src = r#"
let global1;
while (true) foo();
let global2 = 42;
    "#;
    let c = PreferConst.collect(&ts(src));
    let expected: Vec<Vec<&str>> = vec![
        vec!["global1", "global2"],
        Vec::<&str>::new(),
    ];
    assert_eq!(c.scopes, expected);
}

#[test]
fn collector_works_do_while_1() {
    let src = r#"
let global1;
do {
  let inner;
} while (true)
let global2 = 42;
    "#;
    let c = PreferConst.collect(&ts(src));
    let expected: Vec<Vec<&str>> = vec![
        vec!["global1", "global2"],
        vec!["inner"],
    ];
    assert_eq!(c.scopes, expected);
}

#[test]
fn collector_works_do_while_2() {
    let src = r#"
let global1;
do foo(); while (true)
let global2 = 42;
    "#;
    let c = PreferConst.collect(&ts(src));
    let expected: Vec<Vec<&str>> = vec![
        vec!["global1", "global2"],
        Vec::<&str>::new(),
    ];
    assert_eq!(c.scopes, expected);
}

#[test]
fn collector_works_with_1() {
    let src = r#"
let global1;
with (foo) {
  let inner = 1;
}
let global2 = 42;
    "#;
    let c = PreferConst.collect(&ts(src));
    let expected: Vec<Vec<&str>> = vec![
        vec!["global1", "global2"],
        vec!["inner"],
    ];
    assert_eq!(c.scopes, expected);
}

#[test]
fn collector_works_with_2() {
    let src = r#"
let global1;
with (foo) bar();
let global2 = 42;
    "#;
    let c = PreferConst.collect(&ts(src));
    let expected: Vec<Vec<&str>> = vec![
        vec!["global1", "global2"],
        Vec::<&str>::new(),
    ];
    assert_eq!(c.scopes, expected);
}

#[test]
fn collector_works_try_catch() {
    let src = r#"
let global1;
try {
  let tryVar;
  foo();
} catch(e) {
  let catchVar;
}
let global2 = 42;
    "#;
    let c = PreferConst.collect(&ts(src));
    let expected: Vec<Vec<&str>> = vec![
        vec!["global1", "global2"],
        vec!["tryVar"],
        vec!["catchVar", "e"],
    ];
    assert_eq!(c.scopes, expected);
}

#[test]
fn collector_works_class() {
    let src = r#"
let global1;
class Foo {
  field;
  #privateField;
  constructor(consParam) {
    let cons;
  }
  get getter() {
    let g;
  }
  set setter() {
    let s;
  }
  static staticMethod(staticMethodParam) {
    let sm;
  }
  method(methodParam) {
    let m;
  }
}
let global2 = 42;
    "#;
    let c = PreferConst.collect(&ts(src));
    let expected: Vec<Vec<&str>> = vec![
        vec!["global1", "global2"],
        Vec::<&str>::new(),
        vec!["cons", "consParam"],
        vec!["g"],
        vec!["s"],
        vec!["sm", "staticMethodParam"],
        vec!["m", "methodParam"],
    ];
    assert_eq!(c.scopes, expected);
}

#[test]
fn collector_works_complex_1() {
    let src = r#"
let global1;
function foo({ p1 = 0 }) {
  while (cond) {
    let while1 = true;
    if (while1) {
      break;
    }
    let [while2, { while3, key: while4 = 4 }] = bar();
  }
}
let global2 = 42;
    "#;
    let c = PreferConst.collect(&ts(src));
    let expected: Vec<Vec<&str>> = vec![
        vec!["global1", "global2"],
        vec!["p1"],
        vec!["while1", "while2", "while3", "while4"],
        Vec::<&str>::new(),
    ];
    assert_eq!(c.scopes, expected);
}

#[test]
fn var_groups_1() {
    let c = PreferConst.collect(&ts(r#"
let { foo, bar } = obj;
let baz = 42;
    "#));
    assert_eq!(c.groups.len(), 2);
    assert_eq!(c.initialized, 3);
}

#[test]
fn var_groups_2() {
    let c = PreferConst.collect(&ts(r#"
let { foo, bar: { bar, baz: x = 42 } } = obj;
    "#));
    assert_eq!(c.groups.len(), 1);
    assert_eq!(c.groups[0], Status::Initialized);
    assert_eq!(c.initialized, 3);
}

#[test]
fn var_groups_3() {
    let c = PreferConst.collect(&ts(r#"
function f(x: number, y: string = 42) {}
"#));
    assert_eq!(c.groups.len(), 2);
    for s in &c.groups {
        assert_eq!(*s, Status::Reassigned);
    }
    assert_eq!(c.initialized, 0);
}

#[test]
fn var_groups_4() {
    let c = PreferConst.collect(&ts(r#"
try {} catch (e) {}
"#));
    assert_eq!(c.groups.len(), 1);
    assert_eq!(c.groups[0], Status::Reassigned);
    assert_eq!(c.initialized, 0);
}

#[test]
fn var_groups_5() {
    let c = PreferConst.collect(&ts(r#"
for (let {a, b} of obj) {}
"#));
    assert_eq!(c.groups.len(), 1);
    assert_eq!(c.groups[0], Status::Initialized);
    assert_eq!(c.initialized, 2);
}

use deno_lint::rules::no_unexpected_multiline::{self as nm, NoUnexpectedMultiline};

/// One diagnostic, at the given line and column.
fn assert_one_at(src: &str, line: usize, col: usize) {
    let d = NoUnexpectedMultiline.lint(&ts(src));
    assert_eq!(d.len(), 1, "diagnostics for {:?}: {:?}", src, d);
    assert_eq!(line_col(src, d[0].range.lo), (line, col), "position in {:?}", src);
}

#[test]
fn no_unexpected_multiline_valid() {
    assert_ok(|p| NoUnexpectedMultiline.lint(p), ts, &[r#"var foo = bar;
(1 || 2).baz();

var foo = bar
;(1 || 2).baz()

foo<string>
("").length;

(foo
)(bar);

(foo).callback
?.
(bar)

var hello = 'world';
[1, 2, 3].forEach(addNumber);

(array
)[1]

var hello = 'world'
void [1, 2, 3].forEach(addNumber);

var a = b
?.[a, b, c].forEach(doSomething);

var a = b?.
[a, b, c].forEach(doSomething);

function foo() { return ""; }
foo
().length

function foo<T>(bar: T): T { return bar; }
`hello`

let x = function() {};
`hello`

let tag = function() {}
tag `hello`

let a = b/
abc/g;

let x = a
/foo/ g"#]);
}

#[test]
fn no_unexpected_multiline_invalid() {
    assert_one_at(r#"var foo = bar
(1 || 2).baz();"#, 2, 1);
    assert_one_at(r#"foo
<string>
("")"#, 2, 1);
    assert_one_at(r#"(foo)
(abc).length"#, 2, 1);
    assert_one_at(r#"foo(bar
(x), baz)"#, 2, 1);
    assert_one_at(r#"(foo).callback
(bar)?.baz"#, 2, 1);
    assert_one_at(r#"foo.bar?.baz.bay
[boo];"#, 2, 1);
    assert_one_at(r#"var hello = 'world'
  [1, 2, 3].forEach(addNumber);"#, 2, 3);
    assert_one_at(r#"var a = b
/
abc/g-a"#, 2, 1);
    assert_one_at(r#"let x = foo
/regex/g.foo(bar)"#, 2, 1);
}

#[test]
fn no_unexpected_multiline_invalid_tagged_tpl() {
    assert_one_at(r#"let x = function() {}
`hello`"#, 2, 1);
    assert_one_at(r#"let x = function() {}
x
`hello`"#, 3, 1);
    assert_one_at(r#"(foo)
`hello`"#, 2, 1);
    assert_one_at(r#"bar<string>
`${x} hello`"#, 2, 1);
    assert_one_at(r#"const x = aaaa<
  test
>/*
test
*/`foo`"#, 5, 3);
}

#[test]
fn no_unexpected_multiline_messages_and_skipped_parts() {
    assert_err(|p| NoUnexpectedMultiline.lint(p), ts, nm::CODE, vec![
        ("var a = b\n[c]", vec![e(2, 1, nm::MEMBER_MESSAGE)]),
        ("var a = b\n(c)", vec![e(2, 1, nm::CALL_MESSAGE)]),
        ("var a = b\n`c`", vec![e(2, 1, nm::TEMPLATE_MESSAGE)]),
    ]);
    // The key of a computed property access, and what a tagged template
    // holds, are passed over.
    assert_ok(|p| NoUnexpectedMultiline.lint(p), ts, &["a[b\n(c)]", "t`${b\n(c)}`"]);
}
use deno_lint::rules::prefer_primordials::{self as pp, PreferPrimordials};

#[test]
fn prefer_primordials_valid() {
    assert_ok(|p| PreferPrimordials.lint(p), ts, &[
        r#"
const { Array } = primordials;
new Array();
      "#,
        r#"
const { JSONStringify } = primordials;
JSONStringify({});
      "#,
        r#"
const { SymbolFor } = primordials;
SymbolFor("foo");
      "#,
        r#"
const { SymbolIterator } = primordials;
class A {
  *[SymbolIterator] () {
    yield "a";
  }
}
      "#,
        r#"
const { SymbolIterator } = primordials;
const a = {
  *[SymbolIterator] () {
    yield "a";
  }
}
      "#,
        r#"
const { ObjectDefineProperty, SymbolToStringTag } = primordials;
ObjectDefineProperty(o, SymbolToStringTag, { __proto__: null, value: "o" });
      "#,
        r#"
const { ReflectDefineProperty, SymbolToStringTag } = primordials;
ReflectDefineProperty(o, SymbolToStringTag, { __proto__: null, value: "o" });
      "#,
        r#"
const { ObjectDefineProperties } = primordials;
ObjectDefineProperties(o, {
  foo: { __proto__: null, value: "o" },
  bar: { "__proto__": null, value: "o" },
});
      "#,
        r#"
function foo(o = { __proto__: null }) {}
function bar({ o = { __proto__: null } }) {}
      "#,
        r#"
const { NumberParseInt } = primordials;
NumberParseInt("42");
      "#,
        r#"
const { ReflectOwnKeys } = primordials;
ReflectOwnKeys({});
      "#,
        r#"
const { SafeRegExp } = primordials;
new SafeRegExp("aaaa");
      "#,
        r#"
const { SafeMap } = primordials;
new SafeMap();
      "#,
        r#"
const { SafePromiseAll, PromiseResolve } = primordials;
SafePromiseAll([
  PromiseResolve(1),
  PromiseResolve(2),
]);
      "#,
        r#"
const { ArrayPrototypeMap } = primordials;
ArrayPrototypeMap([1, 2, 3], (val) => val * 2);
      "#,
        r#"
const parseInt = () => {};
parseInt();
      "#,
        r#"const foo = { Error: 1 };"#,
        r#"foo.description = 1"#,
        r#"foo.description()"#,
        r#"
const { SafeRegExp } = primordials;
const pattern = new SafeRegExp(/aaaa/u);
pattern.source;
      "#,
        r#"
const { SafeSet } = primordials;
const set = new SafeSet();
set.add(1);
set.add(2);
set.size;
      "#,
        r#"
const foo = { size: 100 };
foo.size;
      "#,
        r#"
const { SafeArrayIterator } = primordials;
[1, 2, ...new SafeArrayIterator(arr)];
foo(1, 2, ...new SafeArrayIterator(arr));
new Foo(1, 2, ...new SafeArrayIterator(arr));
      "#,
        r#"
const { SafeArrayIterator } = primordials;
[1, 2, ...new SafeArrayIterator([1, 2, 3])];
foo(1, 2, ...new SafeArrayIterator([1, 2, 3]));
new Foo(1, 2, ...new SafeArrayIterator([1, 2, 3]));
      "#,
        r#"
({ ...{} });
      "#,
        r#"
const { SafeArrayIterator } = primordials;
for (const val of new SafeArrayIterator(arr)) {}
for (const val of new SafeArrayIterator([1, 2, 3])) {}
      "#,
        r#"
const { SafeArrayIterator } = primordials;
function* foo() { yield* new SafeArrayIterator([1, 2, 3]); }
      "#,
        r#"
const { 0: a, 1: b } = [1, 2];
      "#,
        r#"
let a, b;
({ 0: a, 1: b } = [1, 2]);
      "#,
        r#"
const { SafeArrayIterator } = primordials;
const [a, b, ...c] = new SafeArrayIterator([1, 2, 3]);
      "#,
        r#"
const { SafeArrayIterator } = primordials;
let a, b, c;
[a, b, ...c] = new SafeArrayIterator([1, 2, 3]);
      "#,
        r#"
const { indirectEval } = primordials;
indirectEval("console.log('This test should pass.');");
      "#,
        r#"
function foo(a: Array<any>) {}
      "#,
        r#"
function foo(): Array<any> {}
      "#,
        r#"
type p = Promise<void>;
      "#,
    ]);
}

#[test]
fn prefer_primordials_invalid() {
    assert_err(|p| PreferPrimordials.lint(p), ts, pp::CODE, vec![
        (r#"const foo = Symbol("foo");"#, vec![eh(1, 12, pp::GLOBAL_INTRINSIC_MESSAGE, pp::GLOBAL_INTRINSIC_HINT)]),
        (r#"const foo = Symbol.for("foo");"#, vec![eh(1, 12, pp::GLOBAL_INTRINSIC_MESSAGE, pp::GLOBAL_INTRINSIC_HINT)]),
        (r#"const arr = new Array();"#, vec![eh(1, 16, pp::GLOBAL_INTRINSIC_MESSAGE, pp::GLOBAL_INTRINSIC_HINT)]),
        (r#"
const { RegExp } = primordials;
new RegExp("aaaa");
      "#, vec![eh(3, 4, pp::UNSAFE_INTRINSIC_MESSAGE, pp::UNSAFE_INTRINSIC_HINT)]),
        (r#"
const { Map } = primordials;
new Map();
      "#, vec![eh(3, 4, pp::UNSAFE_INTRINSIC_MESSAGE, pp::UNSAFE_INTRINSIC_HINT)]),
        (r#"
const { PromiseAll, PromiseResolve } = primordials;
PromiseAll([
  PromiseResolve(1),
  PromiseResolve(2),
]);
      "#, vec![eh(3, 0, pp::UNSAFE_INTRINSIC_MESSAGE, pp::UNSAFE_INTRINSIC_HINT)]),
        (r#"JSON.parse("{}")"#, vec![eh(1, 0, pp::GLOBAL_INTRINSIC_MESSAGE, pp::GLOBAL_INTRINSIC_HINT)]),
        (r#"
const { JSON } = primordials;
JSON.parse("{}");
      "#, vec![eh(3, 0, pp::GLOBAL_INTRINSIC_MESSAGE, pp::GLOBAL_INTRINSIC_HINT)]),
        (r#"Symbol.for("foo")"#, vec![eh(1, 0, pp::GLOBAL_INTRINSIC_MESSAGE, pp::GLOBAL_INTRINSIC_HINT)]),
        (r#"
const { Symbol } = primordials;
Symbol.for("foo");
      "#, vec![eh(3, 0, pp::GLOBAL_INTRINSIC_MESSAGE, pp::GLOBAL_INTRINSIC_HINT)]),
        (r#"
const { Symbol } = primordials;
class A {
  *[Symbol.iterator] () {
    yield "a";
  }
}
      "#, vec![eh(4, 4, pp::GLOBAL_INTRINSIC_MESSAGE, pp::GLOBAL_INTRINSIC_HINT)]),
        (r#"
const { Symbol } = primordials;
const a = {
  *[Symbol.iterator] () {
    yield "a";
  }
}
      "#, vec![eh(4, 4, pp::GLOBAL_INTRINSIC_MESSAGE, pp::GLOBAL_INTRINSIC_HINT)]),
        (r#"
const { ObjectDefineProperty, Symbol } = primordials;
ObjectDefineProperty(o, Symbol.toStringTag, { value: "o" });
      "#, vec![eh(3, 24, pp::GLOBAL_INTRINSIC_MESSAGE, pp::GLOBAL_INTRINSIC_HINT), eh(3, 44, pp::DEFINE_PROPERTY_MESSAGE, pp::NULL_PROTOTYPE_HINT)]),
        (r#"
const { ObjectDefineProperty, SymbolToStringTag } = primordials;
ObjectDefineProperty(o, SymbolToStringTag, { value: "o" });
      "#, vec![eh(3, 43, pp::DEFINE_PROPERTY_MESSAGE, pp::NULL_PROTOTYPE_HINT)]),
        (r#"
const { ObjectDefineProperties } = primordials;
ObjectDefineProperties(o, {
  foo: { value: "o" },
  bar: { __proto__: {}, value: "o" },
  baz: { ["__proto__"]: null, value: "o" },
});
      "#, vec![eh(4, 7, pp::DEFINE_PROPERTY_MESSAGE, pp::NULL_PROTOTYPE_HINT), eh(5, 7, pp::DEFINE_PROPERTY_MESSAGE, pp::NULL_PROTOTYPE_HINT), eh(6, 7, pp::DEFINE_PROPERTY_MESSAGE, pp::NULL_PROTOTYPE_HINT)]),
        (r#"
function foo(o = {}) {}
function bar({ o = {} }) {}
      "#, vec![eh(2, 17, pp::DEFAULT_PARAMETER_MESSAGE, pp::NULL_PROTOTYPE_HINT), eh(3, 19, pp::DEFAULT_PARAMETER_MESSAGE, pp::NULL_PROTOTYPE_HINT)]),
        (r#"
const { Number } = primordials;
Number.parseInt("10");
      "#, vec![eh(3, 0, pp::GLOBAL_INTRINSIC_MESSAGE, pp::GLOBAL_INTRINSIC_HINT)]),
        (r#"parseInt("10")"#, vec![eh(1, 0, pp::GLOBAL_INTRINSIC_MESSAGE, pp::GLOBAL_INTRINSIC_HINT)]),
        (r#"const { ownKeys } = Reflect;"#, vec![eh(1, 20, pp::GLOBAL_INTRINSIC_MESSAGE, pp::GLOBAL_INTRINSIC_HINT)]),
        (r#"new Map();"#, vec![eh(1, 4, pp::GLOBAL_INTRINSIC_MESSAGE, pp::GLOBAL_INTRINSIC_HINT), eh(1, 4, pp::UNSAFE_INTRINSIC_MESSAGE, pp::UNSAFE_INTRINSIC_HINT)]),
        (r#"
const { Function } = primordials;
const noop = Function.prototype;
      "#, vec![eh(3, 13, pp::GLOBAL_INTRINSIC_MESSAGE, pp::GLOBAL_INTRINSIC_HINT)]),
        (r#"[1, 2, 3].map(val => val * 2);"#, vec![eh(1, 0, pp::GLOBAL_INTRINSIC_MESSAGE, pp::GLOBAL_INTRINSIC_HINT)]),
        (r#"
const obj = { foo: 1 };
obj.hasOwnProperty("foo");
      "#, vec![eh(3, 0, pp::GLOBAL_INTRINSIC_MESSAGE, pp::GLOBAL_INTRINSIC_HINT)]),
        (r#"
const fn = () => 1;
fn.call(null);
      "#, vec![eh(3, 0, pp::GLOBAL_INTRINSIC_MESSAGE, pp::GLOBAL_INTRINSIC_HINT)]),
        (r#"
const num = 123.456;
num.toFixed(2);
      "#, vec![eh(3, 0, pp::GLOBAL_INTRINSIC_MESSAGE, pp::GLOBAL_INTRINSIC_HINT)]),
        (r#"
const { Date } = primordials;
new Date().toISOString();
      "#, vec![eh(3, 0, pp::GLOBAL_INTRINSIC_MESSAGE, pp::GLOBAL_INTRINSIC_HINT)]),
        (r#"
const arr = [1, 2, 3, 4];
arr.filter((val) => val % 2 === 0);
      "#, vec![eh(3, 0, pp::GLOBAL_INTRINSIC_MESSAGE, pp::GLOBAL_INTRINSIC_HINT)]),
        (r#"
const str = "foo bar baz";
str.split(" ");
      "#, vec![eh(3, 0, pp::GLOBAL_INTRINSIC_MESSAGE, pp::GLOBAL_INTRINSIC_HINT)]),
        (r#"
const thenable = { then() {} };
thenable.then(() => {});
      "#, vec![eh(3, 0, pp::GLOBAL_INTRINSIC_MESSAGE, pp::GLOBAL_INTRINSIC_HINT)]),
        (r#"
const { Uint8Array } = primordials;
new Uint8Array(10).buffer;
      "#, vec![eh(3, 0, pp::GLOBAL_INTRINSIC_MESSAGE, pp::GLOBAL_INTRINSIC_HINT)]),
        (r#"
const { ArrayBuffer } = primordials;
new ArrayBuffer(10).byteLength;
      "#, vec![eh(3, 0, pp::GLOBAL_INTRINSIC_MESSAGE, pp::GLOBAL_INTRINSIC_HINT)]),
        (r#"
const { ArrayBuffer, DataView } = primordials;
new DataView(new ArrayBuffer(10)).byteOffset;
      "#, vec![eh(3, 0, pp::GLOBAL_INTRINSIC_MESSAGE, pp::GLOBAL_INTRINSIC_HINT)]),
        (r#"foo = bar.description;"#, vec![eh(1, 6, pp::GLOBAL_INTRINSIC_MESSAGE, pp::GLOBAL_INTRINSIC_HINT)]),
        (r#""a" in A"#, vec![eh(1, 0, pp::IN_MESSAGE, pp::IN_HINT)]),
        (r#"a instanceof A"#, vec![eh(1, 0, pp::INSTANCEOF_MESSAGE, pp::INSTANCEOF_HINT)]),
        (r#"[1, 2, ...arr];"#, vec![eh(1, 7, pp::ITERATOR_MESSAGE, pp::SAFE_ITERATOR_HINT)]),
        (r#"foo(1, 2, ...arr);"#, vec![eh(1, 10, pp::ITERATOR_MESSAGE, pp::SAFE_ITERATOR_HINT)]),
        (r#"new Foo(1, 2, ...arr);"#, vec![eh(1, 14, pp::ITERATOR_MESSAGE, pp::SAFE_ITERATOR_HINT)]),
        (r#"[1, 2, ...[3]];"#, vec![eh(1, 7, pp::ITERATOR_MESSAGE, pp::SAFE_ITERATOR_HINT)]),
        (r#"foo(1, 2, ...[3]);"#, vec![eh(1, 10, pp::ITERATOR_MESSAGE, pp::SAFE_ITERATOR_HINT)]),
        (r#"new Foo(1, 2, ...[3]);"#, vec![eh(1, 14, pp::ITERATOR_MESSAGE, pp::SAFE_ITERATOR_HINT)]),
        (r#"for (const val of arr) {}"#, vec![eh(1, 18, pp::ITERATOR_MESSAGE, pp::SAFE_ITERATOR_HINT)]),
        (r#"for (const val of [1, 2, 3]) {}"#, vec![eh(1, 18, pp::ITERATOR_MESSAGE, pp::SAFE_ITERATOR_HINT)]),
        (r#"function* foo() { yield* [1, 2, 3]; }"#, vec![eh(1, 18, pp::ITERATOR_MESSAGE, pp::SAFE_ITERATOR_HINT)]),
        (r#"const [a, b] = [1, 2];"#, vec![eh(1, 6, pp::ITERATOR_MESSAGE, pp::OBJECT_PATTERN_HINT)]),
        (r#"
let a, b;
[a, b] = [1, 2];
      "#, vec![eh(3, 0, pp::ITERATOR_MESSAGE, pp::OBJECT_PATTERN_HINT)]),
        (r#"const [a, b, ...c] = [1, 2, 3];"#, vec![eh(1, 6, pp::ITERATOR_MESSAGE, pp::SAFE_ITERATOR_HINT)]),
        (r#"
let a, b, c;
[a, b, ...c] = [1, 2, 3];
      "#, vec![eh(3, 0, pp::ITERATOR_MESSAGE, pp::SAFE_ITERATOR_HINT)]),
        (r#"/aaa/u"#, vec![eh(1, 0, pp::REGEXP_MESSAGE, pp::SAFE_REGEXP_HINT)]),
        (r#"eval("console.log('This test should fail!');");"#, vec![eh(1, 0, pp::GLOBAL_INTRINSIC_MESSAGE, pp::GLOBAL_INTRINSIC_HINT)]),
    ]);
}

#[test]
fn rule_tags_name_their_sets() {
    assert_eq!(NoWith.tags(), vec![deno_lint::tags::RECOMMENDED]);
    assert_eq!(NoSelfCompare.tags(), Vec::<&str>::new());
    assert_eq!(ReactNoDanger.tags(), vec!["react", "fresh"]);
    assert_eq!(NoStringRefs.tags(), vec!["react", "jsx", "fresh"]);
    assert_eq!(PreferPrimordials.tags(), Vec::<&str>::new());
    assert_eq!(PreferConst.tags(), vec!["recommended"]);
}

#[test]
fn prefer_primordials_reads_static_blocks_fragments_and_instantiations() {
    assert_err(|p| PreferPrimordials.lint(p), ts, pp::CODE, vec![
        ("class A { static { new Map(); } }", vec![
            eh(1, 23, pp::GLOBAL_INTRINSIC_MESSAGE, pp::GLOBAL_INTRINSIC_HINT),
            eh(1, 23, pp::UNSAFE_INTRINSIC_MESSAGE, pp::UNSAFE_INTRINSIC_HINT),
        ]),
        ("const f = parseInt<number>;", vec![eh(1, 10, pp::GLOBAL_INTRINSIC_MESSAGE, pp::GLOBAL_INTRINSIC_HINT)]),
        ("class A { accessor x = /a/; }", vec![eh(1, 23, pp::REGEXP_MESSAGE, pp::SAFE_REGEXP_HINT)]),
    ]);
    assert_err(|p| PreferPrimordials.lint(p), tsx, pp::CODE, vec![(
        "const x = <>{eval(\"1\")}</>;",
        vec![eh(1, 13, pp::GLOBAL_INTRINSIC_MESSAGE, pp::GLOBAL_INTRINSIC_HINT)],
    )]);
    assert_ok(|p| PreferPrimordials.lint(p), ts, &["function F() { return new.target; }"]);
}

#[test]
fn linter_runs_the_recommended_set_unless_codes_are_given() {
    let none: Vec<&str> = vec![];
    assert!(rule_enabled(NoWith.code(), &NoWith.tags(), &none));
    assert!(!rule_enabled(RustStyle.code(), &RustStyle.tags(), &none));
    let some = vec!["rust_style"];
    assert!(rule_enabled(RustStyle.code(), &RustStyle.tags(), &some));
    assert!(!rule_enabled(NoWith.code(), &NoWith.tags(), &some));
}

#[test]
fn linter_orders_by_start_and_keeps_ties_in_order() {
    let d = |lo: usize, hi: usize, code: &str| Diagnostic::new(a::Span { lo, hi }, code, "m");
    let sorted = sort_by_start(vec![d(5, 9, "a"), d(1, 2, "b"), d(5, 6, "c"), d(0, 3, "d")]);
    let codes: Vec<&str> = sorted.iter().map(|x| x.code.as_str()).collect();
    assert_eq!(codes, vec!["d", "b", "a", "c"]);
}

#[test]
fn node_builtin_fix_settles_the_warning() {
    assert!(is_bare_node_builtin("fs"));
    assert!(!is_bare_node_builtin("node:fs"));
    assert!(!is_bare_node_builtin("node:assert/strict"));
}

#[test]
fn this_before_super_keeps_the_first_finding() {
    let p = ts("this.x = 1;");
    let mut fresh = StmtChecker { result: None };
    check_statement(&mut fresh, &p.body[0]);
    assert!(matches!(fresh.result, Some(FirstAppeared::ThisAccessed(_))));
    let mut found = StmtChecker { result: Some(FirstAppeared::SuperCalled) };
    check_statement(&mut found, &p.body[0]);
    assert!(matches!(found.result, Some(FirstAppeared::SuperCalled)));
}

#[test]
fn hooks_condition_counter_returns_after_one_more_and_one_less() {
    let mut st = vec![HookFrame::Loop, HookFrame::Fn { name: "useFoo".to_string(), conds: 2 }];
    maybe_increase_cond_counter(&mut st);
    assert!(matches!(&st[1], HookFrame::Fn { conds: 3, .. }));
    maybe_decrease_cond_counter(&mut st);
    assert!(matches!(&st[1], HookFrame::Fn { conds: 2, .. }));
    let mut other = vec![HookFrame::Bin];
    maybe_increase_cond_counter(&mut other);
    assert!(matches!(&other[0], HookFrame::Bin));
}

use deno_lint::linter::rule_enabled;
use deno_lint::linter::sort_by_start;
use deno_lint::rules::node_builtin_specifier::is_bare_node_builtin;
use deno_lint::rules::no_this_before_super::{check_statement, FirstAppeared, StmtChecker};
use deno_lint::rules::react_rules_of_hooks::{maybe_decrease_cond_counter, maybe_increase_cond_counter, HookFrame};
use deno_lint::rules::no_undef::{self as undef, NoUndef};

#[test]
fn no_undef_valid() {
    assert_ok(|p| NoUndef.lint(p), ts, &[
        "var a = 1, b = 2; a;",
        "function a(){}  a();",
        "function f(b) { b; }",
        "var a; a = 1; a++;",
        "var a; function f() { a = 1; }",
        "Object; isNaN();",
        "toString()",
        "hasOwnProperty()",
        "function evilEval(stuffToEval) { var ultimateAnswer; ultimateAnswer = 42; eval(stuffToEval); }",
        "typeof a",
        "typeof (a)",
        "var b = typeof a",
        "typeof a === 'undefined'",
        "if (typeof a === 'undefined') {}",
        "function foo() { var [a, b=4] = [1, 2]; return {a, b}; }",
        "var toString = 1;",
        "function myFunc(...foo) {  return foo;}",
        "function myFunc() { console.log(arguments); }",
        "var console; [1,2,3].forEach(obj => {\n  console.log(obj);\n});",
        "var Foo; class Bar extends Foo { constructor() { super();  }}",
        "import Warning from '../lib/warning'; var warn = new Warning('text');",
        "import * as Warning from '../lib/warning'; var warn = new Warning('text');",
        "var a; [a] = [0];",
        "var a; ({a} = {});",
        "var a; ({b: a} = {});",
        "var obj; [obj.a, obj.b] = [0, 1];",
        "(foo, bar) => { foo ||= WeakRef; bar ??= FinalizationRegistry; }",
        "Array = 1;",
        "class A { constructor() { new.target; } }",
        r#"export * as ns from "source""#,
        "import.meta",
        "
      await new Promise((resolve: () => void, _) => {
        setTimeout(resolve, 100);
      });
      ",
        "
      const importPath = \"./foo.ts\";
      const dataProcessor = await import(importPath);
      ",
        r#"
    class PartWriter implements Deno.Writer {
      closed = false;
      private readonly partHeader: string;
      private headersWritten = false;

      constructor(
        private writer: Deno.Writer,
        readonly boundary: string,
        public headers: Headers,
        isFirstBoundary: boolean,
      ) {
        let buf = "";
        if (isFirstBoundary) {
          buf += `--${boundary}\r\n`;
        } else {
          buf += `\r\n--${boundary}\r\n`;
        }
        for (const [key, value] of headers.entries()) {
          buf += `${key}: ${value}\r\n`;
        }
        buf += `\r\n`;
        this.partHeader = buf;
      }

      close(): void {
        this.closed = true;
      }

      async write(p: Uint8Array): Promise<number> {
        if (this.closed) {
          throw new Error("part is closed");
        }
        if (!this.headersWritten) {
          this.headersWritten = true;
        }
        return this.writer.write(p);
      }
    }
    "#,
        r#"
    const listeners = [];
    for (const listener of listeners) {
      try {
      } catch (err) {
        this.emit("error", err);
      }
    }
    "#,
        r#"
    (() => {
      function foo() {
        return new Bar();
      }
      class Bar {}
    })();
        "#,
        r#"
    function f() {
      function foo() {
        return new Bar();
      }
      class Bar {}
    }
    "#,
        r#"
    function f() {
      foo++;
      {
        var foo = 1;
      }
    }
    "#,
        r#"type Foo = ""; export default Foo;"#,
        r#"type Foo = Array<string>; export default Foo;"#,
        r#"type Foo = string | number; export default Foo;"#,
        r#"type Foo<T> = { bar: T }; export default Foo;"#,
        r#"type Foo = string | undefined; export type { Foo };"#,
        r#"
      const f = (
        { a }: Foo,
        b: boolean,
      ) => {};
      "#,
        "export default function foo() {} foo();",
        "export default class Foo {} const foo = new Foo();",
        "export default interface Foo {} const foo: Foo = {};",
        r#"function foo([nb, min]: [number, number], [value, diff]: [number, number]) { return "Hello Bug !" }"#,
        r#"const foo = ([nb, min]: [number, number], [value, diff]: [number, number]) => "Hello Bug !""#,
        "function foo([a]: [number], [b]: [boolean]) {}",
        "function foo([a, x]: [number, number], [b]: [boolean]) {}",
        "function foo([a]: [number], [b, y]: [boolean, boolean]) {}",
        "function foo({ a }: { a: number }, [b]: [boolean]) {}",
        "const foo = ([a]: [number], [b]: [boolean]) => {};",
        "const foo = ([a, x]: [number, number], [b]: [boolean]) => {};",
        "const foo = ([a]: [number], [b, y]: [boolean, boolean]) => {};",
        "const foo = ({ a }: { a: number }, [b]: [boolean]) => {};",
    ]);
}

#[test]
fn no_undef_invalid() {
    assert_err(|p| NoUndef.lint(p), ts, undef::CODE, vec![
        ("a = 1;", vec![e(1, 0, "a is not defined")]),
        ("var a = b;", vec![e(1, 8, "b is not defined")]),
        ("function f() { b; }", vec![e(1, 15, "b is not defined")]),
        ("[a] = [0];", vec![e(1, 1, "a is not defined")]),
        ("({a} = {});", vec![e(1, 2, "a is not defined")]),
        ("({b: a} = {});", vec![e(1, 5, "a is not defined")]),
        ("[obj.a, obj.b] = [0, 1];", vec![e(1, 1, "obj is not defined"), e(1, 8, "obj is not defined")]),
        ("const c = 0; const a = {...b, c};", vec![e(1, 27, "b is not defined")]),
        ("foo++; function f() { var foo = 0; }", vec![e(1, 0, "foo is not defined")]),
        ("foo++; { let foo = 0; }", vec![e(1, 0, "foo is not defined")]),
        ("type Foo = string; export default Bar;", vec![e(1, 34, "Bar is not defined")]),
    ]);
}
