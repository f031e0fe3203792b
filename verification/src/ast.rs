//! The syntax tree that the rules read: JavaScript, TypeScript and JSX, held as
//! plain values. Every node that a diagnostic can point at carries its span, a
//! pair of byte offsets into the source text.

use vstd::prelude::*;

verus! {

/// A half-open range of byte offsets into the source text.
#[derive(Debug, Clone, Copy, PartialEq, Eq, Structural)]
pub struct Span {
    pub lo: usize,
    pub hi: usize,
}

/// An identifier, as a name and where it stands. Where the identifier is a
/// reference to a variable that a declaration of the program binds,
/// `binding` holds the mark that scope analysis gives that binding: a
/// reference and the declaration it resolves to have the same name and the
/// same mark. It is `None` for a reference to a global, and for a name that
/// is no reference (a declared name, a property name, a label).
#[derive(Debug)]
pub struct Ident {
    pub span: Span,
    pub name: String,
    pub binding: Option<u32>,
}

/// A string literal; `value` is the cooked value, without the quotes.
#[derive(Debug)]
pub struct StrLit {
    pub span: Span,
    pub value: String,
}

/// A numeric literal. A literal is never negative, so its value is described
/// exactly, for the comparisons with integers that the rules make, by its whole
/// part (`None` where that part is at least 2^64) and whether it has a
/// fractional part. `value_text` is the value as a property name reads it: the
/// shortest decimal, without exponent, that reads back to the value (`1` for
/// `1.0`, `0.5` for `.5`, `255` for `0xff`).
#[derive(Debug)]
pub struct NumLit {
    pub span: Span,
    pub whole: Option<u64>,
    pub has_fraction: bool,
    pub value_text: String,
}

#[derive(Debug)]
pub enum Lit {
    Str(StrLit),
    Num(NumLit),
    Bool(Span, bool),
    Null(Span),
    BigInt(Span),
    Regex(Span),
}

#[derive(Debug, Clone, Copy, PartialEq, Eq, Structural)]
pub enum VarKind {
    Var,
    Let,
    Const,
    /// `using`
    Using,
    /// `await using`
    AwaitUsing,
}

#[derive(Debug, Clone, Copy, PartialEq, Eq, Structural)]
pub enum BinOp {
    EqEq,
    NotEq,
    EqEqEq,
    NotEqEq,
    Lt,
    LtEq,
    Gt,
    GtEq,
    Add,
    Sub,
    Mul,
    Div,
    Mod,
    Exp,
    BitAnd,
    BitOr,
    BitXor,
    LShift,
    RShift,
    ZeroFillRShift,
    In,
    InstanceOf,
    LogicalAnd,
    LogicalOr,
    NullishCoalescing,
}

#[derive(Debug, Clone, Copy, PartialEq, Eq, Structural)]
pub enum UnaryOp {
    Minus,
    Plus,
    Bang,
    Tilde,
    TypeOf,
    Void,
    Delete,
}

#[derive(Debug, Clone, Copy, PartialEq, Eq, Structural)]
pub enum AssignOp {
    Assign,
    AddAssign,
    SubAssign,
    MulAssign,
    DivAssign,
    ModAssign,
    ExpAssign,
    LShiftAssign,
    RShiftAssign,
    ZeroFillRShiftAssign,
    BitOrAssign,
    BitXorAssign,
    BitAndAssign,
    AndAssign,
    OrAssign,
    NullishAssign,
}

/// How a method is introduced in an object literal or a class body.
#[derive(Debug, Clone, Copy, PartialEq, Eq, Structural)]
pub enum MethodKind {
    Method,
    Getter,
    Setter,
    Constructor,
}

/// A part of a template literal: its text as written, and as cooked (`None`
/// where an escape is invalid).
#[derive(Debug)]
pub struct TplElement {
    pub span: Span,
    pub raw: String,
    pub cooked: Option<String>,
}

/// An expression, possibly preceded by `...`; `span` takes in the `...`.
#[derive(Debug)]
pub struct ExprOrSpread {
    pub span: Span,
    pub spread: bool,
    pub expr: Expr,
}

/// The name of a property in an object literal, a class or an object pattern.
#[derive(Debug)]
pub enum PropName {
    Ident(Ident),
    Str(StrLit),
    Num(NumLit),
    /// A bigint literal, such as `1n`.
    BigInt(Span),
    Private(Ident),
    /// `[expr]`; the span takes in the brackets.
    Computed { span: Span, expr: Box<Expr> },
}

#[derive(Debug)]
pub enum MemberProp {
    Ident(Ident),
    Private(Ident),
    Computed(Box<Expr>),
}

#[derive(Debug)]
pub enum Callee {
    Expr(Box<Expr>),
    Super(Span),
    /// `import(..)`, a dynamic import.
    Import(Span),
}

#[derive(Debug)]
pub struct Block {
    pub span: Span,
    pub stmts: Vec<Stmt>,
}

#[derive(Debug)]
pub struct Param {
    pub span: Span,
    pub pat: Pat,
}

#[derive(Debug)]
pub struct Function {
    pub span: Span,
    pub id: Option<Ident>,
    pub params: Vec<Param>,
    pub body: Option<Block>,
    pub is_async: bool,
    pub is_generator: bool,
    pub return_type: Option<TsType>,
    /// `declare function`: an ambient declaration.
    pub declare: bool,
}

#[derive(Debug)]
pub enum ArrowBody {
    Block(Block),
    Expr(Box<Expr>),
}

#[derive(Debug)]
pub struct ArrowFn {
    pub span: Span,
    pub params: Vec<Pat>,
    pub body: ArrowBody,
    pub is_async: bool,
    pub return_type: Option<TsType>,
}

#[derive(Debug)]
pub enum ClassMember {
    Method { span: Span, key: PropName, func: Function, kind: MethodKind, is_static: bool },
    Prop { span: Span, key: PropName, type_ann: Option<TsType>, value: Option<Expr>, is_static: bool },
    /// `accessor key = value`: a property with a getter and a setter.
    Accessor { span: Span, key: PropName, type_ann: Option<TsType>, value: Option<Expr>, is_static: bool },
    /// `static { .. }`, run once when the class is defined.
    StaticBlock { span: Span, body: Block },
}

#[derive(Debug)]
pub struct Class {
    pub span: Span,
    pub id: Option<Ident>,
    pub super_class: Option<Box<Expr>>,
    pub members: Vec<ClassMember>,
    /// `declare class`: an ambient declaration.
    pub declare: bool,
}

/// A property of an object literal.
#[derive(Debug)]
pub enum Prop {
    KeyValue { span: Span, key: PropName, value: Expr },
    Shorthand(Ident),
    Method { span: Span, key: PropName, func: Function, kind: MethodKind },
    Spread { span: Span, expr: Expr },
}

#[derive(Debug)]
pub enum JsxAttrValue {
    Str(StrLit),
    /// `{..}`; `None` for the empty `{}`.
    Container(Option<Box<Expr>>),
    Element(Box<JsxElement>),
    /// A fragment, `<>..</>`, with its children.
    Fragment { span: Span, children: Vec<JsxChild> },
}

#[derive(Debug)]
pub enum JsxAttrOrSpread {
    Attr { span: Span, name: Ident, value: Option<JsxAttrValue> },
    Spread { span: Span, expr: Expr },
}

#[derive(Debug)]
pub enum JsxChild {
    Text { span: Span, value: String },
    Container { span: Span, expr: Option<Expr> },
    Element(JsxElement),
    /// A fragment, `<>..</>`, with its children.
    Fragment { span: Span, children: Vec<JsxChild> },
}

/// A JSX element: its opening tag (name and attributes) and its children.
#[derive(Debug)]
pub struct JsxElement {
    pub span: Span,
    pub opening_span: Span,
    pub name: Ident,
    pub attrs: Vec<JsxAttrOrSpread>,
    pub children: Vec<JsxChild>,
}

#[derive(Debug)]
pub enum Expr {
    This(Span),
    /// `super`, as the object of a member access.
    Super(Span),
    Ident(Ident),
    Lit(Lit),
    /// A template literal: its substitutions, and the text of each of its
    /// parts.
    Template { span: Span, exprs: Vec<Expr>, quasis: Vec<TplElement> },
    TaggedTemplate { span: Span, tag: Box<Expr>, exprs: Vec<Expr>, quasis: Vec<TplElement> },
    Array { span: Span, elems: Vec<Option<ExprOrSpread>> },
    Object { span: Span, props: Vec<Prop> },
    Fn(Function),
    Arrow(ArrowFn),
    Class(Class),
    Unary { span: Span, op: UnaryOp, arg: Box<Expr> },
    Update { span: Span, arg: Box<Expr> },
    Bin { span: Span, op: BinOp, left: Box<Expr>, right: Box<Expr> },
    Assign { span: Span, op: AssignOp, left: Box<Pat>, right: Box<Expr> },
    Member { span: Span, obj: Box<Expr>, prop: MemberProp, optional: bool },
    Call { span: Span, callee: Callee, args: Vec<ExprOrSpread>, optional: bool },
    New { span: Span, callee: Box<Expr>, args: Vec<ExprOrSpread> },
    Sequence { span: Span, exprs: Vec<Expr> },
    Cond { span: Span, test: Box<Expr>, cons: Box<Expr>, alt: Box<Expr> },
    Await { span: Span, arg: Box<Expr> },
    Yield { span: Span, arg: Option<Box<Expr>>, delegate: bool },
    Paren { span: Span, expr: Box<Expr> },
    Jsx(JsxElement),
    /// A JSX fragment, `<>..</>`, with its children.
    JsxFragment { span: Span, children: Vec<JsxChild> },
    TsAs { span: Span, expr: Box<Expr>, ty: TsType },
    /// `expr satisfies ty`
    TsSatisfies { span: Span, expr: Box<Expr>, ty: TsType },
    /// `<ty>expr`
    TsTypeAssertion { span: Span, expr: Box<Expr>, ty: TsType },
    /// `expr!`
    TsNonNull { span: Span, expr: Box<Expr> },
    /// `new.target` or `import.meta`.
    MetaProp(Span),
    /// `expr<T, ..>`: an expression given type arguments.
    TsInstantiation { span: Span, expr: Box<Expr>, type_args: Vec<TsType> },
}

/// A property of an object pattern. For `{ a }` the key and the value both
/// name `a` and `shorthand` holds.
#[derive(Debug)]
pub enum ObjectPatProp {
    KeyValue { span: Span, key: PropName, value: Pat, shorthand: bool },
    Rest { span: Span, arg: Pat },
}

#[derive(Debug)]
pub enum Pat {
    /// A name that a pattern declares or assigns, with the mark that scope
    /// analysis gives its binding (`None` where it assigns a global).
    Ident { span: Span, name: String, binding: Option<u32>, type_ann: Option<TsType> },
    Array { span: Span, elems: Vec<Option<Pat>>, type_ann: Option<TsType> },
    Object { span: Span, props: Vec<ObjectPatProp>, type_ann: Option<TsType> },
    Rest { span: Span, arg: Box<Pat> },
    Assign { span: Span, left: Box<Pat>, right: Box<Expr> },
    /// An expression in the place of an assignment target, such as `a.b`.
    Expr(Box<Expr>),
}

#[derive(Debug)]
pub struct VarDeclarator {
    pub span: Span,
    pub name: Pat,
    pub init: Option<Expr>,
}

#[derive(Debug)]
pub struct VarDecl {
    pub span: Span,
    pub kind: VarKind,
    pub decls: Vec<VarDeclarator>,
    /// `declare var`, `declare let`, `declare const`: an ambient declaration.
    pub declare: bool,
}

#[derive(Debug)]
pub enum ForInit {
    Var(VarDecl),
    Expr(Expr),
}

#[derive(Debug)]
pub enum ForHead {
    Var(VarDecl),
    Pat(Pat),
}

#[derive(Debug)]
pub enum ModuleExportName {
    Ident(Ident),
    Str(StrLit),
}

#[derive(Debug)]
pub enum ImportSpecifier {
    /// `{ imported as local }`; for `{ a }` both name `a`, with the same span.
    Named { span: Span, local: Ident, imported: ModuleExportName },
    Default { span: Span, local: Ident },
    Namespace { span: Span, local: Ident },
}

/// `{ local as exported }`; for `{ a }` both name `a`, with the same span.
#[derive(Debug)]
pub struct ExportSpecifier {
    pub span: Span,
    pub local: ModuleExportName,
    pub exported: ModuleExportName,
    /// `* as name`: `local` and `exported` both give the name.
    pub namespace: bool,
}

#[derive(Debug, Clone, Copy, PartialEq, Eq, Structural)]
pub enum TsModuleKind {
    Module,
    Namespace,
    Global,
}

#[derive(Debug)]
pub enum TsModuleName {
    Ident(Ident),
    Str(StrLit),
}

#[derive(Debug)]
pub struct TsModuleBlock {
    pub span: Span,
    pub stmts: Vec<Stmt>,
}

#[derive(Debug)]
pub enum TsType {
    /// A reference to a named type, with its type arguments if any.
    Ref { span: Span, name: Ident, type_args: Option<Vec<TsType>> },
    This(Span),
    Keyword(Span),
    /// A literal type: a string, a number, a boolean or a bigint.
    Lit { span: Span, lit: Lit },
    /// A type literal, `{ .. }`, with its members.
    TypeLit { span: Span, members: Vec<TsTypeElement> },
    /// Any other type, with the types written inside it, in source order.
    Other { span: Span, types: Vec<TsType> },
}

#[derive(Debug, Clone, Copy, PartialEq, Eq, Structural)]
pub enum TsElementKind {
    Property,
    Method,
    Getter,
    Setter,
    /// An index signature, a call signature or a construct signature.
    Other,
}

/// A member of a type literal or of an interface: its key where that is an
/// identifier, and its annotation (a property's type, or a method's or a
/// getter's return type).
#[derive(Debug)]
pub struct TsTypeElement {
    pub span: Span,
    pub kind: TsElementKind,
    pub key: Option<Ident>,
    pub type_ann: Option<TsType>,
}

/// A member of an enum: its name where that is an identifier, and its
/// initializer.
#[derive(Debug)]
pub struct TsEnumMember {
    pub span: Span,
    pub id: Option<Ident>,
    pub init: Option<Expr>,
}

#[derive(Debug)]
pub struct SwitchCase {
    pub span: Span,
    /// `None` for `default:`.
    pub test: Option<Expr>,
    pub cons: Vec<Stmt>,
}

#[derive(Debug)]
pub struct CatchClause {
    pub span: Span,
    pub param: Option<Pat>,
    pub body: Block,
}

#[derive(Debug)]
pub enum Stmt {
    Expr { span: Span, expr: Expr },
    Block(Block),
    Empty(Span),
    Var(VarDecl),
    If { span: Span, test: Expr, cons: Box<Stmt>, alt: Option<Box<Stmt>> },
    For { span: Span, init: Option<ForInit>, test: Option<Expr>, update: Option<Expr>, body: Box<Stmt> },
    ForIn { span: Span, left: ForHead, right: Expr, body: Box<Stmt> },
    ForOf { span: Span, is_await: bool, left: ForHead, right: Expr, body: Box<Stmt> },
    While { span: Span, test: Expr, body: Box<Stmt> },
    DoWhile { span: Span, body: Box<Stmt>, test: Expr },
    Labeled { span: Span, label: Ident, body: Box<Stmt> },
    Break { span: Span, label: Option<Ident> },
    Continue { span: Span, label: Option<Ident> },
    Return { span: Span, arg: Option<Expr> },
    Throw { span: Span, arg: Expr },
    Try { span: Span, block: Block, handler: Option<CatchClause>, finalizer: Option<Block> },
    With { span: Span, object: Expr, body: Box<Stmt> },
    Switch { span: Span, discriminant: Expr, cases: Vec<SwitchCase> },
    Fn(Function),
    Class(Class),
    Import { span: Span, specifiers: Vec<ImportSpecifier>, src: StrLit },
    ExportNamed { span: Span, specifiers: Vec<ExportSpecifier>, src: Option<StrLit> },
    /// `export` before a declaration, or `export default` before an
    /// interface.
    ExportDecl { span: Span, decl: Box<Stmt> },
    ExportDefaultExpr { span: Span, expr: Expr },
    TsModule { span: Span, declare: bool, kind: TsModuleKind, name: TsModuleName, body: Option<TsModuleBlock> },
    TsTypeAlias { span: Span, declare: bool, id: Ident, ty: TsType },
    /// An interface: the types written in its body, in source order, and
    /// where each of its method signatures stands.
    TsInterface {
        span: Span,
        declare: bool,
        id: Ident,
        members: Vec<TsTypeElement>,
        types: Vec<TsType>,
        method_spans: Vec<Span>,
    },
    TsEnum { span: Span, declare: bool, id: Ident, members: Vec<TsEnumMember> },
}

#[derive(Debug, Clone, Copy, PartialEq, Eq, Structural)]
pub enum CommentKind {
    Line,
    Block,
}

/// A comment; `text` is what stands between the delimiters (`//`, or `/*` and `*/`).
#[derive(Debug)]
pub struct Comment {
    pub span: Span,
    pub kind: CommentKind,
    pub text: String,
}

/// A parsed program: its statements, its comments and its source text.
#[derive(Debug)]
pub struct Program {
    pub source: String,
    pub body: Vec<Stmt>,
    pub comments: Vec<Comment>,
}

/// The span of a name in an import or export.
pub open spec fn export_name_span(n: ModuleExportName) -> Span {
    match n {
        ModuleExportName::Ident(i) => i.span,
        ModuleExportName::Str(s) => s.span,
    }
}

/// The span of a name in an import or export.
pub fn export_name_span_of(n: &ModuleExportName) -> (r: Span)
    ensures
        r == export_name_span(*n),
{
    match n {
        ModuleExportName::Ident(i) => i.span,
        ModuleExportName::Str(s) => s.span,
    }
}

/// The span of a literal.
pub open spec fn lit_span(l: Lit) -> Span {
    match l {
        Lit::Str(s) => s.span,
        Lit::Num(n) => n.span,
        Lit::Bool(span, _) => span,
        Lit::Null(span) => span,
        Lit::BigInt(span) => span,
        Lit::Regex(span) => span,
    }
}

/// The span of an expression.
pub open spec fn expr_span(e: Expr) -> Span {
    match e {
        Expr::This(span) => span,
        Expr::Super(span) => span,
        Expr::Ident(i) => i.span,
        Expr::Lit(l) => lit_span(l),
        Expr::Template { span, .. } => span,
        Expr::TaggedTemplate { span, .. } => span,
        Expr::Array { span, .. } => span,
        Expr::Object { span, .. } => span,
        Expr::Fn(f) => f.span,
        Expr::Arrow(a) => a.span,
        Expr::Class(c) => c.span,
        Expr::Unary { span, .. } => span,
        Expr::Update { span, .. } => span,
        Expr::Bin { span, .. } => span,
        Expr::Assign { span, .. } => span,
        Expr::Member { span, .. } => span,
        Expr::Call { span, .. } => span,
        Expr::New { span, .. } => span,
        Expr::Sequence { span, .. } => span,
        Expr::Cond { span, .. } => span,
        Expr::Await { span, .. } => span,
        Expr::Yield { span, .. } => span,
        Expr::Paren { span, .. } => span,
        Expr::Jsx(el) => el.span,
        Expr::TsAs { span, .. } => span,
        Expr::TsSatisfies { span, .. } => span,
        Expr::TsTypeAssertion { span, .. } => span,
        Expr::TsNonNull { span, .. } => span,
        Expr::MetaProp(span) => span,
        Expr::JsxFragment { span, .. } => span,
        Expr::TsInstantiation { span, .. } => span,
    }
}

/// The span of an expression.
pub fn span_of(e: &Expr) -> (r: Span)
    ensures
        r == expr_span(*e),
{
    match e {
        Expr::This(span) => *span,
        Expr::Super(span) => *span,
        Expr::Ident(i) => i.span,
        Expr::Lit(l) => match l {
            Lit::Str(s) => s.span,
            Lit::Num(n) => n.span,
            Lit::Bool(span, _) => *span,
            Lit::Null(span) => *span,
            Lit::BigInt(span) => *span,
            Lit::Regex(span) => *span,
        },
        Expr::Template { span, .. } => *span,
        Expr::TaggedTemplate { span, .. } => *span,
        Expr::Array { span, .. } => *span,
        Expr::Object { span, .. } => *span,
        Expr::Fn(f) => f.span,
        Expr::Arrow(a) => a.span,
        Expr::Class(c) => c.span,
        Expr::Unary { span, .. } => *span,
        Expr::Update { span, .. } => *span,
        Expr::Bin { span, .. } => *span,
        Expr::Assign { span, .. } => *span,
        Expr::Member { span, .. } => *span,
        Expr::Call { span, .. } => *span,
        Expr::New { span, .. } => *span,
        Expr::Sequence { span, .. } => *span,
        Expr::Cond { span, .. } => *span,
        Expr::Await { span, .. } => *span,
        Expr::Yield { span, .. } => *span,
        Expr::Paren { span, .. } => *span,
        Expr::Jsx(el) => el.span,
        Expr::TsAs { span, .. } => *span,
        Expr::TsSatisfies { span, .. } => *span,
        Expr::TsTypeAssertion { span, .. } => *span,
        Expr::TsNonNull { span, .. } => *span,
        Expr::MetaProp(span) => *span,
        Expr::JsxFragment { span, .. } => *span,
        Expr::TsInstantiation { span, .. } => *span,
    }
}

/// Whether an expression is part of an optional chain, such as `a?.b.c` or
/// `f?.()`: a member access or call with `?.` in it or in the accesses and
/// calls it is made of.
pub open spec fn is_chain(e: Expr) -> bool
    decreases e,
{
    match e {
        Expr::Member { obj, optional, .. } => optional || is_chain(*obj),
        Expr::Call { callee, optional, .. } => optional || match callee {
            Callee::Expr(c) => is_chain(*c),
            _ => false,
        },
        _ => false,
    }
}

/// Whether an expression is an optional chain.
pub fn is_optional_chain(e: &Expr) -> (r: bool)
    ensures
        r == is_chain(*e),
    decreases *e,
{
    match e {
        Expr::Member { obj, optional, .. } => *optional || is_optional_chain(obj),
        Expr::Call { callee, optional, .. } => *optional || match callee {
            Callee::Expr(c) => is_optional_chain(c),
            _ => false,
        },
        _ => false,
    }
}

/// Where a type stands.
pub open spec fn type_span(t: TsType) -> Span {
    match t {
        TsType::Ref { span, .. } => span,
        TsType::This(span) => span,
        TsType::Keyword(span) => span,
        TsType::Lit { span, .. } => span,
        TsType::TypeLit { span, .. } => span,
        TsType::Other { span, .. } => span,
    }
}

pub fn type_span_of(t: &TsType) -> (r: Span)
    ensures
        r == type_span(*t),
{
    match t {
        TsType::Ref { span, .. } => *span,
        TsType::This(span) => *span,
        TsType::Keyword(span) => *span,
        TsType::Lit { span, .. } => *span,
        TsType::TypeLit { span, .. } => *span,
        TsType::Other { span, .. } => *span,
    }
}

/// Where a property name stands.
pub open spec fn prop_name_span(k: PropName) -> Span {
    match k {
        PropName::Ident(i) => i.span,
        PropName::Str(s) => s.span,
        PropName::Num(n) => n.span,
        PropName::BigInt(span) => span,
        PropName::Private(i) => i.span,
        PropName::Computed { span, .. } => span,
    }
}

pub fn prop_name_span_of(k: &PropName) -> (r: Span)
    ensures
        r == prop_name_span(*k),
{
    match k {
        PropName::Ident(i) => i.span,
        PropName::Str(s) => s.span,
        PropName::Num(n) => n.span,
        PropName::BigInt(span) => *span,
        PropName::Private(i) => i.span,
        PropName::Computed { span, .. } => *span,
    }
}

/// Where a statement stands.
pub open spec fn stmt_span(s: Stmt) -> Span {
    match s {
        Stmt::Expr { span, .. } => span,
        Stmt::Block(b) => b.span,
        Stmt::Empty(span) => span,
        Stmt::Var(d) => d.span,
        Stmt::If { span, .. } => span,
        Stmt::For { span, .. } => span,
        Stmt::ForIn { span, .. } => span,
        Stmt::ForOf { span, .. } => span,
        Stmt::While { span, .. } => span,
        Stmt::DoWhile { span, .. } => span,
        Stmt::Labeled { span, .. } => span,
        Stmt::Break { span, .. } => span,
        Stmt::Continue { span, .. } => span,
        Stmt::Return { span, .. } => span,
        Stmt::Throw { span, .. } => span,
        Stmt::Try { span, .. } => span,
        Stmt::With { span, .. } => span,
        Stmt::Switch { span, .. } => span,
        Stmt::Fn(f) => f.span,
        Stmt::Class(c) => c.span,
        Stmt::Import { span, .. } => span,
        Stmt::ExportNamed { span, .. } => span,
        Stmt::ExportDecl { span, .. } => span,
        Stmt::ExportDefaultExpr { span, .. } => span,
        Stmt::TsModule { span, .. } => span,
        Stmt::TsTypeAlias { span, .. } => span,
        Stmt::TsInterface { span, .. } => span,
        Stmt::TsEnum { span, .. } => span,
    }
}

pub fn stmt_span_of(s: &Stmt) -> (r: Span)
    ensures
        r == stmt_span(*s),
{
    match s {
        Stmt::Expr { span, .. } => *span,
        Stmt::Block(b) => b.span,
        Stmt::Empty(span) => *span,
        Stmt::Var(d) => d.span,
        Stmt::If { span, .. } => *span,
        Stmt::For { span, .. } => *span,
        Stmt::ForIn { span, .. } => *span,
        Stmt::ForOf { span, .. } => *span,
        Stmt::While { span, .. } => *span,
        Stmt::DoWhile { span, .. } => *span,
        Stmt::Labeled { span, .. } => *span,
        Stmt::Break { span, .. } => *span,
        Stmt::Continue { span, .. } => *span,
        Stmt::Return { span, .. } => *span,
        Stmt::Throw { span, .. } => *span,
        Stmt::Try { span, .. } => *span,
        Stmt::With { span, .. } => *span,
        Stmt::Switch { span, .. } => *span,
        Stmt::Fn(f) => f.span,
        Stmt::Class(c) => c.span,
        Stmt::Import { span, .. } => *span,
        Stmt::ExportNamed { span, .. } => *span,
        Stmt::ExportDecl { span, .. } => *span,
        Stmt::ExportDefaultExpr { span, .. } => *span,
        Stmt::TsModule { span, .. } => *span,
        Stmt::TsTypeAlias { span, .. } => *span,
        Stmt::TsInterface { span, .. } => *span,
        Stmt::TsEnum { span, .. } => *span,
    }
}

// ---------------------------------------------------------------------------
// The names that a pattern binds.

/// The names that a binding pattern declares, with where they stand.
pub open spec fn pat_ids(p: Pat) -> Seq<(Seq<char>, Span)>
    decreases p, 0int,
{
    match p {
        Pat::Ident { span, name, .. } => seq![(name@, span)],
        Pat::Array { elems, .. } => opt_pats_ids(elems@, 0),
        Pat::Object { props, .. } => pat_props_ids(props@, 0),
        Pat::Rest { arg, .. } => pat_ids(*arg),
        Pat::Assign { left, .. } => pat_ids(*left),
        Pat::Expr(_) => Seq::empty(),
    }
}

pub open spec fn opt_pats_ids(s: Seq<Option<Pat>>, i: int) -> Seq<(Seq<char>, Span)>
    decreases s, s.len() - i,
{
    if 0 <= i < s.len() {
        (match s[i] {
            Some(p) => pat_ids(p),
            None => Seq::empty(),
        }) + opt_pats_ids(s, i + 1)
    } else {
        Seq::empty()
    }
}

pub open spec fn pat_props_ids(s: Seq<ObjectPatProp>, i: int) -> Seq<(Seq<char>, Span)>
    decreases s, s.len() - i,
{
    if 0 <= i < s.len() {
        (match s[i] {
            ObjectPatProp::KeyValue { value, .. } => pat_ids(value),
            ObjectPatProp::Rest { arg, .. } => pat_ids(arg),
        }) + pat_props_ids(s, i + 1)
    } else {
        Seq::empty()
    }
}

/// The names of a list of bindings, as values.
pub open spec fn ids_view(v: Seq<(String, Span)>) -> Seq<(Seq<char>, Span)> {
    v.map_values(|x: (String, Span)| (x.0@, x.1))
}

/// Appends a binding to a list.
pub fn push_id(out: &mut Vec<(String, Span)>, name: &String, span: Span)
    ensures
        ids_view(final(out)@) == ids_view(old(out)@).push((name@, span)),
{
    out.push((name.clone(), span));
    assert(ids_view(out@) =~= ids_view(old(out)@).push((name@, span)));
}

/// Appends the names that a pattern binds.
pub fn push_pat_ids(p: &Pat, out: &mut Vec<(String, Span)>)
    ensures
        ids_view(final(out)@) == ids_view(old(out)@) + pat_ids(*p),
    decreases *p, 0int,
{
    match p {
        Pat::Ident { span, name, .. } => {
            push_id(out, name, *span);
            assert(ids_view(out@) =~= ids_view(old(out)@) + pat_ids(*p));
        },
        Pat::Array { elems, .. } => push_opt_pats_ids(elems, out),
        Pat::Object { props, .. } => push_pat_props_ids(props, out),
        Pat::Rest { arg, .. } => push_pat_ids(arg, out),
        Pat::Assign { left, .. } => push_pat_ids(left, out),
        Pat::Expr(_) => {
            assert(ids_view(out@) =~= ids_view(old(out)@) + pat_ids(*p));
        },
    }
}

fn push_opt_pats_ids(v: &Vec<Option<Pat>>, out: &mut Vec<(String, Span)>)
    ensures
        ids_view(final(out)@) == ids_view(old(out)@) + opt_pats_ids(v@, 0),
    decreases v@, 1int,
{
    let ghost o = ids_view(out@);
    let mut i: usize = 0;
    while i < v.len()
        invariant
            i <= v@.len(),
            ids_view(out@) + opt_pats_ids(v@, i as int) == o + opt_pats_ids(v@, 0),
        decreases v@.len() - i,
    {
        let ghost before = ids_view(out@);
        match &v[i] {
            Some(p) => push_pat_ids(p, out),
            None => {},
        }
        assert(ids_view(out@) + opt_pats_ids(v@, i + 1) =~= before + opt_pats_ids(v@, i as int));
        i = i + 1;
    }
    assert(ids_view(out@) + opt_pats_ids(v@, i as int) =~= ids_view(out@));
}

fn push_pat_props_ids(v: &Vec<ObjectPatProp>, out: &mut Vec<(String, Span)>)
    ensures
        ids_view(final(out)@) == ids_view(old(out)@) + pat_props_ids(v@, 0),
    decreases v@, 1int,
{
    let ghost o = ids_view(out@);
    let mut i: usize = 0;
    while i < v.len()
        invariant
            i <= v@.len(),
            ids_view(out@) + pat_props_ids(v@, i as int) == o + pat_props_ids(v@, 0),
        decreases v@.len() - i,
    {
        let ghost before = ids_view(out@);
        match &v[i] {
            ObjectPatProp::KeyValue { value, .. } => push_pat_ids(value, out),
            ObjectPatProp::Rest { arg, .. } => push_pat_ids(arg, out),
        }
        assert(ids_view(out@) + pat_props_ids(v@, i + 1) =~= before + pat_props_ids(v@, i as int));
        i = i + 1;
    }
    assert(ids_view(out@) + pat_props_ids(v@, i as int) =~= ids_view(out@));
}

/// The names that a pattern binds, with where they stand.
pub fn pat_ids_of(p: &Pat) -> (r: Vec<(String, Span)>)
    ensures
        ids_view(r@) == pat_ids(*p),
{
    let mut out: Vec<(String, Span)> = Vec::new();
    assert(ids_view(out@) =~= Seq::<(Seq<char>, Span)>::empty());
    push_pat_ids(p, &mut out);
    assert(ids_view(out@) =~= pat_ids(*p));
    out
}

} // verus!
