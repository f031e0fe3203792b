//! `prefer-primordials`: code that runs beside user code (such as the
//! runtime's own JavaScript) is to reach the built-ins through the frozen
//! `primordials` object, since user code may replace the globals and the
//! prototype methods, and is to stay clear of the iterator protocol, of
//! `instanceof`, of `in` and of objects that inherit from `Object.prototype`.

use vstd::prelude::*;
use crate::ast::{
    BinOp, Callee, Expr, ExprOrSpread, ForHead, Lit, MemberProp, Pat, Program, Prop, PropName, Span,
    Stmt, VarDeclarator, expr_span, span_of,
};
use crate::diagnostic::{Diagnostic, DiagnosticView, diag_views, hinted_diag, push_diag};
use crate::text::str_eq;
use crate::walk::{Event, Node, NodeRef, SEvent, event_views, program_events, walk_program};
use crate::rules::{fold_events, lemma_fold_events_all, lemma_fold_events_step};

verus! {

pub const CODE: &'static str = "prefer-primordials";

pub const GLOBAL_INTRINSIC_MESSAGE: &'static str = "Don't use the global intrinsic";

pub const UNSAFE_INTRINSIC_MESSAGE: &'static str = "Don't use the unsafe intrinsic";

pub const DEFINE_PROPERTY_MESSAGE: &'static str = "Use null [[prototype]] object in the define property";

pub const DEFAULT_PARAMETER_MESSAGE: &'static str = "Use null [[prototype]] object in the default parameter";

pub const ITERATOR_MESSAGE: &'static str = "Don't use iterator protocol directly";

pub const REGEXP_MESSAGE: &'static str = "Don't use RegExp literal directly";

pub const INSTANCEOF_MESSAGE: &'static str = "Don't use `instanceof` operator";

pub const IN_MESSAGE: &'static str = "Don't use `in` operator";

pub const GLOBAL_INTRINSIC_HINT: &'static str = "Instead use the equivalent from the `primordials` object";

pub const UNSAFE_INTRINSIC_HINT: &'static str = "Instead use the safe wrapper from the `primordials` object";

pub const NULL_PROTOTYPE_HINT: &'static str = "Add `__proto__: null` to this object literal";

pub const SAFE_ITERATOR_HINT: &'static str = "Wrap a SafeIterator from the `primordials` object";

pub const SAFE_REGEXP_HINT: &'static str = "Wrap `SafeRegExp` from the `primordials` object";

pub const OBJECT_PATTERN_HINT: &'static str = "Instead use the object pattern destructuring assignment";

pub const INSTANCEOF_HINT: &'static str = "Instead use `ObjectPrototypeIsPrototypeOf` from the `primordials` object";

pub const IN_HINT: &'static str = "Instead use either `ObjectHasOwn` or `ReflectHas` from the `primordials` object";

/// Reports the uses of globals, prototype methods and language features that
/// user code can tamper with.
#[derive(Debug)]
pub struct PreferPrimordials;

/// The globals that `primordials` has an equivalent of.
pub const GLOBAL_TARGETS: [&'static str; 53] = [
    "isFinite",
    "isNaN",
    "decodeURI",
    "decodeURIComponent",
    "encodeURI",
    "encodeURIComponent",
    "eval",
    "parseFloat",
    "parseInt",
    "queueMicrotask",
    "Atomics",
    "JSON",
    "Math",
    "Reflect",
    "AggregateError",
    "Array",
    "ArrayBuffer",
    "BigInt",
    "BigInt64Array",
    "Boolean",
    "DataView",
    "Date",
    "Error",
    "EvalError",
    "FinalizationRegistry",
    "Float32Array",
    "Float64Array",
    "Function",
    "Int16Array",
    "Int32Array",
    "Int8Array",
    "Map",
    "Number",
    "Object",
    "Promise",
    "Proxy",
    "RangeError",
    "ReferenceError",
    "RegExp",
    "Set",
    "SharedArrayBuffer",
    "String",
    "Symbol",
    "SyntaxError",
    "TypeError",
    "Uint8Array",
    "Uint16Array",
    "Uint32Array",
    "Uint8ClampedArray",
    "URIError",
    "WeakMap",
    "WeakRef",
    "WeakSet",
];

pub const UNSAFE_CONSTRUCTOR_TARGETS: [&'static str; 7] = [
    "FinalizationRegistry",
    "Map",
    "RegExp",
    "Set",
    "WeakMap",
    "WeakRef",
    "WeakSet",
];

pub const UNSAFE_FUNCTION_TARGETS: [&'static str; 5] = [
    "PromiseAll",
    "PromiseAllSettled",
    "PromiseAny",
    "PromiseRace",
    "PromisePrototypeFinally",
];

pub const METHOD_TARGETS: [&'static str; 144] = [
    // Generic
    "toLocaleString",
    "toString",
    "valueOf",
    // Object
    "hasOwnProperty",
    "isPrototypeOf",
    "propertyIsEnumerable",
    // Function
    "apply",
    "bind",
    "call",
    // Number
    "toExponential",
    "toFixed",
    "toPrecision",
    // Date
    "getDate",
    "getDay",
    "getFullYear",
    "getHours",
    "getMilliseconds",
    "getMinutes",
    "getMonth",
    "getSeconds",
    "getTime",
    "getTimezoneOffset",
    "getUTCDate",
    "getUTCDay",
    "getUTCFullYear",
    "getUTCHours",
    "getUTCMilliseconds",
    "getUTCMinutes",
    "getUTCMonth",
    "getUTCSeconds",
    "getYear",
    "setDate",
    "setFullYear",
    "setHours",
    "setMilliseconds",
    "setMinutes",
    "setMonth",
    "setSeconds",
    "setTime",
    "setUTCDate",
    "setUTCFullYear",
    "setUTCHours",
    "setUTCMilliseconds",
    "setUTCMinutes",
    "setUTCMonth",
    "setUTCSeconds",
    "setYear",
    "toDateString",
    "toISOString",
    "toJSON",
    "toLocaleDateString",
    "toLocaleTimeString",
    "toTimeString",
    "toUTCString",
    // String, Array
    "at",
    "concat",
    "slice",
    "includes",
    "indexOf",
    "lastIndexOf",
    // Array, TypedArray
    "copyWithin",
    "entries",
    "every",
    "fill",
    "filter",
    "find",
    "findIndex",
    "findLast",
    "findLastIndex",
    "flat",
    "flatMap",
    "forEach",
    "join",
    "keys",
    "map",
    "pop",
    "push",
    "reduce",
    "reduceRight",
    "reverse",
    "shift",
    "some",
    "sort",
    "toReversed",
    "toSorted",
    "unshift",
    "values",
    "with",
    // String
    "charAt",
    "charCodeAt",
    "codePointAt",
    "endsWith",
    "localeCompare",
    "match",
    "matchAll",
    "normalize",
    "padEnd",
    "padStart",
    "repeat",
    "replace",
    "replaceAll",
    "search",
    "split",
    "startsWith",
    "substring",
    "toLocaleLowerCase",
    "toLocaleUpperCase",
    "toLowerCase",
    "toUpperCase",
    "trim",
    "trimEnd",
    "trimStart",
    // Array
    "splice",
    "toSpliced",
    // ArrayBuffer
    "resize",
    "transfer",
    "transferToFixedLength",
    // SharedArrayBuffer
    "grow",
    // TypedArray: avoid false positives for Map, Set, WeakMap, and WeakSet
    // "set",
    // DataView
    "getBigInt64",
    "getBigUint64",
    "getFloat32",
    "getFloat64",
    "getInt8",
    "getInt16",
    "getInt32",
    "getUint8",
    "getUint16",
    "getUint32",
    "setBigInt64",
    "setBigUint64",
    "setFloat32",
    "setFloat64",
    "setInt8",
    "setInt16",
    "setInt32",
    "setUint8",
    "setUint16",
    "setUint32",
    // Iterator, Generator
    "next",
    "return",
    "throw",
    // Promise
    "catch",
    "finally",
    "then",
];

pub const GETTER_TARGETS: [&'static str; 8] = [
    // Symbol
    "description",
    // ArrayBuffer, TypedArray, DataView
    "buffer",
    "byteLength",
    "byteOffset",
    // ArrayBuffer, SharedArrayBuffer
    "maxByteLength",
    // ArrayBuffer
    "detached",
    "resizable",
    // SharedArrayBuffer
    "growable",
    // TypedArray: avoid false positives for Array
    // "length",
];
/// The kinds of report, each with its message and its hint.
#[derive(Debug, Clone, Copy, PartialEq, Eq, Structural)]
pub enum Report {
    GlobalIntrinsic,
    UnsafeIntrinsic,
    DefineProperty,
    DefaultParameter,
    /// The iterator protocol, where a safe iterator is to be wrapped.
    SafeIterator,
    /// The iterator protocol, where an object pattern does without it.
    ObjectPattern,
    RegExp,
    InstanceOf,
    In,
}

pub open spec fn report_message(k: Report) -> Seq<char> {
    match k {
        Report::GlobalIntrinsic => GLOBAL_INTRINSIC_MESSAGE@,
        Report::UnsafeIntrinsic => UNSAFE_INTRINSIC_MESSAGE@,
        Report::DefineProperty => DEFINE_PROPERTY_MESSAGE@,
        Report::DefaultParameter => DEFAULT_PARAMETER_MESSAGE@,
        Report::SafeIterator => ITERATOR_MESSAGE@,
        Report::ObjectPattern => ITERATOR_MESSAGE@,
        Report::RegExp => REGEXP_MESSAGE@,
        Report::InstanceOf => INSTANCEOF_MESSAGE@,
        Report::In => IN_MESSAGE@,
    }
}

pub open spec fn report_hint(k: Report) -> Seq<char> {
    match k {
        Report::GlobalIntrinsic => GLOBAL_INTRINSIC_HINT@,
        Report::UnsafeIntrinsic => UNSAFE_INTRINSIC_HINT@,
        Report::DefineProperty => NULL_PROTOTYPE_HINT@,
        Report::DefaultParameter => NULL_PROTOTYPE_HINT@,
        Report::SafeIterator => SAFE_ITERATOR_HINT@,
        Report::ObjectPattern => OBJECT_PATTERN_HINT@,
        Report::RegExp => SAFE_REGEXP_HINT@,
        Report::InstanceOf => INSTANCEOF_HINT@,
        Report::In => IN_HINT@,
    }
}

pub open spec fn report(span: Span, k: Report) -> DiagnosticView {
    hinted_diag(span, CODE@, report_message(k), report_hint(k))
}

/// `name` is one of `list`.
pub open spec fn listed(list: Seq<&'static str>, name: Seq<char>) -> bool {
    exists|i: int| 0 <= i < list.len() && #[trigger] list[i]@ == name
}

/// An object literal with `__proto__: null` among its properties, the key
/// written as a name or as a string, not computed.
pub open spec fn has_null_proto(props: Seq<Prop>) -> bool {
    exists|i: int| 0 <= i < props.len() && #[trigger] null_proto_prop(props[i])
}

pub open spec fn null_proto_prop(p: Prop) -> bool {
    match p {
        Prop::KeyValue { key, value: Expr::Lit(Lit::Null(_)), .. } => match key {
            PropName::Ident(i) => i.name@ == "__proto__"@,
            PropName::Str(s) => s.value@ == "__proto__"@,
            _ => false,
        },
        _ => false,
    }
}

/// `new SafeArrayIterator(..)`.
pub open spec fn is_safe_array_iterator(e: Expr) -> bool {
    match e {
        Expr::New { callee, .. } => match *callee {
            Expr::Ident(i) => i.name@ == "SafeArrayIterator"@,
            _ => false,
        },
        _ => false,
    }
}

/// An array pattern ends in a rest element.
pub open spec fn ends_in_rest(elems: Seq<Option<Pat>>) -> bool {
    elems.len() > 0 && elems.last() matches Some(Pat::Rest { .. })
}

/// An array pattern (or array destructuring assignment) without a rest
/// element can be an object pattern; one with a rest element needs a safe
/// iterator.
pub open spec fn array_pattern_report(span: Span, elems: Seq<Option<Pat>>) -> DiagnosticView {
    if ends_in_rest(elems) {
        report(span, Report::SafeIterator)
    } else {
        report(span, Report::ObjectPattern)
    }
}

/// The spread elements (`...x`) among the elements of an array literal or the
/// arguments of a call, in order, that spread something other than a `new`
/// expression.
pub open spec fn spread_reports(args: Seq<ExprOrSpread>) -> Seq<DiagnosticView>
    decreases args.len(),
{
    if args.len() == 0 {
        Seq::empty()
    } else {
        spread_reports(args.drop_last()) + spread_report(args.last())
    }
}

pub open spec fn spread_report(a: ExprOrSpread) -> Seq<DiagnosticView> {
    if a.spread && !(a.expr is New) {
        seq![report(a.span, Report::SafeIterator)]
    } else {
        Seq::empty()
    }
}

pub open spec fn elem_spread_reports(elems: Seq<Option<ExprOrSpread>>) -> Seq<DiagnosticView>
    decreases elems.len(),
{
    if elems.len() == 0 {
        Seq::empty()
    } else {
        elem_spread_reports(elems.drop_last()) + match elems.last() {
            Some(a) => spread_report(a),
            None => Seq::empty(),
        }
    }
}

/// The object literals that `ObjectDefineProperties` takes as the descriptors
/// of its second argument, each of which lacks `__proto__: null`.
pub open spec fn descriptor_reports(props: Seq<Prop>) -> Seq<DiagnosticView>
    decreases props.len(),
{
    if props.len() == 0 {
        Seq::empty()
    } else {
        descriptor_reports(props.drop_last()) + match props.last() {
            Prop::KeyValue { value: Expr::Object { span, props: inner }, .. } => if !has_null_proto(
                inner@,
            ) {
                seq![report(span, Report::DefineProperty)]
            } else {
                Seq::empty()
            },
            _ => Seq::empty(),
        }
    }
}

/// The argument at `i`, where it is an object literal (not spread).
pub open spec fn object_arg(args: Seq<ExprOrSpread>, i: int) -> Option<(Span, Seq<Prop>)> {
    if 0 <= i < args.len() && !args[i].spread {
        match args[i].expr {
            Expr::Object { span, props } => Some((span, props@)),
            _ => None,
        }
    } else {
        None
    }
}

/// What a call to a function of the given name reports of its arguments:
/// `ObjectDefineProperty` and `ReflectDefineProperty` of their descriptor,
/// `ObjectDefineProperties` of each of its descriptors.
pub open spec fn define_reports(name: Seq<char>, args: Seq<ExprOrSpread>) -> Seq<DiagnosticView> {
    if name == "ObjectDefineProperty"@ || name == "ReflectDefineProperty"@ {
        match object_arg(args, 2) {
            Some((span, props)) => if !has_null_proto(props) {
                seq![report(span, Report::DefineProperty)]
            } else {
                Seq::empty()
            },
            None => Seq::empty(),
        }
    } else if name == "ObjectDefineProperties"@ {
        match object_arg(args, 1) {
            Some((_, props)) => descriptor_reports(props),
            None => Seq::empty(),
        }
    } else {
        Seq::empty()
    }
}

/// The regular expression literals passed (not spread) to `new SafeRegExp(..)`.
pub open spec fn regex_args(args: Seq<ExprOrSpread>) -> Seq<Span>
    decreases args.len(),
{
    if args.len() == 0 {
        Seq::empty()
    } else {
        let a = args.last();
        regex_args(args.drop_last()) + if !a.spread {
            match a.expr {
                Expr::Lit(Lit::Regex(span)) => seq![span],
                _ => Seq::empty(),
            }
        } else {
            Seq::empty()
        }
    }
}

/// What the walk keeps: for each enclosing node whether the patterns right
/// under it are assignment targets rather than bindings, and the nodes that a
/// node already reported on (or marked as safe) so that they report nothing
/// themselves.
pub struct PrimordialsView {
    pub targets: Seq<bool>,
    /// Member accesses that are written or called rather than read.
    pub skip_getter: Seq<Span>,
    /// Names already reported on as the callee of `new` or the object of a
    /// member access.
    pub skip_ident: Seq<Span>,
    /// Regular expression literals wrapped in `SafeRegExp`.
    pub skip_regex: Seq<Span>,
    /// Array patterns that destructure a `SafeArrayIterator`.
    pub skip_array: Seq<Span>,
    /// Member accesses already reported on as the callee of a method call.
    pub skip_method: Seq<Span>,
}

pub open spec fn init_view() -> PrimordialsView {
    PrimordialsView {
        targets: Seq::empty(),
        skip_getter: Seq::empty(),
        skip_ident: Seq::empty(),
        skip_regex: Seq::empty(),
        skip_array: Seq::empty(),
        skip_method: Seq::empty(),
    }
}

/// A reference to a name: a global that `primordials` replaces is reported,
/// where no declaration of the program binds the reference.
pub open spec fn reference_reports(st: PrimordialsView, span: Span, name: Seq<char>, binding: Option<u32>) -> Seq<DiagnosticView> {
    if !st.skip_ident.contains(span) && listed(GLOBAL_TARGETS@, name) && binding is None {
        seq![report(span, Report::GlobalIntrinsic)]
    } else {
        Seq::empty()
    }
}

/// A call: a call to an unsafe function of `primordials`, and a call to a
/// method of a prototype through the object, are reported; the descriptors
/// handed to the functions that define properties are checked.
pub open spec fn call_enter(st: PrimordialsView, callee: Callee, args: Seq<ExprOrSpread>) -> (PrimordialsView, Seq<DiagnosticView>) {
    match callee {
        Callee::Expr(c) => match *c {
            Expr::Ident(i) => (
                st,
                (if listed(UNSAFE_FUNCTION_TARGETS@, i.name@) {
                    seq![report(i.span, Report::UnsafeIntrinsic)]
                } else {
                    Seq::empty()
                }) + define_reports(i.name@, args) + spread_reports(args),
            ),
            Expr::Member { span, prop: MemberProp::Ident(p), .. } => {
                let method = listed(METHOD_TARGETS@, p.name@);
                let getter = listed(GETTER_TARGETS@, p.name@);
                (
                    PrimordialsView {
                        skip_method: if method { st.skip_method.push(span) } else { st.skip_method },
                        skip_getter: if getter { st.skip_getter.push(span) } else { st.skip_getter },
                        ..st
                    },
                    (if method {
                        seq![report(span, Report::GlobalIntrinsic)]
                    } else {
                        Seq::empty()
                    }) + spread_reports(args),
                )
            },
            _ => (st, spread_reports(args)),
        },
        _ => (st, spread_reports(args)),
    }
}

/// `new C(..)`: a global that `primordials` replaces, where nothing binds it,
/// and a constructor whose instances user code can tamper with, are reported.
pub open spec fn new_enter(st: PrimordialsView, callee: Expr, args: Seq<ExprOrSpread>) -> (PrimordialsView, Seq<DiagnosticView>) {
    match callee {
        Expr::Ident(i) => {
            let global = listed(GLOBAL_TARGETS@, i.name@) && i.binding is None;
            let unsafe_ctor = listed(UNSAFE_CONSTRUCTOR_TARGETS@, i.name@);
            (
                PrimordialsView {
                    skip_ident: if global || unsafe_ctor {
                        st.skip_ident.push(i.span)
                    } else {
                        st.skip_ident
                    },
                    skip_regex: if i.name@ == "SafeRegExp"@ {
                        st.skip_regex + regex_args(args)
                    } else {
                        st.skip_regex
                    },
                    ..st
                },
                (if global {
                    seq![report(i.span, Report::GlobalIntrinsic)]
                } else {
                    Seq::empty()
                }) + (if unsafe_ctor {
                    seq![report(i.span, Report::UnsafeIntrinsic)]
                } else {
                    Seq::empty()
                }) + spread_reports(args),
            )
        },
        _ => (st, spread_reports(args)),
    }
}

/// An assignment: a member access that it writes is no read of a getter; an
/// array destructuring assignment uses the iterator protocol, unless it
/// destructures a `SafeArrayIterator`.
pub open spec fn assign_enter(st: PrimordialsView, left: Pat, right: Expr) -> (PrimordialsView, Seq<DiagnosticView>) {
    match left {
        Pat::Expr(x) => match *x {
            Expr::Member { span, prop: MemberProp::Ident(p), .. } => if listed(GETTER_TARGETS@, p.name@) {
                (PrimordialsView { skip_getter: st.skip_getter.push(span), ..st }, Seq::empty())
            } else {
                (st, Seq::empty())
            },
            _ => (st, Seq::empty()),
        },
        Pat::Array { span, elems, .. } => if is_safe_array_iterator(right) {
            (st, Seq::empty())
        } else {
            (st, seq![array_pattern_report(span, elems@)])
        },
        _ => (st, Seq::empty()),
    }
}

/// A member access by name: one on an array literal or on a global that
/// `primordials` replaces, and a read of a getter of a prototype, are
/// reported, unless the access was reported as the callee of a method call.
pub open spec fn member_enter(st: PrimordialsView, span: Span, obj: Expr, prop: Seq<char>) -> (PrimordialsView, Seq<DiagnosticView>) {
    if st.skip_method.contains(span) {
        (st, Seq::empty())
    } else {
        match obj {
            Expr::Array { .. } => (st, seq![report(span, Report::GlobalIntrinsic)]),
            Expr::Ident(i) if listed(GLOBAL_TARGETS@, i.name@) => (
                PrimordialsView { skip_ident: st.skip_ident.push(i.span), ..st },
                seq![report(span, Report::GlobalIntrinsic)],
            ),
            _ => if listed(GETTER_TARGETS@, prop) && !st.skip_getter.contains(span) {
                (st, seq![report(span, Report::GlobalIntrinsic)])
            } else {
                (st, Seq::empty())
            },
        }
    }
}

/// A pattern: an assignment target that names a variable is a reference to
/// it; a binding array pattern uses the iterator protocol (unless it
/// destructures a `SafeArrayIterator`), and a binding default that is an
/// object literal is to have a null prototype.
pub open spec fn pat_enter(st: PrimordialsView, p: Pat, target: bool) -> (PrimordialsView, Seq<DiagnosticView>) {
    match p {
        Pat::Ident { span, name, binding, .. } => if target {
            (st, reference_reports(st, span, name@, binding))
        } else {
            (st, Seq::empty())
        },
        Pat::Array { span, elems, .. } => if !target && !st.skip_array.contains(span) {
            (st, seq![array_pattern_report(span, elems@)])
        } else {
            (st, Seq::empty())
        },
        Pat::Assign { right, .. } => if !target {
            match *right {
                Expr::Object { span, props } => if !has_null_proto(props@) {
                    (st, seq![report(span, Report::DefaultParameter)])
                } else {
                    (st, Seq::empty())
                },
                _ => (st, Seq::empty()),
            }
        } else {
            (st, Seq::empty())
        },
        _ => (st, Seq::empty()),
    }
}

/// A declarator that destructures a `SafeArrayIterator` into an array
/// pattern marks that pattern as safe.
pub open spec fn declarator_enter(st: PrimordialsView, d: VarDeclarator) -> PrimordialsView {
    match d.init {
        Some(e) => if is_safe_array_iterator(e) {
            match d.name {
                Pat::Array { span, .. } => PrimordialsView { skip_array: st.skip_array.push(span), ..st },
                _ => st,
            }
        } else {
            st
        },
        None => st,
    }
}

pub open spec fn yield_reports(span: Span, arg: Option<Box<Expr>>, delegate: bool) -> Seq<DiagnosticView> {
    let wrapped = match arg {
        Some(a) => *a is New,
        None => false,
    };
    if delegate && !wrapped {
        seq![report(span, Report::SafeIterator)]
    } else {
        Seq::empty()
    }
}

pub open spec fn bin_reports(span: Span, op: BinOp) -> Seq<DiagnosticView> {
    if op == BinOp::InstanceOf {
        seq![report(span, Report::InstanceOf)]
    } else if op == BinOp::In {
        seq![report(span, Report::In)]
    } else {
        Seq::empty()
    }
}

pub open spec fn expr_enter(st: PrimordialsView, e: Expr) -> (PrimordialsView, Seq<DiagnosticView>) {
    match e {
        Expr::Ident(i) => (st, reference_reports(st, i.span, i.name@, i.binding)),
        Expr::Lit(Lit::Regex(span)) => if st.skip_regex.contains(span) {
            (st, Seq::empty())
        } else {
            (st, seq![report(span, Report::RegExp)])
        },
        Expr::Bin { span, op, .. } => (st, bin_reports(span, op)),
        Expr::Yield { span, arg, delegate } => (st, yield_reports(span, arg, delegate)),
        Expr::Array { elems, .. } => (st, elem_spread_reports(elems@)),
        Expr::Call { callee, args, .. } => call_enter(st, callee, args@),
        Expr::New { callee, args, .. } => new_enter(st, *callee, args@),
        Expr::Assign { left, right, .. } => assign_enter(st, *left, *right),
        Expr::Member { span, obj, prop: MemberProp::Ident(p), .. } => member_enter(st, span, *obj, p.name@),
        _ => (st, Seq::empty()),
    }
}

pub open spec fn for_of_reports(right: Expr) -> Seq<DiagnosticView> {
    if right is New {
        Seq::empty()
    } else {
        seq![report(expr_span(right), Report::SafeIterator)]
    }
}

/// What entering a node reports, and how it changes what the walk keeps
/// (all but the stack of enclosing nodes); `target` says whether a pattern
/// is an assignment target.
pub open spec fn node_enter(st: PrimordialsView, n: Node, target: bool) -> (PrimordialsView, Seq<DiagnosticView>) {
    match n {
        Node::Expr(e) => expr_enter(st, e),
        Node::Pat(p) => pat_enter(st, p, target),
        Node::Prop(Prop::Shorthand(i)) => (st, reference_reports(st, i.span, i.name@, i.binding)),
        Node::VarDeclarator(d) => (declarator_enter(st, d), Seq::empty()),
        Node::Stmt(Stmt::ForOf { right, .. }) => (st, for_of_reports(right)),
        _ => (st, Seq::empty()),
    }
}

/// The patterns right under an assignment, or under a `for .. in` or
/// `for .. of` whose head is no declaration, are assignment targets, and so
/// are the patterns inside those.
pub open spec fn opens_targets(n: Node, target: bool) -> bool {
    match n {
        Node::Expr(Expr::Assign { .. }) => true,
        Node::Stmt(Stmt::ForIn { left: ForHead::Pat(_), .. }) => true,
        Node::Stmt(Stmt::ForOf { left: ForHead::Pat(_), .. }) => true,
        Node::Pat(_) => target,
        _ => false,
    }
}

pub open spec fn is_target(st: PrimordialsView, n: Node) -> bool {
    n is Pat && st.targets.len() > 0 && st.targets.last()
}

pub open spec fn step_fn() -> spec_fn(PrimordialsView, SEvent) -> (PrimordialsView, Seq<DiagnosticView>) {
    |st: PrimordialsView, ev: SEvent|
        match ev {
            SEvent::Enter(n) => {
                let target = is_target(st, n);
                let (st2, d) = node_enter(st, n, target);
                (PrimordialsView { targets: st.targets.push(opens_targets(n, target)), ..st2 }, d)
            },
            SEvent::Exit(_) => (
                PrimordialsView {
                    targets: if st.targets.len() > 0 {
                        st.targets.drop_last()
                    } else {
                        st.targets
                    },
                    ..st
                },
                Seq::empty(),
            ),
        }
}

/// The diagnostics of the rule on a program, in the order of the walk.
pub open spec fn primordials_diags(p: Program) -> Seq<DiagnosticView> {
    fold_events(program_events(p), init_view(), step_fn()).1
}


// ---------------------------------------------------------------------------
// The walk that computes them.

struct PrimState {
    targets: Vec<bool>,
    skip_getter: Vec<Span>,
    skip_ident: Vec<Span>,
    skip_regex: Vec<Span>,
    skip_array: Vec<Span>,
    skip_method: Vec<Span>,
}

spec fn state_view(s: PrimState) -> PrimordialsView {
    PrimordialsView {
        targets: s.targets@,
        skip_getter: s.skip_getter@,
        skip_ident: s.skip_ident@,
        skip_regex: s.skip_regex@,
        skip_array: s.skip_array@,
        skip_method: s.skip_method@,
    }
}

proof fn lemma_add_empty(s: Seq<DiagnosticView>)
    ensures
        s + Seq::<DiagnosticView>::empty() == s,
{
    assert(s + Seq::<DiagnosticView>::empty() =~= s);
}

fn is_listed(list: &[&'static str], name: &str) -> (r: bool)
    ensures
        r == listed(list@, name@),
{
    let mut i: usize = 0;
    while i < list.len()
        invariant
            i <= list@.len(),
            forall|j: int| 0 <= j < i ==> list@[j]@ != name@,
        decreases list@.len() - i,
    {
        if str_eq(list[i], name) {
            return true;
        }
        i = i + 1;
    }
    false
}

fn has_span(v: &Vec<Span>, span: Span) -> (r: bool)
    ensures
        r == v@.contains(span),
{
    let mut i: usize = 0;
    while i < v.len()
        invariant
            i <= v@.len(),
            forall|j: int| 0 <= j < i ==> v@[j] != span,
        decreases v@.len() - i,
    {
        if v[i] == span {
            assert(v@[i as int] == span);
            return true;
        }
        i = i + 1;
    }
    false
}

fn report_exec(out: &mut Vec<Diagnostic>, span: Span, k: Report)
    ensures
        diag_views(final(out)@) == diag_views(old(out)@).push(report(span, k)),
{
    let (m, h) = match k {
        Report::GlobalIntrinsic => (GLOBAL_INTRINSIC_MESSAGE, GLOBAL_INTRINSIC_HINT),
        Report::UnsafeIntrinsic => (UNSAFE_INTRINSIC_MESSAGE, UNSAFE_INTRINSIC_HINT),
        Report::DefineProperty => (DEFINE_PROPERTY_MESSAGE, NULL_PROTOTYPE_HINT),
        Report::DefaultParameter => (DEFAULT_PARAMETER_MESSAGE, NULL_PROTOTYPE_HINT),
        Report::SafeIterator => (ITERATOR_MESSAGE, SAFE_ITERATOR_HINT),
        Report::ObjectPattern => (ITERATOR_MESSAGE, OBJECT_PATTERN_HINT),
        Report::RegExp => (REGEXP_MESSAGE, SAFE_REGEXP_HINT),
        Report::InstanceOf => (INSTANCEOF_MESSAGE, INSTANCEOF_HINT),
        Report::In => (IN_MESSAGE, IN_HINT),
    };
    assert(m@ == report_message(k) && h@ == report_hint(k));
    push_diag(out, Diagnostic::with_hint(span, CODE, String::from_str(m), String::from_str(h)));
}

fn null_proto_prop_of(p: &Prop) -> (r: bool)
    ensures
        r == null_proto_prop(*p),
{
    match p {
        Prop::KeyValue { key, value: Expr::Lit(Lit::Null(_)), .. } => match key {
            PropName::Ident(i) => str_eq(i.name.as_str(), "__proto__"),
            PropName::Str(s) => str_eq(s.value.as_str(), "__proto__"),
            _ => false,
        },
        _ => false,
    }
}

fn null_proto_of(props: &Vec<Prop>) -> (r: bool)
    ensures
        r == has_null_proto(props@),
{
    let mut i: usize = 0;
    while i < props.len()
        invariant
            i <= props@.len(),
            forall|j: int| 0 <= j < i ==> !null_proto_prop(#[trigger] props@[j]),
        decreases props@.len() - i,
    {
        if null_proto_prop_of(&props[i]) {
            return true;
        }
        i = i + 1;
    }
    false
}

fn safe_array_iterator_of(e: &Expr) -> (r: bool)
    ensures
        r == is_safe_array_iterator(*e),
{
    match e {
        Expr::New { callee, .. } => match &**callee {
            Expr::Ident(i) => str_eq(i.name.as_str(), "SafeArrayIterator"),
            _ => false,
        },
        _ => false,
    }
}

fn push_array_pattern_report(out: &mut Vec<Diagnostic>, span: Span, elems: &Vec<Option<Pat>>)
    ensures
        diag_views(final(out)@) == diag_views(old(out)@).push(array_pattern_report(span, elems@)),
{
    let rest = elems.len() > 0 && match &elems[elems.len() - 1] {
        Some(Pat::Rest { .. }) => true,
        _ => false,
    };
    if rest {
        report_exec(out, span, Report::SafeIterator);
    } else {
        report_exec(out, span, Report::ObjectPattern);
    }
}

fn push_spread_report(out: &mut Vec<Diagnostic>, a: &ExprOrSpread)
    ensures
        diag_views(final(out)@) == diag_views(old(out)@) + spread_report(*a),
{
    proof {
        lemma_add_empty(diag_views(out@));
    }
    let is_new = match &a.expr {
        Expr::New { .. } => true,
        _ => false,
    };
    if a.spread && !is_new {
        let ghost before = diag_views(out@);
        report_exec(out, a.span, Report::SafeIterator);
        assert(diag_views(out@) =~= before + spread_report(*a));
    }
}

fn push_spreads(out: &mut Vec<Diagnostic>, args: &Vec<ExprOrSpread>)
    ensures
        diag_views(final(out)@) == diag_views(old(out)@) + spread_reports(args@),
{
    let ghost start = diag_views(out@);
    assert(start =~= start + spread_reports(args@.take(0)));
    let mut i: usize = 0;
    while i < args.len()
        invariant
            i <= args@.len(),
            diag_views(out@) == start + spread_reports(args@.take(i as int)),
        decreases args@.len() - i,
    {
        assert(args@.take(i as int + 1).drop_last() =~= args@.take(i as int));
        push_spread_report(out, &args[i]);
        i = i + 1;
        assert(diag_views(out@) =~= start + spread_reports(args@.take(i as int)));
    }
    assert(args@.take(args@.len() as int) =~= args@);
}

fn push_elem_spreads(out: &mut Vec<Diagnostic>, elems: &Vec<Option<ExprOrSpread>>)
    ensures
        diag_views(final(out)@) == diag_views(old(out)@) + elem_spread_reports(elems@),
{
    let ghost start = diag_views(out@);
    assert(start =~= start + elem_spread_reports(elems@.take(0)));
    let mut i: usize = 0;
    while i < elems.len()
        invariant
            i <= elems@.len(),
            diag_views(out@) == start + elem_spread_reports(elems@.take(i as int)),
        decreases elems@.len() - i,
    {
        assert(elems@.take(i as int + 1).drop_last() =~= elems@.take(i as int));
        let ghost before = diag_views(out@);
        match &elems[i] {
            Some(a) => push_spread_report(out, a),
            None => {
                proof {
                    lemma_add_empty(before);
                }
            },
        }
        i = i + 1;
        assert(diag_views(out@) =~= start + elem_spread_reports(elems@.take(i as int)));
    }
    assert(elems@.take(elems@.len() as int) =~= elems@);
}

fn push_descriptors(out: &mut Vec<Diagnostic>, props: &Vec<Prop>)
    ensures
        diag_views(final(out)@) == diag_views(old(out)@) + descriptor_reports(props@),
{
    let ghost start = diag_views(out@);
    assert(start =~= start + descriptor_reports(props@.take(0)));
    let mut i: usize = 0;
    while i < props.len()
        invariant
            i <= props@.len(),
            diag_views(out@) == start + descriptor_reports(props@.take(i as int)),
        decreases props@.len() - i,
    {
        assert(props@.take(i as int + 1).drop_last() =~= props@.take(i as int));
        let ghost before = diag_views(out@);
        proof {
            lemma_add_empty(before);
        }
        match &props[i] {
            Prop::KeyValue { value: Expr::Object { span, props: inner }, .. } => {
                if !null_proto_of(inner) {
                    report_exec(out, *span, Report::DefineProperty);
                }
            },
            _ => {},
        }
        i = i + 1;
        assert(diag_views(out@) =~= start + descriptor_reports(props@.take(i as int)));
    }
    assert(props@.take(props@.len() as int) =~= props@);
}

fn object_arg_of(args: &Vec<ExprOrSpread>, i: usize) -> (r: Option<(Span, &Vec<Prop>)>)
    ensures
        match r {
            Some((s, p)) => object_arg(args@, i as int) == Some((s, p@)),
            None => object_arg(args@, i as int) is None,
        },
{
    if i < args.len() && !args[i].spread {
        match &args[i].expr {
            Expr::Object { span, props } => Some((*span, props)),
            _ => None,
        }
    } else {
        None
    }
}

fn push_define_reports(out: &mut Vec<Diagnostic>, name: &str, args: &Vec<ExprOrSpread>)
    ensures
        diag_views(final(out)@) == diag_views(old(out)@) + define_reports(name@, args@),
{
    proof {
        lemma_add_empty(diag_views(out@));
    }
    if str_eq(name, "ObjectDefineProperty") || str_eq(name, "ReflectDefineProperty") {
        match object_arg_of(args, 2) {
            Some((span, props)) => {
                if !null_proto_of(props) {
                    let ghost before = diag_views(out@);
                    report_exec(out, span, Report::DefineProperty);
                    assert(diag_views(out@) =~= before + define_reports(name@, args@));
                }
            },
            None => {},
        }
    } else if str_eq(name, "ObjectDefineProperties") {
        match object_arg_of(args, 1) {
            Some((_, props)) => push_descriptors(out, props),
            None => {},
        }
    }
}

fn push_regex_args(v: &mut Vec<Span>, args: &Vec<ExprOrSpread>)
    ensures
        final(v)@ == old(v)@ + regex_args(args@),
{
    let ghost start = v@;
    assert(start =~= start + regex_args(args@.take(0)));
    let mut i: usize = 0;
    while i < args.len()
        invariant
            i <= args@.len(),
            v@ == start + regex_args(args@.take(i as int)),
        decreases args@.len() - i,
    {
        assert(args@.take(i as int + 1).drop_last() =~= args@.take(i as int));
        let a = &args[i];
        if !a.spread {
            match &a.expr {
                Expr::Lit(Lit::Regex(span)) => v.push(*span),
                _ => {},
            }
        }
        i = i + 1;
        assert(v@ =~= start + regex_args(args@.take(i as int)));
    }
    assert(args@.take(args@.len() as int) =~= args@);
}

fn push_reference(st: &PrimState, out: &mut Vec<Diagnostic>, span: Span, name: &str, binding: Option<u32>)
    ensures
        diag_views(final(out)@) == diag_views(old(out)@) + reference_reports(state_view(*st), span, name@, binding),
{
    proof {
        lemma_add_empty(diag_views(out@));
    }
    if !has_span(&st.skip_ident, span) && is_listed(vstd::array::array_as_slice(&GLOBAL_TARGETS), name)
        && binding.is_none() {
        let ghost before = diag_views(out@);
        report_exec(out, span, Report::GlobalIntrinsic);
        assert(diag_views(out@) =~= before + reference_reports(state_view(*st), span, name@, binding));
    }
}

fn enter_call(st: &mut PrimState, out: &mut Vec<Diagnostic>, callee: &Callee, args: &Vec<ExprOrSpread>)
    ensures
        final(st).targets@ == old(st).targets@,
        state_view(*final(st)) == call_enter(state_view(*old(st)), *callee, args@).0,
        diag_views(final(out)@) == diag_views(old(out)@) + call_enter(state_view(*old(st)), *callee, args@).1,
{
    let ghost start = diag_views(out@);
    proof {
        lemma_add_empty(start);
    }
    match callee {
        Callee::Expr(c) => match &**c {
            Expr::Ident(i) => {
                if is_listed(vstd::array::array_as_slice(&UNSAFE_FUNCTION_TARGETS), i.name.as_str()) {
                    report_exec(out, i.span, Report::UnsafeIntrinsic);
                }
                let ghost a = diag_views(out@);
                push_define_reports(out, i.name.as_str(), args);
                push_spreads(out, args);
                assert(diag_views(out@) =~= start + call_enter(state_view(*old(st)), *callee, args@).1);
            },
            Expr::Member { span, prop: MemberProp::Ident(p), .. } => {
                let method = is_listed(vstd::array::array_as_slice(&METHOD_TARGETS), p.name.as_str());
                let getter = is_listed(vstd::array::array_as_slice(&GETTER_TARGETS), p.name.as_str());
                if method {
                    report_exec(out, *span, Report::GlobalIntrinsic);
                    st.skip_method.push(*span);
                }
                if getter {
                    st.skip_getter.push(*span);
                }
                push_spreads(out, args);
                assert(diag_views(out@) =~= start + call_enter(state_view(*old(st)), *callee, args@).1);
            },
            _ => push_spreads(out, args),
        },
        _ => push_spreads(out, args),
    }
}

fn enter_new(st: &mut PrimState, out: &mut Vec<Diagnostic>, callee: &Expr, args: &Vec<ExprOrSpread>)
    ensures
        final(st).targets@ == old(st).targets@,
        state_view(*final(st)) == new_enter(state_view(*old(st)), *callee, args@).0,
        diag_views(final(out)@) == diag_views(old(out)@) + new_enter(state_view(*old(st)), *callee, args@).1,
{
    let ghost start = diag_views(out@);
    proof {
        lemma_add_empty(start);
    }
    match callee {
        Expr::Ident(i) => {
            let global = is_listed(vstd::array::array_as_slice(&GLOBAL_TARGETS), i.name.as_str())
                && i.binding.is_none();
            let unsafe_ctor = is_listed(
                vstd::array::array_as_slice(&UNSAFE_CONSTRUCTOR_TARGETS),
                i.name.as_str(),
            );
            if global {
                report_exec(out, i.span, Report::GlobalIntrinsic);
            }
            if unsafe_ctor {
                report_exec(out, i.span, Report::UnsafeIntrinsic);
            }
            if global || unsafe_ctor {
                st.skip_ident.push(i.span);
            }
            if str_eq(i.name.as_str(), "SafeRegExp") {
                push_regex_args(&mut st.skip_regex, args);
            }
            push_spreads(out, args);
            assert(diag_views(out@) =~= start + new_enter(state_view(*old(st)), *callee, args@).1);
        },
        _ => push_spreads(out, args),
    }
}

fn enter_assign(st: &mut PrimState, out: &mut Vec<Diagnostic>, left: &Pat, right: &Expr)
    ensures
        final(st).targets@ == old(st).targets@,
        state_view(*final(st)) == assign_enter(state_view(*old(st)), *left, *right).0,
        diag_views(final(out)@) == diag_views(old(out)@) + assign_enter(state_view(*old(st)), *left, *right).1,
{
    let ghost start = diag_views(out@);
    proof {
        lemma_add_empty(start);
    }
    match left {
        Pat::Expr(x) => match &**x {
            Expr::Member { span, prop: MemberProp::Ident(p), .. } => {
                if is_listed(vstd::array::array_as_slice(&GETTER_TARGETS), p.name.as_str()) {
                    st.skip_getter.push(*span);
                }
            },
            _ => {},
        },
        Pat::Array { span, elems, .. } => {
            if !safe_array_iterator_of(right) {
                push_array_pattern_report(out, *span, elems);
                assert(diag_views(out@) =~= start + assign_enter(state_view(*old(st)), *left, *right).1);
            }
        },
        _ => {},
    }
}

fn enter_member(st: &mut PrimState, out: &mut Vec<Diagnostic>, span: Span, obj: &Expr, prop: &str)
    ensures
        final(st).targets@ == old(st).targets@,
        state_view(*final(st)) == member_enter(state_view(*old(st)), span, *obj, prop@).0,
        diag_views(final(out)@) == diag_views(old(out)@) + member_enter(state_view(*old(st)), span, *obj, prop@).1,
{
    let ghost start = diag_views(out@);
    proof {
        lemma_add_empty(start);
    }
    if has_span(&st.skip_method, span) {
        return;
    }
    let global_obj = match obj {
        Expr::Array { .. } => {
            report_exec(out, span, Report::GlobalIntrinsic);
            assert(diag_views(out@) =~= start + member_enter(state_view(*old(st)), span, *obj, prop@).1);
            return;
        },
        Expr::Ident(i) => if is_listed(vstd::array::array_as_slice(&GLOBAL_TARGETS), i.name.as_str()) {
            Some(i.span)
        } else {
            None
        },
        _ => None,
    };
    match global_obj {
        Some(s) => {
            st.skip_ident.push(s);
            report_exec(out, span, Report::GlobalIntrinsic);
            assert(diag_views(out@) =~= start + member_enter(state_view(*old(st)), span, *obj, prop@).1);
        },
        None => {
            if is_listed(vstd::array::array_as_slice(&GETTER_TARGETS), prop) && !has_span(&st.skip_getter, span) {
                report_exec(out, span, Report::GlobalIntrinsic);
                assert(diag_views(out@) =~= start + member_enter(state_view(*old(st)), span, *obj, prop@).1);
            }
        },
    }
}

fn enter_pat(st: &mut PrimState, out: &mut Vec<Diagnostic>, p: &Pat, target: bool)
    ensures
        final(st).targets@ == old(st).targets@,
        state_view(*final(st)) == pat_enter(state_view(*old(st)), *p, target).0,
        diag_views(final(out)@) == diag_views(old(out)@) + pat_enter(state_view(*old(st)), *p, target).1,
{
    let ghost start = diag_views(out@);
    proof {
        lemma_add_empty(start);
    }
    match p {
        Pat::Ident { span, name, binding, .. } => {
            if target {
                push_reference(st, out, *span, name.as_str(), *binding);
            }
        },
        Pat::Array { span, elems, .. } => {
            if !target && !has_span(&st.skip_array, *span) {
                push_array_pattern_report(out, *span, elems);
                assert(diag_views(out@) =~= start + pat_enter(state_view(*old(st)), *p, target).1);
            }
        },
        Pat::Assign { right, .. } => {
            if !target {
                match &**right {
                    Expr::Object { span, props } => {
                        if !null_proto_of(props) {
                            report_exec(out, *span, Report::DefaultParameter);
                            assert(diag_views(out@) =~= start + pat_enter(state_view(*old(st)), *p, target).1);
                        }
                    },
                    _ => {},
                }
            }
        },
        _ => {},
    }
}

fn enter_declarator(st: &mut PrimState, d: &VarDeclarator)
    ensures
        final(st).targets@ == old(st).targets@,
        state_view(*final(st)) == declarator_enter(state_view(*old(st)), *d),
{
    match &d.init {
        Some(e) => {
            if safe_array_iterator_of(e) {
                match &d.name {
                    Pat::Array { span, .. } => st.skip_array.push(*span),
                    _ => {},
                }
            }
        },
        None => {},
    }
}

fn enter_expr(st: &mut PrimState, out: &mut Vec<Diagnostic>, e: &Expr)
    ensures
        final(st).targets@ == old(st).targets@,
        state_view(*final(st)) == expr_enter(state_view(*old(st)), *e).0,
        diag_views(final(out)@) == diag_views(old(out)@) + expr_enter(state_view(*old(st)), *e).1,
{
    let ghost start = diag_views(out@);
    proof {
        lemma_add_empty(start);
    }
    match e {
        Expr::Ident(i) => push_reference(st, out, i.span, i.name.as_str(), i.binding),
        Expr::Lit(Lit::Regex(span)) => {
            if !has_span(&st.skip_regex, *span) {
                report_exec(out, *span, Report::RegExp);
                assert(diag_views(out@) =~= start + expr_enter(state_view(*old(st)), *e).1);
            }
        },
        Expr::Bin { span, op, .. } => {
            if *op == BinOp::InstanceOf {
                report_exec(out, *span, Report::InstanceOf);
                assert(diag_views(out@) =~= start + expr_enter(state_view(*old(st)), *e).1);
            } else if *op == BinOp::In {
                report_exec(out, *span, Report::In);
                assert(diag_views(out@) =~= start + expr_enter(state_view(*old(st)), *e).1);
            }
        },
        Expr::Yield { span, arg, delegate } => {
            let wrapped = match arg {
                Some(a) => match &**a {
                    Expr::New { .. } => true,
                    _ => false,
                },
                None => false,
            };
            if *delegate && !wrapped {
                report_exec(out, *span, Report::SafeIterator);
                assert(diag_views(out@) =~= start + expr_enter(state_view(*old(st)), *e).1);
            }
        },
        Expr::Array { elems, .. } => push_elem_spreads(out, elems),
        Expr::Call { callee, args, .. } => enter_call(st, out, callee, args),
        Expr::New { callee, args, .. } => enter_new(st, out, callee, args),
        Expr::Assign { left, right, .. } => enter_assign(st, out, left, right),
        Expr::Member { span, obj, prop: MemberProp::Ident(p), .. } => enter_member(
            st,
            out,
            *span,
            obj,
            p.name.as_str(),
        ),
        _ => {},
    }
}

fn enter_node(st: &mut PrimState, out: &mut Vec<Diagnostic>, n: NodeRef, target: bool)
    ensures
        final(st).targets@ == old(st).targets@,
        state_view(*final(st)) == node_enter(state_view(*old(st)), n@, target).0,
        diag_views(final(out)@) == diag_views(old(out)@) + node_enter(state_view(*old(st)), n@, target).1,
{
    let ghost start = diag_views(out@);
    proof {
        lemma_add_empty(start);
    }
    match n {
        NodeRef::Expr(e) => enter_expr(st, out, e),
        NodeRef::Pat(p) => enter_pat(st, out, p, target),
        NodeRef::Prop(p) => match p {
            Prop::Shorthand(i) => push_reference(st, out, i.span, i.name.as_str(), i.binding),
            _ => {},
        },
        NodeRef::VarDeclarator(d) => enter_declarator(st, d),
        NodeRef::Stmt(s) => match s {
            Stmt::ForOf { right, .. } => {
                match right {
                    Expr::New { .. } => {},
                    _ => {
                        report_exec(out, span_of(right), Report::SafeIterator);
                        assert(diag_views(out@) =~= start + for_of_reports(*right));
                    },
                }
            },
            _ => {},
        },
        _ => {},
    }
}

pub(crate) fn opens_targets_of(n: NodeRef, target: bool) -> (r: bool)
    ensures
        r == opens_targets(n@, target),
{
    match n {
        NodeRef::Expr(Expr::Assign { .. }) => true,
        NodeRef::Stmt(Stmt::ForIn { left: ForHead::Pat(_), .. }) => true,
        NodeRef::Stmt(Stmt::ForOf { left: ForHead::Pat(_), .. }) => true,
        NodeRef::Pat(_) => target,
        _ => false,
    }
}

impl PreferPrimordials {
    /// The tags of the rule: it belongs to no set.
    pub fn tags(&self) -> (r: Vec<&'static str>)
        ensures
            crate::tags::tag_views(r@) == Seq::<Seq<char>>::empty(),
    {
        crate::tags::untagged()
    }

    pub fn code(&self) -> (r: &'static str)
        ensures
            r@ == CODE@,
    {
        CODE
    }

    /// The diagnostics of the rule on a program, in the order of the walk.
    pub fn lint(&self, program: &Program) -> (r: Vec<Diagnostic>)
        ensures
            diag_views(r@) == primordials_diags(*program),
    {
        let events = walk_program(program);
        let ghost evs = event_views(events@);
        let mut out: Vec<Diagnostic> = Vec::new();
        let mut st = PrimState {
            targets: Vec::new(),
            skip_getter: Vec::new(),
            skip_ident: Vec::new(),
            skip_regex: Vec::new(),
            skip_array: Vec::new(),
            skip_method: Vec::new(),
        };
        assert(diag_views(out@) =~= Seq::<DiagnosticView>::empty());
        assert(state_view(st) == init_view());
        let mut i: usize = 0;
        while i < events.len()
            invariant
                evs == event_views(events@),
                i <= events.len(),
                fold_events(evs.take(i as int), init_view(), step_fn()) == (
                    state_view(st),
                    diag_views(out@),
                ),
            decreases events.len() - i,
        {
            proof {
                lemma_fold_events_step(evs, i as int, init_view(), step_fn());
            }
            let ghost before = diag_views(out@);
            match events[i] {
                Event::Enter(n) => {
                    let target = match n {
                        NodeRef::Pat(_) => st.targets.len() > 0 && st.targets[st.targets.len() - 1],
                        _ => false,
                    };
                    let ghost old_view = state_view(st);
                    assert(target == is_target(old_view, n@));
                    enter_node(&mut st, &mut out, n, target);
                    let o = opens_targets_of(n, target);
                    st.targets.push(o);
                },
                Event::Exit(_) => {
                    if st.targets.len() > 0 {
                        st.targets.pop();
                    }
                    proof {
                        lemma_add_empty(before);
                    }
                },
            }
            i = i + 1;
        }
        assert(evs.take(events.len() as int) =~= evs);
        out
    }
}


// ---------------------------------------------------------------------------
// What every report is.

/// A diagnostic of the rule: its code, and one of the rule's pairs of message
/// and hint.
pub open spec fn is_report(d: DiagnosticView) -> bool {
    exists|k: Report| d == #[trigger] report(d.range, k)
}

pub open spec fn all_reports(s: Seq<DiagnosticView>) -> bool {
    forall|i: int| 0 <= i < s.len() ==> is_report(#[trigger] s[i])
}

proof fn lemma_reports_concat(a: Seq<DiagnosticView>, b: Seq<DiagnosticView>)
    requires
        all_reports(a),
        all_reports(b),
    ensures
        all_reports(a + b),
{
    assert forall|i: int| 0 <= i < (a + b).len() implies is_report(#[trigger] (a + b)[i]) by {
        if i < a.len() {
            assert((a + b)[i] == a[i]);
        } else {
            assert((a + b)[i] == b[i - a.len()]);
        }
    }
}

proof fn lemma_single_report(span: Span, k: Report)
    ensures
        all_reports(seq![report(span, k)]),
{
    let d = report(span, k);
    assert(seq![d][0] == d);
    assert(d == report(d.range, k));
}

proof fn lemma_spread_reports(args: Seq<ExprOrSpread>)
    ensures
        all_reports(spread_reports(args)),
    decreases args.len(),
{
    if args.len() > 0 {
        lemma_spread_reports(args.drop_last());
        lemma_single_report(args.last().span, Report::SafeIterator);
        lemma_reports_concat(spread_reports(args.drop_last()), spread_report(args.last()));
    }
}

proof fn lemma_elem_spread_reports(elems: Seq<Option<ExprOrSpread>>)
    ensures
        all_reports(elem_spread_reports(elems)),
    decreases elems.len(),
{
    if elems.len() > 0 {
        lemma_elem_spread_reports(elems.drop_last());
        let tail = match elems.last() {
            Some(a) => spread_report(a),
            None => Seq::<DiagnosticView>::empty(),
        };
        match elems.last() {
            Some(a) => lemma_single_report(a.span, Report::SafeIterator),
            None => {},
        }
        lemma_reports_concat(elem_spread_reports(elems.drop_last()), tail);
    }
}

proof fn lemma_descriptor_reports(props: Seq<Prop>)
    ensures
        all_reports(descriptor_reports(props)),
    decreases props.len(),
{
    if props.len() > 0 {
        lemma_descriptor_reports(props.drop_last());
        let tail = match props.last() {
            Prop::KeyValue { value: Expr::Object { span, props: inner }, .. } => {
                lemma_single_report(span, Report::DefineProperty);
                if !has_null_proto(inner@) {
                    seq![report(span, Report::DefineProperty)]
                } else {
                    Seq::empty()
                }
            },
            _ => Seq::<DiagnosticView>::empty(),
        };
        lemma_reports_concat(descriptor_reports(props.drop_last()), tail);
    }
}

proof fn lemma_step_reports(st: PrimordialsView, ev: SEvent)
    ensures
        all_reports(step_fn()(st, ev).1),
{
    assert forall|span: Span, k: Report| all_reports(#[trigger] seq![report(span, k)]) by {
        lemma_single_report(span, k);
    }
    assert forall|a: Seq<DiagnosticView>, b: Seq<DiagnosticView>|
        all_reports(a) && all_reports(b) implies #[trigger] all_reports(a + b) by {
        lemma_reports_concat(a, b);
    }
    assert(all_reports(Seq::<DiagnosticView>::empty()));
    match ev {
        SEvent::Enter(n) => {
            match n {
                Node::Expr(e) => match e {
                    Expr::Array { elems, .. } => lemma_elem_spread_reports(elems@),
                    Expr::Call { callee, args, .. } => {
                        lemma_spread_reports(args@);
                        match callee {
                            Callee::Expr(c) => match *c {
                                Expr::Ident(i) => {
                                    match object_arg(args@, 1) {
                                        Some((_, props)) => lemma_descriptor_reports(props),
                                        None => {},
                                    }
                                },
                                _ => {},
                            },
                            _ => {},
                        }
                    },
                    Expr::New { args, .. } => lemma_spread_reports(args@),
                    _ => {},
                },
                _ => {},
            }
        },
        SEvent::Exit(_) => {},
    }
}

/// Every diagnostic of the rule carries its code and one of its pairs of
/// message and hint.
pub proof fn lemma_every_diag_is_a_report(program: Program)
    ensures
        all_reports(primordials_diags(program)),
{
    let prop = |d: DiagnosticView| is_report(d);
    assert forall|s: PrimordialsView, e: SEvent, i: int| 0 <= i < step_fn()(s, e).1.len() implies prop(
        #[trigger] step_fn()(s, e).1[i],
    ) by {
        lemma_step_reports(s, e);
    }
    lemma_fold_events_all(program_events(program), init_view(), step_fn(), prop);
}

} // verus!
