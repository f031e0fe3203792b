//! `no-undef`: a reference to a variable that nothing declares, and that is no
//! global the runtime provides, is reported.

use vstd::prelude::*;
use crate::ast::{Expr, Pat, Program, Prop, Span, UnaryOp};
use crate::diagnostic::{Diagnostic, DiagnosticView, diag_views, plain_diag, push_diag};
use crate::text::str_eq;
use crate::walk::{Event, Node, NodeRef, SEvent, event_views, program_events, walk_program};
use crate::rules::{fold_events, lemma_fold_events_all, lemma_fold_events_step};
use crate::rules::prefer_primordials::{opens_targets, opens_targets_of};

verus! {

pub const CODE: &'static str = "no-undef";

/// The globals that a program may use without declaring them: those of the
/// language, those of the objects that every value inherits from, and those
/// of the web platform and the runtime.
pub const GLOBALS: [&'static str; 165] = [
    "AggregateError",
    "Array",
    "ArrayBuffer",
    "Atomics",
    "BigInt",
    "BigInt64Array",
    "BigUint64Array",
    "Boolean",
    "DataView",
    "Date",
    "Error",
    "EvalError",
    "FinalizationRegistry",
    "Float32Array",
    "Float64Array",
    "Function",
    "Infinity",
    "Int16Array",
    "Int32Array",
    "Int8Array",
    "Intl",
    "Iterator",
    "JSON",
    "Map",
    "Math",
    "NaN",
    "Number",
    "Object",
    "Promise",
    "Proxy",
    "RangeError",
    "ReferenceError",
    "Reflect",
    "RegExp",
    "Set",
    "SharedArrayBuffer",
    "String",
    "Symbol",
    "SyntaxError",
    "TypeError",
    "URIError",
    "Uint16Array",
    "Uint32Array",
    "Uint8Array",
    "Uint8ClampedArray",
    "WeakMap",
    "WeakRef",
    "WeakSet",
    "decodeURI",
    "decodeURIComponent",
    "encodeURI",
    "encodeURIComponent",
    "escape",
    "eval",
    "globalThis",
    "isFinite",
    "isNaN",
    "parseFloat",
    "parseInt",
    "undefined",
    "unescape",
    "constructor",
    "hasOwnProperty",
    "isPrototypeOf",
    "propertyIsEnumerable",
    "toLocaleString",
    "toString",
    "valueOf",
    "__proto__",
    "__defineGetter__",
    "__defineSetter__",
    "__lookupGetter__",
    "__lookupSetter__",
    "AbortController",
    "AbortSignal",
    "Blob",
    "BroadcastChannel",
    "ByteLengthQueuingStrategy",
    "CloseEvent",
    "CompressionStream",
    "CountQueuingStrategy",
    "Crypto",
    "CryptoKey",
    "CustomEvent",
    "DOMException",
    "DecompressionStream",
    "Deno",
    "ErrorEvent",
    "Event",
    "EventTarget",
    "File",
    "FileReader",
    "FormData",
    "Headers",
    "ImageData",
    "Location",
    "MessageChannel",
    "MessageEvent",
    "MessagePort",
    "Navigator",
    "Performance",
    "PerformanceEntry",
    "PerformanceMark",
    "PerformanceMeasure",
    "ProgressEvent",
    "PromiseRejectionEvent",
    "ReadableByteStreamController",
    "ReadableStream",
    "ReadableStreamBYOBReader",
    "ReadableStreamBYOBRequest",
    "ReadableStreamDefaultController",
    "ReadableStreamDefaultReader",
    "Request",
    "Response",
    "Storage",
    "SubtleCrypto",
    "TextDecoder",
    "TextDecoderStream",
    "TextEncoder",
    "TextEncoderStream",
    "TransformStream",
    "TransformStreamDefaultController",
    "URL",
    "URLPattern",
    "URLSearchParams",
    "WebAssembly",
    "WebSocket",
    "Window",
    "Worker",
    "WritableStream",
    "WritableStreamDefaultController",
    "WritableStreamDefaultWriter",
    "addEventListener",
    "alert",
    "atob",
    "btoa",
    "caches",
    "clearInterval",
    "clearTimeout",
    "close",
    "closed",
    "confirm",
    "console",
    "createImageBitmap",
    "crypto",
    "dispatchEvent",
    "fetch",
    "localStorage",
    "location",
    "navigator",
    "onerror",
    "onload",
    "onunload",
    "onunhandledrejection",
    "performance",
    "prompt",
    "queueMicrotask",
    "removeEventListener",
    "reportError",
    "self",
    "sessionStorage",
    "setInterval",
    "setTimeout",
    "structuredClone",
    "window",
];

/// Reports references to undeclared variables.
#[derive(Debug)]
pub struct NoUndef;

/// `name` is one of the known globals.
pub open spec fn is_global(name: Seq<char>) -> bool {
    exists|i: int| 0 <= i < GLOBALS@.len() && #[trigger] GLOBALS@[i]@ == name
}

pub open spec fn undef_message(name: Seq<char>) -> Seq<char> {
    name + " is not defined"@
}

/// A reference: reported where no declaration of the program binds it, it is
/// not `arguments` (which every function defines), and it is no known global.
pub open spec fn reference_diags(span: Span, name: Seq<char>, binding: Option<u32>) -> Seq<DiagnosticView> {
    if binding is None && name != "arguments"@ && !is_global(name) {
        seq![plain_diag(span, CODE@, undef_message(name))]
    } else {
        Seq::empty()
    }
}

/// The references that a node makes: a name read in an expression, a
/// shorthand property, and a name that an assignment target writes.
pub open spec fn node_diags(n: Node, target: bool) -> Seq<DiagnosticView> {
    match n {
        Node::Expr(Expr::Ident(i)) => reference_diags(i.span, i.name@, i.binding),
        Node::Prop(Prop::Shorthand(i)) => reference_diags(i.span, i.name@, i.binding),
        Node::Pat(Pat::Ident { span, name, binding, .. }) => if target {
            reference_diags(span, name@, binding)
        } else {
            Seq::empty()
        },
        _ => Seq::empty(),
    }
}

pub open spec fn is_typeof(n: Node) -> bool {
    n matches Node::Expr(Expr::Unary { op: UnaryOp::TypeOf, .. })
}

/// What the walk keeps, for each enclosing node: whether it is inside the
/// operand of `typeof` (where nothing is reported), and whether the patterns
/// right under it are assignment targets.
pub open spec fn step_fn() -> spec_fn(Seq<(bool, bool)>, SEvent) -> (Seq<(bool, bool)>, Seq<DiagnosticView>) {
    |st: Seq<(bool, bool)>, ev: SEvent|
        match ev {
            SEvent::Enter(n) => {
                let in_typeof = st.len() > 0 && st.last().0;
                let target = n is Pat && st.len() > 0 && st.last().1;
                (
                    st.push((in_typeof || is_typeof(n), opens_targets(n, target))),
                    if in_typeof {
                        Seq::empty()
                    } else {
                        node_diags(n, target)
                    },
                )
            },
            SEvent::Exit(_) => (
                if st.len() > 0 {
                    st.drop_last()
                } else {
                    st
                },
                Seq::empty(),
            ),
        }
}

/// The diagnostics of the rule on a program, in the order of the walk.
pub open spec fn undef_diags(p: Program) -> Seq<DiagnosticView> {
    fold_events(program_events(p), Seq::<(bool, bool)>::empty(), step_fn()).1
}

/// Whether a name is one of the known globals.
pub fn is_known_global(name: &str) -> (r: bool)
    ensures
        r == is_global(name@),
{
    let mut i: usize = 0;
    while i < 165
        invariant
            i <= 165,
            GLOBALS@.len() == 165,
            forall|j: int| 0 <= j < i ==> GLOBALS@[j]@ != name@,
        decreases 165 - i,
    {
        if str_eq(GLOBALS[i], name) {
            return true;
        }
        i = i + 1;
    }
    false
}

fn check_reference(out: &mut Vec<Diagnostic>, span: Span, name: &str, binding: Option<u32>)
    ensures
        diag_views(final(out)@) == diag_views(old(out)@) + reference_diags(span, name@, binding),
{
    if binding.is_none() && !str_eq(name, "arguments") && !is_known_global(name) {
        let mut msg = String::from_str(name);
        msg.append(" is not defined");
        let ghost before = diag_views(out@);
        push_diag(out, Diagnostic::with_message(span, CODE, msg));
        assert(diag_views(out@) =~= before + reference_diags(span, name@, binding));
    } else {
        assert(diag_views(out@) =~= diag_views(out@) + reference_diags(span, name@, binding));
    }
}

fn check_node(out: &mut Vec<Diagnostic>, n: NodeRef, target: bool)
    ensures
        diag_views(final(out)@) == diag_views(old(out)@) + node_diags(n@, target),
{
    match n {
        NodeRef::Expr(Expr::Ident(i)) => check_reference(out, i.span, i.name.as_str(), i.binding),
        NodeRef::Prop(Prop::Shorthand(i)) => check_reference(out, i.span, i.name.as_str(), i.binding),
        NodeRef::Pat(Pat::Ident { span, name, binding, .. }) => {
            if target {
                check_reference(out, *span, name.as_str(), *binding);
            } else {
                assert(diag_views(out@) =~= diag_views(out@) + node_diags(n@, target));
            }
        },
        _ => {
            assert(diag_views(out@) =~= diag_views(out@) + node_diags(n@, target));
        },
    }
}

impl NoUndef {
    /// The tags of the rule: it belongs to no set.
    pub fn tags(&self) -> (r: Vec<&'static str>)
        ensures
            crate::tags::tag_views(r@) == Seq::<Seq<char>>::empty(),
    {
        crate::tags::untagged()
    }

    pub fn code(&self) -> (r: &'static str)
        ensures
            r@ == CODE@,
    {
        CODE
    }

    /// The diagnostics of the rule on a program, in the order of the walk.
    pub fn lint(&self, program: &Program) -> (r: Vec<Diagnostic>)
        ensures
            diag_views(r@) == undef_diags(*program),
    {
        let events = walk_program(program);
        let ghost evs = event_views(events@);
        let mut out: Vec<Diagnostic> = Vec::new();
        let mut st: Vec<(bool, bool)> = Vec::new();
        assert(diag_views(out@) =~= Seq::<DiagnosticView>::empty());
        let mut i: usize = 0;
        while i < events.len()
            invariant
                evs == event_views(events@),
                i <= events.len(),
                fold_events(evs.take(i as int), Seq::<(bool, bool)>::empty(), step_fn()) == (
                    st@,
                    diag_views(out@),
                ),
            decreases events.len() - i,
        {
            proof {
                lemma_fold_events_step(evs, i as int, Seq::<(bool, bool)>::empty(), step_fn());
            }
            let ghost before = diag_views(out@);
            match events[i] {
                Event::Enter(n) => {
                    let in_typeof = st.len() > 0 && st[st.len() - 1].0;
                    let target = match n {
                        NodeRef::Pat(_) => st.len() > 0 && st[st.len() - 1].1,
                        _ => false,
                    };
                    if !in_typeof {
                        check_node(&mut out, n, target);
                    } else {
                        assert(diag_views(out@) =~= before + Seq::<DiagnosticView>::empty());
                    }
                    let t = match n {
                        NodeRef::Expr(Expr::Unary { op: UnaryOp::TypeOf, .. }) => true,
                        _ => false,
                    };
                    let o = opens_targets_of(n, target);
                    st.push((in_typeof || t, o));
                },
                Event::Exit(_) => {
                    if st.len() > 0 {
                        st.pop();
                    }
                    assert(diag_views(out@) =~= before + Seq::<DiagnosticView>::empty());
                },
            }
            i = i + 1;
        }
        assert(evs.take(events.len() as int) =~= evs);
        out
    }
}

/// Every diagnostic of the rule carries its code.
pub proof fn lemma_diags_carry_code(program: Program)
    ensures
        forall|i: int|
            0 <= i < undef_diags(program).len() ==> (#[trigger] undef_diags(program)[i]).code == CODE@,
{
    let prop = |d: DiagnosticView| d.code == CODE@;
    assert forall|s: Seq<(bool, bool)>, e: SEvent, i: int| 0 <= i < step_fn()(s, e).1.len() implies prop(
        #[trigger] step_fn()(s, e).1[i],
    ) by {}
    lemma_fold_events_all(program_events(program), Seq::<(bool, bool)>::empty(), step_fn(), prop);
}

} // verus!
