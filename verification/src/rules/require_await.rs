//! `require-await`: an async function is to await something.
//!
//! An async function, method or arrow function that is neither a generator
//! nor empty is reported where its body holds no `await`, no `for await` and
//! no `await using` of its own (those of nested functions count for them).

use vstd::prelude::*;
use crate::ast::{
    ArrowBody, ClassMember, Expr, Function, Lit, MethodKind, Program, Prop, PropName, Span, Stmt,
    VarKind,
};
use crate::diagnostic::{Diagnostic, DiagnosticView, diag_views, hinted_diag, push_diag};
use crate::text::{
    byte_len, char_index, char_index_of, char_utf8_len, lemma_byte_len_prefix, lemma_byte_len_step,
    str_byte_len, utf8_len,
};
use crate::walk::{Event, Node, NodeRef, SEvent, event_views, program_events, walk_program};
use crate::rules::{fold_events, lemma_fold_events_step};

verus! {

pub const CODE: &'static str = "require-await";

pub const HINT: &'static str = "Remove 'async' keyword from the function or use 'await' expression or 'await using' declaration inside.";

pub const ANONYMOUS_FUNCTION: &'static str = "Async function has no 'await' expression or 'await using' declaration.";

pub const ARROW_FUNCTION: &'static str = "Async arrow function has no 'await' expression or 'await using' declaration.";

pub const ANONYMOUS_METHOD: &'static str = "Async method has no 'await' expression or 'await using' declaration.";

/// Reports each async function that awaits nothing.
#[derive(Debug)]
pub struct RequireAwait;

pub open spec fn tail() -> Seq<char> {
    "' has no 'await' expression or 'await using' declaration."@
}

/// The message for a function, named or not.
pub open spec fn function_message(name: Option<Seq<char>>) -> Seq<char> {
    match name {
        Some(n) => "Async function '"@ + n + tail(),
        None => ANONYMOUS_FUNCTION@,
    }
}

/// The message for a method, named or not.
pub open spec fn method_message(name: Option<Seq<char>>) -> Seq<char> {
    match name {
        Some(n) => "Async method '"@ + n + tail(),
        None => ANONYMOUS_METHOD@,
    }
}

/// The name of a method's key, where it is written as a name, a private
/// name, a string or a number.
pub open spec fn key_name(k: PropName) -> Option<Seq<char>> {
    match k {
        PropName::Ident(i) => Some(i.name@),
        PropName::Private(i) => Some("#"@ + i.name@),
        PropName::Str(s) => Some(s.value@),
        PropName::Num(n) => Some(n.value_text@),
        PropName::BigInt(_) => None,
        PropName::Computed { expr: e, .. } => match *e {
            Expr::Lit(Lit::Str(s)) => Some(s.value@),
            Expr::Lit(Lit::Num(n)) => Some(n.value_text@),
            _ => None,
        },
    }
}

/// A function being read: the message it is reported with, whether it must
/// await (async, not a generator, not empty), whether it does, and where it
/// is reported.
pub struct ScopeView {
    pub message: Seq<char>,
    pub must_await: bool,
    pub has_await: bool,
    pub range: Span,
}

/// The state of the walk: the functions being read, innermost last, and the
/// name of the method whose function comes next, from a class or from an
/// object literal.
pub struct AwaitState {
    pub scopes: Seq<ScopeView>,
    pub pending_method: Option<Option<Seq<char>>>,
    pub pending_object_method: Option<Option<Seq<char>>>,
}

pub open spec fn init_state() -> AwaitState {
    AwaitState { scopes: Seq::empty(), pending_method: None, pending_object_method: None }
}

/// The first character index from `k` on, before `end`, where `async`
/// starts in `s`.
pub open spec fn first_async(s: Seq<char>, k: int, end: int) -> Option<int>
    decreases end - k,
{
    if k < 0 || k + 5 > end || end > s.len() {
        None
    } else if s.subrange(k, k + 5) == "async"@ {
        Some(k)
    } else {
        first_async(s, k + 1, end)
    }
}

/// Where an async function is reported: the first `async` in its text, or
/// else the whole function.
pub open spec fn async_span(src: Seq<char>, span: Span) -> Span {
    let hi: nat = if span.hi as nat <= byte_len(src) {
        span.hi as nat
    } else {
        byte_len(src)
    };
    match (char_index(src, span.lo as nat), char_index(src, hi)) {
        (Some(a), Some(b)) => match first_async(src, a, b) {
            Some(k) => Span {
                lo: byte_len(src.take(k)) as usize,
                hi: (byte_len(src.take(k)) + 5) as usize,
            },
            None => span,
        },
        _ => span,
    }
}

pub open spec fn function_empty(f: Function) -> bool {
    match f.body {
        Some(b) => b.stmts@.len() == 0,
        None => true,
    }
}

pub open spec fn arrow_empty(body: ArrowBody) -> bool {
    match body {
        ArrowBody::Block(b) => b.stmts@.len() == 0,
        ArrowBody::Expr(_) => false,
    }
}

/// The state with the innermost function marked as awaiting.
pub open spec fn mark_await(st: AwaitState) -> AwaitState {
    if st.scopes.len() > 0 {
        let last = st.scopes.last();
        AwaitState {
            scopes: st.scopes.drop_last().push(
                ScopeView { message: last.message, must_await: last.must_await, has_await: true, range: last.range },
            ),
            ..st
        }
    } else {
        st
    }
}

/// Leaving a function: its diagnostic, if it had to await and did not.
pub open spec fn close(st: AwaitState) -> (AwaitState, Seq<DiagnosticView>) {
    if st.scopes.len() > 0 {
        let last = st.scopes.last();
        (
            AwaitState { scopes: st.scopes.drop_last(), ..st },
            if last.must_await && !last.has_await {
                seq![hinted_diag(last.range, CODE@, last.message, HINT@)]
            } else {
                Seq::empty()
            },
        )
    } else {
        (st, Seq::empty())
    }
}

/// Entering a function with a body: a method takes the name that its class
/// or object literal left pending.
pub open spec fn open_function(src: Seq<char>, st: AwaitState, f: Function) -> AwaitState {
    let (message, st2) = match st.pending_method {
        Some(m) => (method_message(m), AwaitState { pending_method: None, ..st }),
        None => match st.pending_object_method {
            Some(m) => (method_message(m), AwaitState { pending_object_method: None, ..st }),
            None => (
                function_message(
                    match f.id {
                        Some(id) => Some(id.name@),
                        None => None,
                    },
                ),
                st,
            ),
        },
    };
    AwaitState {
        scopes: st2.scopes.push(
            ScopeView {
                message,
                must_await: f.is_async && !f.is_generator && !function_empty(f),
                has_await: false,
                range: if f.is_async {
                    async_span(src, f.span)
                } else {
                    f.span
                },
            },
        ),
        ..st2
    }
}

pub open spec fn step(src: Seq<char>, st: AwaitState, ev: SEvent) -> (AwaitState, Seq<DiagnosticView>) {
    match ev {
        SEvent::Enter(n) => (
            match n {
                Node::ClassMember(ClassMember::Method { key, kind, .. }) => if kind
                    == MethodKind::Method {
                    AwaitState { pending_method: Some(key_name(key)), ..st }
                } else {
                    st
                },
                Node::Prop(Prop::Method { key, kind, .. }) => if kind == MethodKind::Method {
                    AwaitState { pending_object_method: Some(key_name(key)), ..st }
                } else {
                    st
                },
                Node::Function(f) => if f.body is Some {
                    open_function(src, st, f)
                } else {
                    st
                },
                Node::Expr(Expr::Arrow(a)) => AwaitState {
                    scopes: st.scopes.push(
                        ScopeView {
                            message: ARROW_FUNCTION@,
                            must_await: a.is_async && !arrow_empty(a.body),
                            has_await: false,
                            range: if a.is_async {
                                async_span(src, a.span)
                            } else {
                                a.span
                            },
                        },
                    ),
                    ..st
                },
                Node::Expr(Expr::Await { .. }) => mark_await(st),
                Node::Stmt(Stmt::ForOf { is_await: true, .. }) => mark_await(st),
                Node::VarDecl(d) => if d.kind == VarKind::AwaitUsing {
                    mark_await(st)
                } else {
                    st
                },
                _ => st,
            },
            Seq::empty(),
        ),
        SEvent::Exit(n) => match n {
            Node::Function(f) => if f.body is Some {
                close(st)
            } else {
                (st, Seq::empty())
            },
            Node::Expr(Expr::Arrow(_)) => close(st),
            _ => (st, Seq::empty()),
        },
    }
}

pub open spec fn check_fn(src: Seq<char>) -> spec_fn(AwaitState, SEvent) -> (
    AwaitState,
    Seq<DiagnosticView>,
) {
    |st: AwaitState, ev: SEvent| step(src, st, ev)
}

fn key_name_of(k: &PropName) -> (r: Option<String>)
    ensures
        match r {
            Some(s) => key_name(*k) == Some(s@),
            None => key_name(*k) is None,
        },
{
    match k {
        PropName::Ident(i) => Some(i.name.clone()),
        PropName::Private(i) => {
            let mut s = String::from_str("#");
            s.append(i.name.as_str());
            Some(s)
        },
        PropName::Str(s) => Some(s.value.clone()),
        PropName::Num(n) => Some(n.value_text.clone()),
        PropName::BigInt(_) => None,
        PropName::Computed { expr: e, .. } => match &**e {
            Expr::Lit(Lit::Str(s)) => Some(s.value.clone()),
            Expr::Lit(Lit::Num(n)) => Some(n.value_text.clone()),
            _ => None,
        },
    }
}

pub open spec fn opt_view(o: Option<String>) -> Option<Seq<char>> {
    match o {
        Some(s) => Some(s@),
        None => None,
    }
}

fn named_message(lead: &str, name: &Option<String>, anonymous: &str) -> (r: String)
    ensures
        r@ == match *name {
            Some(n) => lead@ + n@ + tail(),
            None => anonymous@,
        },
{
    match name {
        Some(n) => {
            let mut s = String::from_str(lead);
            s.append(n.as_str());
            s.append("' has no 'await' expression or 'await using' declaration.");
            s
        },
        None => String::from_str(anonymous),
    }
}

fn is_async_at(src: &str, k: usize) -> (r: bool)
    requires
        k + 5 <= src@.len(),
    ensures
        r == (src@.subrange(k as int, k + 5) == "async"@),
{
    proof {
        reveal_strlit("async");
    }
    let n = src.unicode_len();
    let r = src.get_char(k) == 'a' && src.get_char(k + 1) == 's' && src.get_char(k + 2) == 'y'
        && src.get_char(k + 3) == 'n' && src.get_char(k + 4) == 'c';
    if r {
        assert(src@.subrange(k as int, k + 5) =~= "async"@);
    } else {
        assert(src@.subrange(k as int, k + 5) != "async"@) by {
            if src@.subrange(k as int, k + 5) == "async"@ {
                assert(src@.subrange(k as int, k + 5)[0] == 'a');
                assert(src@.subrange(k as int, k + 5)[1] == 's');
                assert(src@.subrange(k as int, k + 5)[2] == 'y');
                assert(src@.subrange(k as int, k + 5)[3] == 'n');
                assert(src@.subrange(k as int, k + 5)[4] == 'c');
            }
        }
    }
    r
}

fn async_span_of(src: &str, span: Span) -> (r: Span)
    requires
        byte_len(src@) <= usize::MAX,
    ensures
        r == async_span(src@, span),
{
    let total = str_byte_len(src);
    let hi = if span.hi <= total {
        span.hi
    } else {
        total
    };
    let ghost v = src@;
    match (char_index_of(src, span.lo), char_index_of(src, hi)) {
        (Some(a), Some(b)) => {
            let n = src.unicode_len();
            let mut k: usize = a;
            let mut off: usize = span.lo;
            proof {
                let w = choose|j: int| 0 <= j <= v.len() && byte_len(#[trigger] v.take(j)) == span.lo as nat;
                assert(w == a);
            }
            while k < b && b - k >= 5
                invariant
                    v == src@,
                    n == v.len(),
                    byte_len(v) <= usize::MAX,
                    a <= k,
                    b <= n,
                    off == byte_len(v.take(k as int)),
                    first_async(v, a as int, b as int) == first_async(v, k as int, b as int),
                    total == byte_len(v),
                    hi == (if span.hi <= total {
                        span.hi
                    } else {
                        total
                    }),
                    char_index(v, span.lo as nat) == Some(a as int),
                    char_index(v, hi as nat) == Some(b as int),
                decreases b - k,
            {
                if is_async_at(src, k) {
                    proof {
                        reveal_strlit("async");
                        let s5 = v.subrange(k as int, k + 5);
                        assert(v[k as int] == s5[0]);
                        assert(v[k + 1] == s5[1]);
                        assert(v[k + 2] == s5[2]);
                        assert(v[k + 3] == s5[3]);
                        assert(v[k + 4] == s5[4]);
                        lemma_byte_len_step(v, k as int);
                        lemma_byte_len_step(v, k + 1);
                        lemma_byte_len_step(v, k + 2);
                        lemma_byte_len_step(v, k + 3);
                        lemma_byte_len_step(v, k + 4);
                        lemma_byte_len_prefix(v, k + 5);
                        assert(utf8_len('a') == 1 && utf8_len('s') == 1 && utf8_len('y') == 1);
                        assert(utf8_len('n') == 1 && utf8_len('c') == 1);
                        assert(byte_len(v.take(k + 5)) == off + 5);
                        assert(first_async(v, k as int, b as int) == Some(k as int));
                    }
                    return Span { lo: off, hi: off + 5 };
                }
                proof {
                    lemma_byte_len_step(v, k as int);
                    lemma_byte_len_prefix(v, k + 1);
                }
                off = off + char_utf8_len(src.get_char(k));
                k = k + 1;
            }
            span
        },
        _ => span,
    }
}

/// A function being read, as the walk holds it.
pub struct FnScope {
    pub message: String,
    pub must_await: bool,
    pub has_await: bool,
    pub range: Span,
}

pub open spec fn scope_view(s: FnScope) -> ScopeView {
    ScopeView { message: s.message@, must_await: s.must_await, has_await: s.has_await, range: s.range }
}

/// The state of the walk, as the walk holds it.
pub struct AwaitWalk {
    pub scopes: Vec<FnScope>,
    pub pending_method: Option<Option<String>>,
    pub pending_object_method: Option<Option<String>>,
}

pub open spec fn pending_view(p: Option<Option<String>>) -> Option<Option<Seq<char>>> {
    match p {
        Some(n) => Some(opt_view(n)),
        None => None,
    }
}

pub open spec fn walk_view(w: AwaitWalk) -> AwaitState {
    AwaitState {
        scopes: w.scopes@.map_values(|s: FnScope| scope_view(s)),
        pending_method: pending_view(w.pending_method),
        pending_object_method: pending_view(w.pending_object_method),
    }
}

fn mark(w: &mut AwaitWalk)
    ensures
        walk_view(*final(w)) == mark_await(walk_view(*old(w))),
{
    let ghost before = walk_view(*w);
    if w.scopes.len() > 0 {
        let mut last = w.scopes.pop().unwrap();
        last.has_await = true;
        w.scopes.push(last);
        assert(walk_view(*w).scopes =~= mark_await(before).scopes);
    }
}

fn close_scope(w: &mut AwaitWalk, out: &mut Vec<Diagnostic>)
    ensures
        walk_view(*final(w)) == close(walk_view(*old(w))).0,
        diag_views(final(out)@) == diag_views(old(out)@) + close(walk_view(*old(w))).1,
{
    let ghost before = walk_view(*w);
    if w.scopes.len() > 0 {
        let last = w.scopes.pop().unwrap();
        assert(walk_view(*w).scopes =~= close(before).0.scopes);
        if last.must_await && !last.has_await {
            push_diag(out, Diagnostic::with_hint(last.range, CODE, last.message, String::from_str(HINT)));
        } else {
            assert(diag_views(out@) =~= diag_views(old(out)@) + close(before).1);
        }
    } else {
        assert(diag_views(out@) =~= diag_views(old(out)@) + close(before).1);
    }
}

fn function_is_empty(f: &Function) -> (r: bool)
    ensures
        r == function_empty(*f),
{
    match &f.body {
        Some(b) => b.stmts.len() == 0,
        None => true,
    }
}

fn open_fn(src: &str, w: &mut AwaitWalk, f: &Function)
    requires
        byte_len(src@) <= usize::MAX,
    ensures
        walk_view(*final(w)) == open_function(src@, walk_view(*old(w)), *f),
{
    let ghost before = walk_view(*w);
    let message = match w.pending_method.take() {
        Some(m) => named_message("Async method '", &m, ANONYMOUS_METHOD),
        None => match w.pending_object_method.take() {
            Some(m) => named_message("Async method '", &m, ANONYMOUS_METHOD),
            None => {
                let name = match &f.id {
                    Some(id) => Some(id.name.clone()),
                    None => None,
                };
                named_message("Async function '", &name, ANONYMOUS_FUNCTION)
            },
        },
    };
    let range = if f.is_async {
        async_span_of(src, f.span)
    } else {
        f.span
    };
    let must = f.is_async && !f.is_generator && !function_is_empty(f);
    w.scopes.push(FnScope { message, must_await: must, has_await: false, range });
    assert(walk_view(*w).scopes =~= open_function(src@, before, *f).scopes);
}

fn enter(src: &str, w: &mut AwaitWalk, n: NodeRef)
    requires
        byte_len(src@) <= usize::MAX,
    ensures
        walk_view(*final(w)) == step(src@, walk_view(*old(w)), SEvent::Enter(n@)).0,
{
    let ghost before = walk_view(*w);
    match n {
        NodeRef::ClassMember(ClassMember::Method { key, kind: MethodKind::Method, .. }) => {
            w.pending_method = Some(key_name_of(key));
        },
        NodeRef::Prop(Prop::Method { key, kind: MethodKind::Method, .. }) => {
            w.pending_object_method = Some(key_name_of(key));
        },
        NodeRef::Function(f) => {
            if f.body.is_some() {
                open_fn(src, w, f);
            }
        },
        NodeRef::Expr(Expr::Arrow(a)) => {
            let empty = match &a.body {
                ArrowBody::Block(b) => b.stmts.len() == 0,
                ArrowBody::Expr(_) => false,
            };
            let range = if a.is_async {
                async_span_of(src, a.span)
            } else {
                a.span
            };
            w.scopes.push(
                FnScope {
                    message: String::from_str(ARROW_FUNCTION),
                    must_await: a.is_async && !empty,
                    has_await: false,
                    range,
                },
            );
            assert(walk_view(*w).scopes =~= step(src@, before, SEvent::Enter(n@)).0.scopes);
        },
        NodeRef::Expr(Expr::Await { .. }) => mark(w),
        NodeRef::Stmt(Stmt::ForOf { is_await: true, .. }) => mark(w),
        NodeRef::VarDecl(d) => {
            if let VarKind::AwaitUsing = d.kind {
                mark(w);
            }
        },
        _ => {},
    }
}

fn exit(w: &mut AwaitWalk, n: NodeRef, out: &mut Vec<Diagnostic>)
    ensures
        walk_view(*final(w)) == step(src_any(), walk_view(*old(w)), SEvent::Exit(n@)).0,
        diag_views(final(out)@) == diag_views(old(out)@) + step(
            src_any(),
            walk_view(*old(w)),
            SEvent::Exit(n@),
        ).1,
{
    match n {
        NodeRef::Function(f) => {
            if f.body.is_some() {
                close_scope(w, out);
            } else {
                assert(diag_views(out@) =~= diag_views(old(out)@) + Seq::<DiagnosticView>::empty());
            }
        },
        NodeRef::Expr(Expr::Arrow(_)) => close_scope(w, out),
        _ => {
            assert(diag_views(out@) =~= diag_views(old(out)@) + Seq::<DiagnosticView>::empty());
        },
    }
}

/// Leaving a node reads no source text.
pub open spec fn src_any() -> Seq<char> {
    Seq::empty()
}

proof fn lemma_exit_src(src: Seq<char>, st: AwaitState, n: Node)
    ensures
        step(src, st, SEvent::Exit(n)) == step(src_any(), st, SEvent::Exit(n)),
{
}

impl RequireAwait {
    /// The tags of the rule: it belongs to the recommended set.
    pub fn tags(&self) -> (r: Vec<&'static str>)
        ensures
            crate::tags::tag_views(r@) == seq![crate::tags::RECOMMENDED@],
    {
        crate::tags::recommended()
    }

    pub fn code(&self) -> (r: &'static str)
        ensures
            r@ == CODE@,
    {
        CODE
    }

    /// The diagnostics of the rule on a program, in the order in which the
    /// functions end.
    pub fn lint(&self, program: &Program) -> (r: Vec<Diagnostic>)
        requires
            byte_len(program.source@) <= usize::MAX,
        ensures
            diag_views(r@) == fold_events(program_events(*program), init_state(), check_fn(program.source@)).1,
    {
        let src = program.source.as_str();
        let events = walk_program(program);
        let ghost evs = event_views(events@);
        let mut out: Vec<Diagnostic> = Vec::new();
        let mut w = AwaitWalk { scopes: Vec::new(), pending_method: None, pending_object_method: None };
        assert(walk_view(w).scopes =~= Seq::<ScopeView>::empty());
        assert(diag_views(out@) =~= Seq::<DiagnosticView>::empty());
        let mut i: usize = 0;
        while i < events.len()
            invariant
                evs == event_views(events@),
                src@ == program.source@,
                byte_len(src@) <= usize::MAX,
                i <= events.len(),
                fold_events(evs.take(i as int), init_state(), check_fn(src@)) == (
                    walk_view(w),
                    diag_views(out@),
                ),
            decreases events.len() - i,
        {
            proof {
                lemma_fold_events_step(evs, i as int, init_state(), check_fn(src@));
            }
            let ghost before = diag_views(out@);
            let ghost st0 = walk_view(w);
            match events[i] {
                Event::Enter(n) => {
                    enter(src, &mut w, n);
                    assert(diag_views(out@) =~= before + Seq::<DiagnosticView>::empty());
                },
                Event::Exit(n) => {
                    proof {
                        lemma_exit_src(src@, st0, n@);
                    }
                    exit(&mut w, n, &mut out);
                },
            }
            i = i + 1;
        }
        assert(evs.take(events.len() as int) =~= evs);
        out
    }
}

} // verus!
