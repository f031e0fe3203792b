//! `no-useless-length-check`: an emptiness check next to `every` or `some` on
//! the same array is useless.
//!
//! `array.length === 0 || array.every(f)`: `every` is already `true` for an
//! empty array. `array.length > 0 && array.some(f)`: `some` is already
//! `false` for an empty array. A chain of `||` or of `&&` is read as the flat
//! list of its operands, and each pair of neighbours is checked.

use vstd::prelude::*;
use crate::ast::{expr_span, span_of, BinOp, Callee, Expr, Lit, MemberProp, Program, Span};
use crate::diagnostic::{Diagnostic, DiagnosticView, diag_views, hinted_diag, push_diag};
use crate::text::{byte_len, slice_text, str_eq, text_slice};
use crate::walk::{Event, Node, NodeRef, SEvent, event_views, program_events, walk_program};
use crate::rules::{fold_events, lemma_fold_events_step};

verus! {

pub const CODE: &'static str = "no-useless-length-check";

pub const MESSAGE: &'static str = "Found a useless array length check";

pub const HINT_EVERY: &'static str = "The empty check is useless as `Array#every()` returns `true` for an empty array.";

pub const HINT_SOME: &'static str = "The non-empty check is useless as `Array#some()` returns `false` for an empty array.";

/// Reports each length check that `every` or `some` beside it makes useless.
#[derive(Debug)]
pub struct NoUselessLengthCheck;

/// What an enclosing node is, as far as the rule needs to know: a
/// parenthesis, a binary operation, or anything else.
#[derive(Debug, Clone, Copy)]
pub enum Frame {
    Paren,
    Bin(BinOp),
    Other,
}

pub open spec fn frame_of(n: Node) -> Frame {
    match n {
        Node::Expr(Expr::Paren { .. }) => Frame::Paren,
        Node::Expr(Expr::Bin { op, .. }) => Frame::Bin(op),
        _ => Frame::Other,
    }
}

/// The innermost enclosing node that is not a parenthesis.
pub open spec fn parent_frame(st: Seq<Frame>) -> Option<Frame>
    decreases st.len(),
{
    if st.len() == 0 {
        None
    } else if st.last() is Paren {
        parent_frame(st.drop_last())
    } else {
        Some(st.last())
    }
}

pub open spec fn is_logical(op: BinOp) -> bool {
    op == BinOp::LogicalOr || op == BinOp::LogicalAnd
}

pub open spec fn unwrap_paren(e: Expr) -> Expr
    decreases e,
{
    match e {
        Expr::Paren { expr, .. } => unwrap_paren(*expr),
        _ => e,
    }
}

/// The operands that one side of a chain of `op` contributes, parentheses
/// removed.
pub open spec fn side(e: Expr, op: BinOp) -> Seq<Expr>
    decreases e,
{
    match e {
        Expr::Paren { expr, .. } => side(*expr, op),
        Expr::Bin { op: o, left, right, .. } => if o == op {
            side(*left, op) + side(*right, op)
        } else {
            seq![e]
        },
        _ => seq![e],
    }
}

/// The source text of a span, where its ends lie on character boundaries.
pub open spec fn span_text(src: Seq<char>, s: Span) -> Option<Seq<char>> {
    slice_text(src, s.lo as nat, s.hi as nat)
}

/// A number literal written `0`.
pub open spec fn is_raw_zero(src: Seq<char>, e: Expr) -> bool {
    match e {
        Expr::Lit(Lit::Num(n)) => span_text(src, n.span) == Some("0"@),
        _ => false,
    }
}

/// The operators of the length check that each method makes useless.
pub open spec fn check_op(op: BinOp, every: bool) -> bool {
    if every {
        op == BinOp::EqEqEq
    } else {
        op == BinOp::NotEqEq || op == BinOp::Gt
    }
}

pub open spec fn method_name(every: bool) -> Seq<char> {
    if every {
        "every"@
    } else {
        "some"@
    }
}

/// `array.length === 0` (or, for `some`, `array.length !== 0` and
/// `array.length > 0`): the name of the array.
pub open spec fn length_check(src: Seq<char>, e: Expr, every: bool) -> Option<Seq<char>> {
    match e {
        Expr::Bin { op, left, right, .. } => if check_op(op, every) && is_raw_zero(src, *right) {
            match unwrap_paren(*left) {
                Expr::Member { obj, prop: MemberProp::Ident(p), optional: false, .. } => match *obj {
                    Expr::Ident(o) => if p.name@ == "length"@ {
                        Some(o.name@)
                    } else {
                        None
                    },
                    _ => None,
                },
                _ => None,
            }
        } else {
            None
        },
        _ => None,
    }
}

/// `array.every(..)` (or `array.some(..)`): the name of the array.
pub open spec fn method_call(e: Expr, every: bool) -> Option<Seq<char>> {
    match e {
        Expr::Call { callee: Callee::Expr(c), optional: false, .. } => match unwrap_paren(*c) {
            Expr::Member { obj, prop: MemberProp::Ident(p), optional: false, .. } => match *obj {
                Expr::Ident(o) => if p.name@ == method_name(every) {
                    Some(o.name@)
                } else {
                    None
                },
                _ => None,
            },
            _ => None,
        },
        _ => None,
    }
}

/// Where two neighbouring operands hold a useless check: the check, whichever
/// side it stands on.
pub open spec fn useless(src: Seq<char>, l: Expr, r: Expr, every: bool) -> Option<Span> {
    if length_check(src, l, every) is Some && length_check(src, l, every) == method_call(r, every) {
        Some(expr_span(l))
    } else if method_call(l, every) is Some && method_call(l, every) == length_check(src, r, every) {
        Some(expr_span(r))
    } else {
        None
    }
}

pub open spec fn useless_diag(span: Span, every: bool) -> DiagnosticView {
    hinted_diag(span, CODE@, MESSAGE@, if every { HINT_EVERY@ } else { HINT_SOME@ })
}

/// The diagnostics of the pairs of neighbours of a flat list of operands,
/// from index `k` on.
pub open spec fn pairs_diags(src: Seq<char>, flat: Seq<Expr>, every: bool, k: int) -> Seq<
    DiagnosticView,
>
    decreases flat.len() - k,
{
    if 0 <= k && k + 1 < flat.len() {
        (match useless(src, flat[k], flat[k + 1], every) {
            Some(span) => seq![useless_diag(span, every)],
            None => Seq::empty(),
        }) + pairs_diags(src, flat, every, k + 1)
    } else {
        Seq::empty()
    }
}

/// The diagnostics of a logical expression that heads its chain.
pub open spec fn chain_diags(src: Seq<char>, e: Expr) -> Seq<DiagnosticView> {
    match e {
        Expr::Bin { op, left, right, .. } => pairs_diags(
            src,
            side(*left, op) + side(*right, op),
            op == BinOp::LogicalOr,
            0,
        ),
        _ => Seq::empty(),
    }
}

/// On entering a node, within the nodes `st`: a logical expression is read
/// unless its parent, parentheses aside, is an operation with the same
/// operator, which reads it as part of its own chain.
pub open spec fn enter_diags(src: Seq<char>, st: Seq<Frame>, n: Node) -> Seq<DiagnosticView> {
    match n {
        Node::Expr(e) => match e {
            Expr::Bin { op, .. } => if is_logical(op) && parent_frame(st) != Some(Frame::Bin(op)) {
                chain_diags(src, e)
            } else {
                Seq::empty()
            },
            _ => Seq::empty(),
        },
        _ => Seq::empty(),
    }
}

pub open spec fn check_fn(src: Seq<char>) -> spec_fn(Seq<Frame>, SEvent) -> (
    Seq<Frame>,
    Seq<DiagnosticView>,
) {
    |st: Seq<Frame>, ev: SEvent|
        match ev {
            SEvent::Enter(n) => (st.push(frame_of(n)), enter_diags(src, st, n)),
            SEvent::Exit(_) => (
                if st.len() > 0 {
                    st.drop_last()
                } else {
                    st
                },
                Seq::empty(),
            ),
        }
}

pub open spec fn deref_all(s: Seq<&Expr>) -> Seq<Expr> {
    s.map_values(|r: &Expr| *r)
}

pub open spec fn opt_text(o: Option<&str>) -> Option<Seq<char>> {
    match o {
        Some(s) => Some(s@),
        None => None,
    }
}

fn frame_of_node<'a>(n: NodeRef<'a>) -> (f: Frame)
    ensures
        f == frame_of(n@),
{
    match n {
        NodeRef::Expr(Expr::Paren { .. }) => Frame::Paren,
        NodeRef::Expr(Expr::Bin { op, .. }) => Frame::Bin(*op),
        _ => Frame::Other,
    }
}

fn parent_frame_of(st: &Vec<Frame>) -> (r: Option<Frame>)
    ensures
        r == parent_frame(st@),
{
    let mut j: usize = st.len();
    assert(st@.take(j as int) =~= st@);
    while j > 0
        invariant
            j <= st@.len(),
            parent_frame(st@) == parent_frame(st@.take(j as int)),
        decreases j,
    {
        assert(st@.take(j as int).drop_last() =~= st@.take(j - 1));
        if let Frame::Paren = st[j - 1] {
            j = j - 1;
        } else {
            return Some(st[j - 1]);
        }
    }
    None
}

fn unwrap_paren_of(e: &Expr) -> (r: &Expr)
    ensures
        *r == unwrap_paren(*e),
    decreases *e,
{
    match e {
        Expr::Paren { expr, .. } => unwrap_paren_of(expr),
        _ => e,
    }
}

fn raw_zero(src: &str, e: &Expr) -> (r: bool)
    requires
        byte_len(src@) <= usize::MAX,
    ensures
        r == is_raw_zero(src@, *e),
{
    match e {
        Expr::Lit(Lit::Num(n)) => match text_slice(src, n.span.lo, n.span.hi) {
            Some(t) => str_eq(t, "0"),
            None => false,
        },
        _ => false,
    }
}

fn is_check_op(op: BinOp, every: bool) -> (r: bool)
    ensures
        r == check_op(op, every),
{
    if every {
        match op {
            BinOp::EqEqEq => true,
            _ => false,
        }
    } else {
        match op {
            BinOp::NotEqEq => true,
            BinOp::Gt => true,
            _ => false,
        }
    }
}

fn length_check_of<'a>(src: &str, e: &'a Expr, every: bool) -> (r: Option<&'a str>)
    requires
        byte_len(src@) <= usize::MAX,
    ensures
        opt_text(r) == length_check(src@, *e, every),
{
    if let Expr::Bin { op, left, right, .. } = e {
        if is_check_op(*op, every) && raw_zero(src, right) {
            if let Expr::Member { obj, prop: MemberProp::Ident(p), optional: false, .. }
                = unwrap_paren_of(left) {
                if let Expr::Ident(o) = &**obj {
                    if str_eq(p.name.as_str(), "length") {
                        return Some(o.name.as_str());
                    }
                }
            }
        }
    }
    None
}

fn method_call_of<'a>(e: &'a Expr, every: bool) -> (r: Option<&'a str>)
    ensures
        opt_text(r) == method_call(*e, every),
{
    if let Expr::Call { callee: Callee::Expr(c), optional: false, .. } = e {
        if let Expr::Member { obj, prop: MemberProp::Ident(p), optional: false, .. }
            = unwrap_paren_of(c) {
            if let Expr::Ident(o) = &**obj {
                let m = if every {
                    str_eq(p.name.as_str(), "every")
                } else {
                    str_eq(p.name.as_str(), "some")
                };
                if m {
                    return Some(o.name.as_str());
                }
            }
        }
    }
    None
}

fn same_name(a: Option<&str>, b: Option<&str>) -> (r: bool)
    ensures
        r == (opt_text(a) is Some && opt_text(a) == opt_text(b)),
{
    match (a, b) {
        (Some(x), Some(y)) => str_eq(x, y),
        _ => false,
    }
}

fn useless_at(src: &str, l: &Expr, r: &Expr, every: bool) -> (res: Option<Span>)
    requires
        byte_len(src@) <= usize::MAX,
    ensures
        res == useless(src@, *l, *r, every),
{
    if same_name(length_check_of(src, l, every), method_call_of(r, every)) {
        Some(span_of(l))
    } else if same_name(method_call_of(l, every), length_check_of(src, r, every)) {
        Some(span_of(r))
    } else {
        None
    }
}

fn push_side<'a>(e: &'a Expr, op: BinOp, out: &mut Vec<&'a Expr>)
    ensures
        deref_all(final(out)@) == deref_all(old(out)@) + side(*e, op),
    decreases *e,
{
    match e {
        Expr::Paren { expr, .. } => push_side(expr, op, out),
        Expr::Bin { op: o, left, right, .. } => {
            if *o == op {
                push_side(left, op, out);
                push_side(right, op, out);
                assert(deref_all(out@) =~= deref_all(old(out)@) + side(*e, op));
            } else {
                out.push(e);
                assert(deref_all(out@) =~= deref_all(old(out)@) + side(*e, op));
            }
        },
        _ => {
            out.push(e);
            assert(deref_all(out@) =~= deref_all(old(out)@) + side(*e, op));
        },
    }
}

fn check_chain(src: &str, e: &Expr, out: &mut Vec<Diagnostic>)
    requires
        byte_len(src@) <= usize::MAX,
    ensures
        diag_views(final(out)@) == diag_views(old(out)@) + chain_diags(src@, *e),
{
    let ghost o = diag_views(out@);
    if let Expr::Bin { op, left, right, .. } = e {
        let mut flat: Vec<&Expr> = Vec::new();
        assert(deref_all(flat@) =~= Seq::<Expr>::empty());
        push_side(left, *op, &mut flat);
        push_side(right, *op, &mut flat);
        let ghost fl = deref_all(flat@);
        assert(fl =~= side(**left, *op) + side(**right, *op));
        let every = match op {
            BinOp::LogicalOr => true,
            _ => false,
        };
        let mut k: usize = 0;
        while k < flat.len() && k + 1 < flat.len()
            invariant
                byte_len(src@) <= usize::MAX,
                fl == deref_all(flat@),
                k <= flat@.len(),
                every == (*op == BinOp::LogicalOr),
                diag_views(out@) + pairs_diags(src@, fl, every, k as int) == o + pairs_diags(
                    src@,
                    fl,
                    every,
                    0,
                ),
            decreases flat@.len() - k,
        {
            let ghost before = diag_views(out@);
            assert(fl[k as int] == *flat@[k as int]);
            assert(fl[k + 1] == *flat@[k + 1]);
            match useless_at(src, flat[k], flat[k + 1], every) {
                Some(span) => {
                    let d = Diagnostic::with_hint(
                        span,
                        CODE,
                        String::from_str(MESSAGE),
                        String::from_str(if every { HINT_EVERY } else { HINT_SOME }),
                    );
                    push_diag(out, d);
                },
                None => {},
            }
            assert(diag_views(out@) + pairs_diags(src@, fl, every, k + 1) =~= before
                + pairs_diags(src@, fl, every, k as int));
            k = k + 1;
        }
        assert(pairs_diags(src@, fl, every, k as int) =~= Seq::<DiagnosticView>::empty());
        assert(diag_views(out@) =~= o + chain_diags(src@, *e));
    } else {
        assert(diag_views(out@) =~= o + chain_diags(src@, *e));
    }
}

fn check_enter<'a>(src: &str, st: &Vec<Frame>, n: NodeRef<'a>, out: &mut Vec<Diagnostic>)
    requires
        byte_len(src@) <= usize::MAX,
    ensures
        diag_views(final(out)@) == diag_views(old(out)@) + enter_diags(src@, st@, n@),
{
    if let NodeRef::Expr(e) = n {
        if let Expr::Bin { op, .. } = e {
            let logical = match op {
                BinOp::LogicalOr => true,
                BinOp::LogicalAnd => true,
                _ => false,
            };
            if logical {
                let same = match parent_frame_of(st) {
                    Some(Frame::Bin(p)) => p == *op,
                    _ => false,
                };
                if !same {
                    check_chain(src, e, out);
                    return;
                }
            }
        }
    }
    assert(diag_views(out@) =~= diag_views(old(out)@) + enter_diags(src@, st@, n@));
}

impl NoUselessLengthCheck {
    /// The tags of the rule: it belongs to the recommended set.
    pub fn tags(&self) -> (r: Vec<&'static str>)
        ensures
            crate::tags::tag_views(r@) == seq![crate::tags::RECOMMENDED@],
    {
        crate::tags::recommended()
    }

    pub fn code(&self) -> (r: &'static str)
        ensures
            r@ == CODE@,
    {
        CODE
    }

    /// The diagnostics of the rule on a program, in source order.
    pub fn lint(&self, program: &Program) -> (r: Vec<Diagnostic>)
        requires
            byte_len(program.source@) <= usize::MAX,
        ensures
            diag_views(r@) == fold_events(
                program_events(*program),
                Seq::<Frame>::empty(),
                check_fn(program.source@),
            ).1,
    {
        let src = program.source.as_str();
        let events = walk_program(program);
        let ghost evs = event_views(events@);
        let mut out: Vec<Diagnostic> = Vec::new();
        let mut st: Vec<Frame> = Vec::new();
        assert(diag_views(out@) =~= Seq::<DiagnosticView>::empty());
        let mut i: usize = 0;
        while i < events.len()
            invariant
                evs == event_views(events@),
                src@ == program.source@,
                byte_len(src@) <= usize::MAX,
                i <= events.len(),
                fold_events(evs.take(i as int), Seq::<Frame>::empty(), check_fn(src@)) == (
                    st@,
                    diag_views(out@),
                ),
            decreases events.len() - i,
        {
            proof {
                lemma_fold_events_step(evs, i as int, Seq::<Frame>::empty(), check_fn(src@));
            }
            let ghost before = diag_views(out@);
            let ghost st0 = st@;
            match events[i] {
                Event::Enter(n) => {
                    check_enter(src, &st, n, &mut out);
                    st.push(frame_of_node(n));
                },
                Event::Exit(_) => {
                    st.pop();
                    assert(diag_views(out@) =~= before + Seq::<DiagnosticView>::empty());
                },
            }
            assert(check_fn(src@)(st0, evs[i as int]) == (st@, diag_views(out@).subrange(
                before.len() as int,
                diag_views(out@).len() as int,
            )));
            assert(diag_views(out@) =~= before + diag_views(out@).subrange(
                before.len() as int,
                diag_views(out@).len() as int,
            ));
            i = i + 1;
        }
        assert(evs.take(events.len() as int) =~= evs);
        out
    }
}

} // verus!
