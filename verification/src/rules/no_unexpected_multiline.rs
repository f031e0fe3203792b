//! `no-unexpected-multiline`: a line break where a statement may be read as
//! going on, when it was meant to end: between a function and the `(` of a
//! call, an object and the `[` of a property access, a numerator and a `/`
//! that would start a regular expression, or a template tag and its
//! template.
//!
//! The walk passes over the computed key of a property access and over
//! everything inside a tagged template; it checks a call, a property access
//! and a division after what is inside them, and a tagged template before.

use vstd::prelude::*;
use crate::ast::{span_of, BinOp, Callee, Expr, MemberProp, Program, Span};
use crate::diagnostic::{Diagnostic, DiagnosticView, diag_views, plain_diag, push_diag};
use crate::rules::{fold_events, lemma_fold_events_step};
use crate::text::{byte_len, char_index, char_index_of, char_utf8_len, lemma_byte_len_step, regex_is_match, regex_match};
use crate::ast::expr_span;
use crate::walk::{Event, Node, NodeRef, SEvent, event_views, program_events, walk_program};

verus! {

pub const CODE: &'static str = "no-unexpected-multiline";

pub const CALL_MESSAGE: &'static str = "Unexpected newline between function and ( of function call";

pub const MEMBER_MESSAGE: &'static str = "Unexpected newline between object and [ of property access";

pub const DIV_MESSAGE: &'static str = "Unexpected newline between numerator and division operator";

pub const TEMPLATE_MESSAGE: &'static str = "Unexpected newline between template tag and template literal";

/// What follows the `/` of a division that would start a regular expression
/// with flags.
pub const SLASH_AND_FLAGS_PATTERN: &'static str = r"^/[gimsuy]+(?:[\W].*)?$";

/// Reports each line break that splits an expression where a new statement
/// may have been meant.
#[derive(Debug)]
pub struct NoUnexpectedMultiline;

/// The walk of the rule, as the code holds it.
#[derive(Debug)]
pub struct NoUnexpectedMultilineVisitor {
    depth: usize,
    skip: Option<usize>,
    frames: Vec<(usize, usize)>,
}

/// `char::is_whitespace`: the characters with Unicode's `White_Space`
/// property.
pub open spec fn is_whitespace(c: char) -> bool {
    ||| '\t' <= c && c <= '\r'
    ||| c == ' '
    ||| c == '\u{85}'
    ||| c == '\u{a0}'
    ||| c == '\u{1680}'
    ||| '\u{2000}' <= c && c <= '\u{200a}'
    ||| c == '\u{2028}'
    ||| c == '\u{2029}'
    ||| c == '\u{202f}'
    ||| c == '\u{205f}'
    ||| c == '\u{3000}'
}

/// Whether the scan stops at `c`: at `/` when looking for a slash, else at
/// anything but `)` and whitespace.
pub open spec fn stops_at(c: char, slash: bool) -> bool {
    if slash {
        c == '/'
    } else {
        !(c == ')' || is_whitespace(c))
    }
}

/// The index of the first character of `src`, from index `k` on and before
/// byte offset `hi`, at which the scan stops.
pub open spec fn scan(src: Seq<char>, k: int, hi: nat, slash: bool) -> Option<int>
    decreases src.len() - k,
{
    if k < 0 || k >= src.len() || byte_len(src.take(k)) >= hi {
        None
    } else if stops_at(src[k], slash) {
        Some(k)
    } else {
        scan(src, k + 1, hi, slash)
    }
}

/// Whether a line ends between the characters `a` and `b`.
pub open spec fn newline_between(src: Seq<char>, a: int, b: int) -> bool {
    exists|k: int| a <= k < b && src[k] == '\n'
}

/// A break between what ends at `after` and the first character after it,
/// `)` and whitespace aside, within `outer`: reported from just past that
/// character to the end of `outer`.
pub open spec fn break_after(src: Seq<char>, outer: Span, after: Span, message: Seq<char>) -> Seq<DiagnosticView> {
    if outer.hi <= after.hi {
        Seq::empty()
    } else {
        match char_index(src, after.hi as nat) {
            Some(a) => match scan(src, a, outer.hi as nat, false) {
                Some(k) => if newline_between(src, a, k) {
                    seq![plain_diag(Span { lo: (byte_len(src.take(k)) + 1) as usize, hi: outer.hi }, CODE@, message)]
                } else {
                    Seq::empty()
                },
                None => Seq::empty(),
            },
            None => Seq::empty(),
        }
    }
}

/// The text from the first `/` at or after byte offset `lo` to byte offset
/// `hi`.
pub open spec fn slash_snippet(src: Seq<char>, lo: usize, hi: usize) -> Option<Seq<char>> {
    match char_index(src, lo as nat) {
        Some(a) => match scan(src, a, hi as nat, true) {
            Some(k) => match char_index(src, hi as nat) {
                Some(b) => if k <= b {
                    Some(src.subrange(k, b))
                } else {
                    None
                },
                None => None,
            },
            None => None,
        },
        None => None,
    }
}

pub open spec fn callee_span(c: Callee) -> Span {
    match c {
        Callee::Expr(x) => expr_span(*x),
        Callee::Super(s) => s,
        Callee::Import(s) => s,
    }
}

/// A division whose numerator is a division, followed by what reads as the
/// flags of a regular expression: the break is looked for after the inner
/// numerator.
pub open spec fn div_diags(src: Seq<char>, e: Expr) -> Seq<DiagnosticView> {
    match e {
        Expr::Bin { span, op: BinOp::Div, left, .. } => match *left {
            Expr::Bin { op: inner_op, left: inner_left, .. } => if inner_op != BinOp::Div {
                Seq::empty()
            } else {
                match slash_snippet(src, expr_span(*left).hi, span.hi) {
                    Some(t) => if regex_match(SLASH_AND_FLAGS_PATTERN@, t) == Some(true) {
                        break_after(src, span, expr_span(*inner_left), DIV_MESSAGE@)
                    } else {
                        Seq::empty()
                    },
                    None => Seq::empty(),
                }
            },
            _ => Seq::empty(),
        },
        _ => Seq::empty(),
    }
}

/// What a node gives after what is inside it: a call with arguments, a
/// computed property access and a division, none of them the link of an
/// optional chain.
pub open spec fn exit_diags(src: Seq<char>, n: Node) -> Seq<DiagnosticView> {
    match n {
        Node::Expr(e) => match e {
            Expr::Call { span, callee, args, optional } => if args.len() == 0 || optional {
                Seq::empty()
            } else {
                break_after(src, span, callee_span(callee), CALL_MESSAGE@)
            },
            Expr::Member { span, obj, prop: MemberProp::Computed(_), optional } => if optional {
                Seq::empty()
            } else {
                break_after(src, span, expr_span(*obj), MEMBER_MESSAGE@)
            },
            Expr::Bin { .. } => div_diags(src, e),
            _ => Seq::empty(),
        },
        _ => Seq::empty(),
    }
}

/// What a tagged template gives: a line break between the tag and the
/// template, reported at the template's first part.
pub open spec fn enter_diags(src: Seq<char>, n: Node) -> Seq<DiagnosticView> {
    match n {
        Node::Expr(Expr::TaggedTemplate { tag, quasis, .. }) => if quasis.len() == 0 {
            Seq::empty()
        } else {
            let q = quasis@[0].span;
            match (char_index(src, expr_span(*tag).hi as nat), char_index(src, q.lo as nat)) {
                (Some(a), Some(b)) => if newline_between(src, a, b) {
                    seq![plain_diag(q, CODE@, TEMPLATE_MESSAGE@)]
                } else {
                    Seq::empty()
                },
                _ => Seq::empty(),
            }
        },
        _ => Seq::empty(),
    }
}

pub open spec fn is_computed_member(n: Node) -> bool {
    n matches Node::Expr(Expr::Member { prop: MemberProp::Computed(_), .. })
}

pub open spec fn is_tagged_template(n: Node) -> bool {
    n matches Node::Expr(Expr::TaggedTemplate { .. })
}

/// The state of the walk: how deep it is; how deep the node stands whose
/// inside it passes over (`None` where it passes over nothing); and, for
/// each computed property access it is in, how deep it stands and how many
/// of its parts have been met.
pub struct MlView {
    pub depth: nat,
    pub skip: Option<nat>,
    pub frames: Seq<(nat, nat)>,
}

/// One more part of a computed property access met: the count stops at two,
/// the object and the key.
pub open spec fn next_count(c: nat) -> nat {
    if c < 2 {
        c + 1
    } else {
        c
    }
}

pub open spec fn ml_step(src: Seq<char>, st: MlView, e: SEvent) -> (MlView, Seq<DiagnosticView>) {
    match e {
        SEvent::Enter(n) => if st.skip is Some {
            (MlView { depth: st.depth + 1, ..st }, Seq::empty())
        } else if st.frames.len() > 0 && st.frames.last().0 + 1 == st.depth && st.frames.last().1 + 1 == 2 {
            // The key of a computed property access: passed over.
            (
                MlView {
                    depth: st.depth + 1,
                    skip: Some(st.depth),
                    frames: st.frames.update(st.frames.len() - 1, (st.frames.last().0, 2)),
                },
                Seq::empty(),
            )
        } else {
            let frames = if st.frames.len() > 0 && st.frames.last().0 + 1 == st.depth {
                st.frames.update(st.frames.len() - 1, (st.frames.last().0, next_count(st.frames.last().1)))
            } else {
                st.frames
            };
            (
                MlView {
                    depth: st.depth + 1,
                    skip: if is_tagged_template(n) { Some(st.depth) } else { None },
                    frames: if is_computed_member(n) { frames.push((st.depth, 0)) } else { frames },
                },
                enter_diags(src, n),
            )
        },
        SEvent::Exit(n) => {
            let d: nat = if st.depth > 0 { (st.depth - 1) as nat } else { 0 };
            let frames = if st.frames.len() > 0 && st.frames.last().0 == d {
                st.frames.drop_last()
            } else {
                st.frames
            };
            if st.skip is Some {
                (MlView { depth: d, skip: if st.skip == Some(d) { None } else { st.skip }, frames }, Seq::empty())
            } else {
                (MlView { depth: d, skip: None, frames }, exit_diags(src, n))
            }
        },
    }
}

pub open spec fn step_fn(src: Seq<char>) -> spec_fn(MlView, SEvent) -> (MlView, Seq<DiagnosticView>) {
    |st: MlView, e: SEvent| ml_step(src, st, e)
}

pub open spec fn init_ml() -> MlView {
    MlView { depth: 0, skip: None, frames: Seq::empty() }
}

/// The diagnostics of the rule on a program.
pub open spec fn multiline_diags(p: Program) -> Seq<DiagnosticView> {
    fold_events(program_events(p), init_ml(), step_fn(p.source@)).1
}

// ---------------------------------------------------------------------------
// The rule, as the code runs it.

fn whitespace(c: char) -> (r: bool)
    ensures
        r == is_whitespace(c),
{
    ('\t' <= c && c <= '\r') || c == ' ' || c == '\u{85}' || c == '\u{a0}' || c == '\u{1680}' || ('\u{2000}'
        <= c && c <= '\u{200a}') || c == '\u{2028}' || c == '\u{2029}' || c == '\u{202f}' || c == '\u{205f}'
        || c == '\u{3000}'
}

/// `scan`, computed: the index at which it stops, and its byte offset.
fn scan_from(src: &str, a: usize, start: usize, hi: usize, slash: bool) -> (r: Option<(usize, usize)>)
    requires
        a <= src@.len(),
        byte_len(src@.take(a as int)) == start,
    ensures
        match r {
            Some((k, off)) => scan(src@, a as int, hi as nat, slash) == Some(k as int) && off == byte_len(
                src@.take(k as int),
            ) && off < hi && k < src@.len(),
            None => scan(src@, a as int, hi as nat, slash) is None,
        },
{
    let n = src.unicode_len();
    let mut k: usize = a;
    let mut off: usize = start;
    loop
        invariant
            n == src@.len(),
            a <= k <= n,
            off == byte_len(src@.take(k as int)),
            scan(src@, a as int, hi as nat, slash) == scan(src@, k as int, hi as nat, slash),
        decreases n - k,
    {
        if k >= n || off >= hi {
            return None;
        }
        let c = src.get_char(k);
        let stop = if slash {
            c == '/'
        } else {
            !(c == ')' || whitespace(c))
        };
        if stop {
            return Some((k, off));
        }
        proof {
            lemma_byte_len_step(src@, k as int);
        }
        match off.checked_add(char_utf8_len(c)) {
            Some(next) => {
                off = next;
                k = k + 1;
            },
            None => {
                assert(scan(src@, k + 1, hi as nat, slash) is None);
                return None;
            },
        }
    }
}

fn newline_in(src: &str, a: usize, b: usize) -> (r: bool)
    requires
        b <= src@.len(),
    ensures
        r == newline_between(src@, a as int, b as int),
{
    let mut j: usize = a;
    while j < b
        invariant
            a <= j || b <= j,
            b <= src@.len(),
            forall|x: int| a <= x < j ==> src@[x] != '\n',
        decreases b - j,
    {
        if src.get_char(j) == '\n' {
            return true;
        }
        j = j + 1;
    }
    false
}

fn break_after_of(src: &str, outer: Span, after: Span, message: &str, out: &mut Vec<Diagnostic>)
    ensures
        diag_views(final(out)@) == diag_views(old(out)@) + break_after(src@, outer, after, message@),
{
    let ghost o = diag_views(out@);
    if outer.hi <= after.hi {
        assert(diag_views(out@) =~= o + break_after(src@, outer, after, message@));
        return;
    }
    match char_index_of(src, after.hi) {
        Some(a) => {
            assert(byte_len(src@.take(a as int)) == after.hi);
            match scan_from(src, a, after.hi, outer.hi, false) {
                Some((k, off)) => {
                    if newline_in(src, a, k) {
                        push_diag(out, Diagnostic::new(Span { lo: off + 1, hi: outer.hi }, CODE, message));
                    }
                },
                None => {},
            }
        },
        None => {},
    }
    assert(diag_views(out@) =~= o + break_after(src@, outer, after, message@));
}

fn slash_snippet_of(src: &str, lo: usize, hi: usize) -> (r: Option<&str>)
    ensures
        match r {
            Some(t) => slash_snippet(src@, lo, hi) == Some(t@),
            None => slash_snippet(src@, lo, hi) is None,
        },
{
    match char_index_of(src, lo) {
        Some(a) => {
            assert(byte_len(src@.take(a as int)) == lo);
            match scan_from(src, a, lo, hi, true) {
                Some((k, _)) => match char_index_of(src, hi) {
                    Some(b) => {
                        if k <= b {
                            Some(src.substring_char(k, b))
                        } else {
                            None
                        }
                    },
                    None => None,
                },
                None => None,
            }
        },
        None => None,
    }
}

fn callee_span_of(c: &Callee) -> (r: Span)
    ensures
        r == callee_span(*c),
{
    match c {
        Callee::Expr(x) => span_of(x),
        Callee::Super(s) => *s,
        Callee::Import(s) => *s,
    }
}

fn check_div(src: &str, e: &Expr, out: &mut Vec<Diagnostic>)
    ensures
        diag_views(final(out)@) == diag_views(old(out)@) + div_diags(src@, *e),
{
    let ghost o = diag_views(out@);
    if let Expr::Bin { span, op: BinOp::Div, left, .. } = e {
        if let Expr::Bin { op: inner_op, left: inner_left, .. } = &**left {
            if *inner_op == BinOp::Div {
                if let Some(t) = slash_snippet_of(src, span_of(left).hi, span.hi) {
                    if let Some(true) = regex_is_match(SLASH_AND_FLAGS_PATTERN, t) {
                        break_after_of(src, *span, span_of(inner_left), DIV_MESSAGE, out);
                        return;
                    }
                }
            }
        }
    }
    assert(diag_views(out@) =~= o + div_diags(src@, *e));
}

fn check_exit<'a>(src: &str, n: NodeRef<'a>, out: &mut Vec<Diagnostic>)
    ensures
        diag_views(final(out)@) == diag_views(old(out)@) + exit_diags(src@, n@),
{
    let ghost o = diag_views(out@);
    if let NodeRef::Expr(e) = n {
        match e {
            Expr::Call { span, callee, args, optional } => {
                if !(args.len() == 0 || *optional) {
                    break_after_of(src, *span, callee_span_of(callee), CALL_MESSAGE, out);
                    return;
                }
            },
            Expr::Member { span, obj, prop: MemberProp::Computed(_), optional } => {
                if !*optional {
                    break_after_of(src, *span, span_of(obj), MEMBER_MESSAGE, out);
                    return;
                }
            },
            Expr::Bin { .. } => {
                check_div(src, e, out);
                return;
            },
            _ => {},
        }
    }
    assert(diag_views(out@) =~= o + exit_diags(src@, n@));
}

fn check_enter<'a>(src: &str, n: NodeRef<'a>, out: &mut Vec<Diagnostic>)
    ensures
        diag_views(final(out)@) == diag_views(old(out)@) + enter_diags(src@, n@),
{
    let ghost o = diag_views(out@);
    if let NodeRef::Expr(Expr::TaggedTemplate { tag, quasis, .. }) = n {
        if quasis.len() > 0 {
            let q = quasis[0].span;
            match (char_index_of(src, span_of(tag).hi), char_index_of(src, q.lo)) {
                (Some(a), Some(b)) => {
                    if newline_in(src, a, b) {
                        push_diag(out, Diagnostic::new(q, CODE, TEMPLATE_MESSAGE));
                        return;
                    }
                },
                _ => {},
            }
        }
    }
    assert(diag_views(out@) =~= o + enter_diags(src@, n@));
}

impl View for NoUnexpectedMultilineVisitor {
    type V = MlView;

    closed spec fn view(&self) -> MlView {
        MlView {
            depth: self.depth as nat,
            skip: match self.skip {
                Some(d) => Some(d as nat),
                None => None,
            },
            frames: self.frames@.map_values(|f: (usize, usize)| (f.0 as nat, f.1 as nat)),
        }
    }
}

impl NoUnexpectedMultilineVisitor {
    /// A walk at its start.
    pub fn new() -> (r: Self)
        ensures
            r@ == init_ml(),
    {
        let r = NoUnexpectedMultilineVisitor { depth: 0, skip: None, frames: Vec::new() };
        assert(r@.frames =~= Seq::<(nat, nat)>::empty());
        r
    }

    /// One event of the walk: the state moves on, and the diagnostics it
    /// gives are appended.
    #[verifier::rlimit(40)]
    fn step<'a>(&mut self, src: &str, e: Event<'a>, out: &mut Vec<Diagnostic>)
        requires
            old(self).depth < usize::MAX,
        ensures
            final(self)@ == ml_step(src@, old(self)@, e@).0,
            diag_views(final(out)@) == diag_views(old(out)@) + ml_step(src@, old(self)@, e@).1,
            final(self).depth <= old(self).depth + 1,
    {
        let ghost before = self@;
        let ghost o = diag_views(out@);
        let d = self.depth;
        let nf = self.frames.len();
        match e {
            Event::Enter(n) => {
                if self.skip.is_some() {
                    self.depth = d + 1;
                    assert(diag_views(out@) =~= o + Seq::<DiagnosticView>::empty());
                } else if nf > 0 && self.frames[nf - 1].0 < d && self.frames[nf - 1].0 + 1 == d
                    && self.frames[nf - 1].1 == 1 {
                    let top = self.frames[nf - 1].0;
                    self.frames.set(nf - 1, (top, 2));
                    self.skip = Some(d);
                    self.depth = d + 1;
                    assert(diag_views(out@) =~= o + Seq::<DiagnosticView>::empty());
                } else {
                    if nf > 0 && self.frames[nf - 1].0 < d && self.frames[nf - 1].0 + 1 == d {
                        let (top, seen) = self.frames[nf - 1];
                        let next = if seen < 2 {
                            seen + 1
                        } else {
                            seen
                        };
                        self.frames.set(nf - 1, (top, next));
                    }
                    let tagged = match n {
                        NodeRef::Expr(Expr::TaggedTemplate { .. }) => true,
                        _ => false,
                    };
                    let computed = match n {
                        NodeRef::Expr(Expr::Member { prop: MemberProp::Computed(_), .. }) => true,
                        _ => false,
                    };
                    if tagged {
                        self.skip = Some(d);
                    }
                    if computed {
                        self.frames.push((d, 0));
                    }
                    self.depth = d + 1;
                    check_enter(src, n, out);
                }
            },
            Event::Exit(n) => {
                let nd = if d > 0 {
                    d - 1
                } else {
                    0
                };
                if nf > 0 && self.frames[nf - 1].0 == nd {
                    self.frames.pop();
                }
                self.depth = nd;
                match self.skip {
                    Some(x) => {
                        if x == nd {
                            self.skip = None;
                        }
                        assert(diag_views(out@) =~= o + Seq::<DiagnosticView>::empty());
                    },
                    None => check_exit(src, n, out),
                }
            },
        }
        assert(self@.frames =~= ml_step(src@, before, e@).0.frames);
    }
}

impl NoUnexpectedMultiline {
    /// The tags of the rule: it belongs to no set.
    pub fn tags(&self) -> (r: Vec<&'static str>)
        ensures
            crate::tags::tag_views(r@) == Seq::<Seq<char>>::empty(),
    {
        crate::tags::untagged()
    }

    pub fn code(&self) -> (r: &'static str)
        ensures
            r@ == CODE@,
    {
        CODE
    }

    /// The diagnostics of the rule on a program.
    pub fn lint(&self, program: &Program) -> (r: Vec<Diagnostic>)
        ensures
            diag_views(r@) == multiline_diags(*program),
    {
        let src = program.source.as_str();
        let events = walk_program(program);
        let ghost evs = event_views(events@);
        let mut visitor = NoUnexpectedMultilineVisitor::new();
        let mut out: Vec<Diagnostic> = Vec::new();
        assert(diag_views(out@) =~= Seq::<DiagnosticView>::empty());
        let mut i: usize = 0;
        while i < events.len()
            invariant
                evs == event_views(events@),
                src@ == program.source@,
                i <= events.len(),
                visitor.depth <= i,
                fold_events(evs.take(i as int), init_ml(), step_fn(src@)).0 == visitor@,
                fold_events(evs.take(i as int), init_ml(), step_fn(src@)).1 == diag_views(out@),
            decreases events.len() - i,
        {
            proof {
                lemma_fold_events_step(evs, i as int, init_ml(), step_fn(src@));
            }
            visitor.step(src, events[i], &mut out);
            i = i + 1;
        }
        assert(evs.take(events.len() as int) =~= evs);
        out
    }
}

} // verus!
