//! `no-self-assign`: a variable or a property is not to be assigned to itself.
//!
//! Destructuring is followed into its parts: `[a, b] = [a, c]` assigns `a` to
//! itself, `({a: b} = {a: b})` assigns `b` to itself.

use vstd::prelude::*;
use crate::ast::{
    expr_span, is_chain, is_optional_chain, span_of, AssignOp, Expr, ExprOrSpread, Ident, Lit,
    MemberProp, ObjectPatProp, Pat, Program, Prop, PropName, Span, StrLit,
};
use crate::diagnostic::{Diagnostic, DiagnosticView, diag_views, hinted_diag, push_diag};
use crate::text::{byte_len, slice_text, str_eq, text_slice};
use crate::walk::{Event, Node, NodeRef, SEvent, event_views, program_events, walk_program};
use crate::rules::{fold_events, lemma_fold_events_step};

verus! {

pub const CODE: &'static str = "no-self-assign";

pub const HINT: &'static str = "Self assignments have no effect. Perhaps you made a mistake?";

/// Reports each plain assignment that assigns a variable or a property to
/// itself.
#[derive(Debug)]
pub struct NoSelfAssign;

pub open spec fn message(name: Seq<char>) -> Seq<char> {
    "`"@ + name + "` is assigned to itself"@
}

pub open spec fn self_assign_diag(span: Span, name: Seq<char>) -> DiagnosticView {
    hinted_diag(span, CODE@, message(name), HINT@)
}

pub open spec fn opt_text(o: Option<&str>) -> Option<Seq<char>> {
    match o {
        Some(s) => Some(s@),
        None => None,
    }
}

/// The source text of a span, where its ends lie on character boundaries.
pub open spec fn span_text(src: Seq<char>, s: Span) -> Option<Seq<char>> {
    slice_text(src, s.lo as nat, s.hi as nat)
}

/// Whether an expression is a member access outside an optional chain.
pub open spec fn is_member(e: Expr) -> bool {
    e is Member && !is_chain(e)
}

/// The property name that a computed key gives: the value of a string, the
/// value of a number, or the text of a template without substitutions.
pub open spec fn expr_key_name(e: Expr) -> Option<Seq<char>> {
    match e {
        Expr::Lit(Lit::Str(s)) => Some(s.value@),
        Expr::Lit(Lit::Num(n)) => Some(n.value_text@),
        Expr::Template { exprs, quasis, .. } => if exprs@.len() == 0 && quasis@.len() == 1 {
            match quasis@[0].cooked {
                Some(c) => Some(c@),
                None => None,
            }
        } else {
            None
        },
        _ => None,
    }
}

/// The property name that a key gives, where it is known without running
/// the program.
pub open spec fn key_name(k: PropName) -> Option<Seq<char>> {
    match k {
        PropName::Ident(i) => Some(i.name@),
        PropName::Str(s) => Some(s.value@),
        PropName::Num(n) => Some(n.value_text@),
        PropName::BigInt(_) => None,
        PropName::Private(i) => Some(i.name@),
        PropName::Computed { expr: e, .. } => expr_key_name(*e),
    }
}

/// A computed key that reads the same wherever it is evaluated: a literal or
/// an identifier.
pub open spec fn is_simple_key(e: Expr) -> bool {
    e is Lit || e is Ident
}

/// Two spans of the same source text.
pub open spec fn same_text(src: Seq<char>, a: Span, b: Span) -> bool {
    match (span_text(src, a), span_text(src, b)) {
        (Some(x), Some(y)) => x == y,
        _ => false,
    }
}

/// The same literal, or the same identifier.
pub open spec fn same_literal(src: Seq<char>, l: Expr, r: Expr) -> bool {
    match (l, r) {
        (Expr::Ident(a), Expr::Ident(b)) => a.name@ == b.name@,
        (Expr::Lit(Lit::Str(a)), Expr::Lit(Lit::Str(b))) => a.value@ == b.value@,
        (Expr::Lit(Lit::Num(a)), Expr::Lit(Lit::Num(b))) => a.value_text@ == b.value_text@,
        (Expr::Lit(Lit::Bool(_, a)), Expr::Lit(Lit::Bool(_, b))) => a == b,
        (Expr::Lit(Lit::Null(_)), Expr::Lit(Lit::Null(_))) => true,
        (Expr::Lit(Lit::BigInt(a)), Expr::Lit(Lit::BigInt(b))) => same_text(src, a, b),
        (Expr::Lit(Lit::Regex(a)), Expr::Lit(Lit::Regex(b))) => same_text(src, a, b),
        _ => false,
    }
}

/// A regular expression used as a key names the property that its text
/// names, so it meets a string key with that text.
pub open spec fn regex_names_str(src: Seq<char>, re: Span, s: StrLit) -> bool {
    span_text(src, re) == Some(s.value@)
}

/// Two computed keys that name the same property.
pub open spec fn same_computed_key(src: Seq<char>, l: Expr, r: Expr) -> bool {
    is_simple_key(l) && is_simple_key(r) && (same_literal(src, l, r) || match (l, r) {
        (Expr::Lit(Lit::Regex(a)), Expr::Lit(Lit::Str(b))) => regex_names_str(src, a, b),
        (Expr::Lit(Lit::Str(a)), Expr::Lit(Lit::Regex(b))) => regex_names_str(src, b, a),
        _ => false,
    })
}

/// Two member properties that name the same property.
pub open spec fn same_property(src: Seq<char>, l: MemberProp, r: MemberProp) -> bool {
    match (l, r) {
        (MemberProp::Ident(a), MemberProp::Ident(b)) => a.name@ == b.name@,
        (MemberProp::Private(a), MemberProp::Private(b)) => a.name@ == b.name@,
        (MemberProp::Computed(a), MemberProp::Computed(b)) => same_computed_key(src, *a, *b),
        (MemberProp::Ident(a), MemberProp::Computed(b)) => expr_key_name(*b) == Some(a.name@),
        (MemberProp::Computed(a), MemberProp::Ident(b)) => expr_key_name(*a) == Some(b.name@),
        _ => false,
    }
}

/// Two member accesses that read the same chain of properties from `this` or
/// from the same variable.
pub open spec fn same_member(src: Seq<char>, l: Expr, r: Expr) -> bool
    decreases l,
{
    match (l, r) {
        (Expr::Member { obj: lo, prop: lp, .. }, Expr::Member { obj: ro, prop: rp, .. }) => {
            same_property(src, lp, rp) && if is_member(*lo) && is_member(*ro) {
                same_member(src, *lo, *ro)
            } else if !is_member(*lo) && !is_member(*ro) {
                match (*lo, *ro) {
                    (Expr::This(_), Expr::This(_)) => true,
                    (Expr::Ident(a), Expr::Ident(b)) => a.name@ == b.name@,
                    _ => false,
                }
            } else {
                false
            }
        },
        _ => false,
    }
}

/// The name that the message gives a member access: its property, the value
/// of a string or number key, or else the source text of the key.
pub open spec fn member_name(src: Seq<char>, e: Expr) -> Seq<char> {
    match e {
        Expr::Member { prop, .. } => match prop {
            MemberProp::Ident(i) => i.name@,
            MemberProp::Private(i) => i.name@,
            MemberProp::Computed(k) => match *k {
                Expr::Lit(Lit::Str(s)) => s.value@,
                Expr::Lit(Lit::Num(n)) => n.value_text@,
                _ => match span_text(src, expr_span(*k)) {
                    Some(t) => t,
                    None => Seq::empty(),
                },
            },
        },
        _ => Seq::empty(),
    }
}

pub open spec fn member_diags(src: Seq<char>, l: Expr, r: Expr) -> Seq<DiagnosticView> {
    if same_member(src, l, r) {
        seq![self_assign_diag(expr_span(r), member_name(src, r))]
    } else {
        Seq::empty()
    }
}

/// Whether the last element of an array pattern is a rest element.
pub open spec fn has_rest(l: Seq<Option<Pat>>) -> bool {
    l.len() > 0 && (l.last() matches Some(Pat::Rest { .. }))
}

/// The number of elements of an array pattern before its rest element.
pub open spec fn count_elems(l: Seq<Option<Pat>>) -> int {
    if has_rest(l) {
        l.len() - 1
    } else {
        l.len() as int
    }
}

/// The index just after the last spread of an object literal's first `j`
/// properties, or 0 where there is none.
pub open spec fn spread_end(r: Seq<Prop>, j: int) -> int
    decreases j,
{
    if j <= 0 {
        0
    } else if r[j - 1] is Spread {
        j
    } else {
        spread_end(r, j - 1)
    }
}

/// The diagnostics of assigning `right` to the target `left`.
pub open spec fn target_diags(src: Seq<char>, left: Pat, right: Expr) -> Seq<DiagnosticView>
    decreases left, 0int,
{
    match left {
        Pat::Ident { name, .. } => match right {
            Expr::Ident(r) => if name@ == r.name@ {
                seq![self_assign_diag(r.span, r.name@)]
            } else {
                Seq::empty()
            },
            _ => Seq::empty(),
        },
        Pat::Array { elems, .. } => match right {
            Expr::Array { elems: relems, .. } => elems_diags(
                src,
                elems@,
                count_elems(elems@),
                relems@,
                0,
            ) + rest_diags(src, elems@, relems@),
            _ => Seq::empty(),
        },
        Pat::Object { props, .. } => match right {
            Expr::Object { props: rprops, .. } => if rprops@.len() == 0 {
                Seq::empty()
            } else {
                props_diags(src, props@, 0, rprops@, spread_end(rprops@, rprops@.len() as int))
            },
            _ => Seq::empty(),
        },
        Pat::Expr(x) => if is_member(*x) && is_member(right) {
            member_diags(src, *x, right)
        } else {
            Seq::empty()
        },
        _ => Seq::empty(),
    }
}

/// The elements of an array pattern from index `i` on, against those of an
/// array literal, up to the first spread that meets an element; elements with
/// a default and holes on either side are passed over.
pub open spec fn elems_diags(
    src: Seq<char>,
    l: Seq<Option<Pat>>,
    n: int,
    r: Seq<Option<ExprOrSpread>>,
    i: int,
) -> Seq<DiagnosticView>
    decreases l, n - i,
{
    if 0 <= i < n && i < l.len() && i < r.len() {
        match l[i] {
            Some(lp) => match r[i] {
                Some(re) => if re.spread {
                    Seq::empty()
                } else if lp is Assign {
                    elems_diags(src, l, n, r, i + 1)
                } else {
                    target_diags(src, lp, re.expr) + elems_diags(src, l, n, r, i + 1)
                },
                None => elems_diags(src, l, n, r, i + 1),
            },
            None => elems_diags(src, l, n, r, i + 1),
        }
    } else {
        Seq::empty()
    }
}

/// The rest element of an array pattern against a spread that ends the array
/// literal, unless the literal has more elements before its spread than the
/// pattern has before its rest.
pub open spec fn rest_diags(
    src: Seq<char>,
    l: Seq<Option<Pat>>,
    r: Seq<Option<ExprOrSpread>>,
) -> Seq<DiagnosticView>
    decreases l, 0int,
{
    if l.len() > 0 && r.len() > 0 {
        match l[l.len() - 1] {
            Some(Pat::Rest { arg, .. }) => match r[r.len() - 1] {
                Some(re) => if re.spread && !(l.len() - 1 < r.len() - 1) {
                    target_diags(src, *arg, re.expr)
                } else {
                    Seq::empty()
                },
                None => Seq::empty(),
            },
            _ => Seq::empty(),
        }
    } else {
        Seq::empty()
    }
}

/// Each property of an object pattern from index `i` on, against each
/// property of an object literal from `start` on.
pub open spec fn props_diags(
    src: Seq<char>,
    l: Seq<ObjectPatProp>,
    i: int,
    r: Seq<Prop>,
    start: int,
) -> Seq<DiagnosticView>
    decreases l, l.len() - i,
{
    if 0 <= i < l.len() {
        row_diags(src, l[i], r, start) + props_diags(src, l, i + 1, r, start)
    } else {
        Seq::empty()
    }
}

/// One property of an object pattern against the properties of an object
/// literal from index `j` on.
pub open spec fn row_diags(src: Seq<char>, lp: ObjectPatProp, r: Seq<Prop>, j: int) -> Seq<
    DiagnosticView,
>
    decreases lp, r.len() - j + 1,
{
    if 0 <= j < r.len() {
        pair_diags(src, lp, r[j]) + row_diags(src, lp, r, j + 1)
    } else {
        Seq::empty()
    }
}

/// One property of an object pattern against one property of an object
/// literal that has the same name.
pub open spec fn pair_diags(src: Seq<char>, lp: ObjectPatProp, rp: Prop) -> Seq<DiagnosticView>
    decreases lp, 0int,
{
    match lp {
        ObjectPatProp::KeyValue { key, value, shorthand, .. } => if shorthand {
            if value is Assign {
                Seq::empty()
            } else {
                match rp {
                    Prop::Shorthand(ri) => if key_name(key) == Some(ri.name@) {
                        seq![self_assign_diag(ri.span, ri.name@)]
                    } else {
                        Seq::empty()
                    },
                    Prop::KeyValue { key: rk, value: Expr::Ident(ri), .. } => if key_name(rk)
                        == key_name(key) && key_name(key) == Some(ri.name@) {
                        seq![self_assign_diag(ri.span, ri.name@)]
                    } else {
                        Seq::empty()
                    },
                    _ => Seq::empty(),
                }
            }
        } else if value is Assign || key_name(key) is None {
            Seq::empty()
        } else {
            match rp {
                Prop::KeyValue { key: rk, value: rv, .. } => if key_name(rk) == key_name(key) {
                    target_diags(src, value, rv)
                } else {
                    Seq::empty()
                },
                Prop::Shorthand(ri) => if key_name(key) == Some(ri.name@) {
                    target_diags(src, value, Expr::Ident(ri))
                } else {
                    Seq::empty()
                },
                _ => Seq::empty(),
            }
        },
        ObjectPatProp::Rest { .. } => Seq::empty(),
    }
}

/// The diagnostics of an expression: those of a plain assignment.
pub open spec fn expr_diags(src: Seq<char>, e: Expr) -> Seq<DiagnosticView> {
    match e {
        Expr::Assign { op, left, right, .. } => if op == AssignOp::Assign {
            target_diags(src, *left, *right)
        } else {
            Seq::empty()
        },
        _ => Seq::empty(),
    }
}

pub open spec fn check_fn(src: Seq<char>) -> spec_fn((), SEvent) -> ((), Seq<DiagnosticView>) {
    |u: (), e: SEvent|
        (
            u,
            match e {
                SEvent::Enter(Node::Expr(x)) => expr_diags(src, x),
                _ => Seq::empty(),
            },
        )
}

fn self_assign(span: Span, name: &str) -> (r: Diagnostic)
    ensures
        r@ == self_assign_diag(span, name@),
{
    let mut msg = String::from_str("`");
    msg.append(name);
    msg.append("` is assigned to itself");
    Diagnostic::with_hint(span, CODE, msg, String::from_str(HINT))
}

fn opt_eq(a: Option<&str>, b: Option<&str>) -> (r: bool)
    ensures
        r == (opt_text(a) == opt_text(b)),
{
    match (a, b) {
        (Some(x), Some(y)) => str_eq(x, y),
        (None, None) => true,
        _ => false,
    }
}

fn is_member_expr(e: &Expr) -> (r: bool)
    ensures
        r == is_member(*e),
{
    match e {
        Expr::Member { .. } => !is_optional_chain(e),
        _ => false,
    }
}

fn expr_key_name_of(e: &Expr) -> (r: Option<&str>)
    ensures
        opt_text(r) == expr_key_name(*e),
{
    match e {
        Expr::Lit(Lit::Str(s)) => Some(s.value.as_str()),
        Expr::Lit(Lit::Num(n)) => Some(n.value_text.as_str()),
        Expr::Template { exprs, quasis, .. } => {
            if exprs.len() == 0 && quasis.len() == 1 {
                match &quasis[0].cooked {
                    Some(c) => Some(c.as_str()),
                    None => None,
                }
            } else {
                None
            }
        },
        _ => None,
    }
}

fn key_name_of(k: &PropName) -> (r: Option<&str>)
    ensures
        opt_text(r) == key_name(*k),
{
    match k {
        PropName::Ident(i) => Some(i.name.as_str()),
        PropName::Str(s) => Some(s.value.as_str()),
        PropName::Num(n) => Some(n.value_text.as_str()),
        PropName::BigInt(_) => None,
        PropName::Private(i) => Some(i.name.as_str()),
        PropName::Computed { expr: e, .. } => expr_key_name_of(e),
    }
}

fn same_text_of(src: &str, a: Span, b: Span) -> (r: bool)
    requires
        byte_len(src@) <= usize::MAX,
    ensures
        r == same_text(src@, a, b),
{
    match (text_slice(src, a.lo, a.hi), text_slice(src, b.lo, b.hi)) {
        (Some(x), Some(y)) => str_eq(x, y),
        _ => false,
    }
}

fn regex_names(src: &str, re: Span, s: &StrLit) -> (r: bool)
    requires
        byte_len(src@) <= usize::MAX,
    ensures
        r == regex_names_str(src@, re, *s),
{
    match text_slice(src, re.lo, re.hi) {
        Some(t) => str_eq(t, s.value.as_str()),
        None => false,
    }
}

fn is_same_literal(src: &str, l: &Expr, r: &Expr) -> (res: bool)
    requires
        byte_len(src@) <= usize::MAX,
    ensures
        res == same_literal(src@, *l, *r),
{
    match (l, r) {
        (Expr::Ident(a), Expr::Ident(b)) => str_eq(a.name.as_str(), b.name.as_str()),
        (Expr::Lit(Lit::Str(a)), Expr::Lit(Lit::Str(b))) => str_eq(a.value.as_str(), b.value.as_str()),
        (Expr::Lit(Lit::Num(a)), Expr::Lit(Lit::Num(b))) => str_eq(
            a.value_text.as_str(),
            b.value_text.as_str(),
        ),
        (Expr::Lit(Lit::Bool(_, a)), Expr::Lit(Lit::Bool(_, b))) => *a == *b,
        (Expr::Lit(Lit::Null(_)), Expr::Lit(Lit::Null(_))) => true,
        (Expr::Lit(Lit::BigInt(a)), Expr::Lit(Lit::BigInt(b))) => same_text_of(src, *a, *b),
        (Expr::Lit(Lit::Regex(a)), Expr::Lit(Lit::Regex(b))) => same_text_of(src, *a, *b),
        _ => false,
    }
}

fn is_simple(e: &Expr) -> (r: bool)
    ensures
        r == is_simple_key(*e),
{
    match e {
        Expr::Lit(_) => true,
        Expr::Ident(_) => true,
        _ => false,
    }
}

fn is_same_computed_key(src: &str, l: &Expr, r: &Expr) -> (res: bool)
    requires
        byte_len(src@) <= usize::MAX,
    ensures
        res == same_computed_key(src@, *l, *r),
{
    if !is_simple(l) || !is_simple(r) {
        return false;
    }
    if is_same_literal(src, l, r) {
        return true;
    }
    match (l, r) {
        (Expr::Lit(Lit::Regex(a)), Expr::Lit(Lit::Str(b))) => regex_names(src, *a, b),
        (Expr::Lit(Lit::Str(a)), Expr::Lit(Lit::Regex(b))) => regex_names(src, *b, a),
        _ => false,
    }
}

fn is_same_property(src: &str, l: &MemberProp, r: &MemberProp) -> (res: bool)
    requires
        byte_len(src@) <= usize::MAX,
    ensures
        res == same_property(src@, *l, *r),
{
    match (l, r) {
        (MemberProp::Ident(a), MemberProp::Ident(b)) => str_eq(a.name.as_str(), b.name.as_str()),
        (MemberProp::Private(a), MemberProp::Private(b)) => str_eq(a.name.as_str(), b.name.as_str()),
        (MemberProp::Computed(a), MemberProp::Computed(b)) => is_same_computed_key(src, a, b),
        (MemberProp::Ident(a), MemberProp::Computed(b)) => opt_eq(
            expr_key_name_of(b),
            Some(a.name.as_str()),
        ),
        (MemberProp::Computed(a), MemberProp::Ident(b)) => opt_eq(
            expr_key_name_of(a),
            Some(b.name.as_str()),
        ),
        _ => false,
    }
}

fn is_same_member(src: &str, l: &Expr, r: &Expr) -> (res: bool)
    requires
        byte_len(src@) <= usize::MAX,
    ensures
        res == same_member(src@, *l, *r),
    decreases *l,
{
    match (l, r) {
        (Expr::Member { obj: lo, prop: lp, .. }, Expr::Member { obj: ro, prop: rp, .. }) => {
            if !is_same_property(src, lp, rp) {
                return false;
            }
            let lm = is_member_expr(lo);
            let rm = is_member_expr(ro);
            if lm && rm {
                is_same_member(src, lo, ro)
            } else if !lm && !rm {
                match (&**lo, &**ro) {
                    (Expr::This(_), Expr::This(_)) => true,
                    (Expr::Ident(a), Expr::Ident(b)) => str_eq(a.name.as_str(), b.name.as_str()),
                    _ => false,
                }
            } else {
                false
            }
        },
        _ => false,
    }
}

fn member_name_of(src: &str, e: &Expr) -> (r: String)
    requires
        byte_len(src@) <= usize::MAX,
    ensures
        r@ == member_name(src@, *e),
{
    match e {
        Expr::Member { prop, .. } => match prop {
            MemberProp::Ident(i) => i.name.clone(),
            MemberProp::Private(i) => i.name.clone(),
            MemberProp::Computed(k) => match &**k {
                Expr::Lit(Lit::Str(s)) => s.value.clone(),
                Expr::Lit(Lit::Num(n)) => n.value_text.clone(),
                _ => {
                    let sp = span_of(k);
                    match text_slice(src, sp.lo, sp.hi) {
                        Some(t) => String::from_str(t),
                        None => String::new(),
                    }
                },
            },
        },
        _ => String::new(),
    }
}

fn check_member(src: &str, l: &Expr, r: &Expr, out: &mut Vec<Diagnostic>)
    requires
        byte_len(src@) <= usize::MAX,
    ensures
        diag_views(final(out)@) == diag_views(old(out)@) + member_diags(src@, *l, *r),
{
    if is_same_member(src, l, r) {
        let name = member_name_of(src, r);
        push_diag(out, self_assign(span_of(r), name.as_str()));
    } else {
        assert(diag_views(out@) =~= diag_views(old(out)@) + member_diags(src@, *l, *r));
    }
}

fn count_elems_of(l: &Vec<Option<Pat>>) -> (n: usize)
    ensures
        n == count_elems(l@),
{
    if l.len() > 0 {
        match &l[l.len() - 1] {
            Some(Pat::Rest { .. }) => l.len() - 1,
            _ => l.len(),
        }
    } else {
        0
    }
}

fn spread_end_of(r: &Vec<Prop>) -> (k: usize)
    ensures
        k == spread_end(r@, r@.len() as int),
{
    let mut j: usize = r.len();
    while j > 0
        invariant
            j <= r.len(),
            spread_end(r@, r@.len() as int) == spread_end(r@, j as int),
        decreases j,
    {
        if let Prop::Spread { .. } = &r[j - 1] {
            return j;
        }
        j = j - 1;
    }
    0
}

fn check_target(src: &str, left: &Pat, right: &Expr, out: &mut Vec<Diagnostic>)
    requires
        byte_len(src@) <= usize::MAX,
    ensures
        diag_views(final(out)@) == diag_views(old(out)@) + target_diags(src@, *left, *right),
    decreases *left, 0int,
{
    let ghost o = diag_views(out@);
    match left {
        Pat::Ident { name, .. } => {
            if let Expr::Ident(r) = right {
                if str_eq(name.as_str(), r.name.as_str()) {
                    push_diag(out, self_assign(r.span, r.name.as_str()));
                    return;
                }
            }
        },
        Pat::Array { elems, .. } => {
            if let Expr::Array { elems: relems, .. } = right {
                let n = count_elems_of(elems);
                check_elems(src, elems, n, relems, 0, out);
                check_rest(src, elems, relems, out);
                assert(diag_views(out@) =~= o + target_diags(src@, *left, *right));
                return;
            }
        },
        Pat::Object { props, .. } => {
            if let Expr::Object { props: rprops, .. } = right {
                if rprops.len() > 0 {
                    let start = spread_end_of(rprops);
                    check_props(src, props, 0, rprops, start, out);
                    return;
                }
            }
        },
        Pat::Expr(x) => {
            if is_member_expr(x) && is_member_expr(right) {
                check_member(src, x, right, out);
                return;
            }
        },
        _ => {},
    }
    assert(diag_views(out@) =~= o + target_diags(src@, *left, *right));
}

fn check_elems(
    src: &str,
    l: &Vec<Option<Pat>>,
    n: usize,
    r: &Vec<Option<ExprOrSpread>>,
    i: usize,
    out: &mut Vec<Diagnostic>,
)
    requires
        byte_len(src@) <= usize::MAX,
        i <= n,
    ensures
        diag_views(final(out)@) == diag_views(old(out)@) + elems_diags(
            src@,
            l@,
            n as int,
            r@,
            i as int,
        ),
    decreases l@, n - i,
{
    let ghost o = diag_views(out@);
    if i < n && i < l.len() && i < r.len() {
        match &l[i] {
            Some(lp) => match &r[i] {
                Some(re) => {
                    if re.spread {
                        assert(diag_views(out@) =~= o + elems_diags(src@, l@, n as int, r@, i as int));
                    } else if let Pat::Assign { .. } = lp {
                        check_elems(src, l, n, r, i + 1, out);
                    } else {
                        check_target(src, lp, &re.expr, out);
                        check_elems(src, l, n, r, i + 1, out);
                        assert(diag_views(out@) =~= o + elems_diags(src@, l@, n as int, r@, i as int));
                    }
                },
                None => check_elems(src, l, n, r, i + 1, out),
            },
            None => check_elems(src, l, n, r, i + 1, out),
        }
    } else {
        assert(diag_views(out@) =~= o + elems_diags(src@, l@, n as int, r@, i as int));
    }
}

fn check_rest(
    src: &str,
    l: &Vec<Option<Pat>>,
    r: &Vec<Option<ExprOrSpread>>,
    out: &mut Vec<Diagnostic>,
)
    requires
        byte_len(src@) <= usize::MAX,
    ensures
        diag_views(final(out)@) == diag_views(old(out)@) + rest_diags(src@, l@, r@),
    decreases l@, 0int,
{
    let ghost o = diag_views(out@);
    if l.len() > 0 && r.len() > 0 {
        if let Some(Pat::Rest { arg, .. }) = &l[l.len() - 1] {
            if let Some(re) = &r[r.len() - 1] {
                if re.spread && !(l.len() - 1 < r.len() - 1) {
                    check_target(src, arg, &re.expr, out);
                    return;
                }
            }
        }
    }
    assert(diag_views(out@) =~= o + rest_diags(src@, l@, r@));
}

fn check_props(
    src: &str,
    l: &Vec<ObjectPatProp>,
    i: usize,
    r: &Vec<Prop>,
    start: usize,
    out: &mut Vec<Diagnostic>,
)
    requires
        byte_len(src@) <= usize::MAX,
        i <= l@.len(),
    ensures
        diag_views(final(out)@) == diag_views(old(out)@) + props_diags(
            src@,
            l@,
            i as int,
            r@,
            start as int,
        ),
    decreases l@, l@.len() - i,
{
    let ghost o = diag_views(out@);
    if i < l.len() {
        check_row(src, &l[i], r, start, out);
        check_props(src, l, i + 1, r, start, out);
    }
    assert(diag_views(out@) =~= o + props_diags(src@, l@, i as int, r@, start as int));
}

fn check_row(src: &str, lp: &ObjectPatProp, r: &Vec<Prop>, j: usize, out: &mut Vec<Diagnostic>)
    requires
        byte_len(src@) <= usize::MAX,
    ensures
        diag_views(final(out)@) == diag_views(old(out)@) + row_diags(src@, *lp, r@, j as int),
    decreases *lp, r@.len() - j + 1,
{
    let ghost o = diag_views(out@);
    if j < r.len() {
        check_pair(src, lp, &r[j], out);
        check_row(src, lp, r, j + 1, out);
    }
    assert(diag_views(out@) =~= o + row_diags(src@, *lp, r@, j as int));
}

fn check_pair(src: &str, lp: &ObjectPatProp, rp: &Prop, out: &mut Vec<Diagnostic>)
    requires
        byte_len(src@) <= usize::MAX,
    ensures
        diag_views(final(out)@) == diag_views(old(out)@) + pair_diags(src@, *lp, *rp),
    decreases *lp, 0int,
{
    let ghost o = diag_views(out@);
    if let ObjectPatProp::KeyValue { key, value, shorthand, .. } = lp {
        let lname = key_name_of(key);
        if *shorthand {
            if let Pat::Assign { .. } = value {
            } else {
                match rp {
                    Prop::Shorthand(ri) => {
                        if opt_eq(lname, Some(ri.name.as_str())) {
                            push_diag(out, self_assign(ri.span, ri.name.as_str()));
                            return;
                        }
                    },
                    Prop::KeyValue { key: rk, value: Expr::Ident(ri), .. } => {
                        if opt_eq(key_name_of(rk), lname) && opt_eq(lname, Some(ri.name.as_str())) {
                            push_diag(out, self_assign(ri.span, ri.name.as_str()));
                            return;
                        }
                    },
                    _ => {},
                }
            }
        } else if let Pat::Assign { .. } = value {
        } else if lname.is_some() {
            match rp {
                Prop::KeyValue { key: rk, value: rv, .. } => {
                    if opt_eq(key_name_of(rk), lname) {
                        check_target(src, value, rv, out);
                        return;
                    }
                },
                Prop::Shorthand(ri) => {
                    if opt_eq(lname, Some(ri.name.as_str())) {
                        check_target_ident(src, value, ri, out);
                        return;
                    }
                },
                _ => {},
            }
        }
    }
    assert(diag_views(out@) =~= o + pair_diags(src@, *lp, *rp));
}

/// A target against a variable that a shorthand property reads.
fn check_target_ident(src: &str, left: &Pat, r: &Ident, out: &mut Vec<Diagnostic>)
    ensures
        diag_views(final(out)@) == diag_views(old(out)@) + target_diags(
            src@,
            *left,
            Expr::Ident(*r),
        ),
{
    let ghost o = diag_views(out@);
    if let Pat::Ident { name, .. } = left {
        if str_eq(name.as_str(), r.name.as_str()) {
            push_diag(out, self_assign(r.span, r.name.as_str()));
            return;
        }
    }
    assert(!is_member(Expr::Ident(*r)));
    assert(diag_views(out@) =~= o + target_diags(src@, *left, Expr::Ident(*r)));
}

fn check_assignment(src: &str, e: &Expr, out: &mut Vec<Diagnostic>)
    requires
        byte_len(src@) <= usize::MAX,
    ensures
        diag_views(final(out)@) == diag_views(old(out)@) + expr_diags(src@, *e),
{
    if let Expr::Assign { op, left, right, .. } = e {
        if *op == AssignOp::Assign {
            check_target(src, left, right, out);
            return;
        }
    }
    assert(diag_views(out@) =~= diag_views(old(out)@) + expr_diags(src@, *e));
}

impl NoSelfAssign {
    /// The tags of the rule: it belongs to the recommended set.
    pub fn tags(&self) -> (r: Vec<&'static str>)
        ensures
            crate::tags::tag_views(r@) == seq![crate::tags::RECOMMENDED@],
    {
        crate::tags::recommended()
    }

    pub fn code(&self) -> (r: &'static str)
        ensures
            r@ == CODE@,
    {
        CODE
    }

    /// The diagnostics of the rule on a program, in source order.
    pub fn lint(&self, program: &Program) -> (r: Vec<Diagnostic>)
        requires
            byte_len(program.source@) <= usize::MAX,
        ensures
            diag_views(r@) == fold_events(program_events(*program), (), check_fn(program.source@)).1,
    {
        let src = program.source.as_str();
        let events = walk_program(program);
        let ghost evs = event_views(events@);
        let mut out: Vec<Diagnostic> = Vec::new();
        assert(diag_views(out@) =~= Seq::<DiagnosticView>::empty());
        let mut i: usize = 0;
        while i < events.len()
            invariant
                evs == event_views(events@),
                src@ == program.source@,
                byte_len(src@) <= usize::MAX,
                i <= events.len(),
                fold_events(evs.take(i as int), (), check_fn(src@)).1 == diag_views(out@),
            decreases events.len() - i,
        {
            proof {
                lemma_fold_events_step(evs, i as int, (), check_fn(src@));
            }
            let ghost before = diag_views(out@);
            match events[i] {
                Event::Enter(NodeRef::Expr(x)) => check_assignment(src, x, &mut out),
                _ => {},
            }
            assert(diag_views(out@) =~= before + check_fn(src@)((), evs[i as int]).1);
            i = i + 1;
        }
        assert(evs.take(events.len() as int) =~= evs);
        out
    }
}

} // verus!
