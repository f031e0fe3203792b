//! `number-arg-out-of-range`: the numeric argument of `toString`, `toFixed`,
//! `toExponential` and `toPrecision` is to lie in the range that the method
//! accepts.

use vstd::prelude::*;
use crate::ast::{is_chain, is_optional_chain, Callee, Expr, Lit, MemberProp, NumLit, Program};
use crate::diagnostic::{Diagnostic, DiagnosticView, diag_views, hinted_diag, push_diag};
use crate::text::{decimal, push_decimal, str_eq};
use crate::walk::{Node, NodeRef, program_events};
use crate::rules::{NodeRule, lemma_nodes_diags_all, lint_nodes, nodes_diags};

verus! {

pub const CODE: &'static str = "number-arg-out-of-range";

/// Reports calls of the number methods that take a bounded argument, where
/// that argument is a numeric literal outside the bounds.
#[derive(Debug)]
pub struct NumberArgOutOfRange;

/// The bounds of the argument of a method, by its name.
pub open spec fn arg_bounds(name: Seq<char>) -> Option<(u64, u64)> {
    if name == "toString"@ {
        Some((2, 36))
    } else if name == "toFixed"@ || name == "toExponential"@ {
        Some((0, 20))
    } else if name == "toPrecision"@ {
        Some((1, 21))
    } else {
        None
    }
}

/// Whether the value of a numeric literal lies outside `[min, max]`. The
/// value is its whole part plus a fraction below one, so it is below `min`
/// exactly when its whole part is, and above `max` exactly when its whole
/// part is, or equals `max` with a fraction, or is beyond 2^64.
pub open spec fn outside(n: NumLit, min: u64, max: u64) -> bool {
    match n.whole {
        Some(w) => w < min || w > max || (w == max && n.has_fraction),
        None => true,
    }
}

/// The name of a property that is statically known: `obj.name` or
/// `obj["name"]`.
pub open spec fn static_name(prop: MemberProp) -> Option<Seq<char>> {
    match prop {
        MemberProp::Ident(i) => Some(i.name@),
        MemberProp::Computed(x) => match *x {
            Expr::Lit(Lit::Str(s)) => Some(s.value@),
            _ => None,
        },
        _ => None,
    }
}

pub open spec fn range_message(name: Seq<char>, min: u64, max: u64) -> Seq<char> {
    "The argument to `"@ + name + "` must be between "@ + decimal(min as nat) + " and "@
        + decimal(max as nat)
}

pub open spec fn range_hint(min: u64, max: u64) -> Seq<char> {
    "Pass a value between "@ + decimal(min as nat) + " and "@ + decimal(max as nat)
}

/// The diagnostics of a call.
pub open spec fn call_diags(call: Expr) -> Seq<DiagnosticView> {
    match call {
        Expr::Call { span, callee: Callee::Expr(c), args, .. } => if is_chain(call) {
            Seq::empty()
        } else {
            match *c {
                Expr::Member { prop, .. } => match static_name(prop) {
                    Some(name) => match arg_bounds(name) {
                        Some((min, max)) => if args.len() > 0 {
                            match args@[0].expr {
                                Expr::Lit(Lit::Num(n)) => if outside(n, min, max) {
                                    seq![
                                        hinted_diag(
                                            span,
                                            CODE@,
                                            range_message(name, min, max),
                                            range_hint(min, max),
                                        ),
                                    ]
                                } else {
                                    Seq::empty()
                                },
                                _ => Seq::empty(),
                            }
                        } else {
                            Seq::empty()
                        },
                        None => Seq::empty(),
                    },
                    None => Seq::empty(),
                },
                _ => Seq::empty(),
            }
        },
        _ => Seq::empty(),
    }
}

/// The statically known name of a property.
pub fn static_member_name(prop: &MemberProp) -> (r: Option<&str>)
    ensures
        match r {
            Some(s) => static_name(*prop) == Some(s@),
            None => static_name(*prop) is None,
        },
{
    match prop {
        MemberProp::Ident(i) => Some(i.name.as_str()),
        MemberProp::Computed(x) => match &**x {
            Expr::Lit(Lit::Str(s)) => Some(s.value.as_str()),
            _ => None,
        },
        _ => None,
    }
}

/// The bounds of the argument of a method, by its name.
pub fn bounds_of(name: &str) -> (r: Option<(u64, u64)>)
    ensures
        r == arg_bounds(name@),
{
    if str_eq(name, "toString") {
        Some((2, 36))
    } else if str_eq(name, "toFixed") || str_eq(name, "toExponential") {
        Some((0, 20))
    } else if str_eq(name, "toPrecision") {
        Some((1, 21))
    } else {
        None
    }
}

/// Whether a numeric literal lies outside `[min, max]`.
pub fn is_outside(n: &NumLit, min: u64, max: u64) -> (r: bool)
    ensures
        r == outside(*n, min, max),
{
    match n.whole {
        Some(w) => w < min || w > max || (w == max && n.has_fraction),
        None => true,
    }
}

fn add_diagnostic(out: &mut Vec<Diagnostic>, call: &Expr, name: &str, min: u64, max: u64)
    requires
        call is Call,
    ensures
        diag_views(final(out)@) == diag_views(old(out)@).push(
            hinted_diag(call->Call_span, CODE@, range_message(name@, min, max), range_hint(min, max)),
        ),
{
    let mut message = String::from_str("The argument to `");
    message.append(name);
    message.append("` must be between ");
    push_decimal(&mut message, min);
    message.append(" and ");
    push_decimal(&mut message, max);
    let mut hint = String::from_str("Pass a value between ");
    push_decimal(&mut hint, min);
    hint.append(" and ");
    push_decimal(&mut hint, max);
    if let Expr::Call { span, .. } = call {
        push_diag(out, Diagnostic::with_hint(*span, CODE, message, hint));
    }
}

fn check_call(out: &mut Vec<Diagnostic>, call: &Expr)
    ensures
        diag_views(final(out)@) == diag_views(old(out)@) + call_diags(*call),
{
    let ghost o = diag_views(out@);
    if let Expr::Call { callee: Callee::Expr(c), args, .. } = call {
        if !is_optional_chain(call) {
            if let Expr::Member { prop, .. } = &**c {
                if let Some(name) = static_member_name(prop) {
                    if let Some((min, max)) = bounds_of(name) {
                        if args.len() > 0 {
                            if let Expr::Lit(Lit::Num(n)) = &args[0].expr {
                                if is_outside(n, min, max) {
                                    add_diagnostic(out, call, name, min, max);
                                }
                            }
                        }
                    }
                }
            }
        }
    }
    assert(diag_views(out@) =~= o + call_diags(*call));
}

impl NodeRule for NumberArgOutOfRange {
    open spec fn node_diags(&self, n: Node) -> Seq<DiagnosticView> {
        match n {
            Node::Expr(e) => call_diags(e),
            _ => Seq::empty(),
        }
    }

    fn check_node<'a>(&self, n: NodeRef<'a>, out: &mut Vec<Diagnostic>) {
        match n {
            NodeRef::Expr(e) => check_call(out, e),
            _ => {
                assert(diag_views(out@) =~= diag_views(old(out)@) + self.node_diags(n@));
            },
        }
    }
}

impl NumberArgOutOfRange {
    /// The tags of the rule: it belongs to the recommended set.
    pub fn tags(&self) -> (r: Vec<&'static str>)
        ensures
            crate::tags::tag_views(r@) == seq![crate::tags::RECOMMENDED@],
    {
        crate::tags::recommended()
    }

    pub fn code(&self) -> (r: &'static str)
        ensures
            r@ == CODE@,
    {
        CODE
    }

    /// The diagnostics of the rule on a program, one for each offending call,
    /// in source order.
    pub fn lint(&self, program: &Program) -> (r: Vec<Diagnostic>)
        ensures
            diag_views(r@) == nodes_diags(*self, program_events(*program)),
    {
        lint_nodes(self, program)
    }
}

/// Every diagnostic of the rule carries its code.
pub proof fn lemma_diags_carry_code(program: Program)
    ensures
        forall|i: int|
            0 <= i < nodes_diags(NumberArgOutOfRange, program_events(program)).len()
                ==> (#[trigger] nodes_diags(NumberArgOutOfRange, program_events(program))[i]).code == CODE@,
{
    let prop = |d: DiagnosticView| d.code == CODE@;
    assert forall|n: Node, i: int| 0 <= i < NumberArgOutOfRange.node_diags(n).len() implies prop(
        #[trigger] NumberArgOutOfRange.node_diags(n)[i],
    ) by {}
    lemma_nodes_diags_all(NumberArgOutOfRange, program_events(program), prop);
}

} // verus!
