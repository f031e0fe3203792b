//! `no-shadow-restricted-names`: the global properties `undefined`, `NaN`,
//! `Infinity`, `arguments` and `eval` are not to be declared or assigned.

use vstd::prelude::*;
use crate::ast::{
    Expr, ObjectPatProp, Param, Pat, Program, Span, Stmt, VarDeclarator,
};
use crate::diagnostic::{Diagnostic, DiagnosticView, diag_views, plain_diag, push_diag};
use crate::text::str_eq;
use crate::walk::{Node, NodeRef, program_events};
use crate::rules::{NodeRule, lemma_nodes_diags_all, lint_nodes, nodes_diags};

verus! {

pub const CODE: &'static str = "no-shadow-restricted-names";

/// Reports each binding or assignment of a restricted global name.
#[derive(Debug)]
pub struct NoShadowRestrictedNames;

/// The names of the global properties that are not to be shadowed.
pub open spec fn is_restricted(name: Seq<char>) -> bool {
    name == "undefined"@ || name == "NaN"@ || name == "Infinity"@ || name == "arguments"@ || name
        == "eval"@
}

pub open spec fn message(name: Seq<char>) -> Seq<char> {
    "Shadowing of global property "@ + name
}

pub open spec fn shadow_diag(span: Span, name: Seq<char>) -> DiagnosticView {
    plain_diag(span, CODE@, message(name))
}

/// The restricted names that a pattern binds or assigns: every identifier in
/// it, through array elements, property values, rest elements and the left
/// side of defaults; expressions in assignment targets bind nothing.
pub open spec fn pat_diags(p: Pat) -> Seq<DiagnosticView>
    decreases p, 0int,
{
    match p {
        Pat::Ident { span, name, .. } => if is_restricted(name@) {
            seq![shadow_diag(span, name@)]
        } else {
            Seq::empty()
        },
        Pat::Array { elems, .. } => opt_pats_diags(elems@, 0),
        Pat::Object { props, .. } => pat_props_diags(props@, 0),
        Pat::Rest { arg, .. } => pat_diags(*arg),
        Pat::Assign { left, .. } => pat_diags(*left),
        Pat::Expr(_) => Seq::empty(),
    }
}

pub open spec fn opt_pats_diags(s: Seq<Option<Pat>>, i: int) -> Seq<DiagnosticView>
    decreases s, s.len() - i,
{
    if 0 <= i < s.len() {
        (match s[i] {
            Some(p) => pat_diags(p),
            None => Seq::empty(),
        }) + opt_pats_diags(s, i + 1)
    } else {
        Seq::empty()
    }
}

pub open spec fn pat_props_diags(s: Seq<ObjectPatProp>, i: int) -> Seq<DiagnosticView>
    decreases s, s.len() - i,
{
    if 0 <= i < s.len() {
        (match s[i] {
            ObjectPatProp::KeyValue { value, .. } => pat_diags(value),
            ObjectPatProp::Rest { arg, .. } => pat_diags(arg),
        }) + pat_props_diags(s, i + 1)
    } else {
        Seq::empty()
    }
}

/// The parameters of a function or an arrow function from index `i` on; a
/// rest parameter is not read.
pub open spec fn params_diags(s: Seq<Pat>, i: int) -> Seq<DiagnosticView>
    decreases s.len() - i,
{
    if 0 <= i < s.len() {
        (if s[i] is Rest {
            Seq::empty()
        } else {
            pat_diags(s[i])
        }) + params_diags(s, i + 1)
    } else {
        Seq::empty()
    }
}

/// Whether a declarator declares `undefined` without a value, which leaves it
/// as it was.
pub open spec fn declares_bare_undefined(d: VarDeclarator) -> bool {
    d.init is None && (d.name matches Pat::Ident { name, .. } && name@ == "undefined"@)
}

pub open spec fn declarators_diags(s: Seq<VarDeclarator>, i: int) -> Seq<DiagnosticView>
    decreases s.len() - i,
{
    if 0 <= i < s.len() {
        (if declares_bare_undefined(s[i]) {
            Seq::empty()
        } else {
            pat_diags(s[i].name)
        }) + declarators_diags(s, i + 1)
    } else {
        Seq::empty()
    }
}

pub open spec fn param_pats(s: Seq<Param>) -> Seq<Pat> {
    s.map_values(|p: Param| p.pat)
}

pub fn restricted(name: &str) -> (r: bool)
    ensures
        r == is_restricted(name@),
{
    str_eq(name, "undefined") || str_eq(name, "NaN") || str_eq(name, "Infinity") || str_eq(
        name,
        "arguments",
    ) || str_eq(name, "eval")
}

fn shadowing(span: Span, name: &str) -> (r: Diagnostic)
    ensures
        r@ == shadow_diag(span, name@),
{
    let mut msg = String::from_str("Shadowing of global property ");
    msg.append(name);
    Diagnostic::with_message(span, CODE, msg)
}

fn check_pat(p: &Pat, out: &mut Vec<Diagnostic>)
    ensures
        diag_views(final(out)@) == diag_views(old(out)@) + pat_diags(*p),
    decreases *p, 0int,
{
    let ghost o = diag_views(out@);
    match p {
        Pat::Ident { span, name, .. } => {
            if restricted(name.as_str()) {
                push_diag(out, shadowing(*span, name.as_str()));
                return;
            }
        },
        Pat::Array { elems, .. } => {
            check_opt_pats(elems, 0, out);
            return;
        },
        Pat::Object { props, .. } => {
            check_pat_props(props, 0, out);
            return;
        },
        Pat::Rest { arg, .. } => {
            check_pat(arg, out);
            return;
        },
        Pat::Assign { left, .. } => {
            check_pat(left, out);
            return;
        },
        Pat::Expr(_) => {},
    }
    assert(diag_views(out@) =~= o + pat_diags(*p));
}

fn check_opt_pats(s: &Vec<Option<Pat>>, i: usize, out: &mut Vec<Diagnostic>)
    requires
        i <= s@.len(),
    ensures
        diag_views(final(out)@) == diag_views(old(out)@) + opt_pats_diags(s@, i as int),
    decreases s@, s@.len() - i,
{
    let ghost o = diag_views(out@);
    if i < s.len() {
        if let Some(p) = &s[i] {
            check_pat(p, out);
        }
        check_opt_pats(s, i + 1, out);
        assert(diag_views(out@) =~= o + opt_pats_diags(s@, i as int));
    } else {
        assert(diag_views(out@) =~= o + opt_pats_diags(s@, i as int));
    }
}

fn check_pat_props(s: &Vec<ObjectPatProp>, i: usize, out: &mut Vec<Diagnostic>)
    requires
        i <= s@.len(),
    ensures
        diag_views(final(out)@) == diag_views(old(out)@) + pat_props_diags(s@, i as int),
    decreases s@, s@.len() - i,
{
    let ghost o = diag_views(out@);
    if i < s.len() {
        match &s[i] {
            ObjectPatProp::KeyValue { value, .. } => check_pat(value, out),
            ObjectPatProp::Rest { arg, .. } => check_pat(arg, out),
        }
        check_pat_props(s, i + 1, out);
        assert(diag_views(out@) =~= o + pat_props_diags(s@, i as int));
    } else {
        assert(diag_views(out@) =~= o + pat_props_diags(s@, i as int));
    }
}

fn check_param_pat(p: &Pat, out: &mut Vec<Diagnostic>)
    ensures
        diag_views(final(out)@) == diag_views(old(out)@) + (if *p is Rest {
            Seq::empty()
        } else {
            pat_diags(*p)
        }),
{
    if let Pat::Rest { .. } = p {
        assert(diag_views(out@) =~= diag_views(old(out)@) + Seq::<DiagnosticView>::empty());
    } else {
        check_pat(p, out);
    }
}

fn check_arrow_params(s: &Vec<Pat>, out: &mut Vec<Diagnostic>)
    ensures
        diag_views(final(out)@) == diag_views(old(out)@) + params_diags(s@, 0),
{
    let ghost o = diag_views(out@);
    let mut k: usize = 0;
    while k < s.len()
        invariant
            k <= s@.len(),
            diag_views(out@) + params_diags(s@, k as int) == o + params_diags(s@, 0),
        decreases s@.len() - k,
    {
        let ghost before = diag_views(out@);
        check_param_pat(&s[k], out);
        assert(params_diags(s@, k as int) == (if s@[k as int] is Rest {
            Seq::empty()
        } else {
            pat_diags(s@[k as int])
        }) + params_diags(s@, k + 1));
        assert(diag_views(out@) + params_diags(s@, k + 1) =~= before + params_diags(s@, k as int));
        k = k + 1;
    }
    assert(diag_views(out@) + params_diags(s@, k as int) =~= diag_views(out@));
}

fn check_fn_params(s: &Vec<Param>, out: &mut Vec<Diagnostic>)
    ensures
        diag_views(final(out)@) == diag_views(old(out)@) + params_diags(param_pats(s@), 0),
{
    let ghost o = diag_views(out@);
    let ghost ps = param_pats(s@);
    let mut k: usize = 0;
    while k < s.len()
        invariant
            k <= s@.len(),
            ps == param_pats(s@),
            ps.len() == s@.len(),
            diag_views(out@) + params_diags(ps, k as int) == o + params_diags(ps, 0),
        decreases s@.len() - k,
    {
        let ghost before = diag_views(out@);
        assert(ps[k as int] == s@[k as int].pat);
        check_param_pat(&s[k].pat, out);
        assert(diag_views(out@) + params_diags(ps, k + 1) =~= before + params_diags(ps, k as int));
        k = k + 1;
    }
    assert(diag_views(out@) + params_diags(ps, k as int) =~= diag_views(out@));
}

fn check_declarators(s: &Vec<VarDeclarator>, out: &mut Vec<Diagnostic>)
    ensures
        diag_views(final(out)@) == diag_views(old(out)@) + declarators_diags(s@, 0),
{
    let ghost o = diag_views(out@);
    let mut k: usize = 0;
    while k < s.len()
        invariant
            k <= s@.len(),
            diag_views(out@) + declarators_diags(s@, k as int) == o + declarators_diags(s@, 0),
        decreases s@.len() - k,
    {
        let ghost before = diag_views(out@);
        let d = &s[k];
        let bare = match &d.name {
            Pat::Ident { name, .. } => d.init.is_none() && str_eq(name.as_str(), "undefined"),
            _ => false,
        };
        if !bare {
            check_pat(&d.name, out);
        }
        assert(diag_views(out@) + declarators_diags(s@, k + 1) =~= before + declarators_diags(
            s@,
            k as int,
        ));
        k = k + 1;
    }
    assert(diag_views(out@) + declarators_diags(s@, k as int) =~= diag_views(out@));
}

impl NodeRule for NoShadowRestrictedNames {
    open spec fn node_diags(&self, n: Node) -> Seq<DiagnosticView> {
        match n {
            Node::VarDecl(d) => declarators_diags(d.decls@, 0),
            Node::Function(f) => (match f.id {
                Some(id) => if is_restricted(id.name@) {
                    seq![shadow_diag(id.span, id.name@)]
                } else {
                    Seq::empty()
                },
                None => Seq::empty(),
            }) + params_diags(param_pats(f.params@), 0),
            Node::Expr(Expr::Arrow(a)) => params_diags(a.params@, 0),
            Node::Stmt(Stmt::Try { handler: Some(c), .. }) => match c.param {
                Some(p) => pat_diags(p),
                None => Seq::empty(),
            },
            Node::Expr(Expr::Assign { left, .. }) => pat_diags(*left),
            _ => Seq::empty(),
        }
    }

    fn check_node<'a>(&self, n: NodeRef<'a>, out: &mut Vec<Diagnostic>) {
        let ghost o = diag_views(out@);
        match n {
            NodeRef::VarDecl(d) => check_declarators(&d.decls, out),
            NodeRef::Function(f) => {
                if let Some(id) = &f.id {
                    if restricted(id.name.as_str()) {
                        push_diag(out, shadowing(id.span, id.name.as_str()));
                    }
                }
                check_fn_params(&f.params, out);
            },
            NodeRef::Expr(Expr::Arrow(a)) => check_arrow_params(&a.params, out),
            NodeRef::Stmt(Stmt::Try { handler: Some(c), .. }) => {
                if let Some(p) = &c.param {
                    check_pat(p, out);
                }
            },
            NodeRef::Expr(Expr::Assign { left, .. }) => check_pat(left, out),
            _ => {},
        }
        assert(diag_views(out@) =~= o + self.node_diags(n@));
    }
}

impl NoShadowRestrictedNames {
    /// The tags of the rule: it belongs to the recommended set.
    pub fn tags(&self) -> (r: Vec<&'static str>)
        ensures
            crate::tags::tag_views(r@) == seq![crate::tags::RECOMMENDED@],
    {
        crate::tags::recommended()
    }

    pub fn code(&self) -> (r: &'static str)
        ensures
            r@ == CODE@,
    {
        CODE
    }

    /// One diagnostic for each binding or assignment of a restricted name, in
    /// source order.
    pub fn lint(&self, program: &Program) -> (r: Vec<Diagnostic>)
        ensures
            diag_views(r@) == nodes_diags(*self, program_events(*program)),
    {
        lint_nodes(self, program)
    }
}

/// A diagnostic of the rule: its code, no hint, and a message that names one
/// of the restricted names.
pub open spec fn names_restricted(d: DiagnosticView) -> bool {
    &&& d.code == CODE@
    &&& d.hint is None
    &&& exists|name: Seq<char>| is_restricted(name) && d.message == message(name)
}

pub open spec fn all_name_restricted(s: Seq<DiagnosticView>) -> bool {
    forall|i: int| 0 <= i < s.len() ==> names_restricted(#[trigger] s[i])
}

proof fn lemma_concat(a: Seq<DiagnosticView>, b: Seq<DiagnosticView>)
    requires
        all_name_restricted(a),
        all_name_restricted(b),
    ensures
        all_name_restricted(a + b),
{
    assert forall|i: int| 0 <= i < (a + b).len() implies names_restricted(#[trigger] (a + b)[i]) by {
        if i < a.len() {
            assert((a + b)[i] == a[i]);
        } else {
            assert((a + b)[i] == b[i - a.len()]);
        }
    }
}

proof fn lemma_single(span: Span, name: Seq<char>)
    requires
        is_restricted(name),
    ensures
        all_name_restricted(seq![shadow_diag(span, name)]),
{
    assert(names_restricted(seq![shadow_diag(span, name)][0]));
}

proof fn lemma_pat(p: Pat)
    ensures
        all_name_restricted(pat_diags(p)),
    decreases p, 0int,
{
    match p {
        Pat::Ident { span, name, .. } => {
            if is_restricted(name@) {
                lemma_single(span, name@);
            }
        },
        Pat::Array { elems, .. } => lemma_opt_pats(elems@, 0),
        Pat::Object { props, .. } => lemma_pat_props(props@, 0),
        Pat::Rest { arg, .. } => lemma_pat(*arg),
        Pat::Assign { left, .. } => lemma_pat(*left),
        Pat::Expr(_) => {},
    }
}

proof fn lemma_opt_pats(s: Seq<Option<Pat>>, i: int)
    ensures
        all_name_restricted(opt_pats_diags(s, i)),
    decreases s, s.len() - i,
{
    if 0 <= i < s.len() {
        if let Some(p) = s[i] {
            lemma_pat(p);
        }
        lemma_opt_pats(s, i + 1);
        lemma_concat(
            match s[i] {
                Some(p) => pat_diags(p),
                None => Seq::empty(),
            },
            opt_pats_diags(s, i + 1),
        );
    }
}

proof fn lemma_pat_props(s: Seq<ObjectPatProp>, i: int)
    ensures
        all_name_restricted(pat_props_diags(s, i)),
    decreases s, s.len() - i,
{
    if 0 <= i < s.len() {
        match s[i] {
            ObjectPatProp::KeyValue { value, .. } => lemma_pat(value),
            ObjectPatProp::Rest { arg, .. } => lemma_pat(arg),
        }
        lemma_pat_props(s, i + 1);
        lemma_concat(
            match s[i] {
                ObjectPatProp::KeyValue { value, .. } => pat_diags(value),
                ObjectPatProp::Rest { arg, .. } => pat_diags(arg),
            },
            pat_props_diags(s, i + 1),
        );
    }
}

proof fn lemma_params(s: Seq<Pat>, i: int)
    ensures
        all_name_restricted(params_diags(s, i)),
    decreases s.len() - i,
{
    if 0 <= i < s.len() {
        lemma_pat(s[i]);
        lemma_params(s, i + 1);
        lemma_concat(
            if s[i] is Rest {
                Seq::empty()
            } else {
                pat_diags(s[i])
            },
            params_diags(s, i + 1),
        );
    }
}

proof fn lemma_declarators(s: Seq<VarDeclarator>, i: int)
    ensures
        all_name_restricted(declarators_diags(s, i)),
    decreases s.len() - i,
{
    if 0 <= i < s.len() {
        lemma_pat(s[i].name);
        lemma_declarators(s, i + 1);
        lemma_concat(
            if declares_bare_undefined(s[i]) {
                Seq::empty()
            } else {
                pat_diags(s[i].name)
            },
            declarators_diags(s, i + 1),
        );
    }
}

proof fn lemma_node(n: Node)
    ensures
        all_name_restricted(NoShadowRestrictedNames.node_diags(n)),
{
    match n {
        Node::VarDecl(d) => lemma_declarators(d.decls@, 0),
        Node::Function(f) => {
            let head = match f.id {
                Some(id) => if is_restricted(id.name@) {
                    seq![shadow_diag(id.span, id.name@)]
                } else {
                    Seq::empty()
                },
                None => Seq::empty(),
            };
            if let Some(id) = f.id {
                if is_restricted(id.name@) {
                    lemma_single(id.span, id.name@);
                }
            }
            lemma_params(param_pats(f.params@), 0);
            lemma_concat(head, params_diags(param_pats(f.params@), 0));
        },
        Node::Expr(Expr::Arrow(a)) => lemma_params(a.params@, 0),
        Node::Stmt(Stmt::Try { handler: Some(c), .. }) => {
            if let Some(p) = c.param {
                lemma_pat(p);
            }
        },
        Node::Expr(Expr::Assign { left, .. }) => lemma_pat(*left),
        _ => {},
    }
}

/// Only the five restricted names are ever reported: each diagnostic carries
/// the rule's code, no hint, and names `undefined`, `NaN`, `Infinity`,
/// `arguments` or `eval`.
pub proof fn lemma_only_restricted_names(program: Program)
    ensures
        all_name_restricted(nodes_diags(NoShadowRestrictedNames, program_events(program))),
{
    let prop = |d: DiagnosticView| names_restricted(d);
    assert forall|n: Node, i: int| 0 <= i < NoShadowRestrictedNames.node_diags(n).len() implies prop(
        #[trigger] NoShadowRestrictedNames.node_diags(n)[i],
    ) by {
        lemma_node(n);
    }
    lemma_nodes_diags_all(NoShadowRestrictedNames, program_events(program), prop);
}

/// Declaring `undefined` without a value leaves it as it was: a declaration
/// whose declarators all do so is not reported.
pub proof fn lemma_bare_undefined_not_reported(d: crate::ast::VarDecl)
    requires
        forall|k: int| 0 <= k < d.decls@.len() ==> declares_bare_undefined(#[trigger] d.decls@[k]),
    ensures
        NoShadowRestrictedNames.node_diags(Node::VarDecl(d)) == Seq::<DiagnosticView>::empty(),
{
    lemma_bare_declarators(d.decls@, 0);
}

proof fn lemma_bare_declarators(s: Seq<VarDeclarator>, i: int)
    requires
        0 <= i,
        forall|k: int| 0 <= k < s.len() ==> declares_bare_undefined(#[trigger] s[k]),
    ensures
        declarators_diags(s, i) == Seq::<DiagnosticView>::empty(),
    decreases s.len() - i,
{
    if i < s.len() {
        assert(declares_bare_undefined(s[i]));
        lemma_bare_declarators(s, i + 1);
        assert(declarators_diags(s, i) =~= Seq::<DiagnosticView>::empty());
    }
}

} // verus!
