//! `no-unversioned-import`: an `npm:` or `jsr:` specifier is to state a
//! version requirement.

use vstd::prelude::*;
use crate::ast::{Callee, Expr, Lit, Program, Stmt, StrLit};
use crate::diagnostic::{Diagnostic, DiagnosticView, diag_views, hinted_diag, push_diag};
use crate::text::{starts_with, str_eq};
use crate::walk::{Node, NodeRef, program_events};
use crate::rules::{NodeRule, lemma_nodes_diags_all, lint_nodes, nodes_diags};

verus! {

pub const CODE: &'static str = "no-unversioned-import";

pub const MESSAGE: &'static str = "Missing version in specifier";

pub const HINT: &'static str = "Add a version requirement after the package name";

/// Reports `npm:` and `jsr:` specifiers, in imports and dynamic imports, that
/// state no version requirement.
#[derive(Debug)]
pub struct NoUnversionedImport;

/// The text of the version requirement of a specifier as deno_semver parses
/// it as an `npm:` package reference, or `None` where it does not parse as
/// one.
pub uninterp spec fn npm_req_version_text(specifier: Seq<char>) -> Option<Seq<char>>;

/// The same for a `jsr:` package reference.
pub uninterp spec fn jsr_req_version_text(specifier: Seq<char>) -> Option<Seq<char>>;

pub open spec fn opt_string_view(s: Option<String>) -> Option<Seq<char>> {
    match s {
        Some(s) => Some(s@),
        None => None,
    }
}

/// Parses `s` with `deno_semver::npm::NpmPackageReqReference::from_str` and
/// gives the text of the version requirement of the reference it returns.
/// The contract names that result and states the one fact that the parser's
/// source shows plainly: a specifier without the `npm:` scheme is refused.
/// What the parser accepts beyond that is not stated.
#[verifier::external_body]
fn npm_version_text(s: &str) -> (r: Option<String>)
    ensures
        opt_string_view(r) == npm_req_version_text(s@),
        !starts_with(s@, "npm:"@) ==> r is None,
{
    match deno_semver::npm::NpmPackageReqReference::from_str(s) {
        Ok(r) => Some(r.into_inner().req.version_req.version_text().to_string()),
        Err(_) => None,
    }
}

/// Parses `s` with `deno_semver::jsr::JsrPackageReqReference::from_str` and
/// gives the text of the version requirement of the reference it returns.
/// The contract names that result and states the one fact that the parser's
/// source shows plainly: a specifier without the `jsr:` scheme is refused.
/// What the parser accepts beyond that is not stated.
#[verifier::external_body]
fn jsr_version_text(s: &str) -> (r: Option<String>)
    ensures
        opt_string_view(r) == jsr_req_version_text(s@),
        !starts_with(s@, "jsr:"@) ==> r is None,
{
    match deno_semver::jsr::JsrPackageReqReference::from_str(s) {
        Ok(r) => Some(r.into_inner().req.version_req.version_text().to_string()),
        Err(_) => None,
    }
}

/// The version requirement of a specifier read as an `npm:` package
/// reference, or else as a `jsr:` one.
pub open spec fn package_version_text(s: Seq<char>) -> Option<Seq<char>> {
    match npm_req_version_text(s) {
        Some(v) => Some(v),
        None => jsr_req_version_text(s),
    }
}

/// Whether a version requirement, if there is one, is the one that a
/// specifier without a version gets: `*`.
pub open spec fn is_any_version(version: Option<Seq<char>>) -> bool {
    match version {
        Some(v) => v == "*"@,
        None => false,
    }
}

/// Whether a specifier is a package reference without a version requirement.
pub open spec fn unversioned(s: Seq<char>) -> bool {
    is_any_version(package_version_text(s))
}

/// The version requirement of a specifier read as an `npm:` package
/// reference, or else as a `jsr:` one.
fn get_package_version_text(s: &str) -> (r: Option<String>)
    ensures
        opt_string_view(r) == package_version_text(s@),
        !starts_with(s@, "npm:"@) && !starts_with(s@, "jsr:"@) ==> r is None,
{
    match npm_version_text(s) {
        Some(v) => Some(v),
        None => jsr_version_text(s),
    }
}

/// Whether the version requirement that a specifier was parsed into, if any,
/// is `*`, the requirement of a specifier without a version.
pub fn is_any_version_text(version: Option<&str>) -> (r: bool)
    ensures
        r == match version {
            Some(v) => v@ == "*"@,
            None => false,
        },
{
    match version {
        Some(v) => str_eq(v, "*"),
        None => false,
    }
}

/// Whether a specifier is a package reference without a version requirement.
/// A specifier without the `npm:` or `jsr:` scheme, such as a bare or
/// relative one, never is.
pub fn is_unversioned(s: &str) -> (r: bool)
    ensures
        r == unversioned(s@),
        !starts_with(s@, "npm:"@) && !starts_with(s@, "jsr:"@) ==> !r,
{
    match get_package_version_text(s) {
        Some(v) => is_any_version_text(Some(v.as_str())),
        None => is_any_version_text(None),
    }
}

/// The diagnostics for a specifier: one where it states no version.
pub open spec fn specifier_diags(src: StrLit) -> Seq<DiagnosticView> {
    if unversioned(src.value@) {
        seq![hinted_diag(src.span, CODE@, MESSAGE@, HINT@)]
    } else {
        Seq::empty()
    }
}

fn check_specifier(out: &mut Vec<Diagnostic>, src: &StrLit)
    ensures
        diag_views(final(out)@) == diag_views(old(out)@) + specifier_diags(*src),
{
    if is_unversioned(src.value.as_str()) {
        push_diag(
            out,
            Diagnostic::with_hint(src.span, CODE, String::from_str(MESSAGE), String::from_str(HINT)),
        );
    }
    assert(diag_views(out@) =~= diag_views(old(out)@) + specifier_diags(*src));
}

impl NodeRule for NoUnversionedImport {
    /// An import declaration is read by its specifier; a dynamic import by its
    /// first argument, where that is a string literal.
    open spec fn node_diags(&self, n: Node) -> Seq<DiagnosticView> {
        match n {
            Node::Stmt(Stmt::Import { src, .. }) => specifier_diags(src),
            Node::Expr(Expr::Call { callee: Callee::Import(_), args, .. }) => if args.len() > 0 {
                match args@[0].expr {
                    Expr::Lit(Lit::Str(s)) => specifier_diags(s),
                    _ => Seq::empty(),
                }
            } else {
                Seq::empty()
            },
            _ => Seq::empty(),
        }
    }

    fn check_node<'a>(&self, n: NodeRef<'a>, out: &mut Vec<Diagnostic>) {
        match n {
            NodeRef::Stmt(Stmt::Import { src, .. }) => check_specifier(out, src),
            NodeRef::Expr(Expr::Call { callee: Callee::Import(_), args, .. }) => {
                if args.len() > 0 {
                    match &args[0].expr {
                        Expr::Lit(Lit::Str(s)) => check_specifier(out, s),
                        _ => {},
                    }
                }
            },
            _ => {},
        }
        assert(diag_views(out@) =~= diag_views(old(out)@) + self.node_diags(n@));
    }
}

impl NoUnversionedImport {
    /// The tags of the rule: it belongs to the recommended set.
    pub fn tags(&self) -> (r: Vec<&'static str>)
        ensures
            crate::tags::tag_views(r@) == seq![crate::tags::RECOMMENDED@],
    {
        crate::tags::recommended()
    }

    pub fn code(&self) -> (r: &'static str)
        ensures
            r@ == CODE@,
    {
        CODE
    }

    /// The diagnostics of the rule on a program, in source order.
    pub fn lint(&self, program: &Program) -> (r: Vec<Diagnostic>)
        ensures
            diag_views(r@) == nodes_diags(*self, program_events(*program)),
    {
        lint_nodes(self, program)
    }
}

/// Every diagnostic of the rule carries its code.
pub proof fn lemma_diags_carry_code(program: Program)
    ensures
        forall|i: int|
            0 <= i < nodes_diags(NoUnversionedImport, program_events(program)).len()
                ==> (#[trigger] nodes_diags(NoUnversionedImport, program_events(program))[i]).code == CODE@,
{
    let prop = |d: DiagnosticView| d.code == CODE@;
    assert forall|n: Node, i: int| 0 <= i < NoUnversionedImport.node_diags(n).len() implies prop(
        #[trigger] NoUnversionedImport.node_diags(n)[i],
    ) by {}
    lemma_nodes_diags_all(NoUnversionedImport, program_events(program), prop);
}

} // verus!
