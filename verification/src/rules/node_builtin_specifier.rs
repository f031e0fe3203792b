//! `node-builtin-specifier`: a built-in Node module is to be imported with the
//! `node:` prefix.

use vstd::prelude::*;
use crate::ast::{Callee, Expr, Lit, Program, Stmt, StrLit};
use crate::diagnostic::{
    Diagnostic, DiagnosticView, LintFix, Severity, diag_views, push_diag, single_fix,
};
use crate::text::str_eq;
use crate::walk::{Node, NodeRef, program_events};
use crate::rules::{NodeRule, lemma_nodes_diags_all, lint_nodes, nodes_diags};

verus! {

pub const CODE: &'static str = "node-builtin-specifier";

pub const MESSAGE: &'static str = "built-in Node modules need the \"node:\" specifier";

pub const HINT: &'static str = "Add \"node:\" prefix in front of the import specifier";

pub const FIX_DESC: &'static str = "Add \"node:\" prefix";

/// The built-in Node modules that can be imported without the `node:` prefix.
pub const NODE_BUILTINS: [&'static str; 54] = [
    "assert",
    "assert/strict",
    "async_hooks",
    "buffer",
    "child_process",
    "cluster",
    "console",
    "constants",
    "crypto",
    "dgram",
    "diagnostics_channel",
    "dns",
    "dns/promises",
    "domain",
    "events",
    "fs",
    "fs/promises",
    "http",
    "http2",
    "https",
    "inspector",
    "inspector/promises",
    "module",
    "net",
    "os",
    "path",
    "path/posix",
    "path/win32",
    "perf_hooks",
    "process",
    "punycode",
    "querystring",
    "readline",
    "readline/promises",
    "repl",
    "stream",
    "stream/consumers",
    "stream/promises",
    "stream/web",
    "string_decoder",
    "sys",
    "timers",
    "timers/promises",
    "tls",
    "trace_events",
    "tty",
    "url",
    "util",
    "util/types",
    "v8",
    "vm",
    "wasi",
    "worker_threads",
    "zlib",
];

/// Reports, as warnings, imports and dynamic imports of built-in Node modules
/// without the `node:` prefix, with a fix that adds it.
#[derive(Debug)]
pub struct NodeBuiltinsSpecifier;

/// Whether a specifier names a built-in Node module without the prefix.
pub open spec fn is_builtin(src: Seq<char>) -> bool {
    exists|i: int| 0 <= i < NODE_BUILTINS@.len() && #[trigger] NODE_BUILTINS@[i]@ == src
}

/// The warning for the specifier `src`, with its fix.
pub open spec fn specifier_diag(src: StrLit) -> DiagnosticView {
    DiagnosticView {
        range: src.span,
        code: CODE@,
        message: MESSAGE@,
        hint: Some(HINT@),
        fixes: seq![single_fix(FIX_DESC@, "\"node:"@ + src.value@ + "\""@, src.span)],
        severity: Severity::Warning,
    }
}

/// The warnings for a specifier: one where it names a built-in module.
pub open spec fn specifier_diags(src: StrLit) -> Seq<DiagnosticView> {
    if is_builtin(src.value@) {
        seq![specifier_diag(src)]
    } else {
        Seq::empty()
    }
}

/// Whether a specifier names a built-in Node module without the prefix.
pub fn is_bare_node_builtin(src: &str) -> (r: bool)
    ensures
        r == is_builtin(src@),
{
    let mut i: usize = 0;
    while i < 54
        invariant
            i <= 54,
            NODE_BUILTINS@.len() == 54,
            forall|j: int| 0 <= j < i ==> NODE_BUILTINS@[j]@ != src@,
        decreases 54 - i,
    {
        if str_eq(NODE_BUILTINS[i], src) {
            return true;
        }
        i = i + 1;
    }
    false
}

fn add_diagnostic(out: &mut Vec<Diagnostic>, src: &StrLit)
    ensures
        diag_views(final(out)@) == diag_views(old(out)@).push(specifier_diag(*src)),
{
    let mut text = String::from_str("\"node:");
    text.append(src.value.as_str());
    text.append("\"");
    let fixes = vec![LintFix::single(FIX_DESC, text, src.span)];
    let d = Diagnostic::with_fixes(src.span, CODE, MESSAGE, HINT, fixes, Severity::Warning);
    assert(d@.fixes =~= specifier_diag(*src).fixes);
    push_diag(out, d);
}

fn check_specifier(out: &mut Vec<Diagnostic>, src: &StrLit)
    ensures
        diag_views(final(out)@) == diag_views(old(out)@) + specifier_diags(*src),
{
    if is_bare_node_builtin(src.value.as_str()) {
        add_diagnostic(out, src);
    }
    assert(diag_views(out@) =~= diag_views(old(out)@) + specifier_diags(*src));
}

impl NodeRule for NodeBuiltinsSpecifier {
    /// An import declaration is read by its specifier; a dynamic import by its
    /// first argument, where that is a string literal.
    open spec fn node_diags(&self, n: Node) -> Seq<DiagnosticView> {
        match n {
            Node::Stmt(Stmt::Import { src, .. }) => specifier_diags(src),
            Node::Expr(Expr::Call { callee: Callee::Import(_), args, .. }) => if args.len() > 0 {
                match args@[0].expr {
                    Expr::Lit(Lit::Str(s)) => specifier_diags(s),
                    _ => Seq::empty(),
                }
            } else {
                Seq::empty()
            },
            _ => Seq::empty(),
        }
    }

    fn check_node<'a>(&self, n: NodeRef<'a>, out: &mut Vec<Diagnostic>) {
        match n {
            NodeRef::Stmt(Stmt::Import { src, .. }) => check_specifier(out, src),
            NodeRef::Expr(Expr::Call { callee: Callee::Import(_), args, .. }) => {
                if args.len() > 0 {
                    match &args[0].expr {
                        Expr::Lit(Lit::Str(s)) => check_specifier(out, s),
                        _ => {},
                    }
                }
            },
            _ => {},
        }
        assert(diag_views(out@) =~= diag_views(old(out)@) + self.node_diags(n@));
    }
}

impl NodeBuiltinsSpecifier {
    /// The tags of the rule: it belongs to the recommended set.
    pub fn tags(&self) -> (r: Vec<&'static str>)
        ensures
            crate::tags::tag_views(r@) == seq![crate::tags::RECOMMENDED@],
    {
        crate::tags::recommended()
    }

    pub fn code(&self) -> (r: &'static str)
        ensures
            r@ == CODE@,
    {
        CODE
    }

    /// The warnings of the rule on a program, in source order.
    pub fn lint(&self, program: &Program) -> (r: Vec<Diagnostic>)
        ensures
            diag_views(r@) == nodes_diags(*self, program_events(*program)),
    {
        lint_nodes(self, program)
    }
}

/// Whether a diagnostic is a warning of this rule with one fix, made of one
/// edit of exactly the diagnostic's range.
pub open spec fn is_fixable_warning(d: DiagnosticView) -> bool {
    &&& d.code == CODE@
    &&& d.severity == Severity::Warning
    &&& d.fixes.len() == 1
    &&& d.fixes[0].changes.len() == 1
    &&& d.fixes[0].changes[0].range == d.range
}

/// Every diagnostic of the rule is a warning with its code, and its one fix
/// rewrites exactly the specifier it points at.
pub proof fn lemma_diags_are_fixable_warnings(program: Program)
    ensures
        forall|i: int|
            0 <= i < nodes_diags(NodeBuiltinsSpecifier, program_events(program)).len()
                ==> is_fixable_warning(
                #[trigger] nodes_diags(NodeBuiltinsSpecifier, program_events(program))[i],
            ),
{
    let prop = |d: DiagnosticView| is_fixable_warning(d);
    assert forall|n: Node, i: int|
        0 <= i < NodeBuiltinsSpecifier.node_diags(n).len() implies prop(
        #[trigger] NodeBuiltinsSpecifier.node_diags(n)[i],
    ) by {}
    lemma_nodes_diags_all(NodeBuiltinsSpecifier, program_events(program), prop);
}


/// A specifier that carries the `node:` prefix is never reported: the fix,
/// which adds the prefix, leaves nothing to report.
pub proof fn lemma_prefixed_never_builtin(s: Seq<char>)
    ensures
        !is_builtin("node:"@ + s),
{
    let t = "node:"@ + s;
    assert forall|i: int| 0 <= i < NODE_BUILTINS@.len() implies #[trigger] NODE_BUILTINS@[i]@ != t by {
        reveal_strlit("node:");
        reveal_strlit("assert");
        reveal_strlit("assert/strict");
        reveal_strlit("async_hooks");
        reveal_strlit("buffer");
        reveal_strlit("child_process");
        reveal_strlit("cluster");
        reveal_strlit("console");
        reveal_strlit("constants");
        reveal_strlit("crypto");
        reveal_strlit("dgram");
        reveal_strlit("diagnostics_channel");
        reveal_strlit("dns");
        reveal_strlit("dns/promises");
        reveal_strlit("domain");
        reveal_strlit("events");
        reveal_strlit("fs");
        reveal_strlit("fs/promises");
        reveal_strlit("http");
        reveal_strlit("http2");
        reveal_strlit("https");
        reveal_strlit("inspector");
        reveal_strlit("inspector/promises");
        reveal_strlit("module");
        reveal_strlit("net");
        reveal_strlit("os");
        reveal_strlit("path");
        reveal_strlit("path/posix");
        reveal_strlit("path/win32");
        reveal_strlit("perf_hooks");
        reveal_strlit("process");
        reveal_strlit("punycode");
        reveal_strlit("querystring");
        reveal_strlit("readline");
        reveal_strlit("readline/promises");
        reveal_strlit("repl");
        reveal_strlit("stream");
        reveal_strlit("stream/consumers");
        reveal_strlit("stream/promises");
        reveal_strlit("stream/web");
        reveal_strlit("string_decoder");
        reveal_strlit("sys");
        reveal_strlit("timers");
        reveal_strlit("timers/promises");
        reveal_strlit("tls");
        reveal_strlit("trace_events");
        reveal_strlit("tty");
        reveal_strlit("url");
        reveal_strlit("util");
        reveal_strlit("util/types");
        reveal_strlit("v8");
        reveal_strlit("vm");
        reveal_strlit("wasi");
        reveal_strlit("worker_threads");
        reveal_strlit("zlib");
        assert(t.len() >= 5 && t[4] == ':');
        if NODE_BUILTINS@[i]@ == t {
            assert(NODE_BUILTINS@[i]@[4] == ':');
        }
    }
}


/// Applying the fix and linting again reports nothing more: a specifier whose
/// text is a reported one with the `node:` prefix added is not a bare
/// builtin (`is_bare_node_builtin` gives `false` on it), so it has no warning.
pub proof fn lemma_fix_settles(reported: StrLit, fixed: StrLit)
    requires
        specifier_diags(reported).len() == 1,
        fixed.value@ == "node:"@ + reported.value@,
    ensures
        !is_builtin(fixed.value@),
        specifier_diags(fixed) == Seq::<DiagnosticView>::empty(),
{
    lemma_prefixed_never_builtin(reported.value@);
}

} // verus!
