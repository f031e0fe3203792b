//! `non-generic-typed-array`: a typed array type such as `Uint8Array` is to be
//! written with a type argument, except in the types of parameters.

use vstd::prelude::*;
use crate::ast::{Ident, Program, Span, TsType};
use crate::diagnostic::{
    Diagnostic, DiagnosticView, FixView, LintFix, Severity, diag_views, push_diag, single_fix,
};
use crate::text::str_eq;
use crate::walk::{Event, Node, NodeRef, SEvent, event_views, program_events, walk_program};
use crate::rules::{fold_events, lemma_fold_events_all, lemma_fold_events_step};

verus! {

pub const CODE: &'static str = "non-generic-typed-array";

pub const MESSAGE: &'static str = "Forces making typed arrays like Uint8Array generic when in non-input types.";

pub const HINT: &'static str = "Add a type parameter (ex. Uint8Array<ArrayBuffer>)";

pub const FIX_DESC_ARRAY_BUFFER: &'static str = "Add <ArrayBuffer>";

pub const FIX_DESC_SHARED_ARRAY_BUFFER: &'static str = "Add <SharedArrayBuffer>";

pub const FIX_DESC_ARRAY_BUFFER_LIKE: &'static str = "Add <ArrayBufferLike>";

/// The typed array types, in sorted order.
pub const TYPED_ARRAYS: [&'static str; 11] = [
    "BigInt64Array",
    "BigUint64Array",
    "Float32Array",
    "Float64Array",
    "Int16Array",
    "Int32Array",
    "Int8Array",
    "Uint16Array",
    "Uint32Array",
    "Uint8Array",
    "Uint8ClampedArray",
];

/// Reports typed array types written without a type argument outside
/// parameters, with three fixes that add one.
#[derive(Debug)]
pub struct NonGenericTypedArray;

/// Whether a name is one of the typed array types.
pub open spec fn is_typed_array(name: Seq<char>) -> bool {
    exists|i: int| 0 <= i < TYPED_ARRAYS@.len() && #[trigger] TYPED_ARRAYS@[i]@ == name
}

/// The three fixes for a typed array type named `name` at `range`.
pub open spec fn fixes_for(name: Seq<char>, range: Span) -> Seq<FixView> {
    seq![
        single_fix(FIX_DESC_ARRAY_BUFFER@, name + "<ArrayBuffer>"@, range),
        single_fix(FIX_DESC_ARRAY_BUFFER_LIKE@, name + "<ArrayBufferLike>"@, range),
        single_fix(FIX_DESC_SHARED_ARRAY_BUFFER@, name + "<SharedArrayBuffer>"@, range),
    ]
}

/// The diagnostic for a typed array type written without a type argument.
pub open spec fn typed_array_diag(name: Ident) -> DiagnosticView {
    DiagnosticView {
        range: name.span,
        code: CODE@,
        message: MESSAGE@,
        hint: Some(HINT@),
        fixes: fixes_for(name.name@, name.span),
        severity: Severity::Error,
    }
}

/// One event for a state that counts the parameters that enclose the current
/// node: nothing inside a parameter is read.
pub open spec fn step(params: nat, e: SEvent) -> (nat, Seq<DiagnosticView>) {
    match e {
        SEvent::Enter(Node::Param(_)) => ((params + 1) as nat, Seq::empty()),
        SEvent::Exit(Node::Param(_)) => (if params > 0 {
            (params - 1) as nat
        } else {
            params
        }, Seq::empty()),
        SEvent::Enter(Node::TsType(TsType::Ref { name, type_args: None, .. })) => (
            params,
            if params == 0 && is_typed_array(name.name@) {
                seq![typed_array_diag(name)]
            } else {
                Seq::empty()
            },
        ),
        _ => (params, Seq::empty()),
    }
}

pub open spec fn step_fn() -> spec_fn(nat, SEvent) -> (nat, Seq<DiagnosticView>) {
    |params: nat, e: SEvent| step(params, e)
}

/// Whether a name is one of the typed array types.
pub fn is_typed_array_name(name: &str) -> (r: bool)
    ensures
        r == is_typed_array(name@),
{
    let mut i: usize = 0;
    while i < 11
        invariant
            i <= 11,
            TYPED_ARRAYS@.len() == 11,
            forall|j: int| 0 <= j < i ==> TYPED_ARRAYS@[j]@ != name@,
        decreases 11 - i,
    {
        if str_eq(TYPED_ARRAYS[i], name) {
            return true;
        }
        i = i + 1;
    }
    false
}

fn add_suffix(name: &str, suffix: &str) -> (r: String)
    ensures
        r@ == name@ + suffix@,
{
    let mut r = String::from_str(name);
    r.append(suffix);
    r
}

/// The diagnostic for a typed array type written without a type argument.
fn add_diagnostic(out: &mut Vec<Diagnostic>, name: &Ident)
    ensures
        diag_views(final(out)@) == diag_views(old(out)@).push(typed_array_diag(*name)),
{
    let range = name.span;
    let n = name.name.as_str();
    let fixes = vec![
        LintFix::single(FIX_DESC_ARRAY_BUFFER, add_suffix(n, "<ArrayBuffer>"), range),
        LintFix::single(FIX_DESC_ARRAY_BUFFER_LIKE, add_suffix(n, "<ArrayBufferLike>"), range),
        LintFix::single(FIX_DESC_SHARED_ARRAY_BUFFER, add_suffix(n, "<SharedArrayBuffer>"), range),
    ];
    let d = Diagnostic::with_fixes(range, CODE, MESSAGE, HINT, fixes, Severity::Error);
    assert(d@.fixes =~= fixes_for(name.name@, range));
    push_diag(out, d);
}

impl NonGenericTypedArray {
    /// The tags of the rule: it belongs to no set.
    pub fn tags(&self) -> (r: Vec<&'static str>)
        ensures
            crate::tags::tag_views(r@) == Seq::<Seq<char>>::empty(),
    {
        crate::tags::untagged()
    }

    pub fn code(&self) -> (r: &'static str)
        ensures
            r@ == CODE@,
    {
        CODE
    }

    /// One diagnostic for each typed array type written without a type
    /// argument outside parameters, in source order.
    pub fn lint(&self, program: &Program) -> (r: Vec<Diagnostic>)
        ensures
            diag_views(r@) == fold_events(program_events(*program), 0nat, step_fn()).1,
    {
        let events = walk_program(program);
        let ghost evs = event_views(events@);
        let mut out: Vec<Diagnostic> = Vec::new();
        let mut params: usize = 0;
        assert(diag_views(out@) =~= Seq::<DiagnosticView>::empty());
        let mut i: usize = 0;
        while i < events.len()
            invariant
                evs == event_views(events@),
                i <= events.len(),
                params <= i,
                fold_events(evs.take(i as int), 0nat, step_fn()) == (
                    params as nat,
                    diag_views(out@),
                ),
            decreases events.len() - i,
        {
            proof {
                lemma_fold_events_step(evs, i as int, 0nat, step_fn());
            }
            let ghost before = diag_views(out@);
            match events[i] {
                Event::Enter(NodeRef::Param(_)) => params = params + 1,
                Event::Exit(NodeRef::Param(_)) => if params > 0 {
                    params = params - 1;
                },
                Event::Enter(NodeRef::TsType(TsType::Ref { name, type_args: None, .. })) => {
                    if params == 0 && is_typed_array_name(name.name.as_str()) {
                        add_diagnostic(&mut out, name);
                    }
                },
                _ => {},
            }
            assert(diag_views(out@) =~= before + step(
                fold_events(evs.take(i as int), 0nat, step_fn()).0,
                evs[i as int],
            ).1);
            i = i + 1;
        }
        assert(evs.take(events.len() as int) =~= evs);
        out
    }
}

/// Whether a diagnostic is one of this rule with three fixes, each one edit
/// of exactly the diagnostic's range.
pub open spec fn has_three_fixes_in_place(d: DiagnosticView) -> bool {
    &&& d.code == CODE@
    &&& d.fixes.len() == 3
    &&& forall|j: int|
        0 <= j < 3 ==> (#[trigger] d.fixes[j]).changes.len() == 1 && d.fixes[j].changes[0].range
            == d.range
}

/// Every diagnostic of the rule carries its code and three fixes, each of
/// which rewrites exactly the type name it points at.
pub proof fn lemma_diags_have_three_fixes(program: Program)
    ensures
        forall|i: int|
            0 <= i < fold_events(program_events(program), 0nat, step_fn()).1.len()
                ==> has_three_fixes_in_place(
                #[trigger] fold_events(program_events(program), 0nat, step_fn()).1[i],
            ),
{
    let prop = |d: DiagnosticView| has_three_fixes_in_place(d);
    assert forall|s: nat, e: SEvent, i: int| 0 <= i < step_fn()(s, e).1.len() implies prop(
        #[trigger] step_fn()(s, e).1[i],
    ) by {
        assert(step_fn()(s, e) == step(s, e));
    }
    lemma_fold_events_all(program_events(program), 0nat, step_fn(), prop);
}

} // verus!
