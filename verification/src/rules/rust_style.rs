//! `rust_style`: the case conventions of Rust. The predicates that tell a
//! name's case, as the rule reads it.

use vstd::prelude::*;
use crate::ast::{
    export_name_span, export_name_span_of, ids_view, pat_ids, pat_ids_of, Expr, Ident, ImportSpecifier, ModuleExportName, ObjectPatProp, Pat, Program,
    Prop, PropName, Span, Stmt, TsElementKind, TsEnumMember, TsModuleName, TsType, TsTypeElement,
    VarDeclarator,
};
use crate::diagnostic::{Diagnostic, DiagnosticView, diag_views, hinted_diag, push_diag};
use crate::order::{keyed_view, keys_distinct, lemma_sort_keyed_strict, sort_keyed, sort_keyed_exec, span_lt};
use crate::rules::{fold_events, lemma_fold_events_step};
use crate::walk::{Event, Node, NodeRef, SEvent, event_views, program_events, walk_program};
use crate::text::{
    captures_view, char_index, char_index_of, char_is_uppercase, is_uppercase_char, lower_ascii,
    regex_all_captures, regex_captures_all, regex_is_match, regex_match, slice_text, str_eq, text_slice,
    to_lower_ascii, to_upper_ascii, upper_ascii,
};

verus! {

pub const CODE: &'static str = "rust_style";

/// The regular expressions by which a name's case is told.
pub const UPPERCASE_CHAR_PATTERN: &'static str = "[A-Z]";

pub const LOWERCASE_CHAR_PATTERN: &'static str = "[a-z]";

pub const UPPERCASE_FIRST_CHAR_PATTERN: &'static str = "^[A-Z]";

/// The number of underscores that `s` starts with.
pub open spec fn leading_underscores(s: Seq<char>) -> nat
    decreases s.len(),
{
    if s.len() > 0 && s[0] == '_' {
        1 + leading_underscores(s.drop_first())
    } else {
        0
    }
}

/// The number of underscores that `s` ends with.
pub open spec fn trailing_underscores(s: Seq<char>) -> nat
    decreases s.len(),
{
    if s.len() > 0 && s.last() == '_' {
        1 + trailing_underscores(s.drop_last())
    } else {
        0
    }
}

/// `s` without its leading and trailing underscores.
pub open spec fn trim_underscores(s: Seq<char>) -> Seq<char> {
    let l = leading_underscores(s);
    if l == s.len() {
        Seq::empty()
    } else {
        s.subrange(l as int, s.len() - trailing_underscores(s))
    }
}

pub open spec fn is_ascii_lowercase(c: char) -> bool {
    'a' <= c && c <= 'z'
}

/// Whether a name has underscores inside it (not only at its ends), and is
/// not all uppercase.
pub open spec fn is_underscored(name: Seq<char>) -> bool {
    let t = trim_underscores(name);
    t.contains('_') && exists|k: int| 0 <= k < t.len() && is_ascii_lowercase(#[trigger] t[k])
}

proof fn lemma_leading_underscores(s: Seq<char>)
    ensures
        leading_underscores(s) <= s.len(),
        leading_underscores(s) < s.len() ==> s[leading_underscores(s) as int] != '_',
    decreases s.len(),
{
    if s.len() > 0 && s[0] == '_' {
        lemma_leading_underscores(s.drop_first());
    }
}

proof fn lemma_trailing_underscores(s: Seq<char>)
    ensures
        trailing_underscores(s) <= s.len(),
        trailing_underscores(s) < s.len() ==> s[s.len() - trailing_underscores(s) - 1] != '_',
        forall|j: int| s.len() - trailing_underscores(s) <= j < s.len() ==> s[j] == '_',
    decreases s.len(),
{
    if s.len() > 0 && s.last() == '_' {
        lemma_trailing_underscores(s.drop_last());
        let d = s.drop_last();
        assert forall|j: int| s.len() - trailing_underscores(s) <= j < s.len() implies s[j] == '_' by {
            if j < s.len() - 1 {
                assert(s[j] == d[j]);
            }
        }
    }
}

/// Trimming the underscores off the ends of a name twice trims nothing more.
pub proof fn lemma_trim_underscores_idempotent(s: Seq<char>)
    ensures
        trim_underscores(trim_underscores(s)) == trim_underscores(s),
{
    let t = trim_underscores(s);
    lemma_leading_underscores(s);
    lemma_trailing_underscores(s);
    let l = leading_underscores(s);
    let r = trailing_underscores(s);
    if l < s.len() {
        if s.len() - r <= l {
            assert(s[l as int] == '_');
        }
        assert(t.len() > 0);
        assert(t[0] == s[l as int]);
        assert(t.last() == s[s.len() - r - 1]);
        assert(leading_underscores(t) == 0);
        assert(trailing_underscores(t) == 0);
        assert(t.subrange(0, t.len() as int) =~= t);
    } else {
        assert(t =~= Seq::<char>::empty());
    }
}

/// Whether a name counts as underscored does not depend on the underscores
/// at its ends; one without an underscore inside, or without a lowercase
/// letter, is not underscored.
pub proof fn lemma_underscored_ignores_ends(s: Seq<char>)
    ensures
        is_underscored(s) == is_underscored(trim_underscores(s)),
        !trim_underscores(s).contains('_') ==> !is_underscored(s),
        (forall|k: int| 0 <= k < trim_underscores(s).len() ==> !is_ascii_lowercase(
            #[trigger] trim_underscores(s)[k],
        )) ==> !is_underscored(s),
{
    lemma_trim_underscores_idempotent(s);
}

/// Whether a name has no uppercase ASCII letter.
pub open spec fn is_snake_cased(name: Seq<char>) -> bool {
    regex_match(UPPERCASE_CHAR_PATTERN@, name) != Some(true)
}

/// Whether a name has no lowercase ASCII letter.
pub open spec fn is_screaming_snake_cased(name: Seq<char>) -> bool {
    regex_match(LOWERCASE_CHAR_PATTERN@, name) != Some(true)
}

/// Whether a name starts with an uppercase ASCII letter and is not
/// underscored.
pub open spec fn is_upper_camel_cased(name: Seq<char>) -> bool {
    !is_underscored(name) && regex_match(UPPERCASE_FIRST_CHAR_PATTERN@, name) == Some(true)
}

proof fn lemma_leading_bound(s: Seq<char>)
    ensures
        leading_underscores(s) <= s.len(),
        forall|k: int| 0 <= k < leading_underscores(s) ==> s[k] == '_',
        leading_underscores(s) < s.len() ==> s[leading_underscores(s) as int] != '_',
    decreases s.len(),
{
    if s.len() > 0 && s[0] == '_' {
        lemma_leading_bound(s.drop_first());
        assert forall|k: int| 0 <= k < leading_underscores(s) implies s[k] == '_' by {
            if k > 0 {
                assert(s[k] == s.drop_first()[k - 1]);
            }
        }
    }
}

proof fn lemma_trailing_bound(s: Seq<char>)
    ensures
        trailing_underscores(s) <= s.len(),
        forall|k: int| s.len() - trailing_underscores(s) <= k < s.len() ==> s[k] == '_',
        trailing_underscores(s) < s.len() ==> s[s.len() - 1 - trailing_underscores(s)] != '_',
    decreases s.len(),
{
    if s.len() > 0 && s.last() == '_' {
        lemma_trailing_bound(s.drop_last());
        assert forall|k: int| s.len() - trailing_underscores(s) <= k < s.len() implies s[k] == '_' by {
            if k < s.len() - 1 {
                assert(s[k] == s.drop_last()[k]);
            }
        }
    }
}

/// The index of the first character that is not an underscore, or the
/// length where there is none.
fn first_non_underscore(name: &str) -> (r: usize)
    ensures
        r == leading_underscores(name@),
{
    proof {
        lemma_leading_bound(name@);
    }
    let n = name.unicode_len();
    let mut k: usize = 0;
    while k < n && name.get_char(k) == '_'
        invariant
            k <= n,
            n == name@.len(),
            k <= leading_underscores(name@),
            leading_underscores(name@) <= name@.len(),
            forall|j: int| 0 <= j < leading_underscores(name@) ==> name@[j] == '_',
            leading_underscores(name@) < name@.len() ==> name@[leading_underscores(name@) as int] != '_',
        decreases n - k,
    {
        k = k + 1;
    }
    k
}

/// The number of underscores at the end.
fn count_trailing(name: &str) -> (r: usize)
    ensures
        r == trailing_underscores(name@),
{
    proof {
        lemma_trailing_bound(name@);
    }
    let n = name.unicode_len();
    let mut k: usize = 0;
    while k < n && name.get_char(n - 1 - k) == '_'
        invariant
            k <= n,
            n == name@.len(),
            k <= trailing_underscores(name@),
            trailing_underscores(name@) <= name@.len(),
            forall|j: int| name@.len() - trailing_underscores(name@) <= j < name@.len() ==> name@[j] == '_',
            trailing_underscores(name@) < name@.len() ==> name@[name@.len() - 1 - trailing_underscores(name@)] != '_',
        decreases n - k,
    {
        k = k + 1;
    }
    k
}

/// Whether a name has underscores inside it (not only at its ends), and is
/// not all uppercase: `foo_bar` and `Sha3_224` are, `fooBar`, `_foo` and
/// `SHA3_224` are not.
pub fn underscored(name: &str) -> (r: bool)
    ensures
        r == is_underscored(name@),
{
    let n = name.unicode_len();
    let lo = first_non_underscore(name);
    if lo == n {
        let ghost t = trim_underscores(name@);
        assert(t =~= Seq::<char>::empty());
        assert(!t.contains('_'));
        return false;
    }
    let tr = count_trailing(name);
    proof {
        lemma_leading_bound(name@);
        lemma_trailing_bound(name@);
    }
    assert(lo + tr <= n) by {
        if lo + tr > n {
            let j = (n - 1 - tr) as int;
            assert(0 <= j < lo);
            assert(name@[j] == '_');
        }
    };
    let hi = n - tr;
    let ghost t = trim_underscores(name@);
    assert(t =~= name@.subrange(lo as int, hi as int));
    let mut has_underscore = false;
    let mut has_lower = false;
    let mut k: usize = lo;
    while k < hi
        invariant
            lo <= k <= hi,
            hi <= n,
            n == name@.len(),
            t == name@.subrange(lo as int, hi as int),
            has_underscore == exists|j: int| lo <= j < k && name@[j] == '_',
            has_lower == exists|j: int| lo <= j < k && is_ascii_lowercase(#[trigger] name@[j]),
        decreases hi - k,
    {
        let c = name.get_char(k);
        if c == '_' {
            has_underscore = true;
        }
        if 'a' <= c && c <= 'z' {
            has_lower = true;
        }
        k = k + 1;
    }
    proof {
        if has_underscore {
            let j = choose|j: int| lo <= j < hi && name@[j] == '_';
            assert(t[j - lo] == '_');
        }
        if t.contains('_') {
            let i = choose|i: int| 0 <= i < t.len() && t[i] == '_';
            assert(name@[lo + i] == '_');
        }
        if has_lower {
            let j = choose|j: int| lo <= j < hi && is_ascii_lowercase(#[trigger] name@[j]);
            assert(is_ascii_lowercase(t[j - lo]));
        }
        if exists|i: int| 0 <= i < t.len() && is_ascii_lowercase(#[trigger] t[i]) {
            let i = choose|i: int| 0 <= i < t.len() && is_ascii_lowercase(#[trigger] t[i]);
            assert(is_ascii_lowercase(name@[lo + i]));
        }
    }
    has_underscore && has_lower
}

fn matches(pattern: &str, name: &str) -> (r: bool)
    ensures
        r == (regex_match(pattern@, name@) == Some(true)),
{
    match regex_is_match(pattern, name) {
        Some(m) => m,
        None => false,
    }
}

/// Whether a name has no uppercase ASCII letter.
pub fn snake_cased(name: &str) -> (r: bool)
    ensures
        r == is_snake_cased(name@),
{
    !matches(UPPERCASE_CHAR_PATTERN, name)
}

/// Whether a name has no lowercase ASCII letter.
pub fn screaming_snake_cased(name: &str) -> (r: bool)
    ensures
        r == is_screaming_snake_cased(name@),
{
    !matches(LOWERCASE_CHAR_PATTERN, name)
}

/// Whether a name starts with an uppercase ASCII letter and is not
/// underscored.
pub fn upper_camel_cased(name: &str) -> (r: bool)
    ensures
        r == is_upper_camel_cased(name@),
{
    if underscored(name) {
        return false;
    }
    matches(UPPERCASE_FIRST_CHAR_PATTERN, name)
}

// ---------------------------------------------------------------------------
// Rewriting a name: `Regex::replace_all` over the matches that the regex
// crate finds.

/// How a match is rewritten.
#[derive(Debug, Clone, Copy, PartialEq, Eq, Structural)]
pub enum Rewrite {
    /// The first group, `_`, and the second group in ASCII lowercase.
    SnakeJoin,
    /// The first group, and the second group in ASCII uppercase.
    CamelJoin,
    /// The whole match in ASCII uppercase.
    Capitalize,
}

/// The text of `s` between two byte offsets, or nothing where they do not
/// fall on character boundaries in that order.
pub open spec fn between(s: Seq<char>, lo: usize, hi: usize) -> Seq<char> {
    match slice_text(s, lo as nat, hi as nat) {
        Some(t) => t,
        None => Seq::empty(),
    }
}

/// The text of `s` from a byte offset to its end, or nothing where the
/// offset does not fall on a character boundary.
pub open spec fn rest_from(s: Seq<char>, lo: usize) -> Seq<char> {
    match char_index(s, lo as nat) {
        Some(a) => s.subrange(a, s.len() as int),
        None => Seq::empty(),
    }
}

/// The text of group `g` of a match.
pub open spec fn group_text(s: Seq<char>, cap: Seq<Option<(usize, usize)>>, g: int) -> Seq<char> {
    if 0 <= g < cap.len() {
        match cap[g] {
            Some((lo, hi)) => between(s, lo, hi),
            None => Seq::empty(),
        }
    } else {
        Seq::empty()
    }
}

/// Where a match starts and ends: its group 0.
pub open spec fn match_bounds(cap: Seq<Option<(usize, usize)>>) -> (usize, usize) {
    if cap.len() > 0 {
        match cap[0] {
            Some(b) => b,
            None => (0, 0),
        }
    } else {
        (0, 0)
    }
}

/// What a match is rewritten to.
pub open spec fn rewritten(s: Seq<char>, cap: Seq<Option<(usize, usize)>>, how: Rewrite) -> Seq<char> {
    match how {
        Rewrite::SnakeJoin => group_text(s, cap, 1) + seq!['_'] + lower_ascii(group_text(s, cap, 2)),
        Rewrite::CamelJoin => group_text(s, cap, 1) + upper_ascii(group_text(s, cap, 2)),
        Rewrite::Capitalize => upper_ascii(group_text(s, cap, 0)),
    }
}

/// The first `k` matches rewritten, each after the text that precedes it;
/// and the byte offset where the `k`-th match ends.
pub open spec fn rewritten_prefix(
    s: Seq<char>,
    caps: Seq<Seq<Option<(usize, usize)>>>,
    k: nat,
    how: Rewrite,
) -> (Seq<char>, usize)
    decreases k,
{
    if k == 0 || k > caps.len() {
        (Seq::empty(), 0)
    } else {
        let (out, last) = rewritten_prefix(s, caps, (k - 1) as nat, how);
        let (lo, hi) = match_bounds(caps[k - 1]);
        (out + between(s, last, lo) + rewritten(s, caps[k - 1], how), hi)
    }
}

/// `s` with each of the matches `caps` rewritten, as `Regex::replace_all`
/// builds it: the text between the matches, and after the last, is kept.
pub open spec fn rewrite_all(s: Seq<char>, caps: Seq<Seq<Option<(usize, usize)>>>, how: Rewrite) -> Seq<char> {
    let (out, last) = rewritten_prefix(s, caps, caps.len(), how);
    out + rest_from(s, last)
}

fn between_of(s: &str, lo: usize, hi: usize) -> (r: String)
    ensures
        r@ == between(s@, lo, hi),
{
    match text_slice(s, lo, hi) {
        Some(t) => String::from_str(t),
        None => String::new(),
    }
}

fn rest_of(s: &str, lo: usize) -> (r: String)
    ensures
        r@ == rest_from(s@, lo),
{
    match char_index_of(s, lo) {
        Some(a) => {
            let n = s.unicode_len();
            String::from_str(s.substring_char(a, n))
        },
        None => String::new(),
    }
}

fn group_text_of(s: &str, cap: &Vec<Option<(usize, usize)>>, g: usize) -> (r: String)
    ensures
        r@ == group_text(s@, cap@, g as int),
{
    if g < cap.len() {
        match cap[g] {
            Some((lo, hi)) => between_of(s, lo, hi),
            None => String::new(),
        }
    } else {
        String::new()
    }
}

fn match_bounds_of(cap: &Vec<Option<(usize, usize)>>) -> (r: (usize, usize))
    ensures
        r == match_bounds(cap@),
{
    if cap.len() > 0 {
        match cap[0] {
            Some(b) => b,
            None => (0, 0),
        }
    } else {
        (0, 0)
    }
}

fn rewritten_of(s: &str, cap: &Vec<Option<(usize, usize)>>, how: Rewrite) -> (r: String)
    ensures
        r@ == rewritten(s@, cap@, how),
{
    match how {
        Rewrite::SnakeJoin => {
            let mut out = group_text_of(s, cap, 1);
            out.append("_");
            let second = group_text_of(s, cap, 2);
            out.append(to_lower_ascii(second.as_str()).as_str());
            proof {
                reveal_strlit("_");
            }
            out
        },
        Rewrite::CamelJoin => {
            let mut out = group_text_of(s, cap, 1);
            let second = group_text_of(s, cap, 2);
            out.append(to_upper_ascii(second.as_str()).as_str());
            out
        },
        Rewrite::Capitalize => {
            let whole = group_text_of(s, cap, 0);
            to_upper_ascii(whole.as_str())
        },
    }
}

/// `s` with the given matches rewritten, as `Regex::replace_all` builds it.
#[verifier::spinoff_prover]
#[verifier::rlimit(40)]
pub fn rewrite_matches(s: &str, caps: &Vec<Vec<Option<(usize, usize)>>>, how: Rewrite) -> (r: String)
    ensures
        r@ == rewrite_all(s@, captures_view(caps@), how),
{
    let ghost cv = captures_view(caps@);
    let mut out = String::new();
    let mut last: usize = 0;
    let mut k: usize = 0;
    while k < caps.len()
        invariant
            k <= caps@.len(),
            cv == captures_view(caps@),
            (out@, last) == rewritten_prefix(s@, cv, k as nat, how),
        decreases caps@.len() - k,
    {
        let (lo, hi) = match_bounds_of(&caps[k]);
        assert(cv[k as int] == caps@[k as int]@);
        let gap = between_of(s, last, lo);
        out.append(gap.as_str());
        let piece = rewritten_of(s, &caps[k], how);
        out.append(piece.as_str());
        last = hi;
        k = k + 1;
    }
    let tail = rest_of(s, last);
    out.append(tail.as_str());
    out
}

/// The first match only rewritten, as `Regex::replace` builds it.
pub open spec fn rewrite_first(s: Seq<char>, caps: Seq<Seq<Option<(usize, usize)>>>, how: Rewrite) -> Seq<char> {
    rewrite_all(s, caps.take(if caps.len() > 0 { 1int } else { 0int }), how)
}

pub fn rewrite_first_match(s: &str, caps: &Vec<Vec<Option<(usize, usize)>>>, how: Rewrite) -> (r: String)
    ensures
        r@ == rewrite_first(s@, captures_view(caps@), how),
{
    let mut first: Vec<Vec<Option<(usize, usize)>>> = Vec::new();
    if caps.len() > 0 {
        let c0 = &caps[0];
        let mut groups: Vec<Option<(usize, usize)>> = Vec::new();
        let mut j: usize = 0;
        while j < c0.len()
            invariant
                j <= c0@.len(),
                groups@ == c0@.take(j as int),
            decreases c0@.len() - j,
        {
            groups.push(c0[j]);
            assert(c0@.take(j + 1) =~= c0@.take(j as int).push(c0@[j as int]));
            j = j + 1;
        }
        assert(c0@.take(j as int) =~= c0@);
        first.push(groups);
    }
    assert(captures_view(first@) =~= captures_view(caps@).take(if caps@.len() > 0 { 1int } else { 0int }));
    rewrite_matches(s, &first, how)
}

// ---------------------------------------------------------------------------
// The names that the hints suggest.

/// The regular expressions by which names are rewritten.
pub const LOWER_UPPER_PATTERN: &'static str = "([^A-Z])([A-Z])";

pub const UNDERSCORE_LOWER_PATTERN: &'static str = "([^_])_([a-z])";

pub const FIRST_LOWER_PATTERN: &'static str = "^[a-z]";

/// A name in rust style. One whose first character past its leading
/// underscores is uppercase stays as it is; in any other, each match of
/// `LOWER_UPPER_PATTERN` (a character that is not an uppercase ASCII letter,
/// then one that is) becomes the first, `_`, and the second in lowercase.
pub open spec fn rust_styled(name: Seq<char>) -> Seq<char> {
    let t = trim_underscores(name);
    if t.len() > 0 && is_uppercase_char(t[0]) {
        name
    } else {
        match regex_all_captures(LOWER_UPPER_PATTERN@, name) {
            Some(caps) => rewrite_all(name, caps, Rewrite::SnakeJoin),
            None => name,
        }
    }
}

/// A name in camel case. One that is not underscored stays as it is; in any
/// other, each match of `UNDERSCORE_LOWER_PATTERN` (a character that is not
/// `_`, `_`, a lowercase ASCII letter) becomes the first and the letter in
/// uppercase; where no match changes the name, it is all put in uppercase.
pub open spec fn camel_cased(name: Seq<char>) -> Seq<char> {
    if !is_underscored(name) {
        name
    } else {
        let r = match regex_all_captures(UNDERSCORE_LOWER_PATTERN@, name) {
            Some(caps) => rewrite_all(name, caps, Rewrite::CamelJoin),
            None => name,
        };
        if r != name {
            r
        } else {
            upper_ascii(name)
        }
    }
}

/// A name in pascal case: in camel case, with a lowercase ASCII first letter
/// put in uppercase.
pub open spec fn pascal_cased(name: Seq<char>) -> Seq<char> {
    let c = camel_cased(name);
    match regex_all_captures(FIRST_LOWER_PATTERN@, c) {
        Some(caps) => rewrite_first(c, caps, Rewrite::Capitalize),
        None => c,
    }
}

proof fn lemma_trim_first(s: Seq<char>)
    ensures
        (trim_underscores(s).len() > 0) == (leading_underscores(s) < s.len()),
        leading_underscores(s) < s.len() ==> trim_underscores(s)[0] == s[leading_underscores(s) as int],
{
    lemma_leading_bound(s);
    lemma_trailing_bound(s);
    let l = leading_underscores(s);
    let tr = trailing_underscores(s);
    if l < s.len() {
        assert(l < s.len() - tr) by {
            if l >= s.len() - tr {
                assert(s[l as int] == '_');
            }
        }
    }
}

/// `rust_styled`, computed.
pub fn to_rust_style(name: &str) -> (r: String)
    ensures
        r@ == rust_styled(name@),
{
    let n = name.unicode_len();
    let lo = first_non_underscore(name);
    proof {
        lemma_trim_first(name@);
    }
    if lo < n && char_is_uppercase(name.get_char(lo)) {
        return String::from_str(name);
    }
    match regex_captures_all(LOWER_UPPER_PATTERN, name) {
        Some(caps) => rewrite_matches(name, &caps, Rewrite::SnakeJoin),
        None => String::from_str(name),
    }
}

/// `camel_cased`, computed.
pub fn to_camelcase(name: &str) -> (r: String)
    ensures
        r@ == camel_cased(name@),
{
    if !underscored(name) {
        return String::from_str(name);
    }
    let r = match regex_captures_all(UNDERSCORE_LOWER_PATTERN, name) {
        Some(caps) => rewrite_matches(name, &caps, Rewrite::CamelJoin),
        None => String::from_str(name),
    };
    if !str_eq(r.as_str(), name) {
        r
    } else {
        to_upper_ascii(name)
    }
}

/// `pascal_cased`, computed.
pub fn to_pascal_case(name: &str) -> (r: String)
    ensures
        r@ == pascal_cased(name@),
{
    let c = to_camelcase(name);
    match regex_captures_all(FIRST_LOWER_PATTERN, c.as_str()) {
        Some(caps) => rewrite_first_match(c.as_str(), &caps, Rewrite::Capitalize),
        None => c,
    }
}

// ---------------------------------------------------------------------------
// What is checked, and what is reported of it.

/// A name to check, with what the hint needs to know of where it stands.
pub enum IdentView {
    /// A variable, as a binding, an assignment target or an import.
    Variable(Seq<char>),
    /// A key of an object literal; `is_shorthand` for `{ key }`.
    ObjectKey { key_name: Seq<char>, is_shorthand: bool },
    Function(Seq<char>),
    Class(Seq<char>),
    TypeAlias(Seq<char>),
    Interface(Seq<char>),
    EnumName(Seq<char>),
    EnumVariant(Seq<char>),
    /// A namespace or a module.
    Module(Seq<char>),
    /// A key and the name it binds in an object pattern: `{ key: value }`,
    /// `{ key: value = .. }`, or `{ key }` and `{ key = .. }` with no value.
    ObjectPat { key_name: Seq<char>, value_name: Option<Seq<char>>, has_default: bool, is_destructuring: bool },
    /// A named import: the local name, and the imported one where it is written.
    NamedImport { local: Seq<char>, imported: Option<Seq<char>> },
}

/// A name to check, as the code holds it.
pub enum IdentToCheck {
    Variable(String),
    ObjectKey { key_name: String, is_shorthand: bool },
    Function(String),
    Class(String),
    TypeAlias(String),
    Interface(String),
    EnumName(String),
    EnumVariant(String),
    Module(String),
    ObjectPat { key_name: String, value_name: Option<String>, has_default: bool, is_destructuring: bool },
    NamedImport { local: String, imported: Option<String> },
}

pub open spec fn opt_text(o: Option<String>) -> Option<Seq<char>> {
    match o {
        Some(s) => Some(s@),
        None => None,
    }
}

impl View for IdentToCheck {
    type V = IdentView;

    open spec fn view(&self) -> IdentView {
        match self {
            IdentToCheck::Variable(n) => IdentView::Variable(n@),
            IdentToCheck::ObjectKey { key_name, is_shorthand } => IdentView::ObjectKey {
                key_name: key_name@,
                is_shorthand: *is_shorthand,
            },
            IdentToCheck::Function(n) => IdentView::Function(n@),
            IdentToCheck::Class(n) => IdentView::Class(n@),
            IdentToCheck::TypeAlias(n) => IdentView::TypeAlias(n@),
            IdentToCheck::Interface(n) => IdentView::Interface(n@),
            IdentToCheck::EnumName(n) => IdentView::EnumName(n@),
            IdentToCheck::EnumVariant(n) => IdentView::EnumVariant(n@),
            IdentToCheck::Module(n) => IdentView::Module(n@),
            IdentToCheck::ObjectPat { key_name, value_name, has_default, is_destructuring } => IdentView::ObjectPat {
                key_name: key_name@,
                value_name: opt_text(*value_name),
                has_default: *has_default,
                is_destructuring: *is_destructuring,
            },
            IdentToCheck::NamedImport { local, imported } => IdentView::NamedImport {
                local: local@,
                imported: opt_text(*imported),
            },
        }
    }
}

/// The name that is checked: the value's name in an object pattern where
/// there is one.
pub open spec fn ident_name(i: IdentView) -> Seq<char> {
    match i {
        IdentView::Variable(n) => n,
        IdentView::ObjectKey { key_name, .. } => key_name,
        IdentView::Function(n) => n,
        IdentView::Class(n) => n,
        IdentView::TypeAlias(n) => n,
        IdentView::Interface(n) => n,
        IdentView::EnumName(n) => n,
        IdentView::EnumVariant(n) => n,
        IdentView::Module(n) => n,
        IdentView::ObjectPat { key_name, value_name, .. } => match value_name {
            Some(v) => v,
            None => key_name,
        },
        IdentView::NamedImport { local, .. } => local,
    }
}

pub open spec fn message_of(i: IdentView) -> Seq<char> {
    "Identifier '"@ + ident_name(i) + "' is not in rust style."@
}

pub open spec fn renaming(from: Seq<char>, to: Seq<char>) -> Seq<char> {
    "Consider renaming `"@ + from + "` to `"@ + to + "`"@
}

pub open spec fn hint_of(i: IdentView) -> Seq<char> {
    match i {
        IdentView::Variable(n) => renaming(n, rust_styled(n)),
        IdentView::Function(n) => renaming(n, rust_styled(n)),
        IdentView::ObjectKey { key_name, is_shorthand } => if is_shorthand {
            "Consider writing `"@ + rust_styled(key_name) + ": "@ + key_name + "` or `\""@ + key_name + "\": "@
                + key_name + "`"@
        } else {
            "Consider renaming `"@ + key_name + "` to `"@ + rust_styled(key_name)
                + "`, or wrapping it in quotation mark like `\""@ + key_name + "\"`"@
        },
        IdentView::Class(n) => renaming(n, pascal_cased(n)),
        IdentView::TypeAlias(n) => renaming(n, pascal_cased(n)),
        IdentView::Interface(n) => renaming(n, pascal_cased(n)),
        IdentView::EnumName(n) => renaming(n, pascal_cased(n)),
        IdentView::EnumVariant(n) => renaming(n, pascal_cased(n)),
        IdentView::Module(n) => renaming(n, pascal_cased(n)),
        IdentView::ObjectPat { key_name, value_name, has_default, is_destructuring } => match value_name {
            Some(v) => renaming(v, rust_styled(v)),
            None => if !is_destructuring {
                renaming(key_name, rust_styled(key_name))
            } else if has_default {
                "Consider replacing `{ "@ + key_name + " = .. }` with `{ "@ + key_name + ": "@
                    + rust_styled(key_name) + " = .. }`"@
            } else {
                "Consider replacing `{ "@ + key_name + " }` with `{ "@ + key_name + ": "@
                    + rust_styled(key_name) + " }`"@
            },
        },
        IdentView::NamedImport { local, imported } => match imported {
            Some(_) => renaming(local, rust_styled(local)),
            None => "Consider replacing `{ "@ + local + " }` with `{ "@ + local + " as "@ + rust_styled(
                local,
            ) + " }`"@,
        },
    }
}

fn renaming_hint(from: &str, to: &str) -> (r: String)
    ensures
        r@ == renaming(from@, to@),
{
    let mut h = String::from_str("Consider renaming `");
    h.append(from);
    h.append("` to `");
    h.append(to);
    h.append("`");
    h
}

impl IdentToCheck {
    /// The name that is checked.
    pub fn ident_name(&self) -> (r: &str)
        ensures
            r@ == ident_name(self@),
    {
        match self {
            IdentToCheck::Variable(n) => n.as_str(),
            IdentToCheck::ObjectKey { key_name, .. } => key_name.as_str(),
            IdentToCheck::Function(n) => n.as_str(),
            IdentToCheck::Class(n) => n.as_str(),
            IdentToCheck::TypeAlias(n) => n.as_str(),
            IdentToCheck::Interface(n) => n.as_str(),
            IdentToCheck::EnumName(n) => n.as_str(),
            IdentToCheck::EnumVariant(n) => n.as_str(),
            IdentToCheck::Module(n) => n.as_str(),
            IdentToCheck::ObjectPat { key_name, value_name, .. } => match value_name {
                Some(v) => v.as_str(),
                None => key_name.as_str(),
            },
            IdentToCheck::NamedImport { local, .. } => local.as_str(),
        }
    }

    pub fn to_message(&self) -> (r: String)
        ensures
            r@ == message_of(self@),
    {
        let mut m = String::from_str("Identifier '");
        m.append(self.ident_name());
        m.append("' is not in rust style.");
        m
    }

    pub fn to_hint(&self) -> (r: String)
        ensures
            r@ == hint_of(self@),
    {
        match self {
            IdentToCheck::Variable(n) => renaming_hint(n.as_str(), to_rust_style(n.as_str()).as_str()),
            IdentToCheck::Function(n) => renaming_hint(n.as_str(), to_rust_style(n.as_str()).as_str()),
            IdentToCheck::ObjectKey { key_name, is_shorthand } => {
                let k = key_name.as_str();
                let rs = to_rust_style(k);
                if *is_shorthand {
                    let mut h = String::from_str("Consider writing `");
                    h.append(rs.as_str());
                    h.append(": ");
                    h.append(k);
                    h.append("` or `\"");
                    h.append(k);
                    h.append("\": ");
                    h.append(k);
                    h.append("`");
                    h
                } else {
                    let mut h = String::from_str("Consider renaming `");
                    h.append(k);
                    h.append("` to `");
                    h.append(rs.as_str());
                    h.append("`, or wrapping it in quotation mark like `\"");
                    h.append(k);
                    h.append("\"`");
                    h
                }
            },
            IdentToCheck::Class(n) => renaming_hint(n.as_str(), to_pascal_case(n.as_str()).as_str()),
            IdentToCheck::TypeAlias(n) => renaming_hint(n.as_str(), to_pascal_case(n.as_str()).as_str()),
            IdentToCheck::Interface(n) => renaming_hint(n.as_str(), to_pascal_case(n.as_str()).as_str()),
            IdentToCheck::EnumName(n) => renaming_hint(n.as_str(), to_pascal_case(n.as_str()).as_str()),
            IdentToCheck::EnumVariant(n) => renaming_hint(n.as_str(), to_pascal_case(n.as_str()).as_str()),
            IdentToCheck::Module(n) => renaming_hint(n.as_str(), to_pascal_case(n.as_str()).as_str()),
            IdentToCheck::ObjectPat { key_name, value_name, has_default, is_destructuring } => match value_name {
                Some(v) => renaming_hint(v.as_str(), to_rust_style(v.as_str()).as_str()),
                None => {
                    let k = key_name.as_str();
                    if !*is_destructuring {
                        renaming_hint(k, to_rust_style(k).as_str())
                    } else {
                        let rs = to_rust_style(k);
                        let mut h = String::from_str("Consider replacing `{ ");
                        h.append(k);
                        if *has_default {
                            h.append(" = .. }` with `{ ");
                            h.append(k);
                            h.append(": ");
                            h.append(rs.as_str());
                            h.append(" = .. }`");
                        } else {
                            h.append(" }` with `{ ");
                            h.append(k);
                            h.append(": ");
                            h.append(rs.as_str());
                            h.append(" }`");
                        }
                        h
                    }
                },
            },
            IdentToCheck::NamedImport { local, imported } => {
                let l = local.as_str();
                match imported {
                    Some(_) => renaming_hint(l, to_rust_style(l).as_str()),
                    None => {
                        let mut h = String::from_str("Consider replacing `{ ");
                        h.append(l);
                        h.append(" }` with `{ ");
                        h.append(l);
                        h.append(" as ");
                        h.append(to_rust_style(l).as_str());
                        h.append(" }`");
                        h
                    },
                }
            },
        }
    }
}

// ---------------------------------------------------------------------------
// The checks: which names each node puts to which case.

/// The case that a name must be in.
#[derive(Debug, Clone, Copy, PartialEq, Eq, Structural)]
pub enum Case {
    Snake,
    SnakeOrScreaming,
    UpperCamel,
}

pub open spec fn in_case(case: Case, name: Seq<char>) -> bool {
    match case {
        Case::Snake => is_snake_cased(name),
        Case::SnakeOrScreaming => is_snake_cased(name) || is_screaming_snake_cased(name),
        Case::UpperCamel => is_upper_camel_cased(name),
    }
}

/// A name to check, where it stands, and the case it must be in.
pub struct Check {
    pub span: Span,
    pub ident: IdentView,
    pub case: Case,
}

/// The state of the walk: how deep it is, how deep the ambient declaration
/// whose inside it passes over stands (`None` where it passes over nothing),
/// where the names already checked stand, and what was reported, keyed by
/// where it stands.
#[verifier::ext_equal]
pub struct RsView {
    pub depth: nat,
    pub skip: Option<nat>,
    pub visited: Seq<Span>,
    pub errors: Seq<(Span, DiagnosticView)>,
}

pub open spec fn report(span: Span, i: IdentView) -> DiagnosticView {
    hinted_diag(span, CODE@, message_of(i), hint_of(i))
}

/// A name is checked once, where it is first met; one that is not in its
/// case is reported.
pub open spec fn apply_check(st: RsView, c: Check) -> RsView {
    if st.visited.contains(c.span) {
        st
    } else {
        RsView {
            visited: st.visited.push(c.span),
            errors: if in_case(c.case, ident_name(c.ident)) {
                st.errors
            } else {
                st.errors.push((c.span, report(c.span, c.ident)))
            },
            ..st
        }
    }
}

pub open spec fn apply_checks(st: RsView, cs: Seq<Check>) -> RsView
    decreases cs.len(),
{
    if cs.len() == 0 {
        st
    } else {
        apply_check(apply_checks(st, cs.drop_last()), cs.last())
    }
}

#[verifier::spinoff_prover]
proof fn lemma_apply_concat(st: RsView, a: Seq<Check>, b: Seq<Check>)
    ensures
        apply_checks(st, a + b) == apply_checks(apply_checks(st, a), b),
    decreases b.len(),
{
    if b.len() == 0 {
        assert(a + b =~= a);
    } else {
        lemma_apply_concat(st, a, b.drop_last());
        assert((a + b).drop_last() =~= a + b.drop_last());
        assert((a + b).last() == b.last());
    }
}

proof fn lemma_apply_one(st: RsView, c: Check)
    ensures
        apply_checks(st, seq![c]) == apply_check(st, c),
{
    let s = seq![c];
    assert(s.drop_last() =~= Seq::<Check>::empty());
    assert(s.last() == c);
    assert(apply_checks(st, s.drop_last()) == st);
}

/// The text of a property key, as the hint names it.
pub open spec fn key_name_of(k: PropName) -> Seq<char> {
    match k {
        PropName::Ident(i) => i.name@,
        PropName::Str(s) => s.value@,
        PropName::Num(n) => n.value_text@,
        _ => "[KEY]"@,
    }
}

pub open spec fn snake(span: Span, ident: IdentView) -> Seq<Check> {
    seq![Check { span, ident, case: Case::Snake }]
}

pub open spec fn upper_camel(span: Span, ident: IdentView) -> Seq<Check> {
    seq![Check { span, ident, case: Case::UpperCamel }]
}

/// The names that a binding pattern binds; `in_var` where the pattern is a
/// declarator's, not a parameter's.
pub open spec fn pat_checks(p: Pat, in_var: bool) -> Seq<Check>
    decreases p, 0int,
{
    match p {
        Pat::Ident { span, name, .. } => snake(span, IdentView::Variable(name@)),
        Pat::Array { elems, .. } => opt_pat_checks(elems@, 0, in_var),
        Pat::Object { props, .. } => prop_pat_checks(props@, 0, in_var),
        Pat::Rest { arg, .. } => pat_checks(*arg, in_var),
        Pat::Assign { left, .. } => pat_checks(*left, in_var),
        Pat::Expr(x) => match *x {
            Expr::Ident(i) => snake(i.span, IdentView::Variable(i.name@)),
            _ => Seq::empty(),
        },
    }
}

pub open spec fn opt_pat_checks(s: Seq<Option<Pat>>, i: int, in_var: bool) -> Seq<Check>
    decreases s, s.len() - i,
{
    if 0 <= i < s.len() {
        opt_pat_check(s[i], in_var) + opt_pat_checks(s, i + 1, in_var)
    } else {
        Seq::empty()
    }
}

pub open spec fn opt_pat_check(o: Option<Pat>, in_var: bool) -> Seq<Check>
    decreases o, 0int,
{
    match o {
        Some(p) => pat_checks(p, in_var),
        None => Seq::empty(),
    }
}

/// A property of an object pattern: `{ key: value }` and `{ key: value = .. }`
/// check the value's name; `{ key }` and `{ key = .. }` check the key, in a
/// parameter only.
pub open spec fn prop_pat_checks(s: Seq<ObjectPatProp>, i: int, in_var: bool) -> Seq<Check>
    decreases s, s.len() - i,
{
    if 0 <= i < s.len() {
        prop_pat_check(s[i], in_var) + prop_pat_checks(s, i + 1, in_var)
    } else {
        Seq::empty()
    }
}

pub open spec fn prop_pat_check(p: ObjectPatProp, in_var: bool) -> Seq<Check>
    decreases p, 0int,
{
    match p {
        ObjectPatProp::KeyValue { key, value, shorthand, .. } => if shorthand {
            if in_var {
                Seq::empty()
            } else {
                match key {
                    PropName::Ident(k) => snake(
                        k.span,
                        IdentView::ObjectPat {
                            key_name: k.name@,
                            value_name: None,
                            has_default: value is Assign,
                            is_destructuring: false,
                        },
                    ),
                    _ => Seq::empty(),
                }
            }
        } else {
            match value {
                Pat::Ident { span, name, .. } => snake(
                    span,
                    IdentView::ObjectPat {
                        key_name: key_name_of(key),
                        value_name: Some(name@),
                        has_default: false,
                        is_destructuring: in_var,
                    },
                ),
                Pat::Assign { left, .. } => match *left {
                    Pat::Ident { span, name, .. } => snake(
                        span,
                        IdentView::ObjectPat {
                            key_name: key_name_of(key),
                            value_name: Some(name@),
                            has_default: true,
                            is_destructuring: in_var,
                        },
                    ),
                    _ => pat_checks(value, in_var),
                },
                _ => pat_checks(value, in_var),
            }
        },
        ObjectPatProp::Rest { arg, .. } => pat_checks(arg, in_var),
    }
}

/// The keys of an object literal that a declarator is initialized with.
pub open spec fn object_key_checks(s: Seq<Prop>, i: int) -> Seq<Check>
    decreases s.len() - i,
{
    if 0 <= i < s.len() {
        object_key_check(s[i]) + object_key_checks(s, i + 1)
    } else {
        Seq::empty()
    }
}

pub open spec fn object_key_check(p: Prop) -> Seq<Check> {
    match p {
        Prop::Shorthand(id) => snake(id.span, IdentView::ObjectKey { key_name: id.name@, is_shorthand: true }),
        Prop::KeyValue { key: PropName::Ident(id), .. } => snake(
            id.span,
            IdentView::ObjectKey { key_name: id.name@, is_shorthand: false },
        ),
        Prop::Method { key: PropName::Ident(id), .. } => snake(
            id.span,
            IdentView::ObjectKey { key_name: id.name@, is_shorthand: false },
        ),
        _ => Seq::empty(),
    }
}

/// What a declarator's initializer names: the keys of an object literal, or
/// the name of a function or a class expression.
pub open spec fn init_checks(init: Option<Expr>) -> Seq<Check> {
    match init {
        Some(Expr::Object { props, .. }) => object_key_checks(props@, 0),
        Some(Expr::Fn(f)) => match f.id {
            Some(id) => snake(id.span, IdentView::Function(id.name@)),
            None => Seq::empty(),
        },
        Some(Expr::Class(k)) => match k.id {
            Some(id) => upper_camel(id.span, IdentView::Class(id.name@)),
            None => Seq::empty(),
        },
        _ => Seq::empty(),
    }
}

pub open spec fn declarator_checks(d: VarDeclarator) -> Seq<Check> {
    pat_checks(d.name, true) + init_checks(d.init)
}

pub open spec fn declarators_checks(s: Seq<VarDeclarator>, i: int) -> Seq<Check>
    decreases s.len() - i,
{
    if 0 <= i < s.len() {
        declarator_checks(s[i]) + declarators_checks(s, i + 1)
    } else {
        Seq::empty()
    }
}

/// The names that an assignment assigns: each must be in snake case or in
/// screaming snake case.
pub open spec fn assigned_check(id: (Seq<char>, Span)) -> Seq<Check> {
    seq![Check { span: id.1, ident: IdentView::Variable(id.0), case: Case::SnakeOrScreaming }]
}

pub open spec fn assigned_checks(ids: Seq<(Seq<char>, Span)>, i: int) -> Seq<Check>
    decreases ids.len() - i,
{
    if 0 <= i < ids.len() {
        assigned_check(ids[i]) + assigned_checks(ids, i + 1)
    } else {
        Seq::empty()
    }
}

/// The keys of the members of a type literal, and of the type literals that
/// annotate them.
pub open spec fn ts_type_checks(t: TsType) -> Seq<Check>
    decreases t, 0int,
{
    match t {
        TsType::TypeLit { members, .. } => elements_checks(members@, 0),
        _ => Seq::empty(),
    }
}

pub open spec fn key_check(key: Option<Ident>, function: bool) -> Seq<Check> {
    match key {
        Some(k) => snake(
            k.span,
            if function {
                IdentView::Function(k.name@)
            } else {
                IdentView::ObjectKey { key_name: k.name@, is_shorthand: false }
            },
        ),
        None => Seq::empty(),
    }
}

pub open spec fn elements_checks(s: Seq<TsTypeElement>, i: int) -> Seq<Check>
    decreases s, s.len() - i,
{
    if 0 <= i < s.len() {
        element_checks(s[i]) + elements_checks(s, i + 1)
    } else {
        Seq::empty()
    }
}

/// A member of a type literal or of an interface: its key, and the type
/// literal that annotates it.
pub open spec fn element_checks(e: TsTypeElement) -> Seq<Check>
    decreases e, 0int,
{
    match e.kind {
        TsElementKind::Property => key_check(e.key, false) + opt_type_checks(e.type_ann),
        TsElementKind::Method | TsElementKind::Getter => key_check(e.key, true) + opt_type_checks(e.type_ann),
        TsElementKind::Setter => key_check(e.key, true),
        TsElementKind::Other => Seq::empty(),
    }
}

pub open spec fn opt_type_checks(t: Option<TsType>) -> Seq<Check>
    decreases t, 0int,
{
    match t {
        Some(t) => ts_type_checks(t),
        None => Seq::empty(),
    }
}

pub open spec fn enum_member_checks(s: Seq<TsEnumMember>, i: int) -> Seq<Check>
    decreases s.len() - i,
{
    if 0 <= i < s.len() {
        enum_member_check(s[i]) + enum_member_checks(s, i + 1)
    } else {
        Seq::empty()
    }
}

pub open spec fn enum_member_check(m: TsEnumMember) -> Seq<Check> {
    match m.id {
        Some(id) => upper_camel(id.span, IdentView::EnumVariant(id.name@)),
        None => Seq::empty(),
    }
}

pub open spec fn export_name_text(n: ModuleExportName) -> Seq<char> {
    match n {
        ModuleExportName::Ident(i) => i.name@,
        ModuleExportName::Str(s) => s.value@,
    }
}

/// The names that a node puts to a case, in order.
pub open spec fn node_checks(n: Node) -> Seq<Check> {
    match n {
        Node::Expr(Expr::Assign { left, .. }) => assigned_checks(pat_ids(*left), 0),
        Node::Stmt(Stmt::Fn(f)) => match f.id {
            Some(id) => snake(id.span, IdentView::Function(id.name@)),
            None => Seq::empty(),
        },
        Node::Stmt(Stmt::Class(k)) => match k.id {
            Some(id) => upper_camel(id.span, IdentView::Class(id.name@)),
            None => Seq::empty(),
        },
        Node::VarDecl(d) => declarators_checks(d.decls@, 0),
        Node::Param(p) => pat_checks(p.pat, false),
        Node::ImportSpecifier(ImportSpecifier::Named { local, imported, .. }) => if export_name_span(
            imported,
        ) != local.span {
            snake(local.span, IdentView::NamedImport { local: local.name@, imported: Some(export_name_text(imported)) })
        } else {
            Seq::empty()
        },
        Node::ImportSpecifier(ImportSpecifier::Default { local, .. }) => snake(local.span, IdentView::Variable(local.name@)),
        Node::ImportSpecifier(ImportSpecifier::Namespace { local, .. }) => snake(local.span, IdentView::Variable(local.name@)),
        Node::ExportSpecifier(s) => if s.namespace {
            match s.exported {
                ModuleExportName::Ident(id) => snake(id.span, IdentView::Variable(id.name@)),
                _ => Seq::empty(),
            }
        } else {
            Seq::empty()
        },
        Node::Stmt(Stmt::TsTypeAlias { id, ty, .. }) => upper_camel(id.span, IdentView::TypeAlias(id.name@))
            + ts_type_checks(ty),
        Node::Stmt(Stmt::TsInterface { id, members, .. }) => upper_camel(id.span, IdentView::Interface(id.name@))
            + elements_checks(members@, 0),
        Node::Stmt(Stmt::TsModule { name: TsModuleName::Ident(id), .. }) => upper_camel(
            id.span,
            IdentView::Module(id.name@),
        ),
        Node::Stmt(Stmt::TsEnum { id, members, .. }) => upper_camel(id.span, IdentView::EnumName(id.name@))
            + enum_member_checks(members@, 0),
        _ => Seq::empty(),
    }
}

/// An ambient declaration: neither it nor anything inside it is checked.
pub open spec fn declared(n: Node) -> bool {
    match n {
        Node::Stmt(Stmt::Fn(f)) => f.declare,
        Node::Stmt(Stmt::Class(k)) => k.declare,
        Node::VarDecl(d) => d.declare,
        Node::Stmt(Stmt::TsTypeAlias { declare, .. }) => declare,
        Node::Stmt(Stmt::TsInterface { declare, .. }) => declare,
        Node::Stmt(Stmt::TsModule { declare, .. }) => declare,
        Node::Stmt(Stmt::TsEnum { declare, .. }) => declare,
        _ => false,
    }
}

/// One event of the walk.
pub open spec fn rs_step(st: RsView, e: SEvent) -> RsView {
    match e {
        SEvent::Enter(n) => if st.skip is Some {
            RsView { depth: st.depth + 1, ..st }
        } else if declared(n) {
            RsView { depth: st.depth + 1, skip: Some(st.depth), ..st }
        } else {
            RsView { depth: st.depth + 1, ..apply_checks(st, node_checks(n)) }
        },
        SEvent::Exit(_) => {
            let d: nat = if st.depth > 0 { (st.depth - 1) as nat } else { 0 };
            RsView { depth: d, skip: if st.skip == Some(d) { None } else { st.skip }, ..st }
        },
    }
}

pub open spec fn step_fn() -> spec_fn(RsView, SEvent) -> (RsView, Seq<DiagnosticView>) {
    |st: RsView, e: SEvent| (rs_step(st, e), Seq::<DiagnosticView>::empty())
}

pub open spec fn init_rs() -> RsView {
    RsView { depth: 0, skip: None, visited: Seq::empty(), errors: Seq::empty() }
}

/// The diagnostics of the rule on a program, in source order.
pub open spec fn rust_style_diags(p: Program) -> Seq<DiagnosticView> {
    let st = fold_events(program_events(p), init_rs(), step_fn()).0;
    sort_keyed(st.errors).map_values(|e: (Span, DiagnosticView)| e.1)
}

// ---------------------------------------------------------------------------
// What every state of the walk keeps true.

/// Each report stands at a place already checked and at no place of
/// another, and carries the rule's code at its place.
pub open spec fn rs_inv(st: RsView) -> bool {
    &&& keys_distinct(st.errors)
    &&& forall|i: int| 0 <= i < st.errors.len() ==> st.visited.contains(#[trigger] st.errors[i].0)
    &&& forall|i: int|
        0 <= i < st.errors.len() ==> (#[trigger] st.errors[i]).1.range == st.errors[i].0 && st.errors[i].1.code
            == CODE@
}

proof fn lemma_apply_check_inv(st: RsView, c: Check)
    requires
        rs_inv(st),
    ensures
        rs_inv(apply_check(st, c)),
{
    if !st.visited.contains(c.span) {
        let r = apply_check(st, c);
        assert forall|i: int| 0 <= i < r.errors.len() implies r.visited.contains(#[trigger] r.errors[i].0) by {
            if i < st.errors.len() {
                assert(r.errors[i] == st.errors[i]);
                let k = choose|k: int| 0 <= k < st.visited.len() && st.visited[k] == st.errors[i].0;
                assert(r.visited[k] == st.visited[k]);
            } else {
                assert(r.visited[r.visited.len() - 1] == c.span);
            }
        }
        assert forall|i: int, j: int| 0 <= i < j < r.errors.len() implies #[trigger] r.errors[i].0 != #[trigger] r.errors[j].0 by {
            if j == st.errors.len() {
                assert(st.visited.contains(st.errors[i].0));
            }
        }
    }
}

proof fn lemma_apply_checks_inv(st: RsView, cs: Seq<Check>)
    requires
        rs_inv(st),
    ensures
        rs_inv(apply_checks(st, cs)),
    decreases cs.len(),
{
    if cs.len() > 0 {
        lemma_apply_checks_inv(st, cs.drop_last());
        lemma_apply_check_inv(apply_checks(st, cs.drop_last()), cs.last());
    }
}

proof fn lemma_fold_inv(evs: Seq<SEvent>)
    ensures
        rs_inv(fold_events(evs, init_rs(), step_fn()).0),
    decreases evs.len(),
{
    if evs.len() > 0 {
        lemma_fold_inv(evs.drop_last());
        let st = fold_events(evs.drop_last(), init_rs(), step_fn()).0;
        match evs.last() {
            SEvent::Enter(n) => {
                if st.skip is None && !declared(n) {
                    lemma_apply_checks_inv(st, node_checks(n));
                }
            },
            SEvent::Exit(_) => {},
        }
    }
}

/// The rule reports each place at most once, in source order, with its
/// code.
pub proof fn lemma_each_place_once_in_order(p: Program)
    ensures
        forall|i: int, j: int|
            0 <= i < j < rust_style_diags(p).len() ==> span_lt(
                #[trigger] rust_style_diags(p)[i].range,
                #[trigger] rust_style_diags(p)[j].range,
            ),
        forall|i: int| 0 <= i < rust_style_diags(p).len() ==> (#[trigger] rust_style_diags(p)[i]).code == CODE@,
{
    let st = fold_events(program_events(p), init_rs(), step_fn()).0;
    lemma_fold_inv(program_events(p));
    lemma_sort_keyed_strict(st.errors);
    let sorted = sort_keyed(st.errors);
    let d = rust_style_diags(p);
    assert forall|i: int| 0 <= i < sorted.len() implies (#[trigger] sorted[i]).1.range == sorted[i].0
        && sorted[i].1.code == CODE@ by {
        let k = choose|k: int| 0 <= k < st.errors.len() && st.errors[k] == sorted[i];
        assert(st.errors[k].1.range == st.errors[k].0);
    }
    assert forall|i: int, j: int| 0 <= i < j < d.len() implies span_lt(#[trigger] d[i].range, #[trigger] d[j].range) by {
        assert(d[i] == sorted[i].1 && d[j] == sorted[j].1);
        assert(span_lt(sorted[i].0, sorted[j].0));
    }
    assert forall|i: int| 0 <= i < d.len() implies (#[trigger] d[i]).code == CODE@ by {
        assert(d[i] == sorted[i].1);
    }
}

// ---------------------------------------------------------------------------
// The rule, as the code runs it.

/// Reports each name, as the rule reads it, that is not in rust style.
#[derive(Debug)]
pub struct RustStyle;

struct RsState {
    depth: usize,
    skip: Option<usize>,
    visited: Vec<Span>,
    errors: Vec<(Span, Diagnostic)>,
}

spec fn rv(st: RsState) -> RsView {
    RsView {
        depth: st.depth as nat,
        skip: match st.skip {
            Some(d) => Some(d as nat),
            None => None,
        },
        visited: st.visited@,
        errors: keyed_view(st.errors@),
    }
}

fn contains_span(v: &Vec<Span>, span: Span) -> (r: bool)
    ensures
        r == v@.contains(span),
{
    let mut i: usize = 0;
    while i < v.len()
        invariant
            i <= v@.len(),
            forall|j: int| 0 <= j < i ==> v@[j] != span,
        decreases v@.len() - i,
    {
        if v[i] == span {
            assert(v@[i as int] == span);
            return true;
        }
        i = i + 1;
    }
    false
}

fn in_case_of(case: Case, name: &str) -> (r: bool)
    ensures
        r == in_case(case, name@),
{
    match case {
        Case::Snake => snake_cased(name),
        Case::SnakeOrScreaming => snake_cased(name) || screaming_snake_cased(name),
        Case::UpperCamel => upper_camel_cased(name),
    }
}

fn check_name(st: &mut RsState, span: Span, ident: IdentToCheck, case: Case)
    ensures
        rv(*final(st)) == apply_checks(rv(*old(st)), seq![Check { span, ident: ident@, case }]),
{
    proof {
        lemma_apply_one(rv(*st), Check { span, ident: ident@, case });
    }
    if contains_span(&st.visited, span) {
        return;
    }
    st.visited.push(span);
    if !in_case_of(case, ident.ident_name()) {
        let d = Diagnostic::with_hint(span, CODE, ident.to_message(), ident.to_hint());
        let ghost before = st.errors@;
        let ghost dv = d@;
        st.errors.push((span, d));
        assert(keyed_view(st.errors@) =~= keyed_view(before).push((span, dv)));
    }
}

fn check_pat(st: &mut RsState, p: &Pat, in_var: bool)
    ensures
        rv(*final(st)) == apply_checks(rv(*old(st)), pat_checks(*p, in_var)),
    decreases *p, 0int,
{
    match p {
        Pat::Ident { span, name, .. } => check_name(st, *span, IdentToCheck::Variable(name.clone()), Case::Snake),
        Pat::Array { elems, .. } => check_opt_pats(st, elems, in_var),
        Pat::Object { props, .. } => check_prop_pats(st, props, in_var),
        Pat::Rest { arg, .. } => check_pat(st, arg, in_var),
        Pat::Assign { left, .. } => check_pat(st, left, in_var),
        Pat::Expr(x) => match &**x {
            Expr::Ident(i) => check_name(st, i.span, IdentToCheck::Variable(i.name.clone()), Case::Snake),
            _ => {},
        },
    }
}

fn check_opt_pats(st: &mut RsState, v: &Vec<Option<Pat>>, in_var: bool)
    ensures
        rv(*final(st)) == apply_checks(rv(*old(st)), opt_pat_checks(v@, 0, in_var)),
    decreases v@, 1int,
{
    let ghost s0 = rv(*st);
    let mut i: usize = 0;
    while i < v.len()
        invariant
            i <= v@.len(),
            apply_checks(rv(*st), opt_pat_checks(v@, i as int, in_var)) == apply_checks(s0, opt_pat_checks(v@, 0, in_var)),
        decreases v@.len() - i,
    {
        proof {
            lemma_apply_concat(rv(*st), opt_pat_check(v@[i as int], in_var), opt_pat_checks(v@, i + 1, in_var));
        }
        check_opt_pat(st, &v[i], in_var);
        i = i + 1;
    }
}

fn check_opt_pat(st: &mut RsState, o: &Option<Pat>, in_var: bool)
    ensures
        rv(*final(st)) == apply_checks(rv(*old(st)), opt_pat_check(*o, in_var)),
    decreases *o, 0int,
{
    match o {
        Some(p) => check_pat(st, p, in_var),
        None => {},
    }
}

fn check_prop_pats(st: &mut RsState, v: &Vec<ObjectPatProp>, in_var: bool)
    ensures
        rv(*final(st)) == apply_checks(rv(*old(st)), prop_pat_checks(v@, 0, in_var)),
    decreases v@, 1int,
{
    let ghost s0 = rv(*st);
    let mut i: usize = 0;
    while i < v.len()
        invariant
            i <= v@.len(),
            apply_checks(rv(*st), prop_pat_checks(v@, i as int, in_var)) == apply_checks(s0, prop_pat_checks(v@, 0, in_var)),
        decreases v@.len() - i,
    {
        proof {
            lemma_apply_concat(rv(*st), prop_pat_check(v@[i as int], in_var), prop_pat_checks(v@, i + 1, in_var));
        }
        check_prop_pat(st, &v[i], in_var);
        i = i + 1;
    }
}

fn key_name_text(k: &PropName) -> (r: String)
    ensures
        r@ == key_name_of(*k),
{
    match k {
        PropName::Ident(i) => i.name.clone(),
        PropName::Str(s) => s.value.clone(),
        PropName::Num(n) => n.value_text.clone(),
        _ => String::from_str("[KEY]"),
    }
}

fn check_prop_pat(st: &mut RsState, p: &ObjectPatProp, in_var: bool)
    ensures
        rv(*final(st)) == apply_checks(rv(*old(st)), prop_pat_check(*p, in_var)),
    decreases *p, 0int,
{
    match p {
        ObjectPatProp::KeyValue { key, value, shorthand, .. } => {
            if *shorthand {
                if !in_var {
                    match key {
                        PropName::Ident(k) => {
                            let has_default = match value {
                                Pat::Assign { .. } => true,
                                _ => false,
                            };
                            check_name(
                                st,
                                k.span,
                                IdentToCheck::ObjectPat {
                                    key_name: k.name.clone(),
                                    value_name: None,
                                    has_default,
                                    is_destructuring: false,
                                },
                                Case::Snake,
                            );
                        },
                        _ => {},
                    }
                }
            } else {
                match value {
                    Pat::Ident { span, name, .. } => check_name(
                        st,
                        *span,
                        IdentToCheck::ObjectPat {
                            key_name: key_name_text(key),
                            value_name: Some(name.clone()),
                            has_default: false,
                            is_destructuring: in_var,
                        },
                        Case::Snake,
                    ),
                    Pat::Assign { left, .. } => match &**left {
                        Pat::Ident { span, name, .. } => check_name(
                            st,
                            *span,
                            IdentToCheck::ObjectPat {
                                key_name: key_name_text(key),
                                value_name: Some(name.clone()),
                                has_default: true,
                                is_destructuring: in_var,
                            },
                            Case::Snake,
                        ),
                        _ => check_pat(st, value, in_var),
                    },
                    _ => check_pat(st, value, in_var),
                }
            }
        },
        ObjectPatProp::Rest { arg, .. } => check_pat(st, arg, in_var),
    }
}

fn check_object_keys(st: &mut RsState, v: &Vec<Prop>)
    ensures
        rv(*final(st)) == apply_checks(rv(*old(st)), object_key_checks(v@, 0)),
{
    let ghost s0 = rv(*st);
    let mut i: usize = 0;
    while i < v.len()
        invariant
            i <= v@.len(),
            apply_checks(rv(*st), object_key_checks(v@, i as int)) == apply_checks(s0, object_key_checks(v@, 0)),
        decreases v@.len() - i,
    {
        proof {
            lemma_apply_concat(rv(*st), object_key_check(v@[i as int]), object_key_checks(v@, i + 1));
        }
        check_object_key(st, &v[i]);
        i = i + 1;
    }
}

fn check_object_key(st: &mut RsState, p: &Prop)
    ensures
        rv(*final(st)) == apply_checks(rv(*old(st)), object_key_check(*p)),
{
    match p {
        Prop::Shorthand(id) => check_name(
            st,
            id.span,
            IdentToCheck::ObjectKey { key_name: id.name.clone(), is_shorthand: true },
            Case::Snake,
        ),
        Prop::KeyValue { key: PropName::Ident(id), .. } => check_name(
            st,
            id.span,
            IdentToCheck::ObjectKey { key_name: id.name.clone(), is_shorthand: false },
            Case::Snake,
        ),
        Prop::Method { key: PropName::Ident(id), .. } => check_name(
            st,
            id.span,
            IdentToCheck::ObjectKey { key_name: id.name.clone(), is_shorthand: false },
            Case::Snake,
        ),
        _ => {},
    }
}

fn check_init(st: &mut RsState, init: &Option<Expr>)
    ensures
        rv(*final(st)) == apply_checks(rv(*old(st)), init_checks(*init)),
{
    match init {
        Some(Expr::Object { props, .. }) => check_object_keys(st, props),
        Some(Expr::Fn(f)) => match &f.id {
            Some(id) => check_name(st, id.span, IdentToCheck::Function(id.name.clone()), Case::Snake),
            None => {},
        },
        Some(Expr::Class(k)) => match &k.id {
            Some(id) => check_name(st, id.span, IdentToCheck::Class(id.name.clone()), Case::UpperCamel),
            None => {},
        },
        _ => {},
    }
}

fn check_declarators(st: &mut RsState, v: &Vec<VarDeclarator>)
    ensures
        rv(*final(st)) == apply_checks(rv(*old(st)), declarators_checks(v@, 0)),
{
    let ghost s0 = rv(*st);
    let mut i: usize = 0;
    while i < v.len()
        invariant
            i <= v@.len(),
            apply_checks(rv(*st), declarators_checks(v@, i as int)) == apply_checks(s0, declarators_checks(v@, 0)),
        decreases v@.len() - i,
    {
        let d = &v[i];
        proof {
            lemma_apply_concat(rv(*st), declarator_checks(*d), declarators_checks(v@, i + 1));
            lemma_apply_concat(rv(*st), pat_checks(d.name, true), init_checks(d.init));
        }
        check_pat(st, &d.name, true);
        check_init(st, &d.init);
        i = i + 1;
    }
}

fn check_assigned(st: &mut RsState, left: &Pat)
    ensures
        rv(*final(st)) == apply_checks(rv(*old(st)), assigned_checks(pat_ids(*left), 0)),
{
    let ids = pat_ids_of(left);
    let ghost iv = ids_view(ids@);
    let ghost s0 = rv(*st);
    let mut i: usize = 0;
    while i < ids.len()
        invariant
            i <= ids@.len(),
            iv == ids_view(ids@),
            iv == pat_ids(*left),
            apply_checks(rv(*st), assigned_checks(iv, i as int)) == apply_checks(s0, assigned_checks(iv, 0)),
        decreases ids@.len() - i,
    {
        proof {
            lemma_apply_concat(rv(*st), assigned_check(iv[i as int]), assigned_checks(iv, i + 1));
        }
        check_name(st, ids[i].1, IdentToCheck::Variable(ids[i].0.clone()), Case::SnakeOrScreaming);
        i = i + 1;
    }
}

fn check_key(st: &mut RsState, key: &Option<Ident>, function: bool)
    ensures
        rv(*final(st)) == apply_checks(rv(*old(st)), key_check(*key, function)),
{
    match key {
        Some(k) => {
            let ident = if function {
                IdentToCheck::Function(k.name.clone())
            } else {
                IdentToCheck::ObjectKey { key_name: k.name.clone(), is_shorthand: false }
            };
            check_name(st, k.span, ident, Case::Snake);
        },
        None => {},
    }
}

fn check_ts_type(st: &mut RsState, t: &TsType)
    ensures
        rv(*final(st)) == apply_checks(rv(*old(st)), ts_type_checks(*t)),
    decreases *t, 0int,
{
    match t {
        TsType::TypeLit { members, .. } => check_elements(st, members),
        _ => {},
    }
}

fn check_opt_type(st: &mut RsState, t: &Option<TsType>)
    ensures
        rv(*final(st)) == apply_checks(rv(*old(st)), opt_type_checks(*t)),
    decreases *t, 0int,
{
    match t {
        Some(t) => check_ts_type(st, t),
        None => {},
    }
}

fn check_element(st: &mut RsState, e: &TsTypeElement)
    ensures
        rv(*final(st)) == apply_checks(rv(*old(st)), element_checks(*e)),
    decreases *e, 0int,
{
    proof {
        lemma_apply_concat(rv(*st), key_check(e.key, e.kind != TsElementKind::Property), opt_type_checks(e.type_ann));
    }
    match e.kind {
        TsElementKind::Property => {
            check_key(st, &e.key, false);
            check_opt_type(st, &e.type_ann);
        },
        TsElementKind::Method | TsElementKind::Getter => {
            check_key(st, &e.key, true);
            check_opt_type(st, &e.type_ann);
        },
        TsElementKind::Setter => check_key(st, &e.key, true),
        TsElementKind::Other => {},
    }
}

fn check_elements(st: &mut RsState, v: &Vec<TsTypeElement>)
    ensures
        rv(*final(st)) == apply_checks(rv(*old(st)), elements_checks(v@, 0)),
    decreases v@, 1int,
{
    let ghost s0 = rv(*st);
    let mut i: usize = 0;
    while i < v.len()
        invariant
            i <= v@.len(),
            apply_checks(rv(*st), elements_checks(v@, i as int)) == apply_checks(s0, elements_checks(v@, 0)),
        decreases v@.len() - i,
    {
        proof {
            lemma_apply_concat(rv(*st), element_checks(v@[i as int]), elements_checks(v@, i + 1));
        }
        check_element(st, &v[i]);
        i = i + 1;
    }
}

fn check_enum_members(st: &mut RsState, v: &Vec<TsEnumMember>)
    ensures
        rv(*final(st)) == apply_checks(rv(*old(st)), enum_member_checks(v@, 0)),
{
    let ghost s0 = rv(*st);
    let mut i: usize = 0;
    while i < v.len()
        invariant
            i <= v@.len(),
            apply_checks(rv(*st), enum_member_checks(v@, i as int)) == apply_checks(s0, enum_member_checks(v@, 0)),
        decreases v@.len() - i,
    {
        proof {
            lemma_apply_concat(rv(*st), enum_member_check(v@[i as int]), enum_member_checks(v@, i + 1));
        }
        match &v[i].id {
            Some(id) => check_name(st, id.span, IdentToCheck::EnumVariant(id.name.clone()), Case::UpperCamel),
            None => {},
        }
        i = i + 1;
    }
}

fn export_name_string(n: &ModuleExportName) -> (r: String)
    ensures
        r@ == export_name_text(*n),
{
    match n {
        ModuleExportName::Ident(i) => i.name.clone(),
        ModuleExportName::Str(s) => s.value.clone(),
    }
}

fn check_stmt(st: &mut RsState, s: &Stmt)
    ensures
        rv(*final(st)) == apply_checks(rv(*old(st)), node_checks(Node::Stmt(*s))),
{
    match s {
        Stmt::Fn(f) => match &f.id {
            Some(id) => check_name(st, id.span, IdentToCheck::Function(id.name.clone()), Case::Snake),
            None => {},
        },
        Stmt::Class(k) => match &k.id {
            Some(id) => check_name(st, id.span, IdentToCheck::Class(id.name.clone()), Case::UpperCamel),
            None => {},
        },
        Stmt::TsTypeAlias { id, ty, .. } => {
            proof {
                lemma_apply_concat(rv(*st), upper_camel(id.span, IdentView::TypeAlias(id.name@)), ts_type_checks(*ty));
            }
            check_name(st, id.span, IdentToCheck::TypeAlias(id.name.clone()), Case::UpperCamel);
            check_ts_type(st, ty);
        },
        Stmt::TsInterface { id, members, .. } => {
            proof {
                lemma_apply_concat(rv(*st), upper_camel(id.span, IdentView::Interface(id.name@)), elements_checks(members@, 0));
            }
            check_name(st, id.span, IdentToCheck::Interface(id.name.clone()), Case::UpperCamel);
            check_elements(st, members);
        },
        Stmt::TsModule { name: TsModuleName::Ident(id), .. } => {
            check_name(st, id.span, IdentToCheck::Module(id.name.clone()), Case::UpperCamel);
        },
        Stmt::TsEnum { id, members, .. } => {
            proof {
                lemma_apply_concat(rv(*st), upper_camel(id.span, IdentView::EnumName(id.name@)), enum_member_checks(members@, 0));
            }
            check_name(st, id.span, IdentToCheck::EnumName(id.name.clone()), Case::UpperCamel);
            check_enum_members(st, members);
        },
        _ => {},
    }
}

fn check_node<'a>(st: &mut RsState, n: NodeRef<'a>)
    ensures
        rv(*final(st)) == apply_checks(rv(*old(st)), node_checks(n@)),
{
    match n {
        NodeRef::Expr(e) => match e {
            Expr::Assign { left, .. } => check_assigned(st, left),
            _ => {},
        },
        NodeRef::Stmt(s) => check_stmt(st, s),
        NodeRef::VarDecl(d) => check_declarators(st, &d.decls),
        NodeRef::Param(p) => check_pat(st, &p.pat, false),
        NodeRef::ImportSpecifier(sp) => match sp {
            ImportSpecifier::Named { local, imported, .. } => {
                if export_name_span_of(imported) != local.span {
                    let name = export_name_string(imported);
                    check_name(
                        st,
                        local.span,
                        IdentToCheck::NamedImport { local: local.name.clone(), imported: Some(name) },
                        Case::Snake,
                    );
                }
            },
            ImportSpecifier::Default { local, .. } => check_name(
                st,
                local.span,
                IdentToCheck::Variable(local.name.clone()),
                Case::Snake,
            ),
            ImportSpecifier::Namespace { local, .. } => check_name(
                st,
                local.span,
                IdentToCheck::Variable(local.name.clone()),
                Case::Snake,
            ),
        },
        NodeRef::ExportSpecifier(sp) => {
            if sp.namespace {
                match &sp.exported {
                    ModuleExportName::Ident(id) => check_name(
                        st,
                        id.span,
                        IdentToCheck::Variable(id.name.clone()),
                        Case::Snake,
                    ),
                    _ => {},
                }
            }
        },
        _ => {},
    }
}

fn declared_node<'a>(n: NodeRef<'a>) -> (r: bool)
    ensures
        r == declared(n@),
{
    match n {
        NodeRef::Stmt(s) => match s {
            Stmt::Fn(f) => f.declare,
            Stmt::Class(k) => k.declare,
            Stmt::TsTypeAlias { declare, .. } => *declare,
            Stmt::TsInterface { declare, .. } => *declare,
            Stmt::TsModule { declare, .. } => *declare,
            Stmt::TsEnum { declare, .. } => *declare,
            _ => false,
        },
        NodeRef::VarDecl(d) => d.declare,
        _ => false,
    }
}

fn step<'a>(st: &mut RsState, e: Event<'a>)
    requires
        old(st).depth < usize::MAX,
    ensures
        rv(*final(st)) == rs_step(rv(*old(st)), e@),
        final(st).depth <= old(st).depth + 1,
{
    let ghost before = rv(*st);
    match e {
        Event::Enter(n) => {
            let d = st.depth;
            if st.skip.is_some() {
                st.depth = d + 1;
            } else if declared_node(n) {
                st.skip = Some(d);
                st.depth = d + 1;
            } else {
                check_node(st, n);
                st.depth = d + 1;
            }
        },
        Event::Exit(_) => {
            let d = if st.depth > 0 {
                st.depth - 1
            } else {
                0
            };
            st.depth = d;
            match st.skip {
                Some(x) => {
                    if x == d {
                        st.skip = None;
                    }
                },
                None => {},
            }
        },
    }
    assert(rv(*st) =~= rs_step(before, e@));
}

impl RustStyle {
    /// The tags of the rule: it belongs to no set.
    pub fn tags(&self) -> (r: Vec<&'static str>)
        ensures
            crate::tags::tag_views(r@) == Seq::<Seq<char>>::empty(),
    {
        crate::tags::untagged()
    }

    pub fn code(&self) -> (r: &'static str)
        ensures
            r@ == CODE@,
    {
        CODE
    }

    /// The diagnostics of the rule on a program, in source order.
    pub fn lint(&self, program: &Program) -> (r: Vec<Diagnostic>)
        ensures
            diag_views(r@) == rust_style_diags(*program),
    {
        let events = walk_program(program);
        let ghost evs = event_views(events@);
        let mut st = RsState { depth: 0, skip: None, visited: Vec::new(), errors: Vec::new() };
        assert(rv(st) =~= init_rs());
        let mut i: usize = 0;
        while i < events.len()
            invariant
                evs == event_views(events@),
                i <= events.len(),
                st.depth <= i,
                fold_events(evs.take(i as int), init_rs(), step_fn()).0 == rv(st),
            decreases events.len() - i,
        {
            proof {
                lemma_fold_events_step(evs, i as int, init_rs(), step_fn());
            }
            step(&mut st, events[i]);
            i = i + 1;
        }
        assert(evs.take(events.len() as int) =~= evs);
        let ghost errs = keyed_view(st.errors@);
        let mut sorted = sort_keyed_exec(st.errors);
        let ghost want = sort_keyed(errs).map_values(|e: (Span, DiagnosticView)| e.1);
        let ghost sv = keyed_view(sorted@);
        assert(sv.len() == sorted.len());
        let mut out: Vec<Diagnostic> = Vec::new();
        let mut k: usize = 0;
        assert(diag_views(out@) =~= want.take(0));
        while sorted.len() > 0
            invariant
                k + sorted@.len() == sv.len(),
                sv.len() <= usize::MAX,
                sv == sort_keyed(errs),
                want == sv.map_values(|e: (Span, DiagnosticView)| e.1),
                keyed_view(sorted@) == sv.skip(k as int),
                diag_views(out@) == want.take(k as int),
            decreases sorted@.len(),
        {
            let ghost rest_before = sorted@;
            let ghost kb = keyed_view(sorted@);
            let x = sorted.remove(0);
            assert(kb[0] == sv[k as int]);
            push_diag(&mut out, x.1);
            assert(want.take(k + 1) =~= want.take(k as int).push(want[k as int]));
            assert forall|j: int| 0 <= j < sorted@.len() implies keyed_view(sorted@)[j] == sv.skip(k + 1)[j] by {
                assert(sorted@[j] == rest_before[j + 1]);
                assert(kb[j + 1] == sv[k + 1 + j]);
            }
            assert(keyed_view(sorted@) =~= sv.skip(k + 1));
            k = k + 1;
        }
        assert(want.take(k as int) =~= want);
        out
    }
}

} // verus!
