//! `prefer-ascii`: the source text is to hold ASCII characters only.

use vstd::prelude::*;
use crate::ast::{Program, Span};
use crate::diagnostic::{Diagnostic, DiagnosticView, diag_views, hinted_diag, push_diag};
use crate::text::{byte_len, char_utf8_len, hex, lemma_byte_len_prefix, push_char, push_hex_padded, zero_pad};

verus! {

pub const CODE: &'static str = "prefer-ascii";

pub const MESSAGE: &'static str = "Non-ASCII characters are not allowed";

/// Reports each character of the source text, but the last, that is not
/// ASCII.
#[derive(Debug)]
pub struct PreferAscii;

/// The hint for a character.
pub open spec fn hint(c: char) -> Seq<char> {
    "`"@ + seq![c] + "` is \\u{"@ + zero_pad(hex(c as u32 as nat), 4) + "} and this is not an ASCII. Consider replacing it with an ASCII character"@
}

/// The diagnostic for the `k`-th character of a text, where it is not ASCII.
pub open spec fn char_diags(s: Seq<char>, k: int) -> Seq<DiagnosticView> {
    if (s[k] as u32) < 128 {
        Seq::empty()
    } else {
        seq![
            hinted_diag(
                Span { lo: byte_len(s.take(k)) as usize, hi: byte_len(s.take(k + 1)) as usize },
                CODE@,
                MESSAGE@,
                hint(s[k]),
            ),
        ]
    }
}

/// The diagnostics of the first `n` characters of a text.
pub open spec fn diags_upto(s: Seq<char>, n: int) -> Seq<DiagnosticView>
    decreases n,
{
    if n <= 0 {
        Seq::empty()
    } else {
        diags_upto(s, n - 1) + char_diags(s, n - 1)
    }
}

/// The diagnostics of a text: those of each character but the last.
pub open spec fn text_diags(s: Seq<char>) -> Seq<DiagnosticView> {
    diags_upto(s, s.len() - 1)
}

/// The hint for a character.
fn make_hint(c: char) -> (r: String)
    ensures
        r@ == hint(c),
{
    let mut r = String::from_str("`");
    push_char(&mut r, c);
    r.append("` is \\u{");
    push_hex_padded(&mut r, c as u32, 4);
    r.append("} and this is not an ASCII. Consider replacing it with an ASCII character");
    r
}

impl PreferAscii {
    /// The tags of the rule: it belongs to no set.
    pub fn tags(&self) -> (r: Vec<&'static str>)
        ensures
            crate::tags::tag_views(r@) == Seq::<Seq<char>>::empty(),
    {
        crate::tags::untagged()
    }

    pub fn code(&self) -> (r: &'static str)
        ensures
            r@ == CODE@,
    {
        CODE
    }

    /// One diagnostic for each character of the source text, but the last,
    /// that is not ASCII, in order; its range is the character's bytes.
    pub fn lint(&self, program: &Program) -> (r: Vec<Diagnostic>)
        requires
            byte_len(program.source@) <= usize::MAX,
        ensures
            diag_views(r@) == text_diags(program.source@),
    {
        let text = program.source.as_str();
        let ghost s = text@;
        let n = text.unicode_len();
        let mut out: Vec<Diagnostic> = Vec::new();
        assert(diag_views(out@) =~= Seq::<DiagnosticView>::empty());
        if n == 0 {
            return out;
        }
        let mut offset: usize = 0;
        assert(s.take(0) =~= Seq::<char>::empty());
        let mut i: usize = 0;
        while i < n - 1
            invariant
                s == text@,
                n == s.len(),
                n > 0,
                i <= n - 1,
                byte_len(s) <= usize::MAX,
                offset == byte_len(s.take(i as int)),
                diag_views(out@) == diags_upto(s, i as int),
            decreases n - 1 - i,
        {
            let c = text.get_char(i);
            proof {
                assert(s.take(i + 1).drop_last() =~= s.take(i as int));
                lemma_byte_len_prefix(s, i + 1);
            }
            let next = offset + char_utf8_len(c);
            let ghost before = diag_views(out@);
            if (c as u32) >= 128 {
                push_diag(&mut out, Diagnostic::with_hint(Span { lo: offset, hi: next }, CODE, String::from_str(MESSAGE), make_hint(c)));
            }
            assert(diag_views(out@) =~= before + char_diags(s, i as int));
            offset = next;
            i = i + 1;
        }
        out
    }
}

proof fn lemma_ascii_prefix_clean(s: Seq<char>, n: int)
    requires
        n <= s.len(),
        forall|k: int| 0 <= k < s.len() ==> (#[trigger] s[k] as u32) < 128,
    ensures
        diags_upto(s, n) == Seq::<DiagnosticView>::empty(),
    decreases n,
{
    if n > 0 {
        lemma_ascii_prefix_clean(s, n - 1);
        assert((s[n - 1] as u32) < 128);
        assert(diags_upto(s, n) =~= Seq::<DiagnosticView>::empty());
    }
}

/// A source text made of ASCII characters only gets no diagnostics.
pub proof fn lemma_ascii_text_is_clean(s: Seq<char>)
    requires
        forall|k: int| 0 <= k < s.len() ==> (#[trigger] s[k] as u32) < 128,
    ensures
        text_diags(s) == Seq::<DiagnosticView>::empty(),
{
    lemma_ascii_prefix_clean(s, s.len() - 1);
}

/// Each character but the last gets at most one diagnostic: a text gets no
/// more diagnostics than it has characters.
pub proof fn lemma_at_most_one_per_char(s: Seq<char>, n: int)
    requires
        0 <= n,
    ensures
        diags_upto(s, n).len() <= n,
    decreases n,
{
    if n > 0 {
        lemma_at_most_one_per_char(s, n - 1);
    }
}

} // verus!
