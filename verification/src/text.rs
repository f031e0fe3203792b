//! Text helpers shared by the rules.

use vstd::prelude::*;
use crate::ast::Span;

verus! {

/// Character-wise equality of two string slices.
pub fn str_eq(a: &str, b: &str) -> (r: bool)
    ensures
        r == (a@ == b@),
{
    let la = a.unicode_len();
    let lb = b.unicode_len();
    if la != lb {
        return false;
    }
    let mut i: usize = 0;
    while i < la
        invariant
            la == a@.len(),
            lb == b@.len(),
            la == lb,
            i <= la,
            forall|j: int| 0 <= j < i ==> a@[j] == b@[j],
        decreases la - i,
    {
        if a.get_char(i) != b.get_char(i) {
            return false;
        }
        i = i + 1;
    }
    assert(a@ =~= b@);
    true
}

/// Whether `s` begins with `prefix`.
pub open spec fn starts_with(s: Seq<char>, prefix: Seq<char>) -> bool {
    prefix.len() <= s.len() && s.take(prefix.len() as int) == prefix
}

/// Whether `s` begins with `prefix`, character by character.
pub fn str_starts_with(s: &str, prefix: &str) -> (r: bool)
    ensures
        r == starts_with(s@, prefix@),
{
    let ls = s.unicode_len();
    let lp = prefix.unicode_len();
    if lp > ls {
        return false;
    }
    let mut i: usize = 0;
    while i < lp
        invariant
            ls == s@.len(),
            lp == prefix@.len(),
            lp <= ls,
            i <= lp,
            forall|j: int| 0 <= j < i ==> s@[j] == prefix@[j],
        decreases lp - i,
    {
        if s.get_char(i) != prefix.get_char(i) {
            assert(s@.take(lp as int)[i as int] != prefix@[i as int]);
            return false;
        }
        i = i + 1;
    }
    assert(s@.take(lp as int) =~= prefix@);
    true
}

/// Whether `s` ends with `suffix`.
pub open spec fn ends_with(s: Seq<char>, suffix: Seq<char>) -> bool {
    suffix.len() <= s.len() && s.skip(s.len() - suffix.len()) == suffix
}

/// Whether `s` ends with `suffix`, character by character.
pub fn str_ends_with(s: &str, suffix: &str) -> (r: bool)
    ensures
        r == ends_with(s@, suffix@),
{
    let ls = s.unicode_len();
    let lx = suffix.unicode_len();
    if lx > ls {
        return false;
    }
    let d = ls - lx;
    let mut i: usize = 0;
    while i < lx
        invariant
            ls == s@.len(),
            lx == suffix@.len(),
            d == ls - lx,
            i <= lx,
            forall|j: int| 0 <= j < i ==> s@[d + j] == suffix@[j],
        decreases lx - i,
    {
        if s.get_char(d + i) != suffix.get_char(i) {
            assert(s@.skip(d as int)[i as int] != suffix@[i as int]);
            return false;
        }
        i = i + 1;
    }
    assert(s@.skip(d as int) =~= suffix@);
    true
}

/// One more character of a prefix adds its UTF-8 length.
pub proof fn lemma_byte_len_step(s: Seq<char>, i: int)
    requires
        0 <= i < s.len(),
    ensures
        byte_len(s.take(i + 1)) == byte_len(s.take(i)) + utf8_len(s[i]),
{
    assert(s.take(i + 1).drop_last() =~= s.take(i));
}

/// The length of `s` in bytes.
pub fn str_byte_len(s: &str) -> (r: usize)
    requires
        byte_len(s@) <= usize::MAX,
    ensures
        r == byte_len(s@),
{
    let n = s.unicode_len();
    let ghost v = s@;
    let mut k: usize = 0;
    let mut total: usize = 0;
    assert(v.take(0) =~= Seq::<char>::empty());
    while k < n
        invariant
            v == s@,
            n == v.len(),
            byte_len(v) <= usize::MAX,
            k <= n,
            total == byte_len(v.take(k as int)),
        decreases n - k,
    {
        proof {
            lemma_byte_len_step(v, k as int);
            lemma_byte_len_prefix(v, k + 1);
        }
        total = total + char_utf8_len(s.get_char(k));
        k = k + 1;
    }
    assert(v.take(n as int) =~= v);
    total
}

/// The number of bytes that UTF-8 takes for a character.
pub open spec fn utf8_len(c: char) -> nat {
    let n = c as u32;
    if n < 0x80 {
        1
    } else if n < 0x800 {
        2
    } else if n < 0x10000 {
        3
    } else {
        4
    }
}

/// The number of bytes that UTF-8 takes for a text.
pub open spec fn byte_len(s: Seq<char>) -> nat
    decreases s.len(),
{
    if s.len() == 0 {
        0
    } else {
        byte_len(s.drop_last()) + utf8_len(s.last())
    }
}

pub proof fn lemma_byte_len_prefix(s: Seq<char>, i: int)
    requires
        0 <= i <= s.len(),
    ensures
        byte_len(s.take(i)) <= byte_len(s),
    decreases s.len(),
{
    if i < s.len() {
        assert(s.drop_last().take(i) =~= s.take(i));
        lemma_byte_len_prefix(s.drop_last(), i);
    } else {
        assert(s.take(i) =~= s);
    }
}

/// The number of bytes that UTF-8 takes for a character.
pub fn char_utf8_len(c: char) -> (r: usize)
    ensures
        r == utf8_len(c),
{
    let n = c as u32;
    if n < 0x80 {
        1
    } else if n < 0x800 {
        2
    } else if n < 0x10000 {
        3
    } else {
        4
    }
}

proof fn lemma_byte_len_strict(s: Seq<char>, j: int, k: int)
    requires
        0 <= j < k <= s.len(),
    ensures
        byte_len(s.take(j)) < byte_len(s.take(k)),
    decreases k,
{
    assert(s.take(k).drop_last() =~= s.take(k - 1));
    if j < k - 1 {
        lemma_byte_len_strict(s, j, k - 1);
    }
}

/// The index of the character of `s` that starts at byte offset `b`, or
/// `s.len()` where `b` is the end of `s`; `None` where no character starts
/// there.
pub open spec fn char_index(s: Seq<char>, b: nat) -> Option<int> {
    if exists|k: int| 0 <= k <= s.len() && byte_len(#[trigger] s.take(k)) == b {
        Some(choose|k: int| 0 <= k <= s.len() && byte_len(#[trigger] s.take(k)) == b)
    } else {
        None
    }
}

/// The text of `s` between the byte offsets `lo` and `hi`, where both fall
/// on character boundaries in that order.
pub open spec fn slice_text(s: Seq<char>, lo: nat, hi: nat) -> Option<Seq<char>> {
    match (char_index(s, lo), char_index(s, hi)) {
        (Some(a), Some(b)) => if a <= b {
            Some(s.subrange(a, b))
        } else {
            None
        },
        _ => None,
    }
}

/// The index of the character of `s` that starts at byte offset `b`.
pub fn char_index_of(s: &str, b: usize) -> (r: Option<usize>)
    ensures
        match r {
            Some(k) => char_index(s@, b as nat) == Some(k as int),
            None => char_index(s@, b as nat) is None,
        },
{
    let n = s.unicode_len();
    let ghost v = s@;
    let mut k: usize = 0;
    let mut offset: usize = 0;
    assert(v.take(0) =~= Seq::<char>::empty());
    loop
        invariant
            v == s@,
            n == v.len(),
            k <= n,
            offset == byte_len(v.take(k as int)),
            offset <= b,
            forall|j: int| 0 <= j < k ==> byte_len(#[trigger] v.take(j)) < b,
        decreases n - k,
    {
        if offset == b {
            proof {
                assert forall|j: int| 0 <= j <= v.len() && byte_len(#[trigger] v.take(j)) == b
                    implies j == k by {
                    if j < k {
                    } else if j > k {
                        lemma_byte_len_strict(v, k as int, j);
                    }
                }
            }
            return Some(k);
        }
        if k == n {
            proof {
                assert(v.take(n as int) =~= v);
                assert forall|j: int| 0 <= j <= v.len() implies byte_len(#[trigger] v.take(j)) != b by {
                    if j < k {
                    }
                }
            }
            return None;
        }
        let c = s.get_char(k);
        proof {
            assert(v.take(k + 1).drop_last() =~= v.take(k as int));
            lemma_byte_len_prefix(v, k + 1);
        }
        let step = char_utf8_len(c);
        let fits = match offset.checked_add(step) {
            Some(next) => next <= b,
            None => false,
        };
        if !fits {
            proof {
                assert forall|j: int| 0 <= j <= v.len() implies byte_len(#[trigger] v.take(j)) != b by {
                    if j > k + 1 {
                        lemma_byte_len_strict(v, k + 1, j);
                    }
                }
            }
            return None;
        }
        offset = offset + step;
        k = k + 1;
    }
}

/// The text of `s` between the byte offsets `lo` and `hi`.
pub fn text_slice(s: &str, lo: usize, hi: usize) -> (r: Option<&str>)
    ensures
        match r {
            Some(t) => slice_text(s@, lo as nat, hi as nat) == Some(t@),
            None => slice_text(s@, lo as nat, hi as nat) is None,
        },
{
    match (char_index_of(s, lo), char_index_of(s, hi)) {
        (Some(a), Some(b)) => {
            if a <= b {
                Some(s.substring_char(a, b))
            } else {
                None
            }
        },
        _ => None,
    }
}

/// Whether a character of `s` starts at byte offset `b` and is `c`.
pub open spec fn char_at_byte_is(s: Seq<char>, b: nat, c: char) -> bool {
    match char_index(s, b) {
        Some(k) => k < s.len() && s[k] == c,
        None => false,
    }
}

/// Whether a character of `s` starts at byte offset `b` and is `c`.
pub fn is_char_at_byte(s: &str, b: usize, c: char) -> (r: bool)
    requires
        byte_len(s@) <= usize::MAX,
    ensures
        r == char_at_byte_is(s@, b as nat, c),
{
    match char_index_of(s, b) {
        Some(k) => k < s.unicode_len() && s.get_char(k) == c,
        None => false,
    }
}

/// Whether a character has the Unicode property Uppercase.
pub uninterp spec fn is_uppercase_char(c: char) -> bool;

/// Calls `char::is_uppercase`, which tells whether `c` has the Unicode
/// property Uppercase. The contract names that result and adds the one fact
/// that the documentation plainly gives for ASCII: there, exactly `A` to `Z`
/// are uppercase.
#[verifier::external_body]
pub fn char_is_uppercase(c: char) -> (r: bool)
    ensures
        r == is_uppercase_char(c),
        (c as u32) < 128 ==> (r <==> ('A' <= c && c <= 'Z')),
{
    c.is_uppercase()
}

/// Appends one character to a string.
#[verifier::external_body]
pub fn push_char(s: &mut String, c: char)
    ensures
        final(s)@ == old(s)@.push(c),
{
    s.push(c)
}

/// The decimal digit for `d`, which is below 10.
pub open spec fn digit_char(d: nat) -> char {
    if d == 0 { '0' } else if d == 1 { '1' } else if d == 2 { '2' } else if d == 3 { '3' }
    else if d == 4 { '4' } else if d == 5 { '5' } else if d == 6 { '6' } else if d == 7 { '7' }
    else if d == 8 { '8' } else { '9' }
}

/// The decimal notation of `n`, without leading zeros.
pub open spec fn decimal(n: nat) -> Seq<char>
    decreases n,
{
    if n < 10 {
        seq![digit_char(n)]
    } else {
        decimal(n / 10).push(digit_char(n % 10))
    }
}

fn digit(d: u64) -> (r: char)
    requires
        d < 10,
    ensures
        r == digit_char(d as nat),
{
    if d == 0 { '0' } else if d == 1 { '1' } else if d == 2 { '2' } else if d == 3 { '3' }
    else if d == 4 { '4' } else if d == 5 { '5' } else if d == 6 { '6' } else if d == 7 { '7' }
    else if d == 8 { '8' } else { '9' }
}

/// Appends the decimal notation of `n` to a string.
pub fn push_decimal(s: &mut String, n: u64)
    ensures
        final(s)@ == old(s)@ + decimal(n as nat),
    decreases n,
{
    if n < 10 {
        push_char(s, digit(n));
        assert(seq![digit_char(n as nat)] =~= decimal(n as nat));
    } else {
        push_decimal(s, n / 10);
        push_char(s, digit(n % 10));
        assert(old(s)@ + decimal((n / 10) as nat) + seq![digit_char((n % 10) as nat)] =~= old(s)@
            + decimal(n as nat));
    }
}

/// The lowercase hexadecimal digit for `d`, which is below 16.
pub open spec fn hex_char(d: nat) -> char {
    if d < 10 { digit_char(d) } else if d == 10 { 'a' } else if d == 11 { 'b' } else if d == 12 { 'c' }
    else if d == 13 { 'd' } else if d == 14 { 'e' } else { 'f' }
}

/// The lowercase hexadecimal notation of `n`, without leading zeros.
pub open spec fn hex(n: nat) -> Seq<char>
    decreases n,
{
    if n < 16 {
        seq![hex_char(n)]
    } else {
        hex(n / 16).push(hex_char(n % 16))
    }
}

/// `s` with zeros in front, up to `width` characters.
pub open spec fn zero_pad(s: Seq<char>, width: nat) -> Seq<char> {
    if s.len() >= width {
        s
    } else {
        Seq::new((width - s.len()) as nat, |i: int| '0') + s
    }
}

fn hex_digit(d: u32) -> (r: char)
    requires
        d < 16,
    ensures
        r == hex_char(d as nat),
{
    if d < 10 { digit(d as u64) } else if d == 10 { 'a' } else if d == 11 { 'b' } else if d == 12 { 'c' }
    else if d == 13 { 'd' } else if d == 14 { 'e' } else { 'f' }
}

/// Appends the hexadecimal notation of `n` to a string.
fn push_hex(s: &mut String, n: u32)
    ensures
        final(s)@ == old(s)@ + hex(n as nat),
    decreases n,
{
    if n < 16 {
        push_char(s, hex_digit(n));
        assert(seq![hex_char(n as nat)] =~= hex(n as nat));
    } else {
        push_hex(s, n / 16);
        push_char(s, hex_digit(n % 16));
        assert(old(s)@ + hex((n / 16) as nat) + seq![hex_char((n % 16) as nat)] =~= old(s)@ + hex(
            n as nat,
        ));
    }
}

/// Appends the hexadecimal notation of `n`, with zeros in front up to
/// `width` characters, to a string.
pub fn push_hex_padded(s: &mut String, n: u32, width: usize)
    ensures
        final(s)@ == old(s)@ + zero_pad(hex(n as nat), width as nat),
{
    let mut digits = String::new();
    push_hex(&mut digits, n);
    assert(digits@ =~= hex(n as nat));
    let len = digits.as_str().unicode_len();
    let ghost start = s@;
    if len < width {
        let mut i: usize = 0;
        while i < width - len
            invariant
                i <= width - len,
                len < width,
                s@ == start + Seq::new(i as nat, |j: int| '0'),
            decreases width - len - i,
        {
            push_char(s, '0');
            assert(start + Seq::new((i + 1) as nat, |j: int| '0') =~= start + Seq::new(i as nat, |j: int| '0').push('0'));
            i = i + 1;
        }
    }
    s.append(digits.as_str());
    assert(s@ =~= start + zero_pad(hex(n as nat), width as nat));
}

/// What matching `text` against the regular expression `pattern` gives, as
/// the regex crate decides it: `None` where the pattern does not compile,
/// else whether the expression matches somewhere in the text.
pub uninterp spec fn regex_match(pattern: Seq<char>, text: Seq<char>) -> Option<bool>;

/// Compiles `pattern` with `regex::Regex::new` and, where it compiles, asks
/// `Regex::is_match` whether it matches somewhere in `text`. The two calls are
/// one operation here: the compiled expression is used for this one match and
/// dropped. The contract names the result and states nothing more of it.
#[verifier::external_body]
pub fn regex_is_match(pattern: &str, text: &str) -> (r: Option<bool>)
    ensures
        r == regex_match(pattern@, text@),
{
    regex::Regex::new(pattern).ok().map(|re| re.is_match(text))
}

/// What the group named `group` holds in the first match of the regular
/// expression `pattern` in `text`, as the regex crate decides it: `None`
/// where the pattern does not compile, where it matches nowhere, or where
/// the group takes no part in the match.
pub uninterp spec fn regex_named_capture(pattern: Seq<char>, group: Seq<char>, text: Seq<char>) -> Option<Seq<char>>;

/// Compiles `pattern` with `regex::Regex::new` and, where it compiles, takes
/// the first match in `text` with `Regex::captures` and the text of the
/// group named `group` with `Captures::name`. The contract names the result
/// and states nothing more of it.
#[verifier::external_body]
pub fn regex_capture(pattern: &str, group: &str, text: &str) -> (r: Option<String>)
    ensures
        match r {
            Some(s) => regex_named_capture(pattern@, group@, text@) == Some(s@),
            None => regex_named_capture(pattern@, group@, text@) is None,
        },
{
    match regex::Regex::new(pattern) {
        Ok(re) => match re.captures(text) {
            Some(c) => c.name(group).map(|m| m.as_str().to_string()),
            None => None,
        },
        Err(_) => None,
    }
}

/// The source text of a span, or nothing where its ends fall inside
/// characters.
pub open spec fn text_of(src: Seq<char>, s: Span) -> Seq<char> {
    match slice_text(src, s.lo as nat, s.hi as nat) {
        Some(t) => t,
        None => Seq::empty(),
    }
}

/// The source text of a span, as a string of its own.
pub fn text_or_empty(src: &str, s: Span) -> (r: String)
    ensures
        r@ == text_of(src@, s),
{
    match text_slice(src, s.lo, s.hi) {
        Some(t) => String::from_str(t),
        None => String::new(),
    }
}

/// A character in ASCII uppercase: `a` to `z` become `A` to `Z`, any other
/// character stays.
pub open spec fn ascii_upper(c: char) -> char {
    if 'a' <= c && c <= 'z' {
        ((c as u32) - 32) as char
    } else {
        c
    }
}

/// A character in ASCII lowercase: `A` to `Z` become `a` to `z`, any other
/// character stays.
pub open spec fn ascii_lower(c: char) -> char {
    if 'A' <= c && c <= 'Z' {
        ((c as u32) + 32) as char
    } else {
        c
    }
}

pub open spec fn upper_ascii(s: Seq<char>) -> Seq<char> {
    s.map_values(|c: char| ascii_upper(c))
}

pub open spec fn lower_ascii(s: Seq<char>) -> Seq<char> {
    s.map_values(|c: char| ascii_lower(c))
}

/// A character in ASCII uppercase.
pub fn char_to_ascii_upper(c: char) -> (r: char)
    ensures
        r == ascii_upper(c),
{
    if 'a' <= c && c <= 'z' {
        let b: u8 = c as u8;
        assert(b == c as u32);
        (b - 32) as char
    } else {
        c
    }
}

/// A character in ASCII lowercase.
pub fn char_to_ascii_lower(c: char) -> (r: char)
    ensures
        r == ascii_lower(c),
{
    if 'A' <= c && c <= 'Z' {
        let b: u8 = c as u8;
        assert(b == c as u32);
        (b + 32) as char
    } else {
        c
    }
}

/// A string in ASCII uppercase.
pub fn to_upper_ascii(s: &str) -> (r: String)
    ensures
        r@ == upper_ascii(s@),
{
    let n = s.unicode_len();
    let mut out = String::new();
    let mut i: usize = 0;
    while i < n
        invariant
            n == s@.len(),
            i <= n,
            out@ == upper_ascii(s@).take(i as int),
        decreases n - i,
    {
        push_char(&mut out, char_to_ascii_upper(s.get_char(i)));
        assert(upper_ascii(s@).take(i + 1) =~= upper_ascii(s@).take(i as int).push(ascii_upper(s@[i as int])));
        i = i + 1;
    }
    assert(upper_ascii(s@).take(n as int) =~= upper_ascii(s@));
    out
}

/// A string in ASCII lowercase.
pub fn to_lower_ascii(s: &str) -> (r: String)
    ensures
        r@ == lower_ascii(s@),
{
    let n = s.unicode_len();
    let mut out = String::new();
    let mut i: usize = 0;
    while i < n
        invariant
            n == s@.len(),
            i <= n,
            out@ == lower_ascii(s@).take(i as int),
        decreases n - i,
    {
        push_char(&mut out, char_to_ascii_lower(s.get_char(i)));
        assert(lower_ascii(s@).take(i + 1) =~= lower_ascii(s@).take(i as int).push(ascii_lower(s@[i as int])));
        i = i + 1;
    }
    assert(lower_ascii(s@).take(n as int) =~= lower_ascii(s@));
    out
}

/// The matches of the regular expression `pattern` in `text`, as the regex
/// crate finds them, left to right: for each match, the byte range of each of
/// its groups (group 0 is the whole match), `None` for a group that takes no
/// part in it. `None` where the pattern does not compile.
pub uninterp spec fn regex_all_captures(pattern: Seq<char>, text: Seq<char>) -> Option<Seq<Seq<Option<(usize, usize)>>>>;

pub open spec fn captures_view(v: Seq<Vec<Option<(usize, usize)>>>) -> Seq<Seq<Option<(usize, usize)>>> {
    v.map_values(|c: Vec<Option<(usize, usize)>>| c@)
}

/// Compiles `pattern` with `regex::Regex::new` and, where it compiles, lists
/// the matches in `text` with `Regex::captures_iter`, each as the byte ranges
/// (`Match::start`, `Match::end`) of the groups that `Captures::iter` gives.
/// The contract names the result and states nothing more of it.
#[verifier::external_body]
pub fn regex_captures_all(pattern: &str, text: &str) -> (r: Option<Vec<Vec<Option<(usize, usize)>>>>)
    ensures
        match r {
            Some(v) => regex_all_captures(pattern@, text@) == Some(captures_view(v@)),
            None => regex_all_captures(pattern@, text@) is None,
        },
{
    match regex::Regex::new(pattern) {
        Ok(re) => Some(
            re.captures_iter(text).map(|c| c.iter().map(|m| m.map(|m| (m.start(), m.end()))).collect()).collect(),
        ),
        Err(_) => None,
    }
}

} // verus!
