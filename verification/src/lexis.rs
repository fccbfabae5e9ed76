//! Shared lexical primitives: character classes, token scanners and the
//! whitespace test underlying empty-value coercion.
//!
//! The grammar and the validated constructors agree on these definitions,
//! which is what lets grammar-produced values skip revalidation.

use vstd::prelude::*;

verus! {

// ---------------------------------------------------------------------------
// Character classes
// ---------------------------------------------------------------------------
/// An ASCII character (code point below 0x80).
pub open spec fn ascii_char(c: char) -> bool {
    (c as u32) < 0x80
}

/// An ASCII control character (0x00..=0x1f or 0x7f).
pub open spec fn ascii_control_char(c: char) -> bool {
    (c as u32) < 0x20 || (c as u32) == 0x7f
}

/// A Unicode control character (category Cc: 0x00..=0x1f and 0x7f..=0x9f).
pub open spec fn control_char(c: char) -> bool {
    (c as u32) < 0x20 || (0x7f <= (c as u32) && (c as u32) <= 0x9f)
}

/// An ASCII letter.
pub open spec fn ascii_alphabetic_char(c: char) -> bool {
    (0x41 <= (c as u32) && (c as u32) <= 0x5a) || (0x61 <= (c as u32) && (c as u32) <= 0x7a)
}

/// An ASCII decimal digit.
pub open spec fn ascii_digit_char(c: char) -> bool {
    0x30 <= (c as u32) && (c as u32) <= 0x39
}

/// An ASCII letter or digit.
pub open spec fn ascii_alphanumeric_char(c: char) -> bool {
    ascii_alphabetic_char(c) || ascii_digit_char(c)
}

/// A character allowed inside an attribute name token: a letter, a digit,
/// a hyphen or an underscore.
pub open spec fn name_char(c: char) -> bool {
    ascii_alphanumeric_char(c) || c == '-' || c == '_'
}

/// A horizontal-space character: space or tab.
pub open spec fn horizontal_space_char(c: char) -> bool {
    c == ' ' || c == '\t'
}

/// A continuation marker at the start of a physical line: space, tab or `+`.
pub open spec fn continuation_char(c: char) -> bool {
    c == ' ' || c == '\t' || c == '+'
}

/// A character allowed inside an attribute value: ASCII and not a control
/// character.
pub open spec fn value_char(c: char) -> bool {
    ascii_char(c) && !ascii_control_char(c)
}

/// A character allowed inside a server message: anything that is not a
/// Unicode control character. Non-ASCII characters are permitted here.
pub open spec fn comment_char(c: char) -> bool {
    !control_char(c)
}

/// A Unicode whitespace character (the White_Space property), the class
/// that string trimming removes.
pub open spec fn whitespace_char(c: char) -> bool {
    let u = c as u32;
    (0x09 <= u && u <= 0x0d) || u == 0x20 || u == 0x85 || u == 0xa0 || u == 0x1680 || (0x2000
        <= u && u <= 0x200a) || u == 0x2028 || u == 0x2029 || u == 0x202f || u == 0x205f || u
        == 0x3000
}

// ---------------------------------------------------------------------------
// Sequence-level classes
// ---------------------------------------------------------------------------
/// Every character of the sequence is ASCII.
pub open spec fn ascii_seq(s: Seq<char>) -> bool {
    forall|i: int| 0 <= i < s.len() ==> ascii_char(#[trigger] s[i])
}

/// Some character of the sequence is an ASCII control character.
pub open spec fn has_ascii_control(s: Seq<char>) -> bool {
    exists|i: int| 0 <= i < s.len() && ascii_control_char(#[trigger] s[i])
}

/// The sequence is empty or consists only of whitespace: trimming it
/// leaves nothing.
pub open spec fn blank_seq(s: Seq<char>) -> bool {
    forall|i: int| 0 <= i < s.len() ==> whitespace_char(#[trigger] s[i])
}

/// Every character of the sequence is a value character.
pub open spec fn value_seq(s: Seq<char>) -> bool {
    forall|i: int| 0 <= i < s.len() ==> value_char(#[trigger] s[i])
}

// ---------------------------------------------------------------------------
// Executable character classifiers
// ---------------------------------------------------------------------------
/// Whether `c` is ASCII.
pub fn is_ascii_char(c: char) -> (b: bool)
    ensures
        b == ascii_char(c),
{
    (c as u32) < 0x80
}

/// Whether `c` is an ASCII control character.
pub fn is_ascii_control_char(c: char) -> (b: bool)
    ensures
        b == ascii_control_char(c),
{
    (c as u32) < 0x20 || (c as u32) == 0x7f
}

/// Whether `c` is a Unicode control character.
pub fn is_control_char(c: char) -> (b: bool)
    ensures
        b == control_char(c),
{
    let u = c as u32;
    u < 0x20 || (0x7f <= u && u <= 0x9f)
}

/// Whether `c` is an ASCII letter.
pub fn is_ascii_alphabetic_char(c: char) -> (b: bool)
    ensures
        b == ascii_alphabetic_char(c),
{
    let u = c as u32;
    (0x41 <= u && u <= 0x5a) || (0x61 <= u && u <= 0x7a)
}

/// Whether `c` is an ASCII letter or digit.
pub fn is_ascii_alphanumeric_char(c: char) -> (b: bool)
    ensures
        b == ascii_alphanumeric_char(c),
{
    let u = c as u32;
    (0x41 <= u && u <= 0x5a) || (0x61 <= u && u <= 0x7a) || (0x30 <= u && u <= 0x39)
}

/// Whether `c` may appear inside a name token.
pub fn is_name_char(c: char) -> (b: bool)
    ensures
        b == name_char(c),
{
    is_ascii_alphanumeric_char(c) || c == '-' || c == '_'
}

/// Whether `c` is a horizontal-space character.
pub fn is_horizontal_space_char(c: char) -> (b: bool)
    ensures
        b == horizontal_space_char(c),
{
    c == ' ' || c == '\t'
}

/// Whether `c` is a continuation marker.
pub fn is_continuation_char(c: char) -> (b: bool)
    ensures
        b == continuation_char(c),
{
    c == ' ' || c == '\t' || c == '+'
}

/// Whether `c` may appear inside an attribute value.
pub fn is_value_char(c: char) -> (b: bool)
    ensures
        b == value_char(c),
{
    is_ascii_char(c) && !is_ascii_control_char(c)
}

/// Whether `c` is Unicode whitespace.
pub fn is_whitespace_char(c: char) -> (b: bool)
    ensures
        b == whitespace_char(c),
{
    let u = c as u32;
    (0x09 <= u && u <= 0x0d) || u == 0x20 || u == 0x85 || u == 0xa0 || u == 0x1680 || (0x2000
        <= u && u <= 0x200a) || u == 0x2028 || u == 0x2029 || u == 0x202f || u == 0x205f || u
        == 0x3000
}

// ---------------------------------------------------------------------------
// Whole-string classifiers
// ---------------------------------------------------------------------------
/// Whether the string is empty or all-whitespace.
pub fn str_is_blank(s: &str) -> (b: bool)
    ensures
        b == blank_seq(s@),
{
    let len: usize = s.unicode_len();
    let mut i: usize = 0;
    while i < len
        invariant
            i <= len,
            len == s@.len(),
            forall|j: int| 0 <= j < i ==> whitespace_char(#[trigger] s@[j]),
        decreases len - i,
    {
        if !is_whitespace_char(s.get_char(i)) {
            return false;
        }
        i = i + 1;
    }
    true
}

/// Whether every character of the string is ASCII.
pub fn str_all_ascii(s: &str) -> (b: bool)
    ensures
        b == ascii_seq(s@),
{
    let len: usize = s.unicode_len();
    let mut i: usize = 0;
    while i < len
        invariant
            i <= len,
            len == s@.len(),
            forall|j: int| 0 <= j < i ==> ascii_char(#[trigger] s@[j]),
        decreases len - i,
    {
        if !is_ascii_char(s.get_char(i)) {
            return false;
        }
        i = i + 1;
    }
    true
}

/// Whether the string contains an ASCII control character.
pub fn str_has_ascii_control(s: &str) -> (b: bool)
    ensures
        b == has_ascii_control(s@),
{
    let len: usize = s.unicode_len();
    let mut i: usize = 0;
    while i < len
        invariant
            i <= len,
            len == s@.len(),
            forall|j: int| 0 <= j < i ==> !ascii_control_char(#[trigger] s@[j]),
        decreases len - i,
    {
        if is_ascii_control_char(s.get_char(i)) {
            return true;
        }
        i = i + 1;
    }
    false
}

/// Whether two string slices have the same character content.
pub fn str_eq_content(a: &str, b: &str) -> (r: bool)
    ensures
        r == (a@ == b@),
{
    let alen: usize = a.unicode_len();
    let blen: usize = b.unicode_len();
    if alen != blen {
        return false;
    }
    let mut i: usize = 0;
    while i < alen
        invariant
            i <= alen,
            alen == a@.len(),
            alen == b@.len(),
            forall|j: int| 0 <= j < i ==> a@[j] == b@[j],
        decreases alen - i,
    {
        if a.get_char(i) != b.get_char(i) {
            return false;
        }
        i = i + 1;
    }
    proof {
        assert(a@ =~= b@);
    }
    true
}

// ---------------------------------------------------------------------------
// Token scanners: the end of the maximal run of a character class
// ---------------------------------------------------------------------------
/// The position just past the maximal run of name characters starting at `i`.
pub open spec fn name_run_end(s: Seq<char>, i: int) -> int
    decreases s.len() - i,
        when 0 <= i <= s.len()
{
    if i < s.len() && name_char(s[i]) {
        name_run_end(s, i + 1)
    } else {
        i
    }
}

/// The position just past the maximal run of horizontal space starting at `i`.
pub open spec fn space_run_end(s: Seq<char>, i: int) -> int
    decreases s.len() - i,
        when 0 <= i <= s.len()
{
    if i < s.len() && horizontal_space_char(s[i]) {
        space_run_end(s, i + 1)
    } else {
        i
    }
}

/// The position just past the maximal run of value characters starting at `i`.
pub open spec fn value_run_end(s: Seq<char>, i: int) -> int
    decreases s.len() - i,
        when 0 <= i <= s.len()
{
    if i < s.len() && value_char(s[i]) {
        value_run_end(s, i + 1)
    } else {
        i
    }
}

/// The position just past the maximal run of comment characters starting at `i`.
pub open spec fn comment_run_end(s: Seq<char>, i: int) -> int
    decreases s.len() - i,
        when 0 <= i <= s.len()
{
    if i < s.len() && comment_char(s[i]) {
        comment_run_end(s, i + 1)
    } else {
        i
    }
}

/// Every character of the run is a name character, the run stays within the
/// sequence, and the run is maximal.
pub proof fn lemma_name_run_end(s: Seq<char>, i: int)
    requires
        0 <= i <= s.len(),
    ensures
        i <= name_run_end(s, i) <= s.len(),
        forall|j: int| i <= j < name_run_end(s, i) ==> name_char(#[trigger] s[j]),
        name_run_end(s, i) < s.len() ==> !name_char(s[name_run_end(s, i)]),
    decreases s.len() - i,
{
    if i < s.len() && name_char(s[i]) {
        lemma_name_run_end(s, i + 1);
    }
}

/// Every character of the run is horizontal space, the run stays within the
/// sequence, and the run is maximal.
pub proof fn lemma_space_run_end(s: Seq<char>, i: int)
    requires
        0 <= i <= s.len(),
    ensures
        i <= space_run_end(s, i) <= s.len(),
        forall|j: int| i <= j < space_run_end(s, i) ==> horizontal_space_char(#[trigger] s[j]),
        space_run_end(s, i) < s.len() ==> !horizontal_space_char(s[space_run_end(s, i)]),
    decreases s.len() - i,
{
    if i < s.len() && horizontal_space_char(s[i]) {
        lemma_space_run_end(s, i + 1);
    }
}

/// Every character of the run is a value character, the run stays within the
/// sequence, and the run is maximal.
pub proof fn lemma_value_run_end(s: Seq<char>, i: int)
    requires
        0 <= i <= s.len(),
    ensures
        i <= value_run_end(s, i) <= s.len(),
        forall|j: int| i <= j < value_run_end(s, i) ==> value_char(#[trigger] s[j]),
        value_run_end(s, i) < s.len() ==> !value_char(s[value_run_end(s, i)]),
    decreases s.len() - i,
{
    if i < s.len() && value_char(s[i]) {
        lemma_value_run_end(s, i + 1);
    }
}

/// Every character of the run is a comment character, the run stays within
/// the sequence, and the run is maximal.
pub proof fn lemma_comment_run_end(s: Seq<char>, i: int)
    requires
        0 <= i <= s.len(),
    ensures
        i <= comment_run_end(s, i) <= s.len(),
        forall|j: int| i <= j < comment_run_end(s, i) ==> comment_char(#[trigger] s[j]),
        comment_run_end(s, i) < s.len() ==> !comment_char(s[comment_run_end(s, i)]),
    decreases s.len() - i,
{
    if i < s.len() && comment_char(s[i]) {
        lemma_comment_run_end(s, i + 1);
    }
}

/// Scan past the maximal run of name characters starting at `from`.
pub fn scan_name_run(s: &str, from: usize) -> (e: usize)
    requires
        from <= s@.len(),
    ensures
        e == name_run_end(s@, from as int),
        from <= e <= s@.len(),
{
    let len: usize = s.unicode_len();
    let mut i: usize = from;
    while i < len && is_name_char(s.get_char(i))
        invariant
            from <= i <= len,
            len == s@.len(),
            name_run_end(s@, from as int) == name_run_end(s@, i as int),
        decreases len - i,
    {
        i = i + 1;
    }
    proof {
        lemma_name_run_end(s@, i as int);
    }
    i
}

/// Scan past the maximal run of horizontal space starting at `from`.
pub fn scan_space_run(s: &str, from: usize) -> (e: usize)
    requires
        from <= s@.len(),
    ensures
        e == space_run_end(s@, from as int),
        from <= e <= s@.len(),
{
    let len: usize = s.unicode_len();
    let mut i: usize = from;
    while i < len && is_horizontal_space_char(s.get_char(i))
        invariant
            from <= i <= len,
            len == s@.len(),
            space_run_end(s@, from as int) == space_run_end(s@, i as int),
        decreases len - i,
    {
        i = i + 1;
    }
    proof {
        lemma_space_run_end(s@, i as int);
    }
    i
}

/// Scan past the maximal run of value characters starting at `from`.
pub fn scan_value_run(s: &str, from: usize) -> (e: usize)
    requires
        from <= s@.len(),
    ensures
        e == value_run_end(s@, from as int),
        from <= e <= s@.len(),
{
    let len: usize = s.unicode_len();
    let mut i: usize = from;
    while i < len && is_value_char(s.get_char(i))
        invariant
            from <= i <= len,
            len == s@.len(),
            value_run_end(s@, from as int) == value_run_end(s@, i as int),
        decreases len - i,
    {
        i = i + 1;
    }
    proof {
        lemma_value_run_end(s@, i as int);
    }
    i
}

/// Scan past the maximal run of comment characters starting at `from`.
pub fn scan_comment_run(s: &str, from: usize) -> (e: usize)
    requires
        from <= s@.len(),
    ensures
        e == comment_run_end(s@, from as int),
        from <= e <= s@.len(),
{
    let len: usize = s.unicode_len();
    let mut i: usize = from;
    while i < len && is_control_char(s.get_char(i)) == false
        invariant
            from <= i <= len,
            len == s@.len(),
            comment_run_end(s@, from as int) == comment_run_end(s@, i as int),
        decreases len - i,
    {
        i = i + 1;
    }
    proof {
        lemma_comment_run_end(s@, i as int);
    }
    i
}

} // verus!
