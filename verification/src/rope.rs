//! Trusted boundary around `ropey::Rope`, the rope that backs every document
//! buffer. `rope_chars` names the characters a rope holds; each wrapper
//! states, over that name and the spec functions of [`crate::text`], what the
//! corresponding `ropey` method computes, as its source and documentation
//! show. The library is built without `ropey`'s optional line-ending
//! features, so the only line break is `'\n'`.

use vstd::prelude::*;

use crate::text::{char_of_utf16, line_start, line_of, newline_count, utf8_len, utf16_len};

verus! {

#[verifier::external_type_specification]
#[verifier::external_body]
pub struct ExRope(ropey::Rope);

/// The characters a rope holds, in order.
pub uninterp spec fn rope_chars(r: &ropey::Rope) -> Seq<char>;

/// Relies on `ropey::Rope::new`: an empty rope.
#[verifier::external_body]
pub(crate) fn rope_new() -> (r: ropey::Rope)
    ensures
        rope_chars(&r) == Seq::<char>::empty(),
{
    ropey::Rope::new()
}

/// Relies on `ropey::Rope::from_str`: the rope holds exactly the characters
/// of the text.
#[verifier::external_body]
pub(crate) fn rope_from_str(text: &str) -> (r: ropey::Rope)
    ensures
        rope_chars(&r) == text@,
{
    ropey::Rope::from_str(text)
}

/// Relies on `<ropey::Rope as Clone>::clone`: the clone holds the same
/// characters.
#[verifier::external_body]
pub(crate) fn rope_clone(r: &ropey::Rope) -> (res: ropey::Rope)
    ensures
        rope_chars(&res) == rope_chars(r),
{
    r.clone()
}

/// Relies on `ropey::Rope::len_utf16_cu`: the length in UTF-16 code units.
#[verifier::external_body]
pub(crate) fn rope_len_utf16(r: &ropey::Rope) -> (n: usize)
    ensures
        n == utf16_len(rope_chars(r)),
{
    r.len_utf16_cu()
}

/// Relies on `ropey::Rope::insert`: splices the characters of `text` in at
/// character index `at` (panics above `len_chars`, excluded here).
#[verifier::external_body]
pub(crate) fn rope_insert(r: &mut ropey::Rope, at: usize, text: &str)
    requires
        at <= rope_chars(old(r)).len(),
    ensures
        rope_chars(final(r)) == rope_chars(old(r)).take(at as int) + text@ + rope_chars(
            old(r),
        ).skip(at as int),
{
    r.insert(at, text)
}

/// Relies on `ropey::Rope::remove`: removes the characters of the range
/// (panics on an invalid range, excluded here).
#[verifier::external_body]
pub(crate) fn rope_remove(r: &mut ropey::Rope, from: usize, to: usize)
    requires
        from <= to <= rope_chars(old(r)).len(),
    ensures
        rope_chars(final(r)) == rope_chars(old(r)).take(from as int) + rope_chars(old(r)).skip(
            to as int,
        ),
{
    r.remove(from..to)
}

/// Relies on `ropey::Rope::utf16_cu_to_char`: the index of the character the
/// UTF-16 offset falls in (panics above `len_utf16_cu`, excluded here).
#[verifier::external_body]
pub(crate) fn rope_utf16_to_char(r: &ropey::Rope, cu: usize) -> (i: usize)
    requires
        cu <= utf16_len(rope_chars(r)),
    ensures
        i == char_of_utf16(rope_chars(r), cu as nat),
{
    r.utf16_cu_to_char(cu)
}

/// Relies on `ropey::Rope::char_to_utf16_cu`: the UTF-16 length of the
/// prefix before the character (panics above `len_chars`, excluded here).
#[verifier::external_body]
pub(crate) fn rope_char_to_utf16(r: &ropey::Rope, i: usize) -> (cu: usize)
    requires
        i <= rope_chars(r).len(),
    ensures
        cu == utf16_len(rope_chars(r).take(i as int)),
{
    r.char_to_utf16_cu(i)
}

/// Relies on `ropey::Rope::char_to_byte`: the UTF-8 length of the prefix
/// before the character (panics above `len_chars`, excluded here).
#[verifier::external_body]
pub(crate) fn rope_char_to_byte(r: &ropey::Rope, i: usize) -> (b: usize)
    requires
        i <= rope_chars(r).len(),
    ensures
        b == utf8_len(rope_chars(r).take(i as int)),
{
    r.char_to_byte(i)
}

/// Relies on `ropey::Rope::char_to_line`: the number of line breaks before
/// the character (panics above `len_chars`, excluded here).
#[verifier::external_body]
pub(crate) fn rope_char_to_line(r: &ropey::Rope, i: usize) -> (l: usize)
    requires
        i <= rope_chars(r).len(),
    ensures
        l == line_of(rope_chars(r), i as nat),
{
    r.char_to_line(i)
}

/// Relies on `ropey::Rope::line_to_char`: the character index of the start
/// of the line (panics above `len_lines`, excluded here).
#[verifier::external_body]
pub(crate) fn rope_line_to_char(r: &ropey::Rope, l: usize) -> (i: usize)
    requires
        l <= newline_count(rope_chars(r)),
    ensures
        i == line_start(rope_chars(r), l as nat),
{
    r.line_to_char(l)
}

/// Relies on `ropey::Rope::line_to_byte`: the UTF-8 length of the prefix
/// before the start of the line (panics above `len_lines`, excluded here).
#[verifier::external_body]
pub(crate) fn rope_line_to_byte(r: &ropey::Rope, l: usize) -> (b: usize)
    requires
        l <= newline_count(rope_chars(r)),
    ensures
        b == utf8_len(rope_chars(r).take(line_start(rope_chars(r), l as nat) as int)),
{
    r.line_to_byte(l)
}

/// Relies on `<ropey::Rope as Display>::to_string` (via `RopeSlice`'s
/// `Display`): the whole text as one string.
#[verifier::external_body]
pub(crate) fn rope_to_string(r: &ropey::Rope) -> (s: String)
    ensures
        s@ == rope_chars(r),
{
    r.to_string()
}

} // verus!
