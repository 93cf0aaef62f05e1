//! Mathematical model of text buffers: a buffer is a sequence of characters,
//! and editor coordinates are measured in UTF-8 bytes, UTF-16 code units or
//! characters. These spec functions define every length and offset the
//! library speaks of, and the lemmas relate them.

use vstd::prelude::*;

verus! {

/// The offset encodings a language server can negotiate for positions.
#[derive(Clone, Copy, Debug, PartialEq, Eq, Structural)]
pub enum OffsetEncoding {
    /// UTF-8 code units, i.e. bytes.
    Utf8,
    /// UTF-32 code units, i.e. characters.
    Utf32,
    /// UTF-16 code units (the editor's native coordinate space).
    Utf16,
}

/// Number of UTF-16 code units that encode `c`.
pub open spec fn utf16_width(c: char) -> nat {
    if (c as nat) >= 0x10000 {
        2
    } else {
        1
    }
}

/// Number of UTF-8 bytes that encode `c`.
pub open spec fn utf8_width(c: char) -> nat {
    if (c as nat) < 0x80 {
        1
    } else if (c as nat) < 0x800 {
        2
    } else if (c as nat) < 0x10000 {
        3
    } else {
        4
    }
}

/// Width of `c` in the units of encoding `e`.
pub open spec fn enc_width(e: OffsetEncoding, c: char) -> nat {
    match e {
        OffsetEncoding::Utf8 => utf8_width(c),
        OffsetEncoding::Utf32 => 1,
        OffsetEncoding::Utf16 => utf16_width(c),
    }
}

/// Sum of `w` over the characters of `s`.
pub open spec fn weight_sum(s: Seq<char>, w: spec_fn(char) -> nat) -> nat
    decreases s.len(),
{
    if s.len() == 0 {
        0
    } else {
        w(s[0]) + weight_sum(s.skip(1), w)
    }
}

/// Length of `s` in the units of encoding `e`.
pub open spec fn enc_len(e: OffsetEncoding, s: Seq<char>) -> nat {
    weight_sum(s, |c: char| enc_width(e, c))
}

/// Length of `s` in UTF-16 code units.
pub open spec fn utf16_len(s: Seq<char>) -> nat {
    enc_len(OffsetEncoding::Utf16, s)
}

/// Length of `s` in UTF-8 bytes.
pub open spec fn utf8_len(s: Seq<char>) -> nat {
    enc_len(OffsetEncoding::Utf8, s)
}

/// The character index that UTF-16 offset `cu` falls in: the largest `i`
/// with `utf16_len(s.take(i)) <= cu`, capped at `s.len()`. An offset in the
/// middle of a surrogate pair maps to the character it belongs to.
pub open spec fn char_of_utf16(s: Seq<char>, cu: nat) -> nat
    decreases s.len(),
{
    if s.len() == 0 || cu < utf16_width(s[0]) {
        0
    } else {
        1 + char_of_utf16(s.skip(1), (cu - utf16_width(s[0])) as nat)
    }
}

/// Number of line breaks (`'\n'`) in `s`.
pub open spec fn newline_count(s: Seq<char>) -> nat {
    weight_sum(s, |c: char| if c == '\n' { 1nat } else { 0nat })
}

/// The zero-based line that character index `i` lies on: the number of line
/// breaks before it.
pub open spec fn line_of(s: Seq<char>, i: nat) -> nat {
    newline_count(s.take(i as int))
}

/// The character index of the start of line `l`: the index just after the
/// `l`-th line break, or `s.len()` when the buffer has fewer lines.
pub open spec fn line_start(s: Seq<char>, l: nat) -> nat
    decreases s.len(),
{
    if l == 0 || s.len() == 0 {
        0
    } else if s[0] == '\n' {
        1 + line_start(s.skip(1), (l - 1) as nat)
    } else {
        1 + line_start(s.skip(1), l)
    }
}

/// The column of character index `i`, measured in the units of `e` from the
/// start of the line `i` lies on.
pub open spec fn col_of(s: Seq<char>, i: nat, e: OffsetEncoding) -> nat {
    enc_len(e, s.subrange(line_start(s, line_of(s, i)) as int, i as int))
}

/// `cu` lies on a character boundary of `s` (it does not split a surrogate
/// pair).
pub open spec fn is_utf16_boundary(s: Seq<char>, cu: nat) -> bool {
    exists|i: nat| i <= s.len() && utf16_len(s.take(i as int)) == cu
}

/// Walking from character `start`, the index reached after consuming `col`
/// units of encoding `e`. This is the decoding direction of a column.
pub open spec fn char_at_col(s: Seq<char>, start: nat, col: nat, e: OffsetEncoding) -> nat
    decreases col,
{
    if col == 0 || start >= s.len() || col < enc_width(e, s[start as int]) {
        start
    } else {
        char_at_col(s, start + 1, (col - enc_width(e, s[start as int])) as nat, e)
    }
}

pub proof fn lemma_weight_sum_append(a: Seq<char>, b: Seq<char>, w: spec_fn(char) -> nat)
    ensures
        weight_sum(a + b, w) == weight_sum(a, w) + weight_sum(b, w),
    decreases a.len(),
{
    if a.len() == 0 {
        assert(a + b =~= b);
    } else {
        assert((a + b).skip(1) =~= a.skip(1) + b);
        lemma_weight_sum_append(a.skip(1), b, w);
    }
}

/// Stepping a prefix by one character adds that character's weight.
pub proof fn lemma_weight_sum_take_step(s: Seq<char>, i: nat, w: spec_fn(char) -> nat)
    requires
        i < s.len(),
    ensures
        weight_sum(s.take(i + 1 as int), w) == weight_sum(s.take(i as int), w) + w(s[i as int]),
{
    assert(s.take(i + 1 as int) =~= s.take(i as int) + seq![s[i as int]]);
    lemma_weight_sum_append(s.take(i as int), seq![s[i as int]], w);
    assert(weight_sum(seq![s[i as int]], w) == w(s[i as int]) + weight_sum(
        seq![s[i as int]].skip(1),
        w,
    ));
    assert(seq![s[i as int]].skip(1) =~= Seq::<char>::empty());
}

/// Weights over a longer prefix are no smaller.
pub proof fn lemma_weight_sum_take_monotone(s: Seq<char>, i: nat, j: nat, w: spec_fn(char) -> nat)
    requires
        i <= j <= s.len(),
    ensures
        weight_sum(s.take(i as int), w) <= weight_sum(s.take(j as int), w),
    decreases j - i,
{
    if i < j {
        lemma_weight_sum_take_step(s, (j - 1) as nat, w);
        lemma_weight_sum_take_monotone(s, i, (j - 1) as nat, w);
    }
}

/// A prefix split at `m`: the weight of `take(j)` is the weight of `take(m)`
/// plus the weight of the middle part.
pub proof fn lemma_weight_sum_split(s: Seq<char>, m: nat, j: nat, w: spec_fn(char) -> nat)
    requires
        m <= j <= s.len(),
    ensures
        weight_sum(s.take(j as int), w) == weight_sum(s.take(m as int), w) + weight_sum(
            s.subrange(m as int, j as int),
            w,
        ),
{
    assert(s.take(j as int) =~= s.take(m as int) + s.subrange(m as int, j as int));
    lemma_weight_sum_append(s.take(m as int), s.subrange(m as int, j as int), w);
}

/// Unfolding a non-empty prefix at its first character.
proof fn lemma_weight_sum_take_unfold(s: Seq<char>, i: nat, w: spec_fn(char) -> nat)
    requires
        0 < i <= s.len(),
    ensures
        weight_sum(s.take(i as int), w) == w(s[0]) + weight_sum(s.skip(1).take(i - 1), w),
{
    assert(s.take(i as int).len() > 0);
    assert(s.take(i as int)[0] == s[0]);
    assert(s.take(i as int).skip(1) =~= s.skip(1).take(i - 1));
}

/// The buffer after inserting `ins` at UTF-16 offset `from_cu`: the offset
/// is resolved to the character it falls in and the text spliced in there.
pub open spec fn insert_at_utf16(text: Seq<char>, from_cu: nat, ins: Seq<char>) -> Seq<char> {
    let i = char_of_utf16(text, from_cu);
    text.take(i as int) + ins + text.skip(i as int)
}

/// The buffer after deleting the characters between UTF-16 offsets `from_cu`
/// and `to_cu`.
pub open spec fn delete_between_utf16(text: Seq<char>, from_cu: nat, to_cu: nat) -> Seq<char> {
    let from = char_of_utf16(text, from_cu);
    let to = char_of_utf16(text, to_cu);
    text.take(from as int) + text.skip(to as int)
}

pub proof fn lemma_char_of_utf16_le_len(s: Seq<char>, cu: nat)
    ensures
        char_of_utf16(s, cu) <= s.len(),
    decreases s.len(),
{
    if !(s.len() == 0 || cu < utf16_width(s[0])) {
        lemma_char_of_utf16_le_len(s.skip(1), (cu - utf16_width(s[0])) as nat);
    }
}

/// Resolving a larger UTF-16 offset never yields a smaller character index.
pub proof fn lemma_char_of_utf16_monotone(s: Seq<char>, cu1: nat, cu2: nat)
    requires
        cu1 <= cu2,
    ensures
        char_of_utf16(s, cu1) <= char_of_utf16(s, cu2),
    decreases s.len(),
{
    if s.len() > 0 && cu1 >= utf16_width(s[0]) {
        lemma_char_of_utf16_monotone(
            s.skip(1),
            (cu1 - utf16_width(s[0])) as nat,
            (cu2 - utf16_width(s[0])) as nat,
        );
    }
}

/// Converting a character index to a UTF-16 offset and back recovers the
/// index.
pub proof fn lemma_char_of_utf16_inverse(s: Seq<char>, i: nat)
    requires
        i <= s.len(),
    ensures
        char_of_utf16(s, utf16_len(s.take(i as int))) == i,
    decreases s.len(),
{
    let w = |c: char| enc_width(OffsetEncoding::Utf16, c);
    if i == 0 {
        assert(s.take(0) =~= Seq::<char>::empty());
        assert(utf16_len(s.take(0)) == 0);
        if s.len() > 0 {
            assert(utf16_width(s[0]) >= 1);
        }
    } else {
        lemma_weight_sum_take_unfold(s, i, w);
        let cu = utf16_len(s.take(i as int));
        assert(cu == utf16_width(s[0]) + utf16_len(s.skip(1).take(i - 1)));
        lemma_char_of_utf16_inverse(s.skip(1), (i - 1) as nat);
    }
}

/// On a character boundary, the UTF-16 length of the prefix at the resolved
/// character index is the offset itself.
pub proof fn lemma_utf16_boundary_round_trip(s: Seq<char>, cu: nat)
    requires
        is_utf16_boundary(s, cu),
    ensures
        char_of_utf16(s, cu) <= s.len(),
        utf16_len(s.take(char_of_utf16(s, cu) as int)) == cu,
{
    let i = choose|i: nat| i <= s.len() && utf16_len(s.take(i as int)) == cu;
    lemma_char_of_utf16_inverse(s, i);
    lemma_char_of_utf16_le_len(s, cu);
}

pub proof fn lemma_line_start_le_len(s: Seq<char>, l: nat)
    ensures
        line_start(s, l) <= s.len(),
    decreases s.len(),
{
    if !(l == 0 || s.len() == 0) {
        if s[0] == '\n' {
            lemma_line_start_le_len(s.skip(1), (l - 1) as nat);
        } else {
            lemma_line_start_le_len(s.skip(1), l);
        }
    }
}

/// The start of the line a character lies on is at or before the character.
pub proof fn lemma_line_start_of_line_of(s: Seq<char>, i: nat)
    requires
        i <= s.len(),
    ensures
        line_start(s, line_of(s, i)) <= i,
    decreases s.len(),
{
    let w = |c: char| if c == '\n' { 1nat } else { 0nat };
    if i == 0 {
        assert(s.take(0) =~= Seq::<char>::empty());
        assert(newline_count(s.take(0)) == 0);
    } else {
        lemma_weight_sum_take_unfold(s, i, w);
        let l = line_of(s, i);
        assert(l == w(s[0]) + line_of(s.skip(1), (i - 1) as nat));
        lemma_line_start_of_line_of(s.skip(1), (i - 1) as nat);
        if s[0] == '\n' {
            assert(line_start(s, l) == 1 + line_start(s.skip(1), (l - 1) as nat));
        } else if l > 0 {
            assert(line_start(s, l) == 1 + line_start(s.skip(1), l));
        }
    }
}

/// Walking a column of `col` units from `start` lands on the character whose
/// distance from `start` measures `col`: decoding inverts encoding.
pub proof fn lemma_char_at_col_inverse(s: Seq<char>, start: nat, i: nat, e: OffsetEncoding)
    requires
        start <= i <= s.len(),
    ensures
        char_at_col(s, start, enc_len(e, s.subrange(start as int, i as int)), e) == i,
    decreases i - start,
{
    let w = |c: char| enc_width(e, c);
    let col = enc_len(e, s.subrange(start as int, i as int));
    if start == i {
        assert(s.subrange(start as int, i as int) =~= Seq::<char>::empty());
    } else {
        let part = s.subrange(start as int, i as int);
        assert(part.len() > 0);
        assert(part[0] == s[start as int]);
        assert(part.skip(1) =~= s.subrange(start as int + 1, i as int));
        assert(col == w(s[start as int]) + enc_len(e, s.subrange(start as int + 1, i as int)));
        assert(enc_width(e, s[start as int]) >= 1);
        lemma_char_at_col_inverse(s, start + 1, i, e);
    }
}

/// Offset round trip: a UTF-16 offset on a character boundary, converted to a
/// character index and then to a line and a column in any of the three
/// encodings, is recovered exactly by walking the column from the line start
/// and measuring the prefix in UTF-16 units again.
pub proof fn lemma_offset_round_trip(s: Seq<char>, cu: nat, e: OffsetEncoding)
    requires
        is_utf16_boundary(s, cu),
    ensures
        ({
            let i = char_of_utf16(s, cu);
            let ls = line_start(s, line_of(s, i));
            char_at_col(s, ls, col_of(s, i, e), e) == i && utf16_len(s.take(i as int)) == cu
        }),
{
    lemma_utf16_boundary_round_trip(s, cu);
    let i = char_of_utf16(s, cu);
    lemma_line_start_of_line_of(s, i);
    let ls = line_start(s, line_of(s, i));
    lemma_char_at_col_inverse(s, ls, i, e);
}

} // verus!
