//! Conversion from the editor's UTF-16 offsets to protocol positions
//! (zero-based line and column in the encoding the server negotiated).

use vstd::prelude::*;

use crate::rope::{
    rope_char_to_byte, rope_char_to_line, rope_char_to_utf16, rope_chars, rope_line_to_byte,
    rope_line_to_char, rope_utf16_to_char,
};
use crate::text::{
    char_of_utf16, col_of, enc_width, lemma_char_of_utf16_le_len, lemma_line_start_le_len,
    lemma_line_start_of_line_of, lemma_weight_sum_split, lemma_weight_sum_take_monotone, line_of,
    line_start, newline_count, utf16_len, weight_sum, OffsetEncoding,
};

verus! {

/// A protocol position: zero-based line and column, the column measured in
/// the negotiated encoding's units.
#[derive(Clone, Copy, Debug, PartialEq, Eq, Structural)]
pub struct Position {
    pub line: usize,
    pub character: usize,
}

/// The line of UTF-16 offset `cu` in buffer `s`.
pub open spec fn lsp_line(s: Seq<char>, cu: nat) -> nat {
    line_of(s, char_of_utf16(s, cu))
}

/// The column of UTF-16 offset `cu` in buffer `s`, in the units of `e`.
pub open spec fn lsp_col(s: Seq<char>, cu: nat, e: OffsetEncoding) -> nat {
    col_of(s, char_of_utf16(s, cu), e)
}

/// A weight that is one on every character sums to the length.
proof fn lemma_weight_sum_all_one(s: Seq<char>, w: spec_fn(char) -> nat)
    requires
        forall|c: char| #[trigger] w(c) == 1,
    ensures
        weight_sum(s, w) == s.len(),
    decreases s.len(),
{
    if s.len() > 0 {
        lemma_weight_sum_all_one(s.skip(1), w);
    }
}

/// Facts shared by the three encoding branches: the resolved character index
/// and the start of its line are in bounds, the start is at or before the
/// character, and its line index is at most the buffer's line-break count.
proof fn lemma_pos_bounds(s: Seq<char>, cu: nat)
    ensures
        char_of_utf16(s, cu) <= s.len(),
        line_of(s, char_of_utf16(s, cu)) <= newline_count(s),
        line_start(s, line_of(s, char_of_utf16(s, cu))) <= char_of_utf16(s, cu),
        line_start(s, line_of(s, char_of_utf16(s, cu))) <= s.len(),
{
    let nl = |c: char| if c == '\n' { 1nat } else { 0nat };
    lemma_char_of_utf16_le_len(s, cu);
    let i = char_of_utf16(s, cu);
    lemma_weight_sum_take_monotone(s, i, s.len(), nl);
    assert(s.take(s.len() as int) =~= s);
    lemma_line_start_of_line_of(s, i);
    lemma_line_start_le_len(s, line_of(s, i));
}

/// Converts a UTF-16 offset in `doc` to a protocol position under
/// `offset_encoding`: the line counts the line breaks before the offset's
/// character, and the column re-measures the distance from the line start in
/// the encoding's own units.
pub fn pos_to_lsp_pos(doc: &ropey::Rope, pos: usize, offset_encoding: OffsetEncoding) -> (p:
    Position)
    requires
        pos <= utf16_len(rope_chars(doc)),
    ensures
        p.line == lsp_line(rope_chars(doc), pos as nat),
        p.character == lsp_col(rope_chars(doc), pos as nat, offset_encoding),
{
    let ghost s = rope_chars(doc);
    proof {
        lemma_pos_bounds(s, pos as nat);
    }
    let ghost i_spec = char_of_utf16(s, pos as nat);
    let ghost ls = line_start(s, line_of(s, i_spec));
    let pos_c = rope_utf16_to_char(doc, pos);

    match offset_encoding {
        OffsetEncoding::Utf8 => {
            let ghost w = |c: char| enc_width(OffsetEncoding::Utf8, c);
            let line = rope_char_to_line(doc, pos_c);
            let line_start_byte = rope_line_to_byte(doc, line);
            let byte = rope_char_to_byte(doc, pos_c);
            proof {
                lemma_weight_sum_split(s, ls, i_spec, w);
            }
            Position { line, character: byte - line_start_byte }
        },
        OffsetEncoding::Utf16 => {
            let ghost w = |c: char| enc_width(OffsetEncoding::Utf16, c);
            let line = rope_char_to_line(doc, pos_c);
            let line_start_char = rope_line_to_char(doc, line);
            let line_start_cu = rope_char_to_utf16(doc, line_start_char);
            let cu = rope_char_to_utf16(doc, pos_c);
            proof {
                lemma_weight_sum_split(s, ls, i_spec, w);
            }
            Position { line, character: cu - line_start_cu }
        },
        OffsetEncoding::Utf32 => {
            let ghost w = |c: char| enc_width(OffsetEncoding::Utf32, c);
            let line = rope_char_to_line(doc, pos_c);
            let line_start_char = rope_line_to_char(doc, line);
            proof {
                lemma_weight_sum_all_one(s.subrange(ls as int, i_spec as int), w);
            }
            Position { line, character: pos_c - line_start_char }
        },
    }
}

} // verus!
