//! Text measures and padding.

use pad::{Alignment, PadStr};
use vstd::prelude::*;
use vstd::utf8::encode_utf8;

verus! {

/// The number of terminal columns that `text` takes up, as the `pad` crate
/// measures it (`unicode_width::UnicodeWidthStr::width`).
pub uninterp spec fn display_width(text: Seq<char>) -> nat;

/// The length of `text` in bytes of UTF-8, which is what `str::len` counts.
pub open spec fn byte_len(text: Seq<char>) -> nat {
    encode_utf8(text).len()
}

/// `count` spaces.
pub open spec fn spaces(count: nat) -> Seq<char> {
    Seq::new(count, |i: int| ' ')
}

/// `text` followed by the spaces that bring it from `columns` columns up to
/// `width`; `text` alone where it already is that wide.
pub open spec fn padded(text: Seq<char>, columns: nat, width: nat) -> Seq<char> {
    if columns >= width {
        text
    } else {
        text + spaces((width - columns) as nat)
    }
}

/// One cell of a column that is `width` columns wide.
pub open spec fn cell(text: Seq<char>, width: nat) -> Seq<char> {
    padded(text, display_width(text), width)
}

/// A text has at least as many bytes as characters.
pub proof fn lemma_byte_len_covers_chars(text: Seq<char>)
    ensures
        text.len() <= byte_len(text),
    decreases text.len(),
{
    if text.len() > 0 {
        lemma_byte_len_covers_chars(text.drop_first());
    }
}

/// A cell begins with its text, and only spaces follow. A text that takes one
/// column for each character, and no more than `width` of them, fills its
/// cell to exactly `width` characters.
pub proof fn lemma_cell_shape(text: Seq<char>, width: nat)
    ensures
        text.is_prefix_of(cell(text, width)),
        forall|i: int| text.len() <= i < cell(text, width).len() ==> cell(text, width)[i] == ' ',
        display_width(text) == text.len() && text.len() <= width ==> cell(text, width).len()
            == width,
{
}

/// Calls `pad::PadStr::pad_to_width_with_alignment` with `Alignment::Left`.
///
/// The crate measures `text` in display columns. A text that is at least
/// `width` columns wide comes back unchanged; a narrower one comes back
/// followed by one space for each missing column.
#[verifier::external_body]
pub(crate) fn pad_to_width(text: &str, width: usize) -> (cell_text: String)
    ensures
        cell_text@ == padded(text@, display_width(text@), width as nat),
{
    text.pad_to_width_with_alignment(width, Alignment::Left)
}

} // verus!
