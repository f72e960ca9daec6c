//! What is handed to the clipboard when the user copies from the preview of
//! an icon.

use vstd::prelude::*;
use vstd::string::*;
use crate::filter::{is_shown, search_finds, Query};
use crate::models::{searched_hex_width, shown_hex_width, IconRecord, MaterialFontMeta};
use crate::text::{decimal_digits, decimal_text, hex_digits, lemma_parse_decimal_text};

verus! {

/// What of an icon is copied.
#[derive(Clone, Copy, Debug, PartialEq, Eq, Structural)]
pub enum CopyType {
    /// The name.
    Name,
    /// The code point as a decimal numeral.
    Codepoint,
    /// The code point in hexadecimal.
    HexCodepoint,
}

/// The text that copying `copy_type` of `item` gives.
pub open spec fn copied(item: IconRecord, copy_type: CopyType) -> Seq<char> {
    match copy_type {
        CopyType::Name => item.name,
        CopyType::Codepoint => decimal_digits(item.codepoint as nat),
        CopyType::HexCodepoint => hex_digits(
            item.codepoint as nat,
            shown_hex_width(item.codepoint),
        ),
    }
}

/// The text to hand to the clipboard when `copy_type` of `item` is copied.
pub fn copy_text(item: &MaterialFontMeta, copy_type: CopyType) -> (text: String)
    ensures
        text@ == copied(item@, copy_type),
{
    match copy_type {
        CopyType::Name => item.name().clone(),
        CopyType::Codepoint => decimal_text(item.codepoint()),
        CopyType::HexCodepoint => item.to_hex_codepoint(),
    }
}

/// An icon is found by what is copied of it, whatever category is selected:
/// by its code point in either form, and by its name unless that is empty.
pub proof fn lemma_copied_text_finds_icon(
    item: IconRecord,
    copy_type: CopyType,
    category: Option<Seq<char>>,
)
    requires
        copy_type == CopyType::Name ==> item.name.len() > 0,
    ensures
        copied(item, copy_type).len() > 0,
        is_shown(
            item,
            Query { selected_category: category, search_text: copied(item, copy_type) },
        ),
{
    let text = copied(item, copy_type);
    match copy_type {
        CopyType::Name => {
            assert(text.is_prefix_of(item.name));
        },
        CopyType::Codepoint => {
            lemma_parse_decimal_text(item.codepoint);
        },
        CopyType::HexCodepoint => {
            let whole = hex_digits(item.codepoint as nat, searched_hex_width());
            assert(text =~= whole.subrange(whole.len() - text.len(), whole.len() as int));
        },
    }
    assert(search_finds(item, text));
}

} // verus!
