//! Cutting an identifier into the words that its capital letters begin.

use vstd::prelude::*;

verus! {

/// The pieces of `text` as the `tokenizers` crate cuts it at uppercase
/// characters, each uppercase character joined to the piece that follows it.
pub uninterp spec fn camel_case_pieces(text: Seq<char>) -> Seq<Seq<char>>;

/// Splits `text` with `tokenizers::PreTokenizedString::split`, handing each
/// part to `tokenizers::NormalizedString::split` with `char::is_uppercase`
/// and `SplitDelimiterBehavior::MergedWithNext`, and copies out the pieces
/// that `get_splits` lists. The contract only names the result.
#[verifier::external_body]
pub fn segment_camelcase(text: &str) -> (pieces: Vec<String>)
    ensures
        pieces.deep_view() == camel_case_pieces(text@),
{
    let mut pretokenized = tokenizers::PreTokenizedString::from(text);
    let done = pretokenized.split(|_, normalized| {
        normalized.split(char::is_uppercase, tokenizers::SplitDelimiterBehavior::MergedWithNext)
    });
    match done {
        Ok(()) => pretokenized.get_splits(
            tokenizers::OffsetReferential::Original,
            tokenizers::OffsetType::Byte,
        ).into_iter().map(|(piece, _, _)| piece.to_string()).collect(),
        Err(_) => Vec::new(),
    }
}

/// The words of an identifier such as `HierarchyId`.
pub fn segment(text: &str) -> (words: Vec<String>)
    ensures
        words.deep_view() == camel_case_pieces(text@),
{
    segment_camelcase(text)
}

} // verus!
