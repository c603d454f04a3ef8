//! Counting the tokens of a text.
use crate::store::MarrowError;
use vstd::prelude::*;
use vstd::string::*;

verus! {

/// How many `cl100k_base` tokens a text comes to, special tokens included, by the
/// `tiktoken_rs` crate; `None` where it cannot split the text.
pub uninterp spec fn cl100k_count(text: Seq<char>) -> Option<usize>;

/// `CoreBPE::encode` of the `tiktoken_rs` crate with all special tokens of
/// `cl100k_base` allowed: the number of tokens, under the name [`cl100k_count`].
#[verifier::external_body]
pub(crate) fn cl100k_tokens(text: &str) -> (r: Option<usize>)
    ensures
        r == cl100k_count(text@),
{
    let bpe = tiktoken_rs::cl100k_base_singleton();
    bpe.encode(text, &bpe.special_tokens()).ok().map(|tokens| tokens.0.len())
}

/// What is said of a text that cannot be split into tokens.
pub const NOT_TOKENIZED: &'static str = "tiktoken: the text could not be encoded";

/// The count, or the error that stands for its absence.
pub fn counted(tokens: Option<usize>) -> (r: Result<usize, MarrowError>)
    ensures
        tokens matches Some(n) ==> r == Ok::<usize, MarrowError>(n),
        tokens is None ==> (r matches Err(MarrowError::Message(m)) && m@ == NOT_TOKENIZED@),
{
    match tokens {
        Some(n) => Ok(n),
        None => Err(MarrowError::Message(NOT_TOKENIZED.to_owned())),
    }
}

/// Counts the `cl100k_base` tokens of `text`.
pub fn count_tokens(text: &str) -> (r: Result<usize, MarrowError>)
    ensures
        cl100k_count(text@) matches Some(n) ==> r == Ok::<usize, MarrowError>(n),
        cl100k_count(text@) is None ==> (r matches Err(MarrowError::Message(m)) && m@
            == NOT_TOKENIZED@),
{
    counted(cl100k_tokens(text))
}

} // verus!
