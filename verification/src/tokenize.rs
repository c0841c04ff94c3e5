//! The byte-pair-encoding tokenizer behind the token budget.
//!
//! Token counts must match what the remote completion endpoint computes, so
//! the encoding is the `p50k_base` variant used by the legacy completion
//! model family, called through the `tiktoken-rs` crate.

use vstd::prelude::*;

verus! {

/// The `p50k_base` byte-pair encoding of a text: the sequence of token ids
/// that the tokenizer produces.  Encoding is a pure function of the text.
pub uninterp spec fn p50k_tokens(s: Seq<char>) -> Seq<u32>;

/// Relies on `tiktoken_rs::p50k_base_singleton` and
/// `CoreBPE::encode_with_special_tokens`: the tokenizer is built once from
/// data embedded in the crate and encoding depends on the text alone.
#[verifier::external_body]
fn encode_p50k(text: &str) -> (r: Vec<u32>)
    ensures
        r@ == p50k_tokens(text@),
{
    tiktoken_rs::p50k_base_singleton().encode_with_special_tokens(text)
}

/// How many tokens the prompt costs under the `p50k_base` encoding.
pub fn token_count(text: &str) -> (n: usize)
    ensures
        n == p50k_tokens(text@).len(),
{
    let tokens = encode_p50k(text);
    tokens.len()
}

} // verus!
