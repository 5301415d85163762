//! Token accounting reported by a back-end.
use vstd::prelude::*;

verus! {

/// Token counts of one response.
///
/// The total is held in a wider type than the two counts, so that their sum
/// always fits.
#[derive(Debug, Clone, Copy, PartialEq, Eq)]
pub struct TokenUsage {
    pub prompt_tokens: Option<u32>,
    pub completion_tokens: Option<u32>,
    pub total_tokens: Option<u64>,
}

/// The usage record of two known counts: the total is their sum.
pub open spec fn usage_of_counts(prompt: u32, completion: u32) -> TokenUsage {
    TokenUsage {
        prompt_tokens: Some(prompt),
        completion_tokens: Some(completion),
        total_tokens: Some((prompt + completion) as u64),
    }
}

impl TokenUsage {
    /// The total agrees with the two counts whenever both counts are present.
    pub open spec fn consistent(&self) -> bool {
        (self.prompt_tokens is Some && self.completion_tokens is Some) ==> self.total_tokens
            == Some((self.prompt_tokens->0 + self.completion_tokens->0) as u64)
    }

    /// A usage record with no count known.
    pub fn new() -> (usage: Self)
        ensures
            usage.prompt_tokens is None,
            usage.completion_tokens is None,
            usage.total_tokens is None,
            usage.consistent(),
    {
        Self { prompt_tokens: None, completion_tokens: None, total_tokens: None }
    }

    /// A usage record with both counts known; the total is their sum.
    pub fn with_tokens(prompt: u32, completion: u32) -> (usage: Self)
        ensures
            usage == usage_of_counts(prompt, completion),
            usage.consistent(),
    {
        let total: u64 = prompt as u64 + completion as u64;
        Self {
            prompt_tokens: Some(prompt),
            completion_tokens: Some(completion),
            total_tokens: Some(total),
        }
    }
}

} // verus!
