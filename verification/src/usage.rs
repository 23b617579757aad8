//! Token usage block.

use vstd::prelude::*;

verus! {

/// Three-field token usage as reported by Gemini's `usageMetadata`.
///
/// The fields are disjoint: `input_tokens` counts only fresh prompt
/// tokens, `cached_input_tokens` the prompt tokens served from a context
/// cache.
#[derive(Debug, Clone, Copy, PartialEq, Eq, Structural)]
pub struct Usage {
    /// Fresh input/prompt tokens (not served from the context cache).
    pub input_tokens: u64,
    /// Output / candidate tokens.
    pub output_tokens: u64,
    /// Input tokens that were served from a context cache (cache hit).
    pub cached_input_tokens: u64,
}

impl Default for Usage {
    /// All three counts zero.
    fn default() -> (u: Self)
        ensures
            u == (Usage { input_tokens: 0, output_tokens: 0, cached_input_tokens: 0 }),
    {
        Usage { input_tokens: 0, output_tokens: 0, cached_input_tokens: 0 }
    }
}

impl Usage {
    /// The number of tokens billed: input + output + cached input.
    pub open spec fn billed_tokens(self) -> int {
        self.input_tokens + self.output_tokens + self.cached_input_tokens
    }

    /// The prompt size as Gemini counts it (`promptTokenCount`): fresh and
    /// cached input together.
    pub open spec fn prompt_tokens(self) -> int {
        self.input_tokens + self.cached_input_tokens
    }

    /// True when the request hit the context cache.
    pub fn cache_hit(&self) -> (hit: bool)
        ensures
            hit == (self.cached_input_tokens > 0),
    {
        self.cached_input_tokens > 0
    }

    /// Total tokens billed (input + output + cached_input).
    ///
    /// The sum must fit in a `u64`.
    pub fn total_tokens(&self) -> (total: u64)
        requires
            self.billed_tokens() <= u64::MAX,
        ensures
            total == self.billed_tokens(),
    {
        self.input_tokens + self.output_tokens + self.cached_input_tokens
    }

    /// Build a Usage from a Gemini `usageMetadata` payload.
    ///
    /// `prompt_token_count` includes cached tokens on the wire; this
    /// constructor subtracts them (saturating at zero) so the struct's
    /// fields are disjoint.
    pub fn from_gemini(
        prompt_token_count: u64,
        candidates_token_count: u64,
        cached_content_token_count: u64,
    ) -> (u: Self)
        ensures
            u == gemini_usage(prompt_token_count, candidates_token_count, cached_content_token_count),
            u.output_tokens == candidates_token_count,
            u.cached_input_tokens == cached_content_token_count,
            cached_content_token_count <= prompt_token_count ==> u.input_tokens
                == prompt_token_count - cached_content_token_count,
            cached_content_token_count > prompt_token_count ==> u.input_tokens == 0,
    {
        Usage {
            input_tokens: prompt_token_count.saturating_sub(cached_content_token_count),
            output_tokens: candidates_token_count,
            cached_input_tokens: cached_content_token_count,
        }
    }
}

/// The usage block that a Gemini `usageMetadata` payload stands for: the
/// cached count is taken out of the prompt count (down to zero at most).
pub open spec fn gemini_usage(prompt: u64, candidates: u64, cached: u64) -> Usage {
    Usage {
        input_tokens: if prompt >= cached { (prompt - cached) as u64 } else { 0 },
        output_tokens: candidates,
        cached_input_tokens: cached,
    }
}

/// Building a usage block from a Gemini payload keeps the wire's prompt
/// count (fresh + cached = `promptTokenCount`) whenever the cached count
/// does not exceed it, and the larger of the two otherwise; the block bills
/// that prompt count plus the candidate tokens.
pub proof fn law_from_gemini_keeps_prompt_count(prompt: u64, candidates: u64, cached: u64)
    ensures
        gemini_usage(prompt, candidates, cached).prompt_tokens() == if prompt >= cached {
            prompt as int
        } else {
            cached as int
        },
        gemini_usage(prompt, candidates, cached).billed_tokens() == gemini_usage(
            prompt,
            candidates,
            cached,
        ).prompt_tokens() + candidates,
{
}

/// Each field of a block built from a Gemini payload, whatever the
/// payload's size: the cached count is kept as the cached input, the
/// candidate count as the output, and the fresh input is the prompt count
/// minus the cached count (zero when the cached count is the larger). A
/// payload with cached tokens therefore always yields a cache hit.
pub proof fn law_from_gemini_fields(prompt: u64, candidates: u64, cached: u64)
    ensures
        gemini_usage(prompt, candidates, cached).cached_input_tokens == cached,
        gemini_usage(prompt, candidates, cached).output_tokens == candidates,
        cached <= prompt ==> gemini_usage(prompt, candidates, cached).input_tokens == prompt
            - cached,
        cached > prompt ==> gemini_usage(prompt, candidates, cached).input_tokens == 0,
        cached > 0 ==> gemini_usage(prompt, candidates, cached).cached_input_tokens > 0,
        gemini_usage(prompt, candidates, cached).input_tokens
            + gemini_usage(prompt, candidates, cached).cached_input_tokens >= cached,
{
}

} // verus!
