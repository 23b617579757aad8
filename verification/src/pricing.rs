//! The decisions behind a price: which billing tier a request falls in,
//! and which model of the price table a model id names.
//!
//! Some Gemini models charge a higher rate when the prompt exceeds
//! 200,000 tokens. The prompt counted here is Gemini's `promptTokenCount`,
//! fresh and cached input together.

use crate::normalize::{
    free_of, is_digit_run, is_snapshot_tag, law_dated_snapshot_resolves, law_plain_alias_kept,
    law_vertex_path_resolves_to_alias, normalize_model_id, normalized, snapshot_id, str_eq,
    vertex_marker,
};
use crate::usage::gemini_usage;
use crate::usage::Usage;
use vstd::prelude::*;

verus! {

/// Prompts above this many tokens (fresh + cached input) are billed at the
/// long-prompt tier.
pub const LONG_PROMPT_THRESHOLD: u64 = 200_000;

/// The two billing tiers of a model.
#[derive(Debug, Clone, Copy, PartialEq, Eq, Structural)]
pub enum Tier {
    /// Prompts of at most `LONG_PROMPT_THRESHOLD` tokens.
    Short,
    /// Prompts above `LONG_PROMPT_THRESHOLD` tokens.
    Long,
}

/// The tier a usage block is billed at.
pub open spec fn tier_of(usage: Usage) -> Tier {
    if usage.prompt_tokens() > LONG_PROMPT_THRESHOLD {
        Tier::Long
    } else {
        Tier::Short
    }
}

/// Pick the billing tier for a usage block: long when fresh plus cached
/// input tokens exceed `LONG_PROMPT_THRESHOLD`.
pub fn tier_for(usage: &Usage) -> (tier: Tier)
    ensures
        tier == tier_of(*usage),
{
    if usage.input_tokens > LONG_PROMPT_THRESHOLD
        || usage.cached_input_tokens > LONG_PROMPT_THRESHOLD - usage.input_tokens {
        Tier::Long
    } else {
        Tier::Short
    }
}

/// The models of the built-in price table.
#[derive(Debug, Clone, Copy, PartialEq, Eq, Structural)]
pub enum GeminiModel {
    /// `gemini-2.5-pro`
    Gemini25Pro,
    /// `gemini-2.5-flash`
    Gemini25Flash,
    /// `gemini-2.5-flash-lite`
    Gemini25FlashLite,
    /// `gemini-2.0-flash`
    Gemini20Flash,
    /// `gemini-2.0-flash-lite`
    Gemini20FlashLite,
}

impl GeminiModel {
    /// The AI Studio alias of the model.
    pub open spec fn alias(self) -> Seq<char> {
        match self {
            GeminiModel::Gemini25Pro => "gemini-2.5-pro"@,
            GeminiModel::Gemini25Flash => "gemini-2.5-flash"@,
            GeminiModel::Gemini25FlashLite => "gemini-2.5-flash-lite"@,
            GeminiModel::Gemini20Flash => "gemini-2.0-flash"@,
            GeminiModel::Gemini20FlashLite => "gemini-2.0-flash-lite"@,
        }
    }

    /// The AI Studio alias of the model, the key of its price table entry.
    pub fn id(&self) -> (id: &'static str)
        ensures
            id@ == self.alias(),
    {
        match self {
            GeminiModel::Gemini25Pro => "gemini-2.5-pro",
            GeminiModel::Gemini25Flash => "gemini-2.5-flash",
            GeminiModel::Gemini25FlashLite => "gemini-2.5-flash-lite",
            GeminiModel::Gemini20Flash => "gemini-2.0-flash",
            GeminiModel::Gemini20FlashLite => "gemini-2.0-flash-lite",
        }
    }
}

/// The model whose alias is `alias`, if the table has one.
pub open spec fn model_with_alias(alias: Seq<char>) -> Option<GeminiModel> {
    if alias == "gemini-2.5-pro"@ {
        Some(GeminiModel::Gemini25Pro)
    } else if alias == "gemini-2.5-flash"@ {
        Some(GeminiModel::Gemini25Flash)
    } else if alias == "gemini-2.5-flash-lite"@ {
        Some(GeminiModel::Gemini25FlashLite)
    } else if alias == "gemini-2.0-flash"@ {
        Some(GeminiModel::Gemini20Flash)
    } else if alias == "gemini-2.0-flash-lite"@ {
        Some(GeminiModel::Gemini20FlashLite)
    } else {
        None
    }
}

/// Find the price table entry for a Gemini model id.
///
/// Accepts Vertex resource paths and dated preview/exp snapshots: the id is
/// normalized first, then matched against the table's aliases.
pub fn lookup_model(model_id: &str) -> (model: Option<GeminiModel>)
    ensures
        model == model_with_alias(normalized(model_id@)),
{
    let key = normalize_model_id(model_id);
    if str_eq(key, "gemini-2.5-pro") {
        Some(GeminiModel::Gemini25Pro)
    } else if str_eq(key, "gemini-2.5-flash") {
        Some(GeminiModel::Gemini25Flash)
    } else if str_eq(key, "gemini-2.5-flash-lite") {
        Some(GeminiModel::Gemini25FlashLite)
    } else if str_eq(key, "gemini-2.0-flash") {
        Some(GeminiModel::Gemini20Flash)
    } else if str_eq(key, "gemini-2.0-flash-lite") {
        Some(GeminiModel::Gemini20FlashLite)
    } else {
        None
    }
}

/// Only the five aliases of the price table name a model, and each names
/// the model it is the alias of: any other alias (such as
/// `gemini-1.5-pro`) names none.
pub proof fn law_only_table_aliases_name_models(alias: Seq<char>)
    ensures
        model_with_alias(alias) is Some <==> (alias == "gemini-2.5-pro"@ || alias
            == "gemini-2.5-flash"@ || alias == "gemini-2.5-flash-lite"@ || alias
            == "gemini-2.0-flash"@ || alias == "gemini-2.0-flash-lite"@),
        alias == "gemini-2.5-pro"@ ==> model_with_alias(alias) == Some(GeminiModel::Gemini25Pro),
        alias == "gemini-2.5-flash"@ ==> model_with_alias(alias) == Some(
            GeminiModel::Gemini25Flash,
        ),
        alias == "gemini-2.5-flash-lite"@ ==> model_with_alias(alias) == Some(
            GeminiModel::Gemini25FlashLite,
        ),
        alias == "gemini-2.0-flash"@ ==> model_with_alias(alias) == Some(
            GeminiModel::Gemini20Flash,
        ),
        alias == "gemini-2.0-flash-lite"@ ==> model_with_alias(alias) == Some(
            GeminiModel::Gemini20FlashLite,
        ),
        forall|m: GeminiModel| model_with_alias(alias) == Some(m) ==> alias == m.alias(),
{
    lemma_aliases_distinct();
}

/// The five aliases of the price table are pairwise different.
proof fn lemma_aliases_distinct()
    ensures
        "gemini-2.5-pro"@ != "gemini-2.5-flash"@,
        "gemini-2.5-pro"@ != "gemini-2.5-flash-lite"@,
        "gemini-2.5-pro"@ != "gemini-2.0-flash"@,
        "gemini-2.5-pro"@ != "gemini-2.0-flash-lite"@,
        "gemini-2.5-flash"@ != "gemini-2.5-flash-lite"@,
        "gemini-2.5-flash"@ != "gemini-2.0-flash"@,
        "gemini-2.5-flash"@ != "gemini-2.0-flash-lite"@,
        "gemini-2.5-flash-lite"@ != "gemini-2.0-flash"@,
        "gemini-2.5-flash-lite"@ != "gemini-2.0-flash-lite"@,
        "gemini-2.0-flash"@ != "gemini-2.0-flash-lite"@,
{
    reveal_strlit("gemini-2.5-pro");
    reveal_strlit("gemini-2.5-flash");
    reveal_strlit("gemini-2.5-flash-lite");
    reveal_strlit("gemini-2.0-flash");
    reveal_strlit("gemini-2.0-flash-lite");
    assert("gemini-2.5-pro"@.len() == 14);
    assert("gemini-2.5-flash"@.len() == 16);
    assert("gemini-2.5-flash-lite"@.len() == 21);
    assert("gemini-2.0-flash"@.len() == 16);
    assert("gemini-2.0-flash-lite"@.len() == 21);
    assert("gemini-2.5-flash"@[9] != "gemini-2.0-flash"@[9]);
    assert("gemini-2.5-flash-lite"@[9] != "gemini-2.0-flash-lite"@[9]);
}

/// The tier depends on the prompt size alone (fresh plus cached input, not
/// output), and a larger prompt never falls back to a cheaper tier.
pub proof fn law_tier_follows_prompt_size(a: Usage, b: Usage)
    ensures
        a.prompt_tokens() == b.prompt_tokens() ==> tier_of(a) == tier_of(b),
        a.prompt_tokens() <= b.prompt_tokens() && tier_of(a) == Tier::Long ==> tier_of(b)
            == Tier::Long,
{
}

/// For a usage block built from a Gemini payload, the wire's
/// `promptTokenCount` decides the tier: cached tokens count toward the
/// long-prompt threshold.
pub proof fn law_gemini_prompt_count_decides_tier(prompt: u64, candidates: u64, cached: u64)
    requires
        cached <= prompt,
    ensures
        tier_of(gemini_usage(prompt, candidates, cached)) == if prompt > LONG_PROMPT_THRESHOLD {
            Tier::Long
        } else {
            Tier::Short
        },
{
}

/// Each model's alias resolves to that model, and so do its Vertex resource
/// paths and its dated snapshots.
pub proof fn law_known_models_resolve(
    model: GeminiModel,
    prefix: Seq<char>,
    tag: Seq<char>,
    mm: Seq<char>,
    dd: Seq<char>,
)
    requires
        is_snapshot_tag(tag),
        is_digit_run(mm, 2),
        is_digit_run(dd, 2),
    ensures
        model_with_alias(normalized(model.alias())) == Some(model),
        model_with_alias(normalized(prefix + vertex_marker() + model.alias())) == Some(model),
        model_with_alias(normalized(snapshot_id(model.alias(), tag, mm, dd))) == Some(model),
        model_with_alias(
            normalized(snapshot_id(prefix + vertex_marker() + model.alias(), tag, mm, dd)),
        ) == Some(model),
{
    reveal_strlit("gemini-2.5-pro");
    reveal_strlit("gemini-2.5-flash");
    reveal_strlit("gemini-2.5-flash-lite");
    reveal_strlit("gemini-2.0-flash");
    reveal_strlit("gemini-2.0-flash-lite");
    let alias = model.alias();
    assert(free_of(alias, '/'));
    assert(alias.len() > 0 && alias.last() != '0' && !('0' <= alias.last() <= '9'));
    law_plain_alias_kept(alias);
    law_vertex_path_resolves_to_alias(prefix, alias);
    law_dated_snapshot_resolves(alias, tag, mm, dd);
    law_dated_snapshot_resolves(prefix + vertex_marker() + alias, tag, mm, dd);
    lemma_aliases_distinct();
}

} // verus!
