//! Cost accounting for Gemini API calls: token usage blocks, the
//! long-prompt billing tier, and model id normalization.
//!
//! Gemini's `usageMetadata` block reports `promptTokenCount`,
//! `candidatesTokenCount`, and `cachedContentTokenCount`. Some models
//! charge a different rate when `promptTokenCount > 200_000`. This crate
//! decides that tier, resolves model ids (Vertex resource paths and dated
//! snapshots included) to the models of its price table, and keeps the
//! `Usage` block from which a cost is computed.

mod normalize;
mod pricing;
mod usage;

pub use normalize::normalize_model_id;
pub use pricing::{lookup_model, tier_for, GeminiModel, Tier, LONG_PROMPT_THRESHOLD};
pub use usage::Usage;
