use gemini_cost::{lookup_model, tier_for, GeminiModel, Tier, Usage, LONG_PROMPT_THRESHOLD};

fn usage(input: u64, output: u64, cached: u64) -> Usage {
    Usage { input_tokens: input, output_tokens: output, cached_input_tokens: cached }
}

#[test]
fn vertex_resource_path_resolves() {
    let id = "projects/p/locations/us-central1/publishers/google/models/gemini-2.5-pro";
    assert_eq!(lookup_model(id), lookup_model("gemini-2.5-pro"));
    assert_eq!(lookup_model(id), Some(GeminiModel::Gemini25Pro));
}

#[test]
fn dated_preview_resolves() {
    assert_eq!(
        lookup_model("gemini-2.5-pro-preview-05-06"),
        lookup_model("gemini-2.5-pro")
    );
}

#[test]
fn unknown_model_is_none() {
    assert!(lookup_model("gemini-9000").is_none());
}

#[test]
fn every_table_alias_resolves_to_its_model() {
    let all = [
        GeminiModel::Gemini25Pro,
        GeminiModel::Gemini25Flash,
        GeminiModel::Gemini25FlashLite,
        GeminiModel::Gemini20Flash,
        GeminiModel::Gemini20FlashLite,
    ];
    let ids = [
        "gemini-2.5-pro",
        "gemini-2.5-flash",
        "gemini-2.5-flash-lite",
        "gemini-2.0-flash",
        "gemini-2.0-flash-lite",
    ];
    for (model, id) in all.iter().zip(ids.iter()) {
        assert_eq!(model.id(), *id);
        assert_eq!(lookup_model(id), Some(*model));
        let vertex = format!("projects/p/locations/l/publishers/google/models/{}", id);
        assert_eq!(lookup_model(&vertex), Some(*model));
        let dated = format!("{}-exp-01-31", id);
        assert_eq!(lookup_model(&dated), Some(*model));
    }
}

#[test]
fn near_misses_are_unknown() {
    assert_eq!(lookup_model("gemini-2.5-pr"), None);
    assert_eq!(lookup_model("gemini-2.5-pro-latest"), None);
    assert_eq!(lookup_model("Gemini-2.5-pro"), None);
    assert_eq!(lookup_model(""), None);
    assert_eq!(lookup_model("models/gemini-2.5-pro"), None);
}

#[test]
fn threshold_is_two_hundred_thousand() {
    assert_eq!(LONG_PROMPT_THRESHOLD, 200_000);
}

#[test]
fn tier_flips_just_above_threshold() {
    assert_eq!(tier_for(&usage(200_000, 0, 0)), Tier::Short);
    assert_eq!(tier_for(&usage(200_001, 0, 0)), Tier::Long);
    assert_eq!(tier_for(&usage(300_000, 0, 0)), Tier::Long);
    assert_eq!(tier_for(&usage(100_000, 50_000, 0)), Tier::Short);
}

#[test]
fn cached_tokens_count_toward_tier() {
    assert_eq!(tier_for(&usage(150_000, 0, 100_000)), Tier::Long);
    assert_eq!(tier_for(&usage(0, 0, 100_000)), Tier::Short);
    assert_eq!(tier_for(&usage(100_000, 0, 100_000)), Tier::Short);
    assert_eq!(tier_for(&usage(100_000, 0, 100_001)), Tier::Long);
}

#[test]
fn output_tokens_do_not_change_tier() {
    assert_eq!(tier_for(&usage(1, u64::MAX, 1)), Tier::Short);
}

#[test]
fn tier_never_overflows() {
    assert_eq!(tier_for(&usage(u64::MAX, 0, u64::MAX)), Tier::Long);
    assert_eq!(tier_for(&usage(0, 0, u64::MAX)), Tier::Long);
}

#[test]
fn gemini_prompt_count_decides_tier() {
    assert_eq!(tier_for(&Usage::from_gemini(250_000, 0, 100_000)), Tier::Long);
    assert_eq!(tier_for(&Usage::from_gemini(200_000, 10, 200_000)), Tier::Short);
}
