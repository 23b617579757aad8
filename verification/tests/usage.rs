use gemini_cost::Usage;

#[test]
fn gemini_usage_constructor_subtracts_cached() {
    let u = Usage::from_gemini(1000, 500, 300);
    assert_eq!(u.input_tokens, 700);
    assert_eq!(u.output_tokens, 500);
    assert_eq!(u.cached_input_tokens, 300);
    assert_eq!(u.total_tokens(), 1500);
}

#[test]
fn from_gemini_saturates_when_cached_exceeds_prompt() {
    let u = Usage::from_gemini(100, 5, 300);
    assert_eq!(u.input_tokens, 0);
    assert_eq!(u.output_tokens, 5);
    assert_eq!(u.cached_input_tokens, 300);
    assert_eq!(u.total_tokens(), 305);
}

#[test]
fn from_gemini_keeps_prompt_count() {
    let u = Usage::from_gemini(250_000, 7, 100_000);
    assert_eq!(u.input_tokens + u.cached_input_tokens, 250_000);
    assert_eq!(u.total_tokens(), 250_007);
}

#[test]
fn cache_hit_needs_cached_tokens() {
    let hit = Usage { input_tokens: 0, output_tokens: 0, cached_input_tokens: 1 };
    let miss = Usage { input_tokens: 10, output_tokens: 10, cached_input_tokens: 0 };
    assert!(hit.cache_hit());
    assert!(!miss.cache_hit());
}

#[test]
fn total_tokens_adds_all_three_fields() {
    let u = Usage { input_tokens: 1, output_tokens: 20, cached_input_tokens: 300 };
    assert_eq!(u.total_tokens(), 321);
    let max = Usage { input_tokens: u64::MAX - 2, output_tokens: 1, cached_input_tokens: 1 };
    assert_eq!(max.total_tokens(), u64::MAX);
}

#[test]
fn default_usage_is_zero() {
    let u = Usage::default();
    assert_eq!(u, Usage { input_tokens: 0, output_tokens: 0, cached_input_tokens: 0 });
    assert_eq!(u.total_tokens(), 0);
    assert!(!u.cache_hit());
}
