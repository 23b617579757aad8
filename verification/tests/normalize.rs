use gemini_cost::normalize_model_id;

#[test]
fn strips_vertex_resource_path() {
    assert_eq!(
        normalize_model_id(
            "projects/p/locations/us-central1/publishers/google/models/gemini-2.5-pro"
        ),
        "gemini-2.5-pro"
    );
}

#[test]
fn strips_dated_preview() {
    assert_eq!(
        normalize_model_id("gemini-2.5-pro-preview-05-06"),
        "gemini-2.5-pro"
    );
    assert_eq!(
        normalize_model_id("gemini-2.0-flash-exp-12-01"),
        "gemini-2.0-flash"
    );
}

#[test]
fn keeps_plain_alias() {
    assert_eq!(normalize_model_id("gemini-2.5-pro"), "gemini-2.5-pro");
    assert_eq!(normalize_model_id("gemini-2.5-flash"), "gemini-2.5-flash");
}

#[test]
fn strips_vertex_path_and_snapshot_together() {
    assert_eq!(
        normalize_model_id(
            "projects/p/locations/l/publishers/google/models/gemini-2.5-flash-preview-04-17"
        ),
        "gemini-2.5-flash"
    );
}

#[test]
fn slash_without_vertex_marker_is_kept() {
    assert_eq!(normalize_model_id("models/gemini-2.5-pro"), "models/gemini-2.5-pro");
    assert_eq!(normalize_model_id("a/b/c"), "a/b/c");
}

#[test]
fn marker_only_path_keeps_what_follows_last_slash() {
    assert_eq!(normalize_model_id("/publishers/google/models/"), "");
    assert_eq!(normalize_model_id("x/publishers/google/models/a/b"), "b");
}

#[test]
fn snapshot_suffix_needs_two_digit_fields() {
    assert_eq!(normalize_model_id("gemini-2.5-pro-preview-5-06"), "gemini-2.5-pro-preview-5-06");
    assert_eq!(normalize_model_id("gemini-2.5-pro-preview-05-6"), "gemini-2.5-pro-preview-05-6");
    assert_eq!(normalize_model_id("gemini-2.5-pro-preview-05-0a"), "gemini-2.5-pro-preview-05-0a");
    assert_eq!(normalize_model_id("gemini-2.5-pro-preview-123-06"), "gemini-2.5-pro-preview-123-06");
}

#[test]
fn snapshot_suffix_needs_known_tag() {
    assert_eq!(normalize_model_id("gemini-2.5-pro-beta-05-06"), "gemini-2.5-pro-beta-05-06");
    assert_eq!(normalize_model_id("gemini-2.5-pro-Preview-05-06"), "gemini-2.5-pro-Preview-05-06");
    assert_eq!(normalize_model_id("gemini-2.5-proexp-05-06"), "gemini-2.5-proexp-05-06");
}

#[test]
fn snapshot_suffix_needs_dash_before_tag() {
    assert_eq!(normalize_model_id("preview-05-06"), "preview-05-06");
    assert_eq!(normalize_model_id("-preview-05-06"), "");
    assert_eq!(normalize_model_id("x-exp-01-02"), "x");
}

#[test]
fn only_one_snapshot_suffix_is_stripped() {
    assert_eq!(
        normalize_model_id("m-preview-01-02-exp-03-04"),
        "m-preview-01-02"
    );
}

#[test]
fn non_ascii_ids_are_handled_by_character() {
    assert_eq!(normalize_model_id("gémini-2.5-pro-exp-01-02"), "gémini-2.5-pro");
    assert_eq!(normalize_model_id("gemini-exp-٠١-02"), "gemini-exp-٠١-02");
    assert_eq!(normalize_model_id(""), "");
}
