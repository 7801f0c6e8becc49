use daily_agent::classify::{
    is_connection_kind, is_redundant_detail_key, legacy_category, normalize_system_tags,
    normalize_topic_tags, validate_analysis, validate_categorized_output, validate_tagged_output,
    AnalysisError, LocalOutputError,
};

fn strings(v: &[&str]) -> Vec<String> {
    v.iter().map(|s| s.to_string()).collect()
}

#[test]
fn accepts_a_valid_remote_analysis() {
    assert_eq!(validate_analysis("work", "positive", 4), Ok(()));
}

#[test]
fn rejects_invalid_analysis_codes_and_values_in_order() {
    assert_eq!(validate_analysis("invalid", "positive", 4), Err(AnalysisError::InvalidCategory));
    assert_eq!(validate_analysis("work", "invalid", 4), Err(AnalysisError::InvalidSentiment));
    assert_eq!(validate_analysis("work", "positive", 9), Err(AnalysisError::InvalidImportance));
    assert_eq!(validate_analysis("work", "positive", 0), Err(AnalysisError::InvalidImportance));
    assert_eq!(validate_analysis("invalid", "invalid", 9), Err(AnalysisError::InvalidCategory));
}

#[test]
fn keeps_only_known_connection_kinds() {
    assert!(is_connection_kind("shared_topic"));
    assert!(is_connection_kind("causal_clue"));
    assert!(!is_connection_kind("invented"));
    assert!(!is_connection_kind(""));
}

#[test]
fn checks_tagged_local_output() {
    let tags = strings(&["activity", "work"]);
    assert_eq!(validate_tagged_output(true, "activity", &tags, true, "positive", 4), Ok(()));
    assert_eq!(
        validate_tagged_output(false, "activity", &tags, true, "positive", 4),
        Err(LocalOutputError::InvalidConfidence)
    );
    assert_eq!(
        validate_tagged_output(true, "work", &tags, true, "positive", 4),
        Err(LocalOutputError::InvalidPrimaryTag)
    );
    assert_eq!(
        validate_tagged_output(true, "activity", &[], true, "positive", 4),
        Err(LocalOutputError::InvalidSystemTags)
    );
    assert_eq!(
        validate_tagged_output(true, "activity", &strings(&["activity", "invented"]), true, "positive", 4),
        Err(LocalOutputError::InvalidSystemTags)
    );
    assert_eq!(
        validate_tagged_output(true, "activity", &tags, false, "positive", 4),
        Err(LocalOutputError::DetailsNotObject)
    );
    assert_eq!(
        validate_tagged_output(true, "activity", &tags, true, "happy", 4),
        Err(LocalOutputError::InvalidSentiment)
    );
    assert_eq!(
        validate_tagged_output(true, "activity", &tags, true, "positive", 6),
        Err(LocalOutputError::InvalidImportance)
    );
}

#[test]
fn checks_categorized_local_output() {
    assert_eq!(validate_categorized_output(true, "work", "positive", 4), Ok(()));
    assert_eq!(
        validate_categorized_output(false, "work", "positive", 4),
        Err(LocalOutputError::InvalidConfidence)
    );
    assert_eq!(
        validate_categorized_output(true, "invalid", "positive", 4),
        Err(LocalOutputError::InvalidCategory)
    );
    assert_eq!(
        validate_categorized_output(true, "work", "invalid", 4),
        Err(LocalOutputError::InvalidSentiment)
    );
    assert_eq!(
        validate_categorized_output(true, "work", "positive", 0),
        Err(LocalOutputError::InvalidImportance)
    );
}

#[test]
fn system_tags_gain_the_primary_tag_and_are_sorted_once() {
    assert_eq!(
        normalize_system_tags("activity", strings(&["work", "activity"])),
        strings(&["activity", "work"])
    );
    assert_eq!(
        normalize_system_tags("plan", strings(&["work", "health", "work"])),
        strings(&["health", "plan", "work"])
    );
    assert_eq!(normalize_system_tags("idea", vec![]), strings(&["idea"]));
}

#[test]
fn topic_tags_are_trimmed_lowercased_sorted_and_unique() {
    assert_eq!(normalize_topic_tags(strings(&["Testing"])), strings(&["testing"]));
    assert_eq!(
        normalize_topic_tags(strings(&["  Rust ", "rust", "", "  ", "Async IO", "ÄPFEL"])),
        strings(&["async io", "rust", "äpfel"])
    );
}

#[test]
fn maps_primary_tags_to_legacy_categories() {
    assert_eq!(legacy_category("idea"), "inspiration");
    assert_eq!(legacy_category("reflection"), "emotions");
    assert_eq!(legacy_category("lesson"), "emotions");
    assert_eq!(legacy_category("question"), "study");
    assert_eq!(legacy_category("activity"), "life");
}

#[test]
fn detail_keys_that_repeat_fields_are_redundant() {
    for key in ["primary_tag", "system_tags", "topic_tags", "storage_action"] {
        assert!(is_redundant_detail_key(key));
    }
    assert!(!is_redundant_detail_key("project"));
}
