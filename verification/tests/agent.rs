use daily_agent::agent::{
    check_log_text, connection_sources_valid, format_log, ingest_plan, model_inputs,
    parse_delete_reference, positional_log_id, reverse_last_decision, validate_log_input,
    DeleteReferenceError, DeleteTarget, IngestPlan, IngestResult, LogInputError, ModelLog,
    ReversalPlan, ReversalStore, ReversibleDecision, DEFAULT_REVERSAL_TTL,
};
use daily_agent::agent::{accepted_connections, connections_of_known_kind, ProposedConnection};
use daily_agent::i18n::I18n;
use daily_agent::models::{Log, StorageAction};

fn en() -> I18n {
    I18n::load("en-US", r#"{"privacy.phone":"[PHONE]"}"#).unwrap()
}

fn proposal(kind: &str, ids: &[&str], confidence_in_range: bool) -> ProposedConnection {
    ProposedConnection {
        kind: kind.into(),
        source_log_ids: ids.iter().map(|s| s.to_string()).collect(),
        confidence_in_range,
    }
}

fn log(id: &str, text: &str, privacy_level: &str) -> Log {
    Log {
        id: id.into(),
        user_id: "owner".into(),
        channel: "terminal".into(),
        text: text.into(),
        content_type: "text".into(),
        media_path: None,
        mime_type: None,
        file_size: None,
        telegram_message_id: None,
        timestamp: "2026-01-01T00:00:00Z".into(),
        privacy_level: privacy_level.into(),
        created_at: "2026-01-01T00:00:00Z".into(),
    }
}

#[test]
fn reversal_is_single_use_and_isolated_by_user_and_channel() {
    let mut reversals = ReversalStore::default();
    reversals.remember("owner", "terminal", "keep this", &IngestResult::Ignored, 100);
    assert!(matches!(
        reverse_last_decision(&mut reversals, "other", "terminal", 101),
        ReversalPlan::Unavailable
    ));
    assert!(matches!(
        reverse_last_decision(&mut reversals, "owner", "telegram", 101),
        ReversalPlan::Unavailable
    ));
    match reverse_last_decision(&mut reversals, "owner", "terminal", 102) {
        ReversalPlan::Store { text } => assert_eq!(text, "keep this"),
        other => panic!("unexpected {other:?}"),
    }
    assert!(matches!(
        reverse_last_decision(&mut reversals, "owner", "terminal", 103),
        ReversalPlan::Unavailable
    ));

    reversals.remember(
        "owner",
        "terminal",
        "remove this",
        &IngestResult::Stored { log_id: "log-1".into() },
        200,
    );
    match reverse_last_decision(&mut reversals, "owner", "terminal", 201) {
        ReversalPlan::Delete { log_id } => assert_eq!(log_id, "log-1"),
        other => panic!("unexpected {other:?}"),
    }
}

#[test]
fn expired_decisions_cannot_be_reversed() {
    let mut expired = ReversalStore::new(0);
    expired.remember("owner", "terminal", "expired", &IngestResult::Ask, 10);
    assert!(matches!(
        reverse_last_decision(&mut expired, "owner", "terminal", 11),
        ReversalPlan::Unavailable
    ));

    let mut store = ReversalStore::new(DEFAULT_REVERSAL_TTL);
    store.remember("u", "c", "t", &IngestResult::Ask, 5);
    assert!(store.take("u", "c", 5 + DEFAULT_REVERSAL_TTL + 1).is_none());
    store.remember("u", "c", "t", &IngestResult::Ask, 5);
    match store.take("u", "c", 5 + DEFAULT_REVERSAL_TTL) {
        Some(ReversibleDecision::NotStored { text, recorded_at }) => {
            assert_eq!(text, "t");
            assert_eq!(recorded_at, 5);
        }
        other => panic!("unexpected {other:?}"),
    }
}

#[test]
fn a_later_decision_replaces_the_earlier_one() {
    let mut store = ReversalStore::new(1_000);
    store.remember("u", "c", "first", &IngestResult::Ignored, 1);
    store.remember("u", "c", "second", &IngestResult::Ask, 2);
    store.remember("v", "c", "other", &IngestResult::Ask, 3);
    match store.take("u", "c", 4) {
        Some(ReversibleDecision::NotStored { text, .. }) => assert_eq!(text, "second"),
        other => panic!("unexpected {other:?}"),
    }
    assert!(store.take("u", "c", 4).is_none());
    assert!(store.take("v", "c", 4).is_some());
}

#[test]
fn log_inputs_are_trimmed_and_checked() {
    assert_eq!(validate_log_input("  ordinary log \n", "normal"), Ok("ordinary log"));
    assert_eq!(validate_log_input("phone", "no_upload"), Ok("phone"));
    assert_eq!(validate_log_input("", "normal"), Err(LogInputError::EmptyLog));
    assert_eq!(validate_log_input(" \t", "bad"), Err(LogInputError::EmptyLog));
    assert_eq!(validate_log_input("text", "bad"), Err(LogInputError::InvalidPrivacy));
    assert_eq!(check_log_text("  store this "), Ok("store this"));
    assert_eq!(LogInputError::EmptyLog.message_key(), "error.empty_log");
    assert_eq!(LogInputError::InvalidPrivacy.message_key(), "error.invalid_privacy");
}

#[test]
fn storage_answers_map_to_ingest_plans() {
    assert_eq!(ingest_plan(Some(StorageAction::Store)), IngestPlan::Save);
    assert_eq!(ingest_plan(Some(StorageAction::Ignore)), IngestPlan::Ignore);
    assert_eq!(ingest_plan(Some(StorageAction::Ask)), IngestPlan::Ask);
    assert_eq!(ingest_plan(None), IngestPlan::Ask);
}

#[test]
fn delete_references_are_positions_from_one_to_ten_or_ids() {
    assert_eq!(parse_delete_reference("-2"), Ok(DeleteTarget::Position(2)));
    assert_eq!(parse_delete_reference("-10"), Ok(DeleteTarget::Position(10)));
    assert_eq!(parse_delete_reference("-+3"), Ok(DeleteTarget::Position(3)));
    assert_eq!(parse_delete_reference("-11"), Err(DeleteReferenceError::InvalidPosition));
    assert_eq!(parse_delete_reference("-0"), Err(DeleteReferenceError::InvalidPosition));
    assert_eq!(parse_delete_reference("-x"), Err(DeleteReferenceError::InvalidPosition));
    assert_eq!(parse_delete_reference("-"), Err(DeleteReferenceError::InvalidPosition));
    assert_eq!(parse_delete_reference("- 1"), Err(DeleteReferenceError::InvalidPosition));
    assert_eq!(
        parse_delete_reference("-99999999999"),
        Err(DeleteReferenceError::InvalidPosition)
    );
    assert_eq!(parse_delete_reference("abc"), Ok(DeleteTarget::Id("abc".into())));
    assert_eq!(parse_delete_reference("missing"), Ok(DeleteTarget::Id("missing".into())));
}

#[test]
fn positions_count_from_the_most_recent_log() {
    let recent = vec![log("c", "third", "normal"), log("b", "second", "normal"), log("a", "first", "normal")];
    assert_eq!(positional_log_id(&recent, 2), Some("b".into()));
    assert_eq!(positional_log_id(&recent, 1), Some("c".into()));
    assert_eq!(positional_log_id(&recent, 4), None);
}

#[test]
fn format_shows_id_time_and_text() {
    let l = log("abc", "ordinary log", "normal");
    assert_eq!(format_log(&l), "[abc] 2026-01-01T00:00:00Z\nordinary log");
}

#[test]
fn no_upload_logs_are_never_model_inputs() {
    let logs = vec![log("a", "normal", "normal"), log("b", "private", "no_upload")];
    assert!(model_inputs(&logs, &en()).is_none());

    let logs = vec![
        log("a", "phone 13812345678", "normal"),
        log("b", "private", "no_upload"),
        log("c", "second", "normal"),
    ];
    let inputs = model_inputs(&logs, &en()).unwrap();
    assert_eq!(inputs.len(), 2);
    assert_eq!(inputs[0].id, "a");
    assert_eq!(inputs[0].created_at, "2026-01-01T00:00:00Z");
    assert_eq!(inputs[0].text, "phone [PHONE]");
    assert_eq!(inputs[1].id, "c");
    assert_eq!(inputs[1].text, "second");
}

#[test]
fn connection_sources_must_be_two_sent_logs() {
    let inputs = vec![
        ModelLog { id: "a".into(), created_at: "t".into(), text: "first".into() },
        ModelLog { id: "b".into(), created_at: "t".into(), text: "second".into() },
    ];
    assert!(connection_sources_valid(&["a".into(), "b".into()], &inputs));
    assert!(!connection_sources_valid(&["a".into(), "missing".into()], &inputs));
    assert!(!connection_sources_valid(&["a".into()], &inputs));
    assert!(connection_sources_valid(&["b".into(), "b".into(), "a".into()], &inputs));
}

#[test]
fn connections_of_unknown_kinds_are_dropped_in_order() {
    let proposed = vec![
        proposal("shared_topic", &["a", "b"], true),
        proposal("invented", &["a", "b"], true),
        proposal("tension", &["a", "b"], false),
    ];
    assert_eq!(connections_of_known_kind(&proposed), vec![0, 2]);
    assert!(connections_of_known_kind(&[]).is_empty());
}

#[test]
fn connections_need_valid_sources_and_confidence() {
    let inputs = vec![
        ModelLog { id: "a".into(), created_at: "t".into(), text: "first".into() },
        ModelLog { id: "b".into(), created_at: "t".into(), text: "second".into() },
    ];
    let proposed = vec![
        proposal("shared_topic", &["a", "b"], true),
        proposal("shared_topic", &["a", "b"], false),
        proposal("shared_topic", &["a", "missing"], true),
        proposal("shared_topic", &["b"], true),
        proposal("goal_progress", &["b", "a"], true),
    ];
    assert_eq!(accepted_connections(&proposed, &inputs), vec![0, 4]);
}

#[test]
fn a_redacted_preview_uses_the_locale_labels() {
    let text = validate_log_input("  phone 13812345678 ", "no_upload").unwrap();
    assert_eq!(text, "phone 13812345678");
    let preview = daily_agent::privacy::redact(text, &en());
    assert!(preview.contains("[PHONE]"));
    assert!(!preview.contains("13812345678"));
}
