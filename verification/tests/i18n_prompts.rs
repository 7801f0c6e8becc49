use daily_agent::i18n::{I18n, I18nError};
use daily_agent::prompts::PromptStore;

const ZH_CN: &str = r#"{"category.work":"工作","category.pending":"待分类","terminal.deleted":"已删除 {id}"}"#;
const EN_US: &str = r#"{"category.work":"Work","category.pending":"Pending","terminal.deleted":"Deleted {id}"}"#;

/// The en-US storage-decision prompt file.
const EN_STORAGE_DECISION: &str = "You are the local storage-decision component of a private journal agent. You are not a classifier or a question-answering assistant.\n\nThe user message is supplied in the input field of a JSON object. Your only task is to decide whether the sentence is worth storing as the user's personal memory. Never answer, execute, summarize, classify, tag, or continue the input.\n\nstorage_action:\n- store: the input clearly contains the user's own experience, action, state, feeling, idea, opinion, decision, plan, preference, commitment, personal fact, or something they explicitly want remembered.\n- ignore: a general knowledge question, request for explanation or instructions, temporary query, agent command, translation, calculation, greeting, test message, or content that is not a personal memory.\n- ask: the content is too short or lacks enough context to decide reliably whether it is a personal memory.\n\nA future plan is still personal information worth storing. For example, both “I am going to play ball tomorrow” and “I want to sleep earlier tonight” must be store.\n\nJudge the complete meaning rather than matching punctuation or topic words. A personal reflection may use a question form; a knowledge question usually remains ignore even when it mentions the user's project.\n\nReturn only an object matching the JSON Schema. Do not return additional fields or explanations.\n\nExamples:\n- “I am going to play ball tomorrow.” → store\n- “I want to sleep earlier tonight.” → store\n- “I fixed the Telegram connection today.” → store\n- “I have not been sleeping well recently.” → store\n- “What is SQLite?” → ignore\n- “How do I fix a Telegram connection?” → ignore\n- “Hello” → ignore\n- “Nice” → ask\n";
/// The en-US connections prompt file.
const EN_CONNECTIONS: &str = "You are a careful private-journal connection analyst. Return JSON only.\n\noverview must be concise English. connections is an array whose items contain kind, description, confidence (0 to 1), and source_log_ids (at least two IDs that actually occur in the input). kind must be one of shared_topic, person_link, time_evolution, goal_progress, tension, causal_clue. Return an empty array when evidence is insufficient, and describe causality only as a possibility.\n";
/// The zh-CN connections prompt file.
const ZH_CONNECTIONS: &str = "你是谨慎的私人日志关联分析器。只返回 JSON。\n\noverview 使用简洁中文。connections 是数组，每项包含 kind、description、confidence（0 到 1）和 source_log_ids（至少两个输入中真实存在的 ID）。kind 必须使用 shared_topic、person_link、time_evolution、goal_progress、tension、causal_clue 之一。没有充分证据时返回空数组；因果只能表述为可能。\n";
/// The storage_action section of the zh-CN local-classify prompt, which stands
/// in for a zh-CN storage-decision prompt.
const ZH_STORAGE_DECISION: &str = "storage_action：\n- store：个人经历、事实、决定、计划、感受、反思、偏好、关系变化、项目进展，或用户希望记住的信息。\n- ignore：任何知识问句、寻求解释或操作方法的请求、临时查询、Agent 操作指令、翻译、计算、寒暄或测试消息。问句中出现个人项目名称也仍然是 ignore。\n- ask：信息过短、意图模糊或无法可靠判断。\n";

#[test]
fn loads_both_supported_languages() {
    let zh = I18n::load("zh-CN", ZH_CN).unwrap();
    let en = I18n::load("en-US", EN_US).unwrap();
    assert_eq!(zh.category(Some("work")), "工作");
    assert_eq!(en.category(Some("work")), "Work");
    assert_eq!(
        en.format("terminal.deleted", &[("id", "abc")]),
        "Deleted abc"
    );
}

#[test]
fn rejects_unsupported_language() {
    assert!(I18n::load("fr-FR", EN_US).is_err());
}

#[test]
fn loads_external_prompts_for_both_languages() {
    for (storage, connections) in [
        (ZH_STORAGE_DECISION, ZH_CONNECTIONS),
        (EN_STORAGE_DECISION, EN_CONNECTIONS),
    ] {
        let prompts = PromptStore::load(storage.to_string(), connections.to_string());
        assert!(prompts.storage_decision().contains("storage_action"));
        assert!(prompts.connections().contains("shared_topic"));
    }
}

#[test]
fn unsupported_locale_and_invalid_catalog_are_distinct_errors() {
    assert_eq!(I18n::load("fr-FR", "not json").err(), Some(I18nError::UnsupportedLocale));
    assert_eq!(I18n::load("en-US", "not json").err(), Some(I18nError::InvalidJson));
    assert_eq!(I18n::load("en-US", r#"{"a": 1}"#).err(), Some(I18nError::InvalidJson));
    assert_eq!(I18n::load("en-US", "[]").err(), Some(I18nError::InvalidJson));
}

#[test]
fn missing_keys_show_in_brackets() {
    let en = I18n::load("en-US", EN_US).unwrap();
    assert_eq!(en.text("nope"), "[nope]");
    assert_eq!(en.format("nope", &[("id", "x")]), "[nope]");
    assert_eq!(en.category(Some("unknown")), "unknown");
    assert_eq!(en.category(None), "Pending");
}

#[test]
fn format_replaces_every_placeholder_in_order() {
    let en = I18n::load("en-US", r#"{"k":"{a}-{b}-{a}"}"#).unwrap();
    assert_eq!(en.format("k", &[("a", "1"), ("b", "2")]), "1-2-1");
    assert_eq!(en.format("k", &[]), "{a}-{b}-{a}");
    // a value may itself produce a later placeholder
    assert_eq!(en.format("k", &[("a", "{b}"), ("b", "2")]), "2-2-2");
}
