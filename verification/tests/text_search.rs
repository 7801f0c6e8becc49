use daily_agent::categories::{is_valid, prompt, CATEGORIES};
use daily_agent::endpoints::{join_url, normalize_base_url, pairing_code, CHAT_COMPLETIONS_PATH};
use daily_agent::media::{media_file_name, media_kind, MediaKind};
use daily_agent::i18n::I18n;
use daily_agent::privacy::redact;
use daily_agent::search::fts_query;
use daily_agent::text::{parse_u32, replace, trim};

const ZH_LABELS: &str = r#"{"privacy.email":"[邮箱]","privacy.phone":"[手机号]","privacy.id_card":"[身份证号]","privacy.bank_card":"[银行卡号]","privacy.ip":"[IP地址]"}"#;
const EN_LABELS: &str = r#"{"privacy.email":"[EMAIL]","privacy.phone":"[PHONE]","privacy.id_card":"[ID]","privacy.bank_card":"[CARD]","privacy.ip":"[IP]"}"#;

#[test]
fn redacts_common_pii() {
    let zh = I18n::load("zh-CN", ZH_LABELS).unwrap();
    let output = redact("电话 13812345678，邮箱 a@example.com，IP 10.0.0.1", &zh);
    assert!(!output.contains("13812345678"));
    assert!(!output.contains("a@example.com"));
    assert!(!output.contains("10.0.0.1"));
}

#[test]
fn redaction_labels_follow_the_locale() {
    let zh = I18n::load("zh-CN", ZH_LABELS).unwrap();
    let en = I18n::load("en-US", EN_LABELS).unwrap();
    assert_eq!(redact("call 13812345678 now", &zh), "call [手机号] now");
    assert_eq!(redact("phone 13812345678", &en), "phone [PHONE]");
    assert_eq!(redact("mail A.B@Example.COM", &en), "mail [EMAIL]");
    assert_eq!(redact("host 192.168.0.1", &en), "host [IP]");
    assert_eq!(redact("host 192.168.0.1", &zh), "host [IP地址]");
    assert_eq!(redact("nothing here", &en), "nothing here");
}

#[test]
fn a_catalog_without_labels_shows_their_keys() {
    let empty = I18n::load("en-US", "{}").unwrap();
    assert_eq!(redact("phone 13812345678", &empty), "phone [privacy.phone]");
}

#[test]
fn builds_quoted_or_queries_from_words() {
    assert_eq!(fts_query("Rust privacy").as_deref(), Some("\"Rust\" OR \"privacy\""));
    assert_eq!(fts_query("a, bc。de\"f").as_deref(), Some("\"bc\" OR \"def\""));
    assert_eq!(fts_query("a b c"), None);
    assert_eq!(fts_query(""), None);
    assert_eq!(
        fts_query("aa bb cc dd ee ff gg hh ii jj").as_deref(),
        Some("\"aa\" OR \"bb\" OR \"cc\" OR \"dd\" OR \"ee\" OR \"ff\" OR \"gg\" OR \"hh\"")
    );
}

#[test]
fn category_names_are_fixed_english_codes() {
    assert!(is_valid("belief"));
    assert!(is_valid("other"));
    assert!(!is_valid("work"));
    assert!(!is_valid("Belief"));
    let p = prompt();
    for (name, description) in CATEGORIES {
        assert!(p.contains(&format!("- {name}: {description}")));
    }
    assert!(p.starts_with("你是个人记录分类器。"));
    assert!(p.ends_with("每条记录至少选择一个分类。"));
    assert!(p.contains("{\"assignments\":[{\"log_id\":\"...\",\"categories\":[\"...\"]}]}"));
}

#[test]
fn media_kinds_prefer_photo_then_voice_then_video() {
    assert_eq!(media_kind(true, true, true), Some(MediaKind::Photo));
    assert_eq!(media_kind(false, true, true), Some(MediaKind::Voice));
    assert_eq!(media_kind(false, false, true), Some(MediaKind::Video));
    assert_eq!(media_kind(false, false, false), None);
    assert_eq!(MediaKind::Photo.extension(), "jpg");
    assert_eq!(MediaKind::Voice.content_type(), "voice");
    assert_eq!(MediaKind::Voice.fixed_mime_type(), Some("audio/ogg"));
    assert_eq!(MediaKind::Video.fixed_mime_type(), None);
    assert_eq!(media_file_name("42", "mp4"), "42.mp4");
}

#[test]
fn endpoints_and_pairing_codes() {
    assert_eq!(normalize_base_url("http://localhost:11434//"), "http://localhost:11434");
    assert_eq!(normalize_base_url("https://x/api"), "https://x/api");
    assert_eq!(
        join_url(&normalize_base_url("https://x/v4/"), CHAT_COMPLETIONS_PATH),
        "https://x/v4/chat/completions"
    );
    assert_eq!(pairing_code("7f3a91c2e4b54c0d9a1b2c3d4e5f6a7b"), "7F3A91C2");
}

#[test]
fn text_helpers_follow_std() {
    assert_eq!(trim("\u{3000} a b \n"), "a b");
    assert_eq!(replace("{a}{a}", "{a}", "x"), "xx");
    assert_eq!(replace("aaa", "aa", "b"), "ba");
    assert_eq!(parse_u32("4294967295"), Some(u32::MAX));
    assert_eq!(parse_u32("4294967296"), None);
    assert_eq!(parse_u32("+7"), Some(7));
    assert_eq!(parse_u32("-7"), None);
    assert_eq!(parse_u32(""), None);
    assert_eq!(parse_u32("+"), None);
    for s in ["0", "12", "+3", "-0", " 1", "1 ", "x", "99999999999"] {
        assert_eq!(parse_u32(s), s.parse::<u32>().ok(), "{s}");
    }
}

#[test]
fn whitespace_is_the_unicode_white_space_set() {
    assert_eq!(trim("\u{3000}\u{a0} note\u{2029}\t"), "note");
    assert_eq!(trim("\u{85}x\u{200a}"), "x");
    // a zero-width space is not whitespace
    assert_eq!(trim("\u{200b}x"), "\u{200b}x");
}
