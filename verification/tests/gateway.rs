use daily_agent::cli::{interactive_action, InteractiveAction, PrivacyArg};
use daily_agent::telegram::{access, route, short_id, truncate, Access, TelegramRoute, MAX_REPLY_CHARS};

#[test]
fn helo_is_answered_before_expansion() {
    assert_eq!(route("helo"), TelegramRoute::Helo);
    assert_eq!(route("  /helo "), TelegramRoute::Helo);
    assert_eq!(route("/h"), TelegramRoute::Helo);
    assert_eq!(route("hello"), TelegramRoute::Save { text: "hello".into() });
}

#[test]
fn telegram_commands_are_routed_and_never_saved() {
    assert_eq!(route("/start"), TelegramRoute::Start);
    assert_eq!(route("/link  ab12cd34 "), TelegramRoute::Link { code: "ab12cd34".into() });
    assert_eq!(route("/help"), TelegramRoute::Help);
    assert_eq!(route("/r"), TelegramRoute::Recent);
    assert_eq!(route("/conn"), TelegramRoute::Connections);
    assert_eq!(route("/e"), TelegramRoute::Export);
    assert_eq!(route("/privac"), TelegramRoute::Privacy);
    assert_eq!(route("/d -2"), TelegramRoute::Delete { reference: "-2".into() });
    assert_eq!(
        route("/delete /delete abc"),
        TelegramRoute::Delete { reference: "abc".into() }
    );
    assert_eq!(route("/p"), TelegramRoute::UnknownCommand);
    assert_eq!(route("/recent 5"), TelegramRoute::UnknownCommand);
}

#[test]
fn log_and_private_commands_and_text_are_saved() {
    assert_eq!(route("/log x"), TelegramRoute::Save { text: "/log x".into() });
    assert_eq!(
        route("/privat my note"),
        TelegramRoute::Save { text: "/private my note".into() }
    );
    assert_eq!(route(" 你好 "), TelegramRoute::Save { text: "你好".into() });
    assert_eq!(route(""), TelegramRoute::Save { text: "".into() });
}

#[test]
fn long_replies_are_cut_with_a_notice() {
    let short = "a".repeat(MAX_REPLY_CHARS);
    assert_eq!(truncate(&short, "(truncated)"), short);
    let long = "字".repeat(MAX_REPLY_CHARS + 5);
    let cut = truncate(&long, "(truncated)");
    assert_eq!(cut, format!("{}\n(truncated)", "字".repeat(MAX_REPLY_CHARS)));
}

#[test]
fn short_ids_are_prefixes() {
    assert_eq!(short_id("7f3a91c2-aaaa", 8), "7f3a91c2");
    assert_eq!(short_id("7f3a91c2-aaaa", 4), "7f3a");
    assert_eq!(short_id("ab", 4), "ab");
}

#[test]
fn interactive_lines_are_expanded_and_routed() {
    assert_eq!(interactive_action("   "), InteractiveAction::Skip);
    assert_eq!(interactive_action("/e"), InteractiveAction::Exit);
    assert_eq!(interactive_action("/q"), InteractiveAction::Exit);
    assert_eq!(interactive_action("x"), InteractiveAction::Reverse);
    assert_eq!(interactive_action("/x"), InteractiveAction::Reverse);
    assert_eq!(interactive_action("/r"), InteractiveAction::Recent);
    assert_eq!(interactive_action("/c"), InteractiveAction::Connections);
    assert_eq!(
        interactive_action("/d -2"),
        InteractiveAction::Delete { reference: "-2".into() }
    );
    assert_eq!(
        interactive_action("delete  abc "),
        InteractiveAction::Delete { reference: "abc".into() }
    );
    assert_eq!(
        interactive_action(" interactive log "),
        InteractiveAction::Ingest { text: "interactive log".into() }
    );
}

#[test]
fn privacy_arguments_name_stored_levels() {
    assert_eq!(PrivacyArg::Normal.as_str(), "normal");
    assert_eq!(PrivacyArg::NoUpload.as_str(), "no_upload");
}

#[test]
fn only_the_health_check_skips_the_sender_and_only_pairing_skips_linking() {
    assert_eq!(access(&route("helo")), Access::Anyone);
    assert_eq!(access(&route("/h")), Access::Anyone);
    assert_eq!(access(&route("/start")), Access::AnyAccount);
    assert_eq!(access(&route("/link ABCD1234")), Access::AnyAccount);
    assert_eq!(access(&route("/recent")), Access::LinkedAccount);
    assert_eq!(access(&route("/nope")), Access::LinkedAccount);
    assert_eq!(access(&route("just a note")), Access::LinkedAccount);
}
