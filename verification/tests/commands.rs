use daily_agent::commands::{
    expand, expand_telegram, expand_terminal, resolve, TELEGRAM_COMMANDS, TELEGRAM_FULL_ONLY,
    TERMINAL_COMMANDS, TERMINAL_FULL_ONLY,
};

#[test]
fn resolves_unique_single_letter_prefixes() {
    for (short, full) in [
        ("/d", "delete"),
        ("/r", "recent"),
        ("/c", "classify"),
        ("/e", "export"),
        ("/h", "helo"),
        ("/s", "show"),
    ] {
        assert_eq!(expand_telegram(short), format!("/{full}"));
    }
}

#[test]
fn rejects_ambiguous_or_too_short_prefixes() {
    for short in ["/p", "/pri", "/priv", "/l"] {
        assert_eq!(
            resolve(short, &TELEGRAM_COMMANDS, &TELEGRAM_FULL_ONLY),
            None,
            "{short} should be ambiguous"
        );
    }
}

#[test]
fn resolves_overlapping_commands_at_minimal_unique_prefix() {
    assert_eq!(
        resolve("/privat", &TELEGRAM_COMMANDS, &TELEGRAM_FULL_ONLY),
        Some("private")
    );
    assert_eq!(
        resolve("/privac", &TELEGRAM_COMMANDS, &TELEGRAM_FULL_ONLY),
        Some("privacy")
    );
}

#[test]
fn full_only_commands_are_not_abbreviated() {
    assert_eq!(
        resolve("/link", &TELEGRAM_COMMANDS, &TELEGRAM_FULL_ONLY),
        Some("link")
    );
    assert_eq!(resolve("/lin", &TELEGRAM_COMMANDS, &TELEGRAM_FULL_ONLY), None);
    assert_eq!(
        resolve("/log", &TELEGRAM_COMMANDS, &TELEGRAM_FULL_ONLY),
        Some("log")
    );
    assert_eq!(resolve("/lo", &TELEGRAM_COMMANDS, &TELEGRAM_FULL_ONLY), None);
}

#[test]
fn non_slash_and_empty_input_do_not_resolve() {
    assert_eq!(
        resolve("delete", &TELEGRAM_COMMANDS, &TELEGRAM_FULL_ONLY),
        None
    );
    assert_eq!(resolve("/", &TELEGRAM_COMMANDS, &TELEGRAM_FULL_ONLY), None);
    assert_eq!(resolve("", &TELEGRAM_COMMANDS, &TELEGRAM_FULL_ONLY), None);
}

#[test]
fn expand_preserves_arguments_and_passes_through_unknown_input() {
    assert_eq!(expand_terminal("/d -2"), "/delete -2");
    assert_eq!(expand_terminal("/r"), "/recent");
    assert_eq!(expand_telegram("/privat my note"), "/private my note");
    assert_eq!(expand_telegram("/delete abc"), "/delete abc");
    // plain text and non-slash input pass through unchanged
    assert_eq!(expand_terminal("plain text"), "plain text");
    assert_eq!(expand_terminal("delete 5"), "delete 5");
    // link/log are full-word only, so prefixes pass through unchanged
    assert_eq!(expand_telegram("/lin x"), "/lin x");
    assert_eq!(expand_telegram("/lo x"), "/lo x");
    // ambiguous prefixes pass through unchanged
    assert_eq!(expand_telegram("/p"), "/p");
}

#[test]
fn expand_collapses_extra_spaces_before_arguments() {
    assert_eq!(expand_terminal("/rec    5"), "/recent 5");
    assert_eq!(expand_terminal("/q\t"), "/quit");
}

#[test]
fn telegram_alias_wins_over_prefix_resolution() {
    // `/h` is an alias of `helo`, though `help` shares the prefix.
    assert_eq!(expand_telegram("/h now"), "/helo now");
    // `/a` is an alias of a command that is not in the prefix table.
    assert_eq!(expand_telegram("/a"), "/categories");
}

#[test]
fn exact_names_win_over_longer_commands() {
    let eligible = ["log", "login"];
    assert_eq!(resolve("/log", &eligible, &[]), Some("log"));
    assert_eq!(resolve("/logi", &eligible, &[]), Some("login"));
    assert_eq!(resolve("/lo", &eligible, &[]), None);
    assert_eq!(expand("/logi  x", &eligible, &[]), "/login x");
}

#[test]
fn terminal_tables_have_no_full_only_commands() {
    assert!(TERMINAL_FULL_ONLY.is_empty());
    assert_eq!(TERMINAL_COMMANDS.len(), 5);
    assert_eq!(resolve("/e", &TERMINAL_COMMANDS, &TERMINAL_FULL_ONLY), Some("exit"));
}
