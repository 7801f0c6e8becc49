//! Short-command prefix resolution shared by Terminal and Telegram.
//!
//! A slash command may be invoked by its shortest unique prefix: `/d` resolves
//! to `/delete`, `/r` to `/recent`, and so on. When two commands share a prefix,
//! the caller must type enough characters to disambiguate (`/privat` for
//! `/private`, `/privac` for `/privacy`). Commands in the `*_FULL_ONLY` sets are
//! matched by their full name only and are never abbreviated, which keeps
//! `/link` and `/log` from being triggered by a typo.
use crate::text::{find_ws, lemma_find_ws_from_bounds, push_char, spec_find_ws, spec_find_ws_from, spec_is_whitespace, spec_trim_start, starts_with, str_eq, trim_start};
use vstd::prelude::*;
use vstd::string::*;

verus! {

/// Telegram commands that may be abbreviated by shortest unique prefix.
pub const TELEGRAM_COMMANDS: [&'static str; 11] = [
    "start",
    "help",
    "helo",
    "classify",
    "show",
    "recent",
    "connections",
    "export",
    "delete",
    "privacy",
    "private",
];

/// Telegram commands matched by full name only (never abbreviated).
pub const TELEGRAM_FULL_ONLY: [&'static str; 2] = ["link", "log"];

/// Terminal interactive commands that may be abbreviated by shortest unique prefix.
pub const TERMINAL_COMMANDS: [&'static str; 5] = ["exit", "quit", "recent", "connections", "delete"];

/// Terminal commands matched by full name only.
pub const TERMINAL_FULL_ONLY: [&'static str; 0] = [];

/// The character sequences of a list of command names.
pub open spec fn views(cmds: Seq<&str>) -> Seq<Seq<char>> {
    cmds.map_values(|c: &str| c@)
}

/// The characters of an optional string.
pub open spec fn opt_view(o: Option<&str>) -> Option<Seq<char>> {
    match o {
        Some(s) => Some(s@),
        None => None,
    }
}

/// The commands of `cmds` that start with `name`, in order.
pub open spec fn prefix_matches(name: Seq<char>, cmds: Seq<Seq<char>>) -> Seq<Seq<char>>
    decreases cmds.len(),
{
    if cmds.len() == 0 {
        Seq::empty()
    } else {
        let earlier = prefix_matches(name, cmds.drop_last());
        if name.is_prefix_of(cmds.last()) {
            earlier.push(cmds.last())
        } else {
            earlier
        }
    }
}

/// What a command token resolves to: `None` without a leading `/` or with an
/// empty name; the name itself when it is the full name of a command of either
/// list; otherwise the one abbreviable command it is a prefix of, if exactly
/// one.
pub open spec fn spec_resolve(
    token: Seq<char>,
    eligible: Seq<Seq<char>>,
    full_only: Seq<Seq<char>>,
) -> Option<Seq<char>> {
    if token.len() == 0 || token[0] != '/' {
        None
    } else {
        let name = token.drop_first();
        if name.len() == 0 {
            None
        } else if (eligible + full_only).contains(name) {
            Some(name)
        } else {
            let m = prefix_matches(name, eligible);
            if m.len() == 1 {
                Some(m[0])
            } else {
                None
            }
        }
    }
}

/// The first whitespace-delimited token of `s`.
pub open spec fn spec_token(s: Seq<char>) -> Seq<char> {
    s.take(spec_find_ws(s))
}

/// What follows the first token of `s`, without leading whitespace.
pub open spec fn spec_rest(s: Seq<char>) -> Seq<char> {
    spec_trim_start(s.skip(spec_find_ws(s)))
}

/// `/cmd`, or `/cmd rest` when there are arguments.
pub open spec fn spec_command_line(cmd: Seq<char>, rest: Seq<char>) -> Seq<char> {
    if rest.len() == 0 {
        seq!['/'] + cmd
    } else {
        seq!['/'] + cmd + seq![' '] + rest
    }
}

/// The input with its command token replaced by the full command, or the
/// input unchanged when the token does not resolve.
pub open spec fn spec_expand(
    input: Seq<char>,
    eligible: Seq<Seq<char>>,
    full_only: Seq<Seq<char>>,
) -> Seq<char> {
    match spec_resolve(spec_token(input), eligible, full_only) {
        Some(cmd) => spec_command_line(cmd, spec_rest(input)),
        None => input,
    }
}

/// The fixed single-letter Telegram aliases.
pub open spec fn spec_telegram_alias(token: Seq<char>) -> Option<Seq<char>> {
    if token == "/h"@ {
        Some("helo"@)
    } else if token == "/c"@ {
        Some("classify"@)
    } else if token == "/s"@ {
        Some("show"@)
    } else if token == "/r"@ {
        Some("recent"@)
    } else if token == "/d"@ {
        Some("delete"@)
    } else if token == "/e"@ {
        Some("export"@)
    } else if token == "/a"@ {
        Some("categories"@)
    } else {
        None
    }
}

/// Telegram expansion: a fixed alias first, then prefix resolution.
pub open spec fn spec_expand_telegram(input: Seq<char>) -> Seq<char> {
    match spec_telegram_alias(spec_token(input)) {
        Some(cmd) => spec_command_line(cmd, spec_rest(input)),
        None => spec_expand(input, views(TELEGRAM_COMMANDS@), views(TELEGRAM_FULL_ONLY@)),
    }
}

proof fn lemma_prefix_matches_monotone(name: Seq<char>, cmds: Seq<Seq<char>>, k: int)
    requires
        0 <= k <= cmds.len(),
    ensures
        prefix_matches(name, cmds.take(k)).len() <= prefix_matches(name, cmds).len(),
    decreases cmds.len(),
{
    if k == cmds.len() {
        assert(cmds.take(k) =~= cmds);
    } else {
        assert(cmds.drop_last().take(k) =~= cmds.take(k));
        lemma_prefix_matches_monotone(name, cmds.drop_last(), k);
    }
}

/// Splits `input` into the first whitespace-delimited token and the remaining
/// arguments (leading whitespace trimmed). Input without whitespace yields
/// `(input, "")`.
fn split_command(input: &str) -> (r: (&str, &str))
    ensures
        r.0@ == spec_token(input@),
        r.1@ == spec_rest(input@),
{
    let n = input.unicode_len();
    let idx = find_ws(input);
    proof {
        lemma_find_ws_from_bounds(input@, 0);
    }
    let token = input.substring_char(0, idx);
    let tail = input.substring_char(idx, n);
    assert(tail@ =~= input@.skip(idx as int));
    (token, trim_start(tail))
}

/// Resolves a command token (with a leading `/`) to its canonical full name.
///
/// An exact full match always wins. Otherwise the token is treated as a prefix
/// and matched against `eligible` only; it resolves only if it is a unique
/// prefix of exactly one command. Returns `None` for non-slash, empty,
/// ambiguous, or unrecognized input.
pub fn resolve<'a>(token: &str, eligible: &'a [&'a str], full_only: &'a [&'a str]) -> (r: Option<
    &'a str,
>)
    ensures
        opt_view(r) == spec_resolve(token@, views(eligible@), views(full_only@)),
        r matches Some(c) ==> views(eligible@).contains(c@) || views(full_only@).contains(c@),
        r matches Some(c) ==> (!views(eligible@).contains(c@) ==> c@ == token@.drop_first()),
{
    let ghost ev = views(eligible@);
    let ghost fv = views(full_only@);
    let n = token.unicode_len();
    if n == 0 {
        return None;
    }
    if token.get_char(0) != '/' {
        return None;
    }
    if n == 1 {
        return None;
    }
    let name = token.substring_char(1, n);
    assert(name@ =~= token@.drop_first());
    let mut i: usize = 0;
    while i < eligible.len()
        invariant
            ev == views(eligible@),
            name@ == token@.drop_first(),
            n == token@.len(),
            n >= 2,
            token@[0] == '/',
            i <= eligible@.len(),
            forall|j: int| 0 <= j < i ==> ev[j] != name@,
            fv == views(full_only@),
        decreases eligible@.len() - i,
    {
        if str_eq(eligible[i], name) {
            assert(ev[i as int] == eligible@[i as int]@);
            assert((ev + fv)[i as int] == name@);
            return Some(eligible[i]);
        }
        i = i + 1;
    }
    let mut i: usize = 0;
    while i < full_only.len()
        invariant
            ev == views(eligible@),
            fv == views(full_only@),
            name@ == token@.drop_first(),
            n == token@.len(),
            n >= 2,
            token@[0] == '/',
            i <= full_only@.len(),
            forall|j: int| 0 <= j < ev.len() ==> ev[j] != name@,
            forall|j: int| 0 <= j < i ==> fv[j] != name@,
        decreases full_only@.len() - i,
    {
        if str_eq(full_only[i], name) {
            assert(fv[i as int] == full_only@[i as int]@);
            assert((ev + fv)[ev.len() + i] == name@);
            return Some(full_only[i]);
        }
        i = i + 1;
    }
    assert(!(ev + fv).contains(name@)) by {
        if (ev + fv).contains(name@) {
            let k = choose|k: int| 0 <= k < (ev + fv).len() && (ev + fv)[k] == name@;
            if k < ev.len() {
                assert(ev[k] == name@);
            } else {
                assert(fv[k - ev.len()] == name@);
            }
        }
    }
    let mut matched: Option<&'a str> = None;
    let mut i: usize = 0;
    assert(ev.take(0) =~= Seq::<Seq<char>>::empty());
    while i < eligible.len()
        invariant
            ev == views(eligible@),
            name@ == token@.drop_first(),
            n == token@.len(),
            n >= 2,
            token@[0] == '/',
            i <= eligible@.len(),
            matched is None <==> prefix_matches(name@, ev.take(i as int)).len() == 0,
            matched matches Some(c) ==> prefix_matches(name@, ev.take(i as int)).len() == 1
                && prefix_matches(name@, ev.take(i as int))[0] == c@ && ev.contains(c@),
            prefix_matches(name@, ev.take(i as int)).len() <= 1,
            fv == views(full_only@),
            !(ev + fv).contains(name@),
        decreases eligible@.len() - i,
    {
        assert(ev.take(i + 1).drop_last() =~= ev.take(i as int));
        assert(ev.take(i + 1).last() == eligible@[i as int]@);
        if starts_with(eligible[i], name) {
            if matched.is_some() {
                proof {
                    lemma_prefix_matches_monotone(name@, ev, i + 1);
                }
                return None;
            }
            assert(ev[i as int] == eligible@[i as int]@);
            matched = Some(eligible[i]);
        }
        i = i + 1;
    }
    assert(ev.take(eligible@.len() as int) =~= ev);
    matched
}

/// `/cmd` followed by ` rest` when `rest` is not empty.
fn command_line(cmd: &str, rest: &str) -> (r: String)
    ensures
        r@ == spec_command_line(cmd@, rest@),
{
    let mut out = String::new();
    push_char(&mut out, '/');
    out.append(cmd);
    if rest.unicode_len() == 0 {
        assert(out@ =~= seq!['/'] + cmd@);
    } else {
        push_char(&mut out, ' ');
        out.append(rest);
        assert(out@ =~= seq!['/'] + cmd@ + seq![' '] + rest@);
    }
    out
}

/// Expands a short command prefix in `input` to its full form, preserving any
/// arguments. Input that is not a recognized command is returned unchanged, so
/// plain text and unknown commands pass through untouched.
pub fn expand(input: &str, eligible: &[&str], full_only: &[&str]) -> (r: String)
    ensures
        r@ == spec_expand(input@, views(eligible@), views(full_only@)),
{
    let (token, rest) = split_command(input);
    match resolve(token, eligible, full_only) {
        Some(cmd) => command_line(cmd, rest),
        None => input.to_owned(),
    }
}

fn telegram_alias(token: &str) -> (r: Option<&'static str>)
    ensures
        opt_view(r) == spec_telegram_alias(token@),
{
    if str_eq(token, "/h") {
        Some("helo")
    } else if str_eq(token, "/c") {
        Some("classify")
    } else if str_eq(token, "/s") {
        Some("show")
    } else if str_eq(token, "/r") {
        Some("recent")
    } else if str_eq(token, "/d") {
        Some("delete")
    } else if str_eq(token, "/e") {
        Some("export")
    } else if str_eq(token, "/a") {
        Some("categories")
    } else {
        None
    }
}

/// Expands Telegram short-command prefixes to their full forms.
pub fn expand_telegram(input: &str) -> (r: String)
    ensures
        r@ == spec_expand_telegram(input@),
{
    let (token, rest) = split_command(input);
    match telegram_alias(token) {
        Some(command) => command_line(command, rest),
        None => expand(input, &TELEGRAM_COMMANDS, &TELEGRAM_FULL_ONLY),
    }
}

/// Expands Terminal short-command prefixes to their full forms.
pub fn expand_terminal(input: &str) -> (r: String)
    ensures
        r@ == spec_expand(input@, views(TERMINAL_COMMANDS@), views(TERMINAL_FULL_ONLY@)),
{
    expand(input, &TERMINAL_COMMANDS, &TERMINAL_FULL_ONLY)
}

proof fn lemma_prefix_matches_members(name: Seq<char>, cmds: Seq<Seq<char>>)
    ensures
        forall|i: int| 0 <= i < prefix_matches(name, cmds).len() ==> cmds.contains(
            #[trigger] prefix_matches(name, cmds)[i],
        ) && name.is_prefix_of(prefix_matches(name, cmds)[i]),
    decreases cmds.len(),
{
    if cmds.len() > 0 {
        lemma_prefix_matches_members(name, cmds.drop_last());
        let earlier = prefix_matches(name, cmds.drop_last());
        assert forall|i: int| 0 <= i < earlier.len() implies cmds.contains(#[trigger] earlier[i]) by {
            let k = choose|k: int| 0 <= k < cmds.drop_last().len() && cmds.drop_last()[k] == earlier[i];
            assert(cmds[k] == earlier[i]);
        }
        assert(cmds[cmds.len() - 1] == cmds.last());
    }
}

/// The index of the first whitespace at or after `i` is `k` when there is
/// none in between and `k` ends `s` or holds whitespace.
proof fn lemma_find_ws_at(s: Seq<char>, i: int, k: int)
    requires
        0 <= i <= k <= s.len(),
        forall|j: int| i <= j < k ==> !spec_is_whitespace(#[trigger] s[j]),
        k == s.len() || spec_is_whitespace(s[k]),
    ensures
        spec_find_ws_from(s, i) == k,
    decreases k - i,
{
    if i < k {
        lemma_find_ws_at(s, i + 1, k);
    }
}

/// Whether no character of `s` is whitespace.
pub open spec fn spec_no_whitespace(s: Seq<char>) -> bool {
    forall|j: int| 0 <= j < s.len() ==> !spec_is_whitespace(#[trigger] s[j])
}

/// Expanding an expanded line gives it back, when no command name contains
/// whitespace.
pub proof fn law_expand_is_idempotent(input: Seq<char>, eligible: Seq<Seq<char>>, full_only: Seq<Seq<char>>)
    requires
        forall|i: int| 0 <= i < eligible.len() ==> spec_no_whitespace(#[trigger] eligible[i]),
        forall|i: int| 0 <= i < full_only.len() ==> spec_no_whitespace(#[trigger] full_only[i]),
    ensures
        spec_expand(spec_expand(input, eligible, full_only), eligible, full_only) == spec_expand(
            input,
            eligible,
            full_only,
        ),
{
    let out = spec_expand(input, eligible, full_only);
    match spec_resolve(spec_token(input), eligible, full_only) {
        Some(cmd) => {
            let token = spec_token(input);
            let name = token.drop_first();
            let rest = spec_rest(input);
            lemma_prefix_matches_members(name, eligible);
            // the resolved command is a non-empty name of one of the tables
            assert((eligible + full_only).contains(cmd) && cmd.len() > 0) by {
                if !(eligible + full_only).contains(name) {
                    let m = prefix_matches(name, eligible);
                    assert(m.len() == 1);
                    assert(eligible.contains(m[0]));
                    let k = choose|k: int| 0 <= k < eligible.len() && eligible[k] == m[0];
                    assert((eligible + full_only)[k] == m[0]);
                    assert(name.len() <= m[0].len());
                }
            }
            let k = choose|k: int| 0 <= k < (eligible + full_only).len() && (eligible + full_only)[k] == cmd;
            assert(spec_no_whitespace(cmd)) by {
                if k < eligible.len() {
                    assert(eligible[k] == cmd);
                } else {
                    assert(full_only[k - eligible.len()] == cmd);
                }
            }
            let head = seq!['/'] + cmd;
            crate::text::lemma_trim_start_is_suffix(input.skip(spec_find_ws(input)));
            crate::text::lemma_trim_start_idempotent(input.skip(spec_find_ws(input)));
            if rest.len() == 0 {
                assert(out == head);
                lemma_find_ws_at(out, 0, out.len() as int);
                assert(out.take(out.len() as int) =~= head);
                assert(out.skip(out.len() as int) =~= Seq::<char>::empty());
            } else {
                assert(out == head + seq![' '] + rest);
                assert(out[head.len() as int] == ' ');
                lemma_find_ws_at(out, 0, head.len() as int);
                assert(out.take(head.len() as int) =~= head);
                let tail = out.skip(head.len() as int);
                assert(tail =~= seq![' '] + rest);
                assert(tail.drop_first() =~= rest);
                assert(tail.len() > 0 && spec_is_whitespace(tail[0]));
                assert(spec_trim_start(tail) == spec_trim_start(rest));
            }
            assert(head.drop_first() =~= cmd);
        },
        None => {},
    }
}

} // verus!
