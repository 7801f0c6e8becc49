//! What the Telegram gateway does with an incoming message.
//!
//! System commands are answered and never stored; any other text (with a
//! photo, voice or video caption) is stored as a log of the linked user.
use crate::commands::{expand_telegram, spec_expand_telegram};
use crate::text::{spec_trim, starts_with, str_eq, trim};
use vstd::prelude::*;
use vstd::string::*;

verus! {

/// The longest reply, in characters, before it is cut.
pub const MAX_REPLY_CHARS: usize = 3900;

/// What a message asks the gateway to do.
#[derive(Debug, PartialEq, Eq)]
pub enum TelegramRoute {
    /// Health check (`helo`), answered before anything else.
    Helo,
    /// `/start`.
    Start,
    /// `/link CODE`: pair the Telegram account with a local user.
    Link { code: String },
    /// `/help`.
    Help,
    /// `/recent`.
    Recent,
    /// `/connections`.
    Connections,
    /// `/export`.
    Export,
    /// `/privacy`.
    Privacy,
    /// `/delete REFERENCE`.
    Delete { reference: String },
    /// Any other slash command, except `/log ...` and `/private ...`.
    UnknownCommand,
    /// Store the message with this text.
    Save { text: String },
}

/// `s` without every leading repetition of `p` (`str::trim_start_matches`).
pub open spec fn spec_trim_start_matches(s: Seq<char>, p: Seq<char>) -> Seq<char>
    decreases s.len(),
{
    if p.len() > 0 && p.is_prefix_of(s) {
        spec_trim_start_matches(s.skip(p.len() as int), p)
    } else {
        s
    }
}

/// The kind of a route and its argument, for specifications.
pub open spec fn route_view(r: TelegramRoute) -> (int, Seq<char>) {
    match r {
        TelegramRoute::Helo => (0, Seq::empty()),
        TelegramRoute::Start => (1, Seq::empty()),
        TelegramRoute::Link { code } => (2, code@),
        TelegramRoute::Help => (3, Seq::empty()),
        TelegramRoute::Recent => (4, Seq::empty()),
        TelegramRoute::Connections => (5, Seq::empty()),
        TelegramRoute::Export => (6, Seq::empty()),
        TelegramRoute::Privacy => (7, Seq::empty()),
        TelegramRoute::Delete { reference } => (8, reference@),
        TelegramRoute::UnknownCommand => (9, Seq::empty()),
        TelegramRoute::Save { text } => (10, text@),
    }
}

/// The route of a message text (its caption for media, empty if none).
pub open spec fn spec_route(raw: Seq<char>) -> (int, Seq<char>) {
    let text = spec_trim(raw);
    if text == "helo"@ || text == "/helo"@ {
        (0, Seq::empty())
    } else {
        let t = spec_expand_telegram(text);
        if t == "/helo"@ {
            (0, Seq::empty())
        } else if t == "/start"@ {
            (1, Seq::empty())
        } else if "/link "@.is_prefix_of(t) {
            (2, spec_trim(t.skip(6)))
        } else if t == "/help"@ {
            (3, Seq::empty())
        } else if t == "/recent"@ {
            (4, Seq::empty())
        } else if t == "/connections"@ {
            (5, Seq::empty())
        } else if t == "/export"@ {
            (6, Seq::empty())
        } else if t == "/privacy"@ {
            (7, Seq::empty())
        } else if "/delete "@.is_prefix_of(t) {
            (8, spec_trim(spec_trim_start_matches(t, "/delete "@)))
        } else if t.len() > 0 && t[0] == '/' && !"/log "@.is_prefix_of(t) && !"/private "@.is_prefix_of(t) {
            (9, Seq::empty())
        } else {
            (10, t)
        }
    }
}

/// `s` without every leading repetition of the non-empty `p`.
fn trim_start_matches<'a>(s: &'a str, p: &str) -> (r: &'a str)
    requires
        p@.len() > 0,
    ensures
        r@ == spec_trim_start_matches(s@, p@),
{
    let n = s.unicode_len();
    let m = p.unicode_len();
    let mut rest = s;
    let ghost mut k: int = 0;
    assert(s@.skip(0) =~= s@);
    while starts_with(rest, p)
        invariant
            m == p@.len(),
            m > 0,
            rest@ == s@.skip(k),
            0 <= k <= s@.len(),
            spec_trim_start_matches(s@, p@) == spec_trim_start_matches(rest@, p@),
        decreases rest@.len(),
    {
        let len = rest.unicode_len();
        let next = rest.substring_char(m, len);
        assert(next@ =~= rest@.skip(m as int));
        assert(next@ =~= s@.skip(k + m));
        proof {
            k = k + m;
        }
        rest = next;
    }
    rest
}

/// Decides what an incoming message asks for.  The text is trimmed; `helo`
/// is recognized before command expansion, and `/helo` (also as `/h`) after it.
pub fn route(raw: &str) -> (r: TelegramRoute)
    ensures
        route_view(r) == spec_route(raw@),
{
    let text = trim(raw);
    if str_eq(text, "helo") || str_eq(text, "/helo") {
        return TelegramRoute::Helo;
    }
    let expanded = expand_telegram(text);
    let t = expanded.as_str();
    let n = t.unicode_len();
    if str_eq(t, "/helo") {
        return TelegramRoute::Helo;
    }
    if str_eq(t, "/start") {
        return TelegramRoute::Start;
    }
    if starts_with(t, "/link ") {
        proof {
            reveal_strlit("/link ");
        }
        let tail = t.substring_char(6, n);
        assert(tail@ =~= t@.skip(6));
        let code = trim(tail);
        return TelegramRoute::Link { code: code.to_owned() };
    }
    if str_eq(t, "/help") {
        return TelegramRoute::Help;
    }
    if str_eq(t, "/recent") {
        return TelegramRoute::Recent;
    }
    if str_eq(t, "/connections") {
        return TelegramRoute::Connections;
    }
    if str_eq(t, "/export") {
        return TelegramRoute::Export;
    }
    if str_eq(t, "/privacy") {
        return TelegramRoute::Privacy;
    }
    if starts_with(t, "/delete ") {
        proof {
            reveal_strlit("/delete ");
        }
        let reference = trim(trim_start_matches(t, "/delete "));
        return TelegramRoute::Delete { reference: reference.to_owned() };
    }
    if n > 0 && t.get_char(0) == '/' && !starts_with(t, "/log ") && !starts_with(t, "/private ") {
        return TelegramRoute::UnknownCommand;
    }
    TelegramRoute::Save { text: expanded }
}

/// The first `n` characters of `s` (all of them if it is shorter).
pub open spec fn spec_prefix_chars(s: Seq<char>, n: int) -> Seq<char> {
    if s.len() <= n {
        s
    } else {
        s.take(n)
    }
}

/// The first `n` characters of an id, shown to the user in place of the full id.
pub fn short_id(id: &str, n: usize) -> (r: String)
    ensures
        r@ == spec_prefix_chars(id@, n as int),
{
    let len = id.unicode_len();
    if len <= n {
        id.to_owned()
    } else {
        id.substring_char(0, n).to_owned()
    }
}

/// A reply as sent: unchanged up to the length limit, otherwise its first
/// characters, a line feed and the localized truncation notice.
pub open spec fn spec_truncate(value: Seq<char>, notice: Seq<char>) -> Seq<char> {
    if value.len() <= MAX_REPLY_CHARS {
        value
    } else {
        value.take(MAX_REPLY_CHARS as int) + seq!['\n'] + notice
    }
}

/// Cuts a reply to the length Telegram accepts.
pub fn truncate(value: &str, notice: &str) -> (r: String)
    ensures
        r@ == spec_truncate(value@, notice@),
{
    let len = value.unicode_len();
    if len <= MAX_REPLY_CHARS {
        return value.to_owned();
    }
    let mut out = value.substring_char(0, MAX_REPLY_CHARS).to_owned();
    crate::text::push_char(&mut out, '\n');
    out.append(notice);
    out
}

/// What a stored message replies: the saved notice names the log by its first
/// eight characters.
pub const SAVED_ID_CHARS: usize = 8;

/// Who may have a route carried out, which fixes the order of the checks on
/// the sender.
#[derive(Debug, Clone, Copy, PartialEq, Eq, Structural)]
pub enum Access {
    /// Anyone, before the sender is looked at: the health check.
    Anyone,
    /// Any Telegram account, linked or not: `/start` and `/link`.
    AnyAccount,
    /// Only an account linked to a local user: every other route, storing
    /// included; an unlinked account is told it is not linked.
    LinkedAccount,
}

/// The access a route of the given kind (see `route_view`) needs.
pub open spec fn spec_access(kind: int) -> Access {
    if kind == 0 {
        Access::Anyone
    } else if kind == 1 || kind == 2 {
        Access::AnyAccount
    } else {
        Access::LinkedAccount
    }
}

/// The access `route` needs.
pub fn access(route: &TelegramRoute) -> (r: Access)
    ensures
        r == spec_access(route_view(*route).0),
{
    match route {
        TelegramRoute::Helo => Access::Anyone,
        TelegramRoute::Start | TelegramRoute::Link { .. } => Access::AnyAccount,
        _ => Access::LinkedAccount,
    }
}

/// System commands are never stored: a message routed to be saved is not a
/// slash command, except `/log ...` and `/private ...`, and is not `helo`.
pub proof fn law_commands_are_not_saved(raw: Seq<char>)
    ensures
        spec_route(raw).0 == 10 ==> {
            let t = spec_route(raw).1;
            &&& t.len() == 0 || t[0] != '/' || "/log "@.is_prefix_of(t) || "/private "@.is_prefix_of(t)
            &&& t != "/helo"@
            &&& spec_trim(raw) != "helo"@
        },
{
}

/// A message that is not a command is stored whole: when the trimmed text does
/// not start with `/` and is not `helo`, the route saves exactly that text.
pub proof fn law_notes_are_saved_whole(raw: Seq<char>)
    requires
        spec_trim(raw).len() == 0 || spec_trim(raw)[0] != '/',
        spec_trim(raw) != "helo"@,
    ensures
        spec_route(raw) == (10int, spec_trim(raw)),
{
    let text = spec_trim(raw);
    reveal_strlit("/helo");
    reveal_strlit("/h");
    reveal_strlit("/c");
    reveal_strlit("/s");
    reveal_strlit("/r");
    reveal_strlit("/d");
    reveal_strlit("/e");
    reveal_strlit("/a");
    reveal_strlit("/start");
    reveal_strlit("/link ");
    reveal_strlit("/help");
    reveal_strlit("/recent");
    reveal_strlit("/connections");
    reveal_strlit("/export");
    reveal_strlit("/privacy");
    reveal_strlit("/delete ");
    crate::text::lemma_find_ws_from_bounds(text, 0);
    let token = crate::commands::spec_token(text);
    if token.len() > 0 {
        assert(token[0] == text[0]);
    }
    assert(crate::commands::spec_telegram_alias(token) is None);
    assert(crate::commands::spec_expand_telegram(text) == text);
    if text.len() > 0 {
        assert(!"/link "@.is_prefix_of(text)) by {
            if "/link "@.is_prefix_of(text) {
                assert(text[0] == "/link "@[0]);
            }
        }
        assert(!"/delete "@.is_prefix_of(text)) by {
            if "/delete "@.is_prefix_of(text) {
                assert(text[0] == "/delete "@[0]);
            }
        }
    }
}

/// A sent reply is never longer than the limit plus a line feed and the notice,
/// and always starts with the reply's own first characters.
pub proof fn law_truncated_replies_are_bounded(value: Seq<char>, notice: Seq<char>)
    ensures
        spec_truncate(value, notice).len() <= MAX_REPLY_CHARS + 1 + notice.len(),
        spec_prefix_chars(value, MAX_REPLY_CHARS as int).is_prefix_of(spec_truncate(value, notice)),
{
}

} // verus!
