//! Addresses of the model services and one-time pairing codes.
use vstd::prelude::*;
use vstd::string::*;

verus! {

/// `s` without its trailing slashes (`str::trim_end_matches('/')`).
pub open spec fn spec_trim_trailing_slashes(s: Seq<char>) -> Seq<char>
    decreases s.len(),
{
    if s.len() > 0 && s.last() == '/' {
        spec_trim_trailing_slashes(s.drop_last())
    } else {
        s
    }
}

/// A configured base URL without trailing slashes, so that paths can be appended.
pub fn normalize_base_url(url: &str) -> (r: String)
    ensures
        r@ == spec_trim_trailing_slashes(url@),
{
    let mut j = url.unicode_len();
    assert(url@.take(j as int) =~= url@);
    while j > 0
        invariant
            j <= url@.len(),
            spec_trim_trailing_slashes(url@) == spec_trim_trailing_slashes(url@.take(j as int)),
        ensures
            j <= url@.len(),
            spec_trim_trailing_slashes(url@) == spec_trim_trailing_slashes(url@.take(j as int)),
            j > 0 ==> url@[j - 1] != '/',
        decreases j,
    {
        if url.get_char(j - 1) != '/' {
            break;
        }
        assert(url@.take(j as int).drop_last() =~= url@.take(j - 1));
        j = j - 1;
    }
    let r = url.substring_char(0, j).to_owned();
    if j > 0 {
        assert(url@.take(j as int).last() == url@[j - 1]);
    }
    r
}

/// `base` followed by `path`.
pub fn join_url(base: &str, path: &str) -> (r: String)
    ensures
        r@ == base@ + path@,
{
    let mut out = base.to_owned();
    out.append(path);
    out
}

/// The path of the remote model's chat completion endpoint.
pub const CHAT_COMPLETIONS_PATH: &'static str = "/chat/completions";

/// The path of the local model's chat endpoint.
pub const LOCAL_CHAT_PATH: &'static str = "/api/chat";

/// The character `c` in upper case if it is an ASCII letter.
pub open spec fn spec_ascii_upper(c: char) -> char {
    if 'a' <= c <= 'z' {
        ((c as int) - 32) as char
    } else {
        c
    }
}

/// A pairing code: the first eight characters of a UUID's hexadecimal form, upper case.
pub open spec fn spec_pairing_code(simple: Seq<char>) -> Seq<char> {
    simple.take(8).map_values(|c: char| spec_ascii_upper(c))
}

/// The pairing code derived from a UUID's hexadecimal (simple) form.
pub fn pairing_code(simple: &str) -> (r: String)
    requires
        simple@.len() >= 8,
    ensures
        r@ == spec_pairing_code(simple@),
{
    let mut out = String::new();
    let mut i: usize = 0;
    while i < 8
        invariant
            simple@.len() >= 8,
            i <= 8,
            out@ == simple@.take(i as int).map_values(|c: char| spec_ascii_upper(c)),
        decreases 8 - i,
    {
        let c = simple.get_char(i);
        let u = if 'a' <= c && c <= 'z' {
            ((c as u32) - 32) as u8 as char
        } else {
            c
        };
        assert(u == spec_ascii_upper(c));
        crate::text::push_char(&mut out, u);
        assert(out@ =~= simple@.take(i + 1).map_values(|c: char| spec_ascii_upper(c)));
        i = i + 1;
    }
    out
}

} // verus!
