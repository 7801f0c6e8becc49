//! Localized user-facing messages.
//!
//! A catalog is a JSON object from message keys to texts, read for one of the
//! supported locales.  A missing key shows as `[key]`; `{name}` placeholders
//! are filled by `format`.
use crate::text::{push_char, replace, spec_replace};
use vstd::prelude::*;
use vstd::string::*;

verus! {

/// The supported locales.
pub const SUPPORTED_LOCALES: [&'static str; 2] = ["zh-CN", "en-US"];

/// Why a catalog could not be loaded.
#[derive(Debug, Clone, Copy, PartialEq, Eq, Structural)]
pub enum I18nError {
    /// The locale is not `zh-CN` or `en-US`.
    UnsupportedLocale,
    /// The catalog is not a JSON object whose values are all strings.
    InvalidJson,
}

/// A message catalog.
#[derive(Clone)]
pub struct I18n {
    messages: Vec<(String, String)>,
}

/// The key/text pairs of a list of message entries.
pub open spec fn entries_view(v: Seq<(String, String)>) -> Seq<(Seq<char>, Seq<char>)> {
    v.map_values(|e: (String, String)| (e.0@, e.1@))
}

/// The text stored for `key`: the first entry with that key.
pub open spec fn spec_lookup(entries: Seq<(Seq<char>, Seq<char>)>, key: Seq<char>) -> Option<
    Seq<char>,
>
    decreases entries.len(),
{
    if entries.len() == 0 {
        None
    } else if entries[0].0 == key {
        Some(entries[0].1)
    } else {
        spec_lookup(entries.drop_first(), key)
    }
}

/// Name for what `serde_json::from_str` gives for a JSON object of strings:
/// its entries in key order, or `None` when the text is not such an object.
pub uninterp spec fn spec_parse_catalog(contents: Seq<char>) -> Option<Seq<(Seq<char>, Seq<char>)>>;

/// Calls `serde_json::from_str` into a `BTreeMap<String, String>` and lists the
/// map's entries.  The contract names the result; it claims nothing about JSON
/// syntax.
#[verifier::external_body]
fn parse_catalog(contents: &str) -> (r: Option<Vec<(String, String)>>)
    ensures
        match r {
            Some(v) => spec_parse_catalog(contents@) == Some(entries_view(v@)),
            None => spec_parse_catalog(contents@) is None,
        },
{
    match serde_json::from_str::<std::collections::BTreeMap<String, String>>(contents) {
        Ok(map) => Some(map.into_iter().collect()),
        Err(_) => None,
    }
}

/// Whether `locale` is supported.
pub open spec fn spec_supported_locale(locale: Seq<char>) -> bool {
    locale == "zh-CN"@ || locale == "en-US"@
}

/// `[key]`, shown for a key the catalog lacks.
pub open spec fn spec_missing(key: Seq<char>) -> Seq<char> {
    seq!['['] + key + seq![']']
}

/// The text for `key`, or `[key]`.
pub open spec fn spec_text(entries: Seq<(Seq<char>, Seq<char>)>, key: Seq<char>) -> Seq<char> {
    match spec_lookup(entries, key) {
        Some(t) => t,
        None => spec_missing(key),
    }
}

/// `{name}`.
pub open spec fn spec_placeholder(name: Seq<char>) -> Seq<char> {
    seq!['{'] + name + seq!['}']
}

/// `text` with each `{name}` of `values`, in order, replaced by its value.
pub open spec fn spec_fill(text: Seq<char>, values: Seq<(Seq<char>, Seq<char>)>) -> Seq<char>
    decreases values.len(),
{
    if values.len() == 0 {
        text
    } else {
        spec_replace(
            spec_fill(text, values.drop_last()),
            spec_placeholder(values.last().0),
            values.last().1,
        )
    }
}

/// The pairs of a list of string-slice pairs.
pub open spec fn pairs_view(v: Seq<(&str, &str)>) -> Seq<(Seq<char>, Seq<char>)> {
    v.map_values(|e: (&str, &str)| (e.0@, e.1@))
}

/// `category.` followed by `code`.
pub open spec fn spec_category_key(code: Seq<char>) -> Seq<char> {
    "category."@ + code
}

/// The shown name of a category code: the catalog text for `category.<code>`,
/// the code itself when the catalog lacks it, or the pending text when there
/// is no code.
pub open spec fn spec_category(entries: Seq<(Seq<char>, Seq<char>)>, value: Option<Seq<char>>) -> Seq<
    char,
> {
    match value {
        Some(code) => match spec_lookup(entries, spec_category_key(code)) {
            Some(t) => t,
            None => code,
        },
        None => spec_text(entries, "category.pending"@),
    }
}

/// Whether `locale` is `zh-CN` or `en-US`.
pub fn is_supported_locale(locale: &str) -> (r: bool)
    ensures
        r == spec_supported_locale(locale@),
{
    crate::text::str_eq(locale, SUPPORTED_LOCALES[0]) || crate::text::str_eq(locale, SUPPORTED_LOCALES[1])
}

impl View for I18n {
    type V = Seq<(Seq<char>, Seq<char>)>;

    closed spec fn view(&self) -> Seq<(Seq<char>, Seq<char>)> {
        entries_view(self.messages@)
    }
}

impl I18n {
    /// Builds the catalog of `locale` from the JSON text of its locale file.
    pub fn load(locale: &str, contents: &str) -> (r: Result<I18n, I18nError>)
        ensures
            match r {
                Ok(i) => spec_supported_locale(locale@) && spec_parse_catalog(contents@) == Some(
                    i@,
                ),
                Err(I18nError::UnsupportedLocale) => !spec_supported_locale(locale@),
                Err(I18nError::InvalidJson) => spec_supported_locale(locale@)
                    && spec_parse_catalog(contents@) is None,
            },
    {
        if !is_supported_locale(locale) {
            return Err(I18nError::UnsupportedLocale);
        }
        match parse_catalog(contents) {
            Some(messages) => Ok(I18n { messages }),
            None => Err(I18nError::InvalidJson),
        }
    }

    fn lookup(&self, key: &str) -> (r: Option<&String>)
        ensures
            match r {
                Some(t) => spec_lookup(self@, key@) == Some(t@),
                None => spec_lookup(self@, key@) is None,
            },
    {
        let ghost e = self@;
        let mut i: usize = 0;
        assert(e.skip(0) =~= e);
        while i < self.messages.len()
            invariant
                e == entries_view(self.messages@),
                i <= self.messages@.len(),
                spec_lookup(e, key@) == spec_lookup(e.skip(i as int), key@),
            decreases self.messages@.len() - i,
        {
            assert(e.skip(i as int)[0] == e[i as int]);
            if crate::text::str_eq(self.messages[i].0.as_str(), key) {
                return Some(&self.messages[i].1);
            }
            assert(e.skip(i as int).drop_first() =~= e.skip(i + 1));
            i = i + 1;
        }
        None
    }

    /// The text for `key`, or `[key]` when the catalog lacks it.
    pub fn text(&self, key: &str) -> (r: String)
        ensures
            r@ == spec_text(self@, key@),
    {
        match self.lookup(key) {
            Some(t) => t.clone(),
            None => {
                let mut out = String::new();
                push_char(&mut out, '[');
                out.append(key);
                push_char(&mut out, ']');
                assert(out@ =~= spec_missing(key@));
                out
            },
        }
    }

    /// The text for `key` with each `{name}` placeholder of `values` replaced
    /// by its value, in the order given.
    pub fn format(&self, key: &str, values: &[(&str, &str)]) -> (r: String)
        ensures
            r@ == spec_fill(spec_text(self@, key@), pairs_view(values@)),
    {
        let ghost vs = pairs_view(values@);
        let mut text = self.text(key);
        let mut i: usize = 0;
        assert(vs.take(0) =~= Seq::<(Seq<char>, Seq<char>)>::empty());
        while i < values.len()
            invariant
                vs == pairs_view(values@),
                i <= values@.len(),
                text@ == spec_fill(spec_text(self@, key@), vs.take(i as int)),
            decreases values@.len() - i,
        {
            let (name, value) = values[i];
            let mut pattern = String::new();
            push_char(&mut pattern, '{');
            pattern.append(name);
            push_char(&mut pattern, '}');
            assert(pattern@ =~= spec_placeholder(name@));
            text = replace(text.as_str(), pattern.as_str(), value);
            assert(vs.take(i + 1).drop_last() =~= vs.take(i as int));
            assert(vs.take(i + 1).last() == (name@, value@));
            i = i + 1;
        }
        assert(vs.take(values@.len() as int) =~= vs);
        text
    }

    /// The shown name of a category code.
    pub fn category(&self, value: Option<&str>) -> (r: String)
        ensures
            r@ == spec_category(self@, match value {
                Some(v) => Some(v@),
                None => None,
            }),
    {
        match value {
            Some(code) => {
                let mut key = String::new();
                key.append("category.");
                key.append(code);
                match self.lookup(key.as_str()) {
                    Some(t) => t.clone(),
                    None => code.to_owned(),
                }
            },
            None => self.text("category.pending"),
        }
    }
}

/// Formatting with no values gives the plain text of the key, and a key the
/// catalog lacks shows as `[key]`.
pub proof fn law_format_without_values_is_text(entries: Seq<(Seq<char>, Seq<char>)>, key: Seq<char>)
    ensures
        spec_fill(spec_text(entries, key), Seq::empty()) == spec_text(entries, key),
        spec_lookup(entries, key) is None ==> spec_text(entries, key) == seq!['['] + key + seq![']'],
{
}

/// A placeholder that does not occur in the text leaves it unchanged.
pub proof fn law_absent_placeholders_change_nothing(text: Seq<char>, name: Seq<char>, value: Seq<char>)
    requires
        forall|i: int|
            0 <= i <= text.len() - spec_placeholder(name).len() ==> !spec_placeholder(name).is_prefix_of(
                #[trigger] text.skip(i),
            ),
    ensures
        spec_fill(text, seq![(name, value)]) == text,
{
    crate::text::lemma_replace_absent(text, spec_placeholder(name), value);
    let vs = seq![(name, value)];
    assert(vs.drop_last() =~= Seq::<(Seq<char>, Seq<char>)>::empty());
    assert(spec_fill(text, vs.drop_last()) == text);
    assert(vs.last() == (name, value));
}

} // verus!
