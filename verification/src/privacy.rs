//! Redaction of personal data before text leaves the machine.
//!
//! Each rule is a regular expression whose every match is replaced by a label
//! taken from the message catalog of the user's locale; the rules apply in
//! order, each to the output of the one before.
use crate::i18n::{spec_text, I18n};
use vstd::prelude::*;

verus! {

/// Name for what replacing every match of `pattern` in `text` by the literal
/// `replacement` gives with the `regex` crate, or `None` when `pattern` does
/// not compile.
pub uninterp spec fn spec_regex_replace_all(
    pattern: Seq<char>,
    text: Seq<char>,
    replacement: Seq<char>,
) -> Option<Seq<char>>;

/// Compiles `pattern` with `regex::Regex::new` and, when it compiles, calls
/// `Regex::replace_all` with the replacement taken literally
/// (`regex::NoExpand`).  The contract names the result; it says nothing of
/// which spans the pattern matches.
#[verifier::external_body]
fn regex_replace_all(pattern: &str, text: &str, replacement: &str) -> (r: Option<String>)
    ensures
        match r {
            Some(out) => spec_regex_replace_all(pattern@, text@, replacement@) == Some(out@),
            None => spec_regex_replace_all(pattern@, text@, replacement@) is None,
        },
{
    match regex::Regex::new(pattern) {
        Ok(re) => Some(re.replace_all(text, regex::NoExpand(replacement)).into_owned()),
        Err(_) => None,
    }
}

/// The redaction rules, applied in this order: e-mail addresses, mainland
/// mobile numbers, resident ID numbers, bank card numbers and IPv4 addresses.
/// Each pattern is paired with the message key of its label.
pub const RULES: [(&'static str, &'static str); 5] = [
    (r"(?i)\b[A-Z0-9._%+-]+@[A-Z0-9.-]+\.[A-Z]{2,}\b", "privacy.email"),
    (r"(?:\+?86[- ]?)?1[3-9]\d{9}", "privacy.phone"),
    (r"(?i)\b\d{17}[0-9X]\b", "privacy.id_card"),
    (r"\b(?:\d[ -]?){15,18}\d\b", "privacy.bank_card"),
    (r"\b(?:\d{1,3}\.){3}\d{1,3}\b", "privacy.ip"),
];

/// One redaction step: the replaced text, or the text unchanged when the
/// rule's pattern does not compile.
pub open spec fn spec_apply_rule(text: Seq<char>, pattern: Seq<char>, label: Seq<char>) -> Seq<char> {
    match spec_regex_replace_all(pattern, text, label) {
        Some(out) => out,
        None => text,
    }
}

/// The text after the first `k` rules, each match replaced by the catalog
/// text of the rule's label key.
pub open spec fn spec_redact_rules(text: Seq<char>, catalog: Seq<(Seq<char>, Seq<char>)>, k: int) -> Seq<char>
    decreases k,
{
    if k <= 0 {
        text
    } else {
        spec_apply_rule(
            spec_redact_rules(text, catalog, k - 1),
            RULES@[k - 1].0@,
            spec_text(catalog, RULES@[k - 1].1@),
        )
    }
}

/// The text after all rules, with the labels of `catalog`.
pub open spec fn spec_redact(text: Seq<char>, catalog: Seq<(Seq<char>, Seq<char>)>) -> Seq<char> {
    spec_redact_rules(text, catalog, 5)
}

/// Replaces e-mail addresses, phone numbers, ID and bank card numbers and IPv4
/// addresses by the labels that `i18n` gives for them.
pub fn redact(input: &str, i18n: &I18n) -> (r: String)
    ensures
        r@ == spec_redact(input@, i18n@),
{
    let mut text = input.to_owned();
    let mut i: usize = 0;
    while i < 5
        invariant
            i <= 5,
            text@ == spec_redact_rules(input@, i18n@, i as int),
        decreases 5 - i,
    {
        let (pattern, key) = RULES[i];
        let label = i18n.text(key);
        match regex_replace_all(pattern, text.as_str(), label.as_str()) {
            Some(out) => {
                text = out;
            },
            None => {},
        }
        i = i + 1;
    }
    text
}

/// Redaction applies each of the five rules once, in order, each to the
/// output of the one before: e-mail addresses, then mobile numbers, resident
/// ID numbers, bank card numbers and IPv4 addresses, every match replaced by
/// the catalog text of the rule's label.
pub proof fn law_redaction_applies_every_rule_in_order(text: Seq<char>, catalog: Seq<(Seq<char>, Seq<char>)>)
    ensures
        spec_redact(text, catalog) == spec_apply_rule(
            spec_apply_rule(
                spec_apply_rule(
                    spec_apply_rule(
                        spec_apply_rule(
                            text,
                            r"(?i)\b[A-Z0-9._%+-]+@[A-Z0-9.-]+\.[A-Z]{2,}\b"@,
                            spec_text(catalog, "privacy.email"@),
                        ),
                        r"(?:\+?86[- ]?)?1[3-9]\d{9}"@,
                        spec_text(catalog, "privacy.phone"@),
                    ),
                    r"(?i)\b\d{17}[0-9X]\b"@,
                    spec_text(catalog, "privacy.id_card"@),
                ),
                r"\b(?:\d[ -]?){15,18}\d\b"@,
                spec_text(catalog, "privacy.bank_card"@),
            ),
            r"\b(?:\d{1,3}\.){3}\d{1,3}\b"@,
            spec_text(catalog, "privacy.ip"@),
        ),
{
    reveal_with_fuel(spec_redact_rules, 6);
}

} // verus!
