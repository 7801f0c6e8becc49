//! Checks and normalization of what the classification models return.
//!
//! The remote model (GLM) returns an analysis and connections; the local
//! model returns a storage decision with tags.  Only closed vocabularies are
//! accepted, and tag lists are stored sorted and without duplicates.
use crate::order::{insert_sorted, spec_strictly_sorted, strings_view};
use crate::text::{spec_trim, str_eq, trim};
use vstd::prelude::*;

verus! {

/// Category codes of an analysis.
pub const ANALYSIS_CATEGORIES: [&'static str; 9] = [
    "work",
    "study",
    "health",
    "relationships",
    "finance",
    "inspiration",
    "emotions",
    "life",
    "other",
];

/// Sentiment codes.
pub const SENTIMENTS: [&'static str; 4] = ["positive", "neutral", "negative", "mixed"];

/// Kinds of connection between logs.
pub const CONNECTION_KINDS: [&'static str; 6] = [
    "shared_topic",
    "person_link",
    "time_evolution",
    "goal_progress",
    "tension",
    "causal_clue",
];

/// Primary tags of a local classification.
pub const PRIMARY_TAGS: [&'static str; 12] = [
    "reflection",
    "idea",
    "decision",
    "plan",
    "activity",
    "experience",
    "fact",
    "reminder",
    "lesson",
    "preference",
    "commitment",
    "question",
];

/// System tags of a local classification: the primary tags and topical ones.
pub const SYSTEM_TAGS: [&'static str; 31] = [
    "reflection",
    "idea",
    "decision",
    "plan",
    "activity",
    "experience",
    "fact",
    "reminder",
    "lesson",
    "preference",
    "commitment",
    "question",
    "self",
    "family",
    "relationship",
    "work",
    "project",
    "learning",
    "health",
    "wellbeing",
    "finance",
    "habit",
    "mood",
    "sleep",
    "stress",
    "energy",
    "symptom",
    "medication",
    "birthday",
    "deadline",
    "appointment",
];

/// Keys of a classification's details that repeat other fields.
pub const REDUNDANT_DETAIL_KEYS: [&'static str; 4] = [
    "primary_tag",
    "system_tags",
    "topic_tags",
    "storage_action",
];

/// The character sequences of a word list.
pub open spec fn words(ws: Seq<&str>) -> Seq<Seq<char>> {
    ws.map_values(|w: &str| w@)
}

/// Whether `value` is one of `set`.
pub fn is_one_of(value: &str, set: &[&str]) -> (r: bool)
    ensures
        r == words(set@).contains(value@),
{
    let mut i: usize = 0;
    while i < set.len()
        invariant
            i <= set@.len(),
            forall|j: int| 0 <= j < i ==> words(set@)[j] != value@,
        decreases set@.len() - i,
    {
        if str_eq(set[i], value) {
            assert(words(set@)[i as int] == value@);
            return true;
        }
        i = i + 1;
    }
    false
}

/// Why a remote analysis is rejected.
#[derive(Debug, Clone, Copy, PartialEq, Eq, Structural)]
pub enum AnalysisError {
    InvalidCategory,
    InvalidSentiment,
    InvalidImportance,
}

/// Checks an analysis from the remote model: the category code, then the
/// sentiment code, then an importance from 1 to 5.
pub fn validate_analysis(category: &str, sentiment: &str, importance: i64) -> (r: Result<(), AnalysisError>)
    ensures
        r == if !words(ANALYSIS_CATEGORIES@).contains(category@) {
            Err(AnalysisError::InvalidCategory)
        } else if !words(SENTIMENTS@).contains(sentiment@) {
            Err(AnalysisError::InvalidSentiment)
        } else if !(1 <= importance <= 5) {
            Err(AnalysisError::InvalidImportance)
        } else {
            Ok(())
        },
{
    if !is_one_of(category, &ANALYSIS_CATEGORIES) {
        return Err(AnalysisError::InvalidCategory);
    }
    if !is_one_of(sentiment, &SENTIMENTS) {
        return Err(AnalysisError::InvalidSentiment);
    }
    if !(1 <= importance && importance <= 5) {
        return Err(AnalysisError::InvalidImportance);
    }
    Ok(())
}

/// Whether `kind` is a known kind of connection; connections of other kinds are dropped.
pub fn is_connection_kind(kind: &str) -> (r: bool)
    ensures
        r == words(CONNECTION_KINDS@).contains(kind@),
{
    is_one_of(kind, &CONNECTION_KINDS)
}

/// The trimmed text of the first of a model's reply choices; `None` when it
/// gave no choice.
pub fn first_reply(contents: &[String]) -> (r: Option<&str>)
    ensures
        match r {
            Some(t) => contents@.len() > 0 && t@ == spec_trim(contents@[0]@),
            None => contents@.len() == 0,
        },
{
    if contents.len() == 0 {
        None
    } else {
        Some(trim(contents[0].as_str()))
    }
}

/// Why a local model output is rejected.
#[derive(Debug, Clone, Copy, PartialEq, Eq, Structural)]
pub enum LocalOutputError {
    InvalidConfidence,
    InvalidPrimaryTag,
    InvalidSystemTags,
    DetailsNotObject,
    InvalidCategory,
    InvalidSentiment,
    InvalidImportance,
}

/// Whether all of `tags` are system tags and there is at least one.
pub open spec fn spec_system_tags_valid(tags: Seq<Seq<char>>) -> bool {
    tags.len() > 0 && forall|i: int| 0 <= i < tags.len() ==> words(SYSTEM_TAGS@).contains(#[trigger] tags[i])
}

/// Checks a tagged local classification in this order: the confidence (whose
/// range check on the float is made by the caller), the primary tag, the
/// system tags, that the details are an object, the sentiment, and an
/// importance from 1 to 5.
pub fn validate_tagged_output(
    confidence_in_range: bool,
    primary_tag: &str,
    system_tags: &[String],
    details_is_object: bool,
    sentiment: &str,
    importance: u8,
) -> (r: Result<(), LocalOutputError>)
    ensures
        r == if !confidence_in_range {
            Err(LocalOutputError::InvalidConfidence)
        } else if !words(PRIMARY_TAGS@).contains(primary_tag@) {
            Err(LocalOutputError::InvalidPrimaryTag)
        } else if !spec_system_tags_valid(strings_view(system_tags@)) {
            Err(LocalOutputError::InvalidSystemTags)
        } else if !details_is_object {
            Err(LocalOutputError::DetailsNotObject)
        } else if !words(SENTIMENTS@).contains(sentiment@) {
            Err(LocalOutputError::InvalidSentiment)
        } else if !(1 <= importance <= 5) {
            Err(LocalOutputError::InvalidImportance)
        } else {
            Ok(())
        },
{
    if !confidence_in_range {
        return Err(LocalOutputError::InvalidConfidence);
    }
    if !is_one_of(primary_tag, &PRIMARY_TAGS) {
        return Err(LocalOutputError::InvalidPrimaryTag);
    }
    let ghost tags = strings_view(system_tags@);
    if system_tags.len() == 0 {
        return Err(LocalOutputError::InvalidSystemTags);
    }
    let mut i: usize = 0;
    while i < system_tags.len()
        invariant
            tags == strings_view(system_tags@),
            i <= system_tags@.len(),
            system_tags@.len() > 0,
            confidence_in_range,
            words(PRIMARY_TAGS@).contains(primary_tag@),
            forall|j: int| 0 <= j < i ==> words(SYSTEM_TAGS@).contains(#[trigger] tags[j]),
        decreases system_tags@.len() - i,
    {
        assert(tags[i as int] == system_tags@[i as int]@);
        if !is_one_of(system_tags[i].as_str(), &SYSTEM_TAGS) {
            return Err(LocalOutputError::InvalidSystemTags);
        }
        i = i + 1;
    }
    if !details_is_object {
        return Err(LocalOutputError::DetailsNotObject);
    }
    if !is_one_of(sentiment, &SENTIMENTS) {
        return Err(LocalOutputError::InvalidSentiment);
    }
    if !(1 <= importance && importance <= 5) {
        return Err(LocalOutputError::InvalidImportance);
    }
    Ok(())
}

/// Checks a categorized local classification: the confidence (range checked
/// by the caller), the category code, the sentiment and an importance from 1 to 5.
pub fn validate_categorized_output(
    confidence_in_range: bool,
    category: &str,
    sentiment: &str,
    importance: u8,
) -> (r: Result<(), LocalOutputError>)
    ensures
        r == if !confidence_in_range {
            Err(LocalOutputError::InvalidConfidence)
        } else if !words(ANALYSIS_CATEGORIES@).contains(category@) {
            Err(LocalOutputError::InvalidCategory)
        } else if !words(SENTIMENTS@).contains(sentiment@) {
            Err(LocalOutputError::InvalidSentiment)
        } else if !(1 <= importance <= 5) {
            Err(LocalOutputError::InvalidImportance)
        } else {
            Ok(())
        },
{
    if !confidence_in_range {
        return Err(LocalOutputError::InvalidConfidence);
    }
    if !is_one_of(category, &ANALYSIS_CATEGORIES) {
        return Err(LocalOutputError::InvalidCategory);
    }
    if !is_one_of(sentiment, &SENTIMENTS) {
        return Err(LocalOutputError::InvalidSentiment);
    }
    if !(1 <= importance && importance <= 5) {
        return Err(LocalOutputError::InvalidImportance);
    }
    Ok(())
}

/// System tags as stored: the tags and the primary tag, sorted, without duplicates.
pub fn normalize_system_tags(primary_tag: &str, system_tags: Vec<String>) -> (r: Vec<String>)
    ensures
        spec_strictly_sorted(strings_view(r@)),
        forall|y: Seq<char>|
            strings_view(r@).contains(y) <==> (strings_view(system_tags@).contains(y) || y == primary_tag@),
{
    let ghost input = strings_view(system_tags@);
    let mut out: Vec<String> = Vec::new();
    insert_sorted(&mut out, primary_tag.to_owned());
    let mut i: usize = 0;
    while i < system_tags.len()
        invariant
            input == strings_view(system_tags@),
            i <= system_tags@.len(),
            spec_strictly_sorted(strings_view(out@)),
            forall|y: Seq<char>|
                strings_view(out@).contains(y) <==> (input.take(i as int).contains(y) || y == primary_tag@),
        decreases system_tags@.len() - i,
    {
        assert(input[i as int] == system_tags@[i as int]@);
        let ghost before = strings_view(out@);
        let tag = system_tags[i].clone();
        assert(tag@ == input[i as int]);
        insert_sorted(&mut out, tag);
        assert forall|y: Seq<char>| input.take(i + 1).contains(y) <==> (input.take(i as int).contains(y)
            || y == input[i as int]) by {
            if input.take(i + 1).contains(y) {
                let k = choose|k: int| 0 <= k < i + 1 && #[trigger] input.take(i + 1)[k] == y;
                if k < i {
                    assert(input.take(i as int)[k] == y);
                }
            }
            if input.take(i as int).contains(y) {
                let k = choose|k: int| 0 <= k < i && #[trigger] input.take(i as int)[k] == y;
                assert(input.take(i + 1)[k] == y);
            }
            if y == input[i as int] {
                assert(input.take(i + 1)[i as int] == y);
            }
        }
        assert forall|y: Seq<char>| strings_view(out@).contains(y) <==> (input.take(i + 1).contains(y)
            || y == primary_tag@) by {
            assert(strings_view(out@).contains(y) <==> (before.contains(y) || y == input[i as int]));
        }
        i = i + 1;
    }
    assert(input.take(system_tags@.len() as int) =~= input);
    out
}

/// Name for what `str::to_lowercase` gives for a string: its Unicode
/// lowercase form, where a character may map to several and a capital sigma
/// maps by its place in the word.
pub uninterp spec fn spec_to_lowercase(s: Seq<char>) -> Seq<char>;

/// Calls `str::to_lowercase`.  The contract names the result.
#[verifier::external_body]
fn to_lowercase(s: &str) -> (r: String)
    ensures
        r@ == spec_to_lowercase(s@),
{
    s.to_lowercase()
}

/// A topic tag as stored: trimmed and lowercased.
pub open spec fn spec_topic_tag(tag: Seq<char>) -> Seq<char> {
    spec_to_lowercase(spec_trim(tag))
}

/// Whether `y` is the stored form of one of `tags` and is not empty.
pub open spec fn spec_topic_of(tags: Seq<Seq<char>>, y: Seq<char>) -> bool {
    y.len() > 0 && exists|i: int| 0 <= i < tags.len() && #[trigger] spec_topic_tag(tags[i]) == y
}

/// Topic tags as stored: each trimmed and lowercased, empty ones dropped,
/// sorted, without duplicates.
pub fn normalize_topic_tags(topic_tags: Vec<String>) -> (r: Vec<String>)
    ensures
        spec_strictly_sorted(strings_view(r@)),
        forall|y: Seq<char>| strings_view(r@).contains(y) <==> spec_topic_of(strings_view(topic_tags@), y),
{
    let ghost input = strings_view(topic_tags@);
    let mut out: Vec<String> = Vec::new();
    let mut i: usize = 0;
    while i < topic_tags.len()
        invariant
            input == strings_view(topic_tags@),
            i <= topic_tags@.len(),
            spec_strictly_sorted(strings_view(out@)),
            forall|y: Seq<char>| strings_view(out@).contains(y) <==> spec_topic_of(input.take(i as int), y),
        decreases topic_tags@.len() - i,
    {
        let tag = to_lowercase(trim(topic_tags[i].as_str()));
        let ghost before = strings_view(out@);
        if tag.as_str().unicode_len() > 0 {
            insert_sorted(&mut out, tag);
        }
        assert forall|y: Seq<char>| strings_view(out@).contains(y) <==> spec_topic_of(input.take(i + 1), y) by {
            if spec_topic_of(input.take(i + 1), y) {
                let k = choose|k: int| 0 <= k < i + 1 && #[trigger] spec_topic_tag(input.take(i + 1)[k]) == y;
                if k < i {
                    assert(input.take(i as int)[k] == input.take(i + 1)[k]);
                    assert(spec_topic_of(input.take(i as int), y));
                } else {
                    assert(input.take(i + 1)[k] == input[i as int]);
                }
            }
            if spec_topic_of(input.take(i as int), y) {
                let k = choose|k: int| 0 <= k < i && #[trigger] spec_topic_tag(input.take(i as int)[k]) == y;
                assert(input.take(i as int)[k] == input.take(i + 1)[k]);
            }
            if y.len() > 0 && y == spec_topic_tag(input[i as int]) {
                assert(input.take(i + 1)[i as int] == input[i as int]);
            }
        }
        i = i + 1;
    }
    assert(input.take(topic_tags@.len() as int) =~= input);
    out
}

/// The category code of the older single-category scheme for a primary tag.
pub open spec fn spec_legacy_category(primary_tag: Seq<char>) -> Seq<char> {
    if primary_tag == "idea"@ {
        "inspiration"@
    } else if primary_tag == "reflection"@ || primary_tag == "lesson"@ {
        "emotions"@
    } else if primary_tag == "question"@ {
        "study"@
    } else {
        "life"@
    }
}

/// The category code of the older single-category scheme for a primary tag.
pub fn legacy_category(primary_tag: &str) -> (r: &'static str)
    ensures
        r@ == spec_legacy_category(primary_tag@),
{
    if str_eq(primary_tag, "idea") {
        "inspiration"
    } else if str_eq(primary_tag, "reflection") || str_eq(primary_tag, "lesson") {
        "emotions"
    } else if str_eq(primary_tag, "question") {
        "study"
    } else {
        "life"
    }
}

/// Whether a details key repeats another field and is removed.
pub fn is_redundant_detail_key(key: &str) -> (r: bool)
    ensures
        r == words(REDUNDANT_DETAIL_KEYS@).contains(key@),
{
    is_one_of(key, &REDUNDANT_DETAIL_KEYS)
}

/// Normalizing system tags a second time, with the same primary tag, gives
/// the same list: a normalized list holds the primary tag already, and a
/// sorted duplicate-free list is fixed by its elements.
pub proof fn law_normalizing_system_tags_twice_changes_nothing(
    primary_tag: Seq<char>,
    once: Seq<Seq<char>>,
    twice: Seq<Seq<char>>,
)
    requires
        spec_strictly_sorted(once),
        once.contains(primary_tag),
        spec_strictly_sorted(twice),
        forall|y: Seq<char>| twice.contains(y) <==> (once.contains(y) || y == primary_tag),
    ensures
        twice == once,
{
    crate::order::law_sorted_lists_are_determined_by_their_elements(twice, once);
}

} // verus!
