//! The agent's decisions about logs: what may be stored, what may be sent to a
//! model, which log a delete reference names, and the one-step undo of the
//! last storage decision of a user on a channel.
use crate::i18n::I18n;
use crate::models::{Log, StorageAction};
use crate::privacy::{redact, spec_redact};
use crate::text::{parse_u32, spec_parse_u32, spec_trim, str_eq, trim};
use vstd::prelude::*;
use vstd::string::*;

verus! {

// ---------------------------------------------------------------------------
// Reversible decisions
// ---------------------------------------------------------------------------

/// What the storage classifier's last decision for a user on a channel was, with the time
/// (in nanoseconds of a monotonic clock) at which it was taken.
#[derive(Debug)]
pub enum ReversibleDecision {
    /// The input was stored as the log `log_id`.
    Stored { log_id: String, recorded_at: u64 },
    /// The input `text` was not stored.
    NotStored { text: String, recorded_at: u64 },
}

impl ReversibleDecision {
    /// When the decision was taken.
    pub open spec fn spec_recorded_at(self) -> u64 {
        match self {
            ReversibleDecision::Stored { recorded_at, .. } => recorded_at,
            ReversibleDecision::NotStored { recorded_at, .. } => recorded_at,
        }
    }
}

/// How ingesting an input ended.
#[derive(Debug)]
pub enum IngestResult {
    /// Stored as the log `log_id`.
    Stored { log_id: String },
    /// Not worth storing.
    Ignored,
    /// The storage classifier could not decide.
    Ask,
}

/// One remembered decision: user, channel, decision.
pub type ReversalEntry = (String, String, ReversibleDecision);

/// The views of remembered decisions: user, channel, decision.
pub open spec fn entries_view(v: Seq<ReversalEntry>) -> Seq<(Seq<char>, Seq<char>, ReversibleDecision)> {
    v.map_values(|e: ReversalEntry| (e.0@, e.1@, e.2))
}

/// The most recently remembered decision for `user` on `channel`.
pub open spec fn spec_find(
    es: Seq<(Seq<char>, Seq<char>, ReversibleDecision)>,
    user: Seq<char>,
    channel: Seq<char>,
) -> Option<ReversibleDecision>
    decreases es.len(),
{
    if es.len() == 0 {
        None
    } else if es.last().0 == user && es.last().1 == channel {
        Some(es.last().2)
    } else {
        spec_find(es.drop_last(), user, channel)
    }
}

/// The remembered decisions without those of `user` on `channel`.
pub open spec fn spec_without(
    es: Seq<(Seq<char>, Seq<char>, ReversibleDecision)>,
    user: Seq<char>,
    channel: Seq<char>,
) -> Seq<(Seq<char>, Seq<char>, ReversibleDecision)>
    decreases es.len(),
{
    if es.len() == 0 {
        es
    } else if es.last().0 == user && es.last().1 == channel {
        spec_without(es.drop_last(), user, channel)
    } else {
        spec_without(es.drop_last(), user, channel).push(es.last())
    }
}

/// How long ago `recorded_at` was at `now`; zero if the clock went backwards.
pub open spec fn spec_elapsed(recorded_at: u64, now: u64) -> int {
    if now >= recorded_at {
        now - recorded_at
    } else {
        0
    }
}

/// What taking the decision of `user` on `channel` at `now` gives: the
/// remembered decision if it is at most `ttl` nanoseconds old.
pub open spec fn spec_take(
    es: Seq<(Seq<char>, Seq<char>, ReversibleDecision)>,
    ttl: u64,
    user: Seq<char>,
    channel: Seq<char>,
    now: u64,
) -> Option<ReversibleDecision> {
    match spec_find(es, user, channel) {
        Some(d) => if spec_elapsed(d.spec_recorded_at(), now) <= ttl {
            Some(d)
        } else {
            None
        },
        None => None,
    }
}

/// The decision that remembering `result` for `text` at `now` records.
pub open spec fn spec_decision_of(result: IngestResult, text: Seq<char>, now: u64) -> (Seq<char>, u64, bool) {
    match result {
        IngestResult::Stored { log_id } => (log_id@, now, true),
        _ => (text, now, false),
    }
}

/// Whether `d` is the decision that remembering `result` for `text` at `now` records.
pub open spec fn spec_records(d: ReversibleDecision, result: IngestResult, text: Seq<char>, now: u64) -> bool {
    match result {
        IngestResult::Stored { log_id } => d matches ReversibleDecision::Stored { log_id: l, recorded_at }
            && l@ == log_id@ && recorded_at == now,
        _ => d matches ReversibleDecision::NotStored { text: t, recorded_at } && t@ == text
            && recorded_at == now,
    }
}

pub proof fn lemma_without_removes(
    es: Seq<(Seq<char>, Seq<char>, ReversibleDecision)>,
    user: Seq<char>,
    channel: Seq<char>,
)
    ensures
        spec_find(spec_without(es, user, channel), user, channel) is None,
    decreases es.len(),
{
    if es.len() > 0 {
        lemma_without_removes(es.drop_last(), user, channel);
        let w = spec_without(es.drop_last(), user, channel);
        assert(w.push(es.last()).drop_last() =~= w);
    }
}

pub proof fn lemma_without_keeps_others(
    es: Seq<(Seq<char>, Seq<char>, ReversibleDecision)>,
    user: Seq<char>,
    channel: Seq<char>,
    other_user: Seq<char>,
    other_channel: Seq<char>,
)
    requires
        other_user != user || other_channel != channel,
    ensures
        spec_find(spec_without(es, user, channel), other_user, other_channel) == spec_find(
            es,
            other_user,
            other_channel,
        ),
    decreases es.len(),
{
    if es.len() > 0 {
        lemma_without_keeps_others(es.drop_last(), user, channel, other_user, other_channel);
        let w = spec_without(es.drop_last(), user, channel);
        assert(w.push(es.last()).drop_last() =~= w);
    }
}

/// Whether no two remembered decisions are for the same user and channel.
pub open spec fn spec_keys_unique(es: Seq<(Seq<char>, Seq<char>, ReversibleDecision)>) -> bool {
    forall|i: int, j: int|
        0 <= i < j < es.len() ==> !(#[trigger] es[i].0 == #[trigger] es[j].0 && es[i].1 == es[j].1)
}

proof fn lemma_remove_keeps_keys_unique(es: Seq<(Seq<char>, Seq<char>, ReversibleDecision)>, k: int)
    requires
        spec_keys_unique(es),
        0 <= k < es.len(),
    ensures
        spec_keys_unique(es.remove(k)),
{
    let r = es.remove(k);
    assert forall|i: int, j: int| 0 <= i < j < r.len() implies !(#[trigger] r[i].0 == #[trigger] r[j].0
        && r[i].1 == r[j].1) by {
        let a = if i < k { i } else { i + 1 };
        let b = if j < k { j } else { j + 1 };
        assert(r[i] == es[a]);
        assert(r[j] == es[b]);
        assert(es[a].0 == es[a].0);
        assert(es[b].0 == es[b].0);
    }
}

proof fn lemma_find_none_means_absent(
    es: Seq<(Seq<char>, Seq<char>, ReversibleDecision)>,
    user: Seq<char>,
    channel: Seq<char>,
)
    requires
        spec_find(es, user, channel) is None,
    ensures
        forall|i: int| 0 <= i < es.len() ==> !(#[trigger] es[i].0 == user && es[i].1 == channel),
    decreases es.len(),
{
    if es.len() > 0 {
        lemma_find_none_means_absent(es.drop_last(), user, channel);
        assert forall|i: int| 0 <= i < es.len() implies !(#[trigger] es[i].0 == user && es[i].1 == channel) by {
            if i < es.len() - 1 {
                assert(es[i] == es.drop_last()[i]);
            }
        }
    }
}

/// The decisions of the last few inputs, one per user and channel, that the
/// user may still reverse.
pub struct ReversalStore {
    entries: Vec<ReversalEntry>,
    ttl: u64,
}

impl ReversalStore {
    /// At most one decision is remembered per user and channel.
    #[verifier::type_invariant]
    spec fn one_decision_per_key(self) -> bool {
        spec_keys_unique(entries_view(self.entries@))
    }

    /// The remembered decisions, oldest first.
    pub closed spec fn spec_entries(&self) -> Seq<(Seq<char>, Seq<char>, ReversibleDecision)> {
        entries_view(self.entries@)
    }

    /// How long (in nanoseconds) a decision stays reversible.
    pub closed spec fn spec_ttl(&self) -> u64 {
        self.ttl
    }

    /// An empty store whose decisions stay reversible for `ttl` nanoseconds.
    pub fn new(ttl: u64) -> (r: ReversalStore)
        ensures
            r.spec_entries() == Seq::<(Seq<char>, Seq<char>, ReversibleDecision)>::empty(),
            r.spec_ttl() == ttl,
    {
        let entries: Vec<ReversalEntry> = Vec::new();
        assert(entries_view(entries@) =~= Seq::<(Seq<char>, Seq<char>, ReversibleDecision)>::empty());
        ReversalStore { entries, ttl }
    }

    /// Removes every decision of `user_id` on `channel`, giving the most recent one.
    fn remove_key(&mut self, user_id: &str, channel: &str) -> (r: Option<ReversibleDecision>)
        ensures
            final(self).spec_entries() == spec_without(old(self).spec_entries(), user_id@, channel@),
            final(self).spec_ttl() == old(self).spec_ttl(),
            r == spec_find(old(self).spec_entries(), user_id@, channel@),
    {
        proof {
            use_type_invariant(&*self);
        }
        let mut entries: Vec<ReversalEntry> = Vec::new();
        std::mem::swap(&mut entries, &mut self.entries);
        let ghost orig = entries_view(entries@);
        let mut found: Option<ReversibleDecision> = None;
        let mut i: usize = 0;
        let ghost mut k: int = 0;
        assert(orig.take(0) =~= Seq::<(Seq<char>, Seq<char>, ReversibleDecision)>::empty());
        assert(orig.skip(0) =~= orig);
        while i < entries.len()
            invariant
                spec_keys_unique(orig),
                spec_keys_unique(entries_view(entries@)),
                0 <= k <= orig.len(),
                entries_view(entries@) == spec_without(orig.take(k), user_id@, channel@) + orig.skip(k),
                i == spec_without(orig.take(k), user_id@, channel@).len(),
                found == spec_find(orig.take(k), user_id@, channel@),
            decreases entries@.len() - i,
        {
            let ghost before = entries_view(entries@);
            assert(before[i as int] == orig[k]);
            assert(orig.take(k + 1).drop_last() =~= orig.take(k));
            assert(orig.take(k + 1).last() == orig[k]);
            if str_eq(entries[i].0.as_str(), user_id) && str_eq(entries[i].1.as_str(), channel) {
                let ghost w = spec_without(orig.take(k), user_id@, channel@);
                let e = entries.remove(i);
                found = Some(e.2);
                assert(entries_view(entries@) =~= before.remove(i as int));
                proof {
                    lemma_remove_keeps_keys_unique(before, i as int);
                }
                assert(before.remove(i as int) =~= w + orig.skip(k + 1));
                assert(entries_view(entries@) =~= spec_without(orig.take(k + 1), user_id@, channel@)
                    + orig.skip(k + 1));
            } else {
                i = i + 1;
                assert(entries_view(entries@) =~= spec_without(orig.take(k + 1), user_id@, channel@)
                    + orig.skip(k + 1));
            }
            proof {
                k = k + 1;
            }
        }
        assert(k == orig.len());
        assert(orig.take(k) =~= orig);
        assert(entries_view(entries@) =~= spec_without(orig, user_id@, channel@));
        self.entries = entries;
        found
    }

    /// Remembers the decision taken at `now` for `text`, typed by `user_id` on
    /// `channel`, replacing the one remembered before for them.
    pub fn remember(&mut self, user_id: &str, channel: &str, text: &str, result: &IngestResult, now: u64)
        ensures
            final(self).spec_ttl() == old(self).spec_ttl(),
            spec_keys_unique(final(self).spec_entries()),
            final(self).spec_entries().len() > 0,
            final(self).spec_entries().drop_last() == spec_without(old(self).spec_entries(), user_id@, channel@),
            final(self).spec_entries().last().0 == user_id@,
            final(self).spec_entries().last().1 == channel@,
            spec_records(final(self).spec_entries().last().2, *result, text@, now),
    {
        let ghost old_entries = self.spec_entries();
        let _ = self.remove_key(user_id, channel);
        let decision = match result {
            IngestResult::Stored { log_id } => ReversibleDecision::Stored {
                log_id: log_id.clone(),
                recorded_at: now,
            },
            _ => ReversibleDecision::NotStored { text: text.to_owned(), recorded_at: now },
        };
        proof {
            use_type_invariant(&*self);
        }
        let mut entries: Vec<ReversalEntry> = Vec::new();
        std::mem::swap(&mut entries, &mut self.entries);
        let ghost before = entries_view(entries@);
        proof {
            // nothing is left for this user and channel, so the new entry's key is fresh
            lemma_without_removes(old_entries, user_id@, channel@);
            lemma_find_none_means_absent(before, user_id@, channel@);
        }
        entries.push((user_id.to_owned(), channel.to_owned(), decision));
        let ghost after = entries_view(entries@);
        assert(after.drop_last() =~= before);
        assert forall|i: int, j: int| 0 <= i < j < after.len() implies !(#[trigger] after[i].0
            == #[trigger] after[j].0 && after[i].1 == after[j].1) by {
            assert(after[i] == before[i]);
            if j < before.len() {
                assert(after[j] == before[j]);
            }
        }
        self.entries = entries;
    }
    /// Takes the decision of `user_id` on `channel` out of the store; it is
    /// given back only if it is at most the store's time-to-live old at `now`.
    pub fn take(&mut self, user_id: &str, channel: &str, now: u64) -> (r: Option<ReversibleDecision>)
        ensures
            final(self).spec_ttl() == old(self).spec_ttl(),
            spec_keys_unique(final(self).spec_entries()),
            final(self).spec_entries() == spec_without(old(self).spec_entries(), user_id@, channel@),
            r == spec_take(old(self).spec_entries(), old(self).spec_ttl(), user_id@, channel@, now),
    {
        let found = self.remove_key(user_id, channel);
        proof {
            use_type_invariant(&*self);
        }
        match found {
            Some(d) => {
                let recorded_at = match &d {
                    ReversibleDecision::Stored { recorded_at, .. } => *recorded_at,
                    ReversibleDecision::NotStored { recorded_at, .. } => *recorded_at,
                };
                let elapsed = if now >= recorded_at {
                    now - recorded_at
                } else {
                    0
                };
                if elapsed <= self.ttl {
                    Some(d)
                } else {
                    None
                }
            },
            None => None,
        }
    }
}

/// Ten minutes, in nanoseconds: how long a decision stays reversible by default.
pub const DEFAULT_REVERSAL_TTL: u64 = 600_000_000_000;

impl Default for ReversalStore {
    fn default() -> (r: ReversalStore)
        ensures
            r.spec_entries() == Seq::<(Seq<char>, Seq<char>, ReversibleDecision)>::empty(),
            r.spec_ttl() == DEFAULT_REVERSAL_TTL,
    {
        ReversalStore::new(DEFAULT_REVERSAL_TTL)
    }
}

/// What undoing the last decision of a user on a channel asks for.
#[derive(Debug)]
pub enum ReversalPlan {
    /// Delete the stored log `log_id`.
    Delete { log_id: String },
    /// Store `text`, which was not stored.
    Store { text: String },
    /// There is nothing (left) to undo.
    Unavailable,
}

/// The plan that undoing a decision asks for.
pub open spec fn spec_plan(d: Option<ReversibleDecision>) -> Option<(bool, Seq<char>)> {
    match d {
        Some(ReversibleDecision::Stored { log_id, .. }) => Some((true, log_id@)),
        Some(ReversibleDecision::NotStored { text, .. }) => Some((false, text@)),
        None => None,
    }
}

/// The kind and argument of a plan.
pub open spec fn plan_view(p: ReversalPlan) -> Option<(bool, Seq<char>)> {
    match p {
        ReversalPlan::Delete { log_id } => Some((true, log_id@)),
        ReversalPlan::Store { text } => Some((false, text@)),
        ReversalPlan::Unavailable => None,
    }
}

/// Takes the last decision of `user_id` on `channel` and says how to undo it:
/// delete what was stored, store what was not, or nothing when no decision is
/// remembered or it has expired.
pub fn reverse_last_decision(reversals: &mut ReversalStore, user_id: &str, channel: &str, now: u64) -> (r:
    ReversalPlan)
    ensures
        final(reversals).spec_ttl() == old(reversals).spec_ttl(),
        spec_keys_unique(final(reversals).spec_entries()),
        final(reversals).spec_entries() == spec_without(old(reversals).spec_entries(), user_id@, channel@),
        plan_view(r) == spec_plan(
            spec_take(old(reversals).spec_entries(), old(reversals).spec_ttl(), user_id@, channel@, now),
        ),
{
    match reversals.take(user_id, channel, now) {
        Some(ReversibleDecision::Stored { log_id, .. }) => ReversalPlan::Delete { log_id },
        Some(ReversibleDecision::NotStored { text, .. }) => ReversalPlan::Store { text },
        None => ReversalPlan::Unavailable,
    }
}

/// A decision remembered for a user on a channel is given back by the next
/// take for them while it has not expired.
pub proof fn law_take_returns_remembered(
    es: Seq<(Seq<char>, Seq<char>, ReversibleDecision)>,
    ttl: u64,
    user: Seq<char>,
    channel: Seq<char>,
    d: ReversibleDecision,
    now: u64,
)
    requires
        spec_elapsed(d.spec_recorded_at(), now) <= ttl,
    ensures
        spec_take(spec_without(es, user, channel).push((user, channel, d)), ttl, user, channel, now)
            == Some(d),
{
}

/// An expired decision is never given back.
pub proof fn law_expired_decisions_are_unavailable(
    es: Seq<(Seq<char>, Seq<char>, ReversibleDecision)>,
    ttl: u64,
    user: Seq<char>,
    channel: Seq<char>,
    now: u64,
)
    requires
        spec_find(es, user, channel) matches Some(d) && spec_elapsed(d.spec_recorded_at(), now) > ttl,
    ensures
        spec_take(es, ttl, user, channel, now) is None,
{
}

/// A decision can be taken once: after a take, the next take for the same
/// user and channel finds nothing.
pub proof fn law_take_is_single_use(
    es: Seq<(Seq<char>, Seq<char>, ReversibleDecision)>,
    ttl: u64,
    user: Seq<char>,
    channel: Seq<char>,
    now: u64,
)
    ensures
        spec_take(spec_without(es, user, channel), ttl, user, channel, now) is None,
{
    lemma_without_removes(es, user, channel);
}

/// Remembering or taking the decision of one user on one channel leaves what
/// every other user and channel would take unchanged.
pub proof fn law_users_and_channels_are_isolated(
    es: Seq<(Seq<char>, Seq<char>, ReversibleDecision)>,
    ttl: u64,
    user: Seq<char>,
    channel: Seq<char>,
    d: ReversibleDecision,
    other_user: Seq<char>,
    other_channel: Seq<char>,
    now: u64,
)
    requires
        other_user != user || other_channel != channel,
    ensures
        spec_take(spec_without(es, user, channel), ttl, other_user, other_channel, now) == spec_take(
            es,
            ttl,
            other_user,
            other_channel,
            now,
        ),
        spec_take(spec_without(es, user, channel).push((user, channel, d)), ttl, other_user, other_channel, now)
            == spec_take(es, ttl, other_user, other_channel, now),
{
    lemma_without_keeps_others(es, user, channel, other_user, other_channel);
    let w = spec_without(es, user, channel);
    assert(w.push((user, channel, d)).drop_last() =~= w);
}

// ---------------------------------------------------------------------------
// Storing logs
// ---------------------------------------------------------------------------

/// Why an input cannot be stored as a log.
#[derive(Debug, Clone, Copy, PartialEq, Eq, Structural)]
pub enum LogInputError {
    /// The text is empty or whitespace only.
    EmptyLog,
    /// The privacy level is neither `normal` nor `no_upload`.
    InvalidPrivacy,
}

impl LogInputError {
    /// The message key of the error's localized text.
    pub fn message_key(&self) -> (r: &'static str)
        ensures
            r@ == match self {
                LogInputError::EmptyLog => "error.empty_log"@,
                LogInputError::InvalidPrivacy => "error.invalid_privacy"@,
            },
    {
        match self {
            LogInputError::EmptyLog => "error.empty_log",
            LogInputError::InvalidPrivacy => "error.invalid_privacy",
        }
    }
}

/// Whether `level` is a privacy level a log may have.
pub open spec fn spec_valid_privacy(level: Seq<char>) -> bool {
    level == "normal"@ || level == "no_upload"@
}

/// The text of an input to be stored: the input trimmed, which must not be empty.
pub fn check_log_text(text: &str) -> (r: Result<&str, LogInputError>)
    ensures
        match r {
            Ok(t) => spec_trim(text@).len() > 0 && t@ == spec_trim(text@),
            Err(e) => e == LogInputError::EmptyLog && spec_trim(text@).len() == 0,
        },
{
    let t = trim(text);
    if t.unicode_len() == 0 {
        Err(LogInputError::EmptyLog)
    } else {
        Ok(t)
    }
}

/// Checks an input to be stored with a privacy level and gives its trimmed
/// text; an empty text is reported before an invalid level.
pub fn validate_log_input<'a>(text: &'a str, privacy_level: &str) -> (r: Result<&'a str, LogInputError>)
    ensures
        match r {
            Ok(t) => spec_trim(text@).len() > 0 && spec_valid_privacy(privacy_level@) && t@ == spec_trim(
                text@,
            ),
            Err(LogInputError::EmptyLog) => spec_trim(text@).len() == 0,
            Err(LogInputError::InvalidPrivacy) => spec_trim(text@).len() > 0 && !spec_valid_privacy(
                privacy_level@,
            ),
        },
{
    let t = check_log_text(text)?;
    if !(str_eq(privacy_level, "normal") || str_eq(privacy_level, "no_upload")) {
        return Err(LogInputError::InvalidPrivacy);
    }
    Ok(t)
}

/// What ingesting an input does once the storage classifier has answered.
#[derive(Debug, Clone, Copy, PartialEq, Eq, Structural)]
pub enum IngestPlan {
    /// Store the input as a normal log.
    Save,
    /// Do not store it.
    Ignore,
    /// Ask the user.
    Ask,
}

/// Maps the storage classifier's answer to what ingesting does; a classifier that failed
/// (`None`) leads to asking the user.
pub fn ingest_plan(answer: Option<StorageAction>) -> (r: IngestPlan)
    ensures
        r == match answer {
            Some(StorageAction::Store) => IngestPlan::Save,
            Some(StorageAction::Ignore) => IngestPlan::Ignore,
            _ => IngestPlan::Ask,
        },
{
    match answer {
        Some(StorageAction::Store) => IngestPlan::Save,
        Some(StorageAction::Ignore) => IngestPlan::Ignore,
        _ => IngestPlan::Ask,
    }
}

// ---------------------------------------------------------------------------
// Deleting logs
// ---------------------------------------------------------------------------

/// What a delete reference names.
#[derive(Debug, PartialEq, Eq)]
pub enum DeleteTarget {
    /// The n-th most recent log, 1 to 10.
    Position(u32),
    /// The log with this id.
    Id(String),
}

/// A `-N` reference whose N is not a number from 1 to 10.
#[derive(Debug, Clone, Copy, PartialEq, Eq, Structural)]
pub enum DeleteReferenceError {
    InvalidPosition,
}

/// The target a delete reference names: `-N` is a position, which must be a
/// number from 1 to 10; anything else is an id.
pub open spec fn spec_delete_target(reference: Seq<char>) -> Option<Option<(u32, Seq<char>)>> {
    if reference.len() > 0 && reference[0] == '-' {
        match spec_parse_u32(reference.drop_first()) {
            Some(p) => if 1 <= p <= 10 {
                Some(Some((p, Seq::empty())))
            } else {
                None
            },
            None => None,
        }
    } else {
        Some(None)
    }
}

/// `-N` names the N-th most recent log exactly when N is a number from 1 to
/// 10; with any other number the reference is refused.
pub proof fn law_delete_positions_are_one_to_ten(n: nat)
    requires
        n <= u32::MAX,
    ensures
        spec_delete_target(seq!['-'] + crate::text::spec_numeral(n)) == if 1 <= n <= 10 {
            Some(Some((n as u32, Seq::<char>::empty())))
        } else {
            None
        },
{
    crate::text::lemma_numeral_parses(n);
    let r = seq!['-'] + crate::text::spec_numeral(n);
    assert(r.drop_first() =~= crate::text::spec_numeral(n));
}

/// A reference that does not start with `-` names a log by its id.
pub proof fn law_other_references_are_ids(reference: Seq<char>)
    requires
        reference.len() == 0 || reference[0] != '-',
    ensures
        spec_delete_target(reference) == Some(None::<(u32, Seq<char>)>),
{
}

/// Parses a delete reference: `-N` names the N-th most recent log (N from 1
/// to 10); any other reference is a log id.
pub fn parse_delete_reference(reference: &str) -> (r: Result<DeleteTarget, DeleteReferenceError>)
    ensures
        match r {
            Ok(DeleteTarget::Position(p)) => spec_delete_target(reference@) == Some(
                Some((p, Seq::<char>::empty())),
            ),
            Ok(DeleteTarget::Id(id)) => spec_delete_target(reference@) == Some(None::<(u32, Seq<char>)>)
                && id@ == reference@,
            Err(_) => spec_delete_target(reference@) is None,
        },
{
    let n = reference.unicode_len();
    if n > 0 && reference.get_char(0) == '-' {
        let digits = reference.substring_char(1, n);
        assert(digits@ =~= reference@.drop_first());
        match parse_u32(digits) {
            Some(p) => {
                if 1 <= p && p <= 10 {
                    Ok(DeleteTarget::Position(p))
                } else {
                    Err(DeleteReferenceError::InvalidPosition)
                }
            },
            None => Err(DeleteReferenceError::InvalidPosition),
        }
    } else {
        Ok(DeleteTarget::Id(reference.to_owned()))
    }
}

/// The id of the `position`-th log of `recent` (1 is the first), if there is one.
pub fn positional_log_id(recent: &[Log], position: u32) -> (r: Option<String>)
    requires
        1 <= position,
    ensures
        match r {
            Some(id) => position <= recent@.len() && id@ == recent@[position - 1].id@,
            None => position > recent@.len(),
        },
{
    let index = (position - 1) as usize;
    if index < recent.len() {
        Some(recent[index].id.clone())
    } else {
        None
    }
}

// ---------------------------------------------------------------------------
// What is shown and what is sent to a model
// ---------------------------------------------------------------------------

/// `[id] created_at` on one line, the text on the next.
pub open spec fn spec_format_log(id: Seq<char>, created_at: Seq<char>, text: Seq<char>) -> Seq<char> {
    seq!['['] + id + "] "@ + created_at + seq!['\n'] + text
}

/// A log as shown to the user.
pub fn format_log(log: &Log) -> (r: String)
    ensures
        r@ == spec_format_log(log.id@, log.created_at@, log.text@),
{
    let mut out = String::new();
    crate::text::push_char(&mut out, '[');
    out.append(log.id.as_str());
    out.append("] ");
    out.append(log.created_at.as_str());
    crate::text::push_char(&mut out, '\n');
    out.append(log.text.as_str());
    assert(out@ =~= spec_format_log(log.id@, log.created_at@, log.text@));
    out
}

/// A log as a model may see it: id, creation time and redacted text.
#[derive(Debug)]
pub struct ModelLog {
    pub id: String,
    pub created_at: String,
    pub text: String,
}

/// The logs that may be sent to a model: all but the `no_upload` ones, in order.
pub open spec fn spec_uploadable(logs: Seq<Log>) -> Seq<Log>
    decreases logs.len(),
{
    if logs.len() == 0 {
        logs
    } else if logs.last().privacy_level@ == "no_upload"@ {
        spec_uploadable(logs.drop_last())
    } else {
        spec_uploadable(logs.drop_last()).push(logs.last())
    }
}

/// A `no_upload` log is never sent to a model: every log that may be sent is
/// one of the given logs and is not `no_upload`.
pub proof fn law_no_upload_logs_are_never_sent(logs: Seq<Log>)
    ensures
        forall|i: int|
            0 <= i < spec_uploadable(logs).len() ==> (#[trigger] spec_uploadable(logs)[i]).privacy_level@
                != "no_upload"@ && logs.contains(spec_uploadable(logs)[i]),
    decreases logs.len(),
{
    if logs.len() > 0 {
        law_no_upload_logs_are_never_sent(logs.drop_last());
        let u = spec_uploadable(logs.drop_last());
        assert forall|i: int| 0 <= i < u.len() implies logs.contains(#[trigger] u[i]) by {
            assert(logs.drop_last().contains(u[i]));
            let j = choose|j: int| 0 <= j < logs.drop_last().len() && logs.drop_last()[j] == u[i];
            assert(logs[j] == u[i]);
        }
        assert(logs[logs.len() - 1] == logs.last());
    }
}

/// Whether a log may be sent to a model: its privacy level is not `no_upload`.
pub open spec fn spec_may_upload(log: Log) -> bool {
    log.privacy_level@ != "no_upload"@
}

/// Every log that is not `no_upload` is sent, and in the given order: the
/// uploadable logs are the given logs filtered by their privacy level, and
/// each log that is not `no_upload` is one of them.
pub proof fn law_every_uploadable_log_is_sent(logs: Seq<Log>)
    ensures
        spec_uploadable(logs) == logs.filter(|l: Log| spec_may_upload(l)),
        forall|i: int|
            0 <= i < logs.len() && spec_may_upload(logs[i]) ==> spec_uploadable(logs).contains(
                #[trigger] logs[i],
            ),
    decreases logs.len(),
{
    reveal(Seq::filter);
    let pred = |l: Log| spec_may_upload(l);
    if logs.len() > 0 {
        law_every_uploadable_log_is_sent(logs.drop_last());
    }
    assert(spec_uploadable(logs) =~= logs.filter(pred));
    assert forall|i: int| 0 <= i < logs.len() && spec_may_upload(logs[i]) implies spec_uploadable(
        logs,
    ).contains(#[trigger] logs[i]) by {
        logs.lemma_filter_contains(pred, i);
    }
}

/// Whether `m` is `log` as a model may see it, redacted with the labels of
/// `catalog`.
pub open spec fn spec_model_log_of(m: ModelLog, log: Log, catalog: Seq<(Seq<char>, Seq<char>)>) -> bool {
    m.id@ == log.id@ && m.created_at@ == log.created_at@ && m.text@ == spec_redact(log.text@, catalog)
}

/// What may be sent to a model to connect recent logs: the uploadable logs,
/// redacted with the labels of `i18n`, when there are at least two of them.
pub fn model_inputs(logs: &[Log], i18n: &I18n) -> (r: Option<Vec<ModelLog>>)
    ensures
        match r {
            Some(v) => spec_uploadable(logs@).len() >= 2 && v@.len() == spec_uploadable(logs@).len()
                && forall|i: int| 0 <= i < v@.len() ==> spec_model_log_of(#[trigger] v@[i], spec_uploadable(logs@)[i], i18n@),
            None => spec_uploadable(logs@).len() < 2,
        },
{
    let mut out: Vec<ModelLog> = Vec::new();
    let mut i: usize = 0;
    assert(logs@.take(0) =~= Seq::<Log>::empty());
    while i < logs.len()
        invariant
            i <= logs@.len(),
            out@.len() == spec_uploadable(logs@.take(i as int)).len(),
            forall|j: int| 0 <= j < out@.len() ==> spec_model_log_of(#[trigger] out@[j], spec_uploadable(logs@.take(i as int))[j], i18n@),
        decreases logs@.len() - i,
    {
        let log = &logs[i];
        assert(logs@.take(i + 1).drop_last() =~= logs@.take(i as int));
        assert(logs@.take(i + 1).last() == logs@[i as int]);
        if !str_eq(log.privacy_level.as_str(), "no_upload") {
            let m = ModelLog { id: log.id.clone(), created_at: log.created_at.clone(), text: redact(log.text.as_str(), i18n) };
            out.push(m);
        }
        i = i + 1;
    }
    assert(logs@.take(logs@.len() as int) =~= logs@);
    if out.len() < 2 {
        None
    } else {
        Some(out)
    }
}

/// Whether one of `inputs` has the id `id`.
pub open spec fn spec_has_id(inputs: Seq<ModelLog>, id: Seq<char>) -> bool {
    exists|j: int| 0 <= j < inputs.len() && #[trigger] inputs[j].id@ == id
}

/// Whether a proposed connection cites at least two sources, all of them logs
/// that were sent to the model.
pub open spec fn spec_sources_valid(source_ids: Seq<Seq<char>>, inputs: Seq<ModelLog>) -> bool {
    source_ids.len() >= 2 && forall|i: int| 0 <= i < source_ids.len() ==> spec_has_id(inputs, #[trigger] source_ids[i])
}

/// Checks the sources a model gives for a connection.
pub fn connection_sources_valid(source_ids: &[String], inputs: &[ModelLog]) -> (r: bool)
    ensures
        r == spec_sources_valid(source_ids@.map_values(|s: String| s@), inputs@),
{
    let ghost ids = source_ids@.map_values(|s: String| s@);
    if source_ids.len() < 2 {
        return false;
    }
    let mut i: usize = 0;
    while i < source_ids.len()
        invariant
            ids == source_ids@.map_values(|s: String| s@),
            ids.len() == source_ids@.len(),
            source_ids@.len() >= 2,
            i <= source_ids@.len(),
            forall|k: int| 0 <= k < i ==> spec_has_id(inputs@, #[trigger] ids[k]),
        decreases source_ids@.len() - i,
    {
        let mut found = false;
        let mut j: usize = 0;
        while j < inputs.len()
            invariant
                i < source_ids@.len(),
                ids == source_ids@.map_values(|s: String| s@),
                j <= inputs@.len(),
                found ==> spec_has_id(inputs@, ids[i as int]),
                !found ==> forall|m: int| 0 <= m < j ==> #[trigger] inputs@[m].id@ != ids[i as int],
            decreases inputs@.len() - j,
        {
            if str_eq(inputs[j].id.as_str(), source_ids[i].as_str()) {
                found = true;
            }
            j = j + 1;
        }
        if !found {
            assert(!spec_has_id(inputs@, ids[i as int]));
            return false;
        }
        i = i + 1;
    }
    true
}

/// A connection a model proposed, as far as the checks on it read it: its
/// kind, its source log ids, and whether its confidence (a number the caller
/// holds) lies between 0 and 1.
pub struct ProposedConnection {
    pub kind: String,
    pub source_log_ids: Vec<String>,
    pub confidence_in_range: bool,
}

/// The ids of a proposed connection's sources.
pub open spec fn spec_source_ids(c: ProposedConnection) -> Seq<Seq<char>> {
    c.source_log_ids@.map_values(|s: String| s@)
}

/// The indices below `n` at which `keep` holds, in increasing order.
pub open spec fn spec_indices_where(n: int, keep: spec_fn(int) -> bool) -> Seq<int>
    decreases n,
{
    if n <= 0 {
        Seq::empty()
    } else if keep(n - 1) {
        spec_indices_where(n - 1, keep).push(n - 1)
    } else {
        spec_indices_where(n - 1, keep)
    }
}

/// The integer values of a list of indices.
pub open spec fn index_view(v: Seq<usize>) -> Seq<int> {
    v.map_values(|i: usize| i as int)
}

/// Whether a proposed connection has one of the known kinds.
pub open spec fn spec_known_kind(c: ProposedConnection) -> bool {
    crate::classify::words(crate::classify::CONNECTION_KINDS@).contains(c.kind@)
}

/// Whether a proposed connection cites at least two logs that were sent to
/// the model, and only such logs, with a confidence between 0 and 1.
pub open spec fn spec_accepted(c: ProposedConnection, inputs: Seq<ModelLog>) -> bool {
    spec_sources_valid(spec_source_ids(c), inputs) && c.confidence_in_range
}

/// The positions of the proposed connections whose kind is known, in order.
pub fn connections_of_known_kind(proposed: &[ProposedConnection]) -> (r: Vec<usize>)
    ensures
        index_view(r@) == spec_indices_where(
            proposed@.len() as int,
            |i: int| spec_known_kind(proposed@[i]),
        ),
{
    let ghost keep = |i: int| spec_known_kind(proposed@[i]);
    let mut out: Vec<usize> = Vec::new();
    let mut i: usize = 0;
    while i < proposed.len()
        invariant
            i <= proposed@.len(),
            keep == (|i: int| spec_known_kind(proposed@[i])),
            index_view(out@) == spec_indices_where(i as int, keep),
        decreases proposed@.len() - i,
    {
        let ghost before = out@;
        if crate::classify::is_connection_kind(proposed[i].kind.as_str()) {
            out.push(i);
            assert(index_view(out@) =~= index_view(before).push(i as int));
        }
        i = i + 1;
    }
    out
}

/// The positions of the proposed connections that may be kept after a
/// connection analysis of `inputs`, in order.
pub fn accepted_connections(proposed: &[ProposedConnection], inputs: &[ModelLog]) -> (r: Vec<usize>)
    ensures
        index_view(r@) == spec_indices_where(
            proposed@.len() as int,
            |i: int| spec_accepted(proposed@[i], inputs@),
        ),
{
    let ghost keep = |i: int| spec_accepted(proposed@[i], inputs@);
    let mut out: Vec<usize> = Vec::new();
    let mut i: usize = 0;
    while i < proposed.len()
        invariant
            i <= proposed@.len(),
            keep == (|i: int| spec_accepted(proposed@[i], inputs@)),
            index_view(out@) == spec_indices_where(i as int, keep),
        decreases proposed@.len() - i,
    {
        let ghost before = out@;
        let c = &proposed[i];
        if connection_sources_valid(c.source_log_ids.as_slice(), inputs) && c.confidence_in_range {
            out.push(i);
            assert(index_view(out@) =~= index_view(before).push(i as int));
        }
        i = i + 1;
    }
    out
}

} // verus!
