//! The full-text query used to find candidate logs related to a text.
//!
//! The text is split at whitespace and at Chinese or ASCII punctuation; words
//! of at least two characters, at most eight of them, are quoted (their own
//! double quotes removed) and joined with `OR`.
use crate::text::{is_whitespace, push_char, spec_is_whitespace};
use vstd::prelude::*;
use vstd::string::*;

verus! {

/// The punctuation that separates search words, besides whitespace.
pub const SEPARATORS: [char; 13] = ['，', '。', '！', '？', '、', '；', '：', ',', '.', '!', '?', ';', ':'];

/// The most search words used.
pub const MAX_TERMS: usize = 8;

/// Whether `c` separates search words.
pub open spec fn spec_is_separator(c: char) -> bool {
    spec_is_whitespace(c) || SEPARATORS@.contains(c)
}

/// The pieces of `s` between separators, empty ones included (`str::split`).
pub open spec fn spec_pieces(s: Seq<char>) -> Seq<Seq<char>>
    decreases s.len(),
{
    if s.len() == 0 {
        seq![Seq::empty()]
    } else {
        let earlier = spec_pieces(s.drop_last());
        if spec_is_separator(s.last()) {
            earlier.push(Seq::empty())
        } else {
            earlier.update(earlier.len() - 1, earlier.last().push(s.last()))
        }
    }
}

/// The first eight pieces of at least two characters.
pub open spec fn spec_selected(pieces: Seq<Seq<char>>) -> Seq<Seq<char>>
    decreases pieces.len(),
{
    if pieces.len() == 0 {
        Seq::empty()
    } else {
        let earlier = spec_selected(pieces.drop_last());
        if pieces.last().len() >= 2 && earlier.len() < MAX_TERMS {
            earlier.push(pieces.last())
        } else {
            earlier
        }
    }
}

/// `s` without its double quotes.
pub open spec fn spec_without_quotes(s: Seq<char>) -> Seq<char>
    decreases s.len(),
{
    if s.len() == 0 {
        s
    } else if s.last() == '"' {
        spec_without_quotes(s.drop_last())
    } else {
        spec_without_quotes(s.drop_last()).push(s.last())
    }
}

/// A word as a quoted full-text term.
pub open spec fn spec_quoted(word: Seq<char>) -> Seq<char> {
    seq!['"'] + spec_without_quotes(word) + seq!['"']
}

/// The terms joined with ` OR `.
pub open spec fn spec_join_or(words: Seq<Seq<char>>) -> Seq<char>
    decreases words.len(),
{
    if words.len() == 0 {
        Seq::empty()
    } else if words.len() == 1 {
        spec_quoted(words[0])
    } else {
        spec_join_or(words.drop_last()) + " OR "@ + spec_quoted(words.last())
    }
}

/// The full-text query for `text`, or `None` when it has no word of at least
/// two characters.
pub open spec fn spec_fts_query(text: Seq<char>) -> Option<Seq<char>> {
    let words = spec_selected(spec_pieces(text));
    if words.len() == 0 {
        None
    } else {
        Some(spec_join_or(words))
    }
}

fn is_separator(c: char) -> (r: bool)
    ensures
        r == spec_is_separator(c),
{
    if is_whitespace(c) {
        return true;
    }
    let mut i: usize = 0;
    while i < 13
        invariant
            i <= 13,
            forall|j: int| 0 <= j < i ==> SEPARATORS@[j] != c,
        decreases 13 - i,
    {
        if SEPARATORS[i] == c {
            assert(SEPARATORS@[i as int] == c);
            return true;
        }
        i = i + 1;
    }
    false
}

/// Search words are separated by whitespace and by each of the punctuation
/// marks `，。！？、；：,.!?;:`, and by no other character.
pub proof fn law_separators_are_whitespace_and_punctuation(c: char)
    ensures
        spec_is_separator(c) <==> (spec_is_whitespace(c) || "，。！？、；：,.!?;:"@.contains(c)),
{
    reveal_strlit("，。！？、；：,.!?;:");
    assert(SEPARATORS@ =~= "，。！？、；：,.!?;:"@);
}

proof fn lemma_pieces_not_empty(text: Seq<char>)
    ensures
        spec_pieces(text).len() >= 1,
    decreases text.len(),
{
    if text.len() > 0 {
        lemma_pieces_not_empty(text.drop_last());
    }
}

/// The pieces a text is split into hold no whitespace and none of the
/// punctuation marks `，。！？、；：,.!?;:`.
pub proof fn law_pieces_hold_no_separator(text: Seq<char>)
    ensures
        forall|i: int, j: int|
            0 <= i < spec_pieces(text).len() && 0 <= j < spec_pieces(text)[i].len() ==> {
                let c = #[trigger] spec_pieces(text)[i][j];
                !spec_is_whitespace(c) && !"，。！？、；：,.!?;:"@.contains(c)
            },
    decreases text.len(),
{
    if text.len() > 0 {
        law_pieces_hold_no_separator(text.drop_last());
        law_separators_are_whitespace_and_punctuation(text.last());
        lemma_pieces_not_empty(text.drop_last());
        let earlier = spec_pieces(text.drop_last());
        assert forall|i: int, j: int|
            0 <= i < spec_pieces(text).len() && 0 <= j < spec_pieces(text)[i].len() implies {
                let c = #[trigger] spec_pieces(text)[i][j];
                !spec_is_whitespace(c) && !"，。！？、；：,.!?;:"@.contains(c)
            } by {
            if i < earlier.len() - 1 {
                assert(spec_pieces(text)[i] == earlier[i]);
            } else if i == earlier.len() - 1 {
                if !spec_is_separator(text.last()) {
                    if j < earlier[i].len() {
                        assert(spec_pieces(text)[i][j] == earlier[i][j]);
                    } else {
                        assert(spec_pieces(text)[i][j] == text.last());
                    }
                } else {
                    assert(spec_pieces(text)[i] == earlier[i]);
                }
            }
        }
    }
}

/// `"word"` with the word's own double quotes removed.
fn quoted(word: &Vec<char>) -> (r: String)
    ensures
        r@ == spec_quoted(word@),
{
    let mut out = String::new();
    push_char(&mut out, '"');
    let mut i: usize = 0;
    assert(word@.take(0) =~= Seq::<char>::empty());
    while i < word.len()
        invariant
            i <= word@.len(),
            out@ == seq!['"'] + spec_without_quotes(word@.take(i as int)),
        decreases word@.len() - i,
    {
        assert(word@.take(i + 1).drop_last() =~= word@.take(i as int));
        assert(word@.take(i + 1).last() == word@[i as int]);
        if word[i] != '"' {
            push_char(&mut out, word[i]);
        }
        i = i + 1;
        assert(out@ =~= seq!['"'] + spec_without_quotes(word@.take(i as int)));
    }
    assert(word@.take(word@.len() as int) =~= word@);
    push_char(&mut out, '"');
    out
}

/// Adds the finished `piece` to the selected words when it qualifies.
fn select(words: &mut Vec<Vec<char>>, piece: Vec<char>, ghost_pieces: Ghost<Seq<Seq<char>>>)
    requires
        old(words)@.map_values(|w: Vec<char>| w@) == spec_selected(ghost_pieces@),
    ensures
        final(words)@.map_values(|w: Vec<char>| w@) == spec_selected(ghost_pieces@.push(piece@)),
{
    let ghost ps = ghost_pieces@.push(piece@);
    assert(ps.drop_last() =~= ghost_pieces@);
    if piece.len() >= 2 && words.len() < MAX_TERMS {
        let ghost before = words@;
        words.push(piece);
        assert(words@.map_values(|w: Vec<char>| w@) =~= before.map_values(|w: Vec<char>| w@).push(ps.last()));
    }
}

/// The full-text query for `text`, or `None` when it has no word of at least
/// two characters (the caller then falls back to the most recent logs).
pub fn fts_query(text: &str) -> (r: Option<String>)
    ensures
        match r {
            Some(q) => spec_fts_query(text@) == Some(q@),
            None => spec_fts_query(text@) is None,
        },
{
    let chars = crate::text::chars_of(text);
    let mut words: Vec<Vec<char>> = Vec::new();
    let mut piece: Vec<char> = Vec::new();
    let mut i: usize = 0;
    let ghost mut done: Seq<Seq<char>> = Seq::empty();
    assert(chars@.take(0) =~= Seq::<char>::empty());
    assert(words@.map_values(|w: Vec<char>| w@) =~= Seq::<Seq<char>>::empty());
    while i < chars.len()
        invariant
            chars@ == text@,
            i <= chars@.len(),
            spec_pieces(chars@.take(i as int)) == done.push(piece@),
            words@.map_values(|w: Vec<char>| w@) == spec_selected(done),
        decreases chars@.len() - i,
    {
        let c = chars[i];
        assert(chars@.take(i + 1).drop_last() =~= chars@.take(i as int));
        assert(chars@.take(i + 1).last() == c);
        if is_separator(c) {
            let mut finished: Vec<char> = Vec::new();
            std::mem::swap(&mut finished, &mut piece);
            select(&mut words, finished, Ghost(done));
            proof {
                done = done.push(finished@);
            }
        } else {
            let ghost before = piece@;
            piece.push(c);
            assert(done.push(before).update(done.len() as int, before.push(c)) =~= done.push(piece@));
        }
        i = i + 1;
    }
    assert(chars@.take(chars@.len() as int) =~= chars@);
    select(&mut words, piece, Ghost(done));
    let ghost all = spec_selected(spec_pieces(text@));
    if words.len() == 0 {
        return None;
    }
    let mut out = String::new();
    let mut k: usize = 0;
    assert(all.take(0) =~= Seq::<Seq<char>>::empty());
    while k < words.len()
        invariant
            all == words@.map_values(|w: Vec<char>| w@),
            k <= words@.len(),
            out@ == spec_join_or(all.take(k as int)),
        decreases words@.len() - k,
    {
        assert(all.take(k + 1).drop_last() =~= all.take(k as int));
        assert(all.take(k + 1).last() == words@[k as int]@);
        if k > 0 {
            out.append(" OR ");
        }
        let q = quoted(&words[k]);
        out.append(q.as_str());
        if k == 0 {
            assert(out@ =~= spec_join_or(all.take(1)));
        } else {
            assert(out@ =~= spec_join_or(all.take(k + 1)));
        }
        k = k + 1;
    }
    assert(all.take(words@.len() as int) =~= all);
    Some(out)
}

} // verus!
