//! The order of `String`s (`Ord for str`) and sorted, duplicate-free tag lists.
//!
//! Strings compare by their UTF-8 bytes, which orders them as their
//! characters' code points compared one after another.
use vstd::prelude::*;

verus! {

/// Whether `a` sorts strictly before `b`.
pub open spec fn spec_less(a: Seq<char>, b: Seq<char>) -> bool
    decreases a.len(),
{
    if a.len() == 0 {
        b.len() > 0
    } else if b.len() == 0 {
        false
    } else if (a[0] as int) < (b[0] as int) {
        true
    } else if a[0] == b[0] {
        spec_less(a.drop_first(), b.drop_first())
    } else {
        false
    }
}

pub proof fn lemma_less_irreflexive(a: Seq<char>)
    ensures
        !spec_less(a, a),
    decreases a.len(),
{
    if a.len() > 0 {
        lemma_less_irreflexive(a.drop_first());
    }
}

pub proof fn lemma_less_transitive(a: Seq<char>, b: Seq<char>, c: Seq<char>)
    requires
        spec_less(a, b),
        spec_less(b, c),
    ensures
        spec_less(a, c),
    decreases a.len(),
{
    if a.len() > 0 && b.len() > 0 && c.len() > 0 && a[0] == b[0] && b[0] == c[0] {
        lemma_less_transitive(a.drop_first(), b.drop_first(), c.drop_first());
    }
}

pub proof fn lemma_less_total(a: Seq<char>, b: Seq<char>)
    requires
        a != b,
    ensures
        spec_less(a, b) || spec_less(b, a),
    decreases a.len(),
{
    if a.len() > 0 && b.len() > 0 {
        if a[0] == b[0] {
            if a.drop_first() == b.drop_first() {
                assert(a =~= seq![a[0]] + a.drop_first());
                assert(b =~= seq![b[0]] + b.drop_first());
            }
            lemma_less_total(a.drop_first(), b.drop_first());
        } else {
            assert((a[0] as int) != (b[0] as int));
        }
    } else if a.len() == 0 && b.len() == 0 {
        assert(a =~= b);
    }
}

pub proof fn lemma_less_asymmetric(a: Seq<char>, b: Seq<char>)
    requires
        spec_less(a, b),
    ensures
        !spec_less(b, a),
{
    if spec_less(b, a) {
        lemma_less_transitive(a, b, a);
        lemma_less_irreflexive(a);
    }
}

/// Whether `a` sorts strictly before `b` (`a < b` for `str`).
pub fn str_less(a: &str, b: &str) -> (r: bool)
    ensures
        r == spec_less(a@, b@),
{
    let n = a.unicode_len();
    let m = b.unicode_len();
    let mut i: usize = 0;
    assert(a@.skip(0) =~= a@);
    assert(b@.skip(0) =~= b@);
    while i < n && i < m
        invariant
            n == a@.len(),
            m == b@.len(),
            i <= n,
            i <= m,
            spec_less(a@, b@) == spec_less(a@.skip(i as int), b@.skip(i as int)),
        decreases n - i,
    {
        let x = a.get_char(i);
        let y = b.get_char(i);
        assert(a@.skip(i as int)[0] == x);
        assert(b@.skip(i as int)[0] == y);
        if (x as u32) < (y as u32) {
            return true;
        }
        if x != y {
            return false;
        }
        assert(a@.skip(i as int).drop_first() =~= a@.skip(i + 1));
        assert(b@.skip(i as int).drop_first() =~= b@.skip(i + 1));
        i = i + 1;
    }
    i < m
}

/// The views of a list of strings.
pub open spec fn strings_view(v: Seq<String>) -> Seq<Seq<char>> {
    v.map_values(|s: String| s@)
}

/// Whether `s` is sorted without duplicates.
pub open spec fn spec_strictly_sorted(s: Seq<Seq<char>>) -> bool {
    forall|i: int, j: int| 0 <= i < j < s.len() ==> spec_less(#[trigger] s[i], #[trigger] s[j])
}

/// Adds `x` to the sorted duplicate-free list `v`, unless it is already there.
pub fn insert_sorted(v: &mut Vec<String>, x: String)
    requires
        spec_strictly_sorted(strings_view(old(v)@)),
    ensures
        spec_strictly_sorted(strings_view(final(v)@)),
        forall|y: Seq<char>|
            strings_view(final(v)@).contains(y) <==> (strings_view(old(v)@).contains(y) || y == x@),
{
    let ghost before = strings_view(v@);
    let mut j: usize = 0;
    while j < v.len()
        invariant
            before == strings_view(v@),
            j <= v@.len(),
            forall|k: int| 0 <= k < j ==> spec_less(#[trigger] before[k], x@),
        ensures
            j <= v@.len(),
            forall|k: int| 0 <= k < j ==> spec_less(#[trigger] before[k], x@),
            j < v@.len() ==> !spec_less(before[j as int], x@),
        decreases v@.len() - j,
    {
        if !str_less(v[j].as_str(), x.as_str()) {
            break;
        }
        j = j + 1;
    }
    if j < v.len() && crate::text::str_eq(v[j].as_str(), x.as_str()) {
        assert(before[j as int] == x@);
        assert forall|y: Seq<char>| strings_view(v@).contains(y) <==> (before.contains(y) || y == x@) by {
            if y == x@ {
                assert(before[j as int] == y);
            }
        }
        return;
    }
    proof {
        if j < v@.len() {
            lemma_less_total(before[j as int], x@);
        }
    }
    v.insert(j, x);
    let ghost after = strings_view(v@);
    assert(after =~= before.insert(j as int, x@));
    assert forall|p: int, q: int| 0 <= p < q < after.len() implies spec_less(
        #[trigger] after[p],
        #[trigger] after[q],
    ) by {
        if q < j {
        } else if q == j {
        } else if p < j {
            assert(after[q] == before[q - 1]);
            if q - 1 > j {
                assert(spec_less(before[j as int], before[q - 1]));
                lemma_less_transitive(after[p], x@, before[j as int]);
                lemma_less_transitive(after[p], before[j as int], before[q - 1]);
            } else {
                lemma_less_transitive(after[p], x@, before[j as int]);
            }
        } else if p == j {
            if q - 1 > j {
                assert(spec_less(before[j as int], before[q - 1]));
                lemma_less_transitive(x@, before[j as int], before[q - 1]);
            }
        } else {
            assert(after[p] == before[p - 1]);
            assert(after[q] == before[q - 1]);
        }
    }
    assert forall|y: Seq<char>| after.contains(y) <==> (before.contains(y) || y == x@) by {
        if after.contains(y) {
            let k = choose|k: int| 0 <= k < after.len() && after[k] == y;
            if k < j {
                assert(before[k] == y);
            } else if k > j {
                assert(before[k - 1] == y);
            }
        }
        if before.contains(y) {
            let k = choose|k: int| 0 <= k < before.len() && before[k] == y;
            if k < j {
                assert(after[k] == y);
            } else {
                assert(after[k + 1] == y);
            }
        }
        if y == x@ {
            assert(after[j as int] == y);
        }
    }
}

/// Two sorted duplicate-free lists with the same elements are equal.
pub proof fn law_sorted_lists_are_determined_by_their_elements(a: Seq<Seq<char>>, b: Seq<Seq<char>>)
    requires
        spec_strictly_sorted(a),
        spec_strictly_sorted(b),
        forall|y: Seq<char>| a.contains(y) <==> b.contains(y),
    ensures
        a == b,
    decreases a.len(),
{
    if a.len() == 0 {
        if b.len() > 0 {
            assert(b.contains(b[0]));
        }
        assert(a =~= b);
    } else if b.len() == 0 {
        assert(a.contains(a[0]));
    } else {
        // the first elements are the least of the same set, hence equal
        assert(a.contains(a[0]));
        assert(b.contains(b[0]));
        let ia = choose|k: int| 0 <= k < a.len() && a[k] == b[0];
        let ib = choose|k: int| 0 <= k < b.len() && b[k] == a[0];
        if a[0] != b[0] {
            assert(ia > 0);
            assert(ib > 0);
            assert(spec_less(a[0], a[ia]));
            assert(spec_less(b[0], b[ib]));
            lemma_less_asymmetric(a[0], b[0]);
        }
        let ta = a.drop_first();
        let tb = b.drop_first();
        assert forall|i: int, j: int| 0 <= i < j < ta.len() implies spec_less(#[trigger] ta[i], #[trigger] ta[j]) by {
            assert(ta[i] == a[i + 1] && ta[j] == a[j + 1]);
        }
        assert forall|i: int, j: int| 0 <= i < j < tb.len() implies spec_less(#[trigger] tb[i], #[trigger] tb[j]) by {
            assert(tb[i] == b[i + 1] && tb[j] == b[j + 1]);
        }
        assert forall|y: Seq<char>| ta.contains(y) <==> tb.contains(y) by {
            if ta.contains(y) {
                let k = choose|k: int| 0 <= k < ta.len() && ta[k] == y;
                assert(a[k + 1] == y);
                assert(spec_less(a[0], y));
                lemma_less_irreflexive(y);
                assert(b.contains(y));
                let m = choose|m: int| 0 <= m < b.len() && b[m] == y;
                assert(m != 0);
                assert(tb[m - 1] == y);
            }
            if tb.contains(y) {
                let k = choose|k: int| 0 <= k < tb.len() && tb[k] == y;
                assert(b[k + 1] == y);
                assert(spec_less(b[0], y));
                lemma_less_irreflexive(y);
                assert(a.contains(y));
                let m = choose|m: int| 0 <= m < a.len() && a[m] == y;
                assert(m != 0);
                assert(ta[m - 1] == y);
            }
        }
        law_sorted_lists_are_determined_by_their_elements(ta, tb);
        assert(a =~= seq![a[0]] + ta);
        assert(b =~= seq![b[0]] + tb);
    }
}

} // verus!
