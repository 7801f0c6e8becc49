//! Character-level string helpers shared by the command, i18n and privacy code.
//!
//! Strings are reasoned about through their view, a `Seq<char>`.
use vstd::prelude::*;
use vstd::string::*;

verus! {

/// Whether `c` has the Unicode `White_Space` property, which is what
/// `char::is_whitespace` answers: the controls U+0009 to U+000D, the space,
/// U+0085, the no-break space, the Ogham space mark, the spaces U+2000 to
/// U+200A, the line and paragraph separators, the narrow no-break space, the
/// medium mathematical space and the ideographic space.
pub open spec fn spec_is_whitespace(c: char) -> bool {
    let n = c as int;
    ||| 0x9 <= n <= 0xD
    ||| n == 0x20
    ||| n == 0x85
    ||| n == 0xA0
    ||| n == 0x1680
    ||| 0x2000 <= n <= 0x200A
    ||| n == 0x2028
    ||| n == 0x2029
    ||| n == 0x202F
    ||| n == 0x205F
    ||| n == 0x3000
}

/// Whether `c` is whitespace (`char::is_whitespace`).
pub fn is_whitespace(c: char) -> (r: bool)
    ensures
        r == spec_is_whitespace(c),
{
    let n = c as u32;
    (0x9 <= n && n <= 0xD) || n == 0x20 || n == 0x85 || n == 0xA0 || n == 0x1680 || (0x2000 <= n
        && n <= 0x200A) || n == 0x2028 || n == 0x2029 || n == 0x202F || n == 0x205F || n == 0x3000
}

/// Calls `String::push`, which appends one character.
#[verifier::external_body]
pub(crate) fn push_char(s: &mut String, c: char)
    ensures
        final(s)@ == old(s)@.push(c),
{
    s.push(c)
}

/// `s` with all leading whitespace removed (`str::trim_start`).
pub open spec fn spec_trim_start(s: Seq<char>) -> Seq<char>
    decreases s.len(),
{
    if s.len() > 0 && spec_is_whitespace(s[0]) {
        spec_trim_start(s.drop_first())
    } else {
        s
    }
}

/// `s` with all trailing whitespace removed (`str::trim_end`).
pub open spec fn spec_trim_end(s: Seq<char>) -> Seq<char>
    decreases s.len(),
{
    if s.len() > 0 && spec_is_whitespace(s.last()) {
        spec_trim_end(s.drop_last())
    } else {
        s
    }
}

/// `s` with leading and trailing whitespace removed (`str::trim`).
pub open spec fn spec_trim(s: Seq<char>) -> Seq<char> {
    spec_trim_end(spec_trim_start(s))
}

/// Index of the first whitespace character at or after `i`, or `s.len()`.
pub open spec fn spec_find_ws_from(s: Seq<char>, i: int) -> int
    decreases s.len() - i,
{
    if i < 0 || i >= s.len() {
        s.len() as int
    } else if spec_is_whitespace(s[i]) {
        i
    } else {
        spec_find_ws_from(s, i + 1)
    }
}

/// Index of the first whitespace character of `s`, or `s.len()`.
pub open spec fn spec_find_ws(s: Seq<char>) -> int {
    spec_find_ws_from(s, 0)
}

pub proof fn lemma_find_ws_from_bounds(s: Seq<char>, i: int)
    requires
        0 <= i <= s.len(),
    ensures
        i <= spec_find_ws_from(s, i) <= s.len(),
        forall|j: int| i <= j < spec_find_ws_from(s, i) ==> !spec_is_whitespace(#[trigger] s[j]),
        spec_find_ws_from(s, i) < s.len() ==> spec_is_whitespace(s[spec_find_ws_from(s, i)]),
    decreases s.len() - i,
{
    if i < s.len() && !spec_is_whitespace(s[i]) {
        lemma_find_ws_from_bounds(s, i + 1);
    }
}

pub proof fn lemma_trim_start_is_suffix(s: Seq<char>)
    ensures
        spec_trim_start(s).len() <= s.len(),
        spec_trim_start(s) == s.skip(s.len() - spec_trim_start(s).len()),
        spec_trim_start(s).len() > 0 ==> !spec_is_whitespace(spec_trim_start(s)[0]),
    decreases s.len(),
{
    if s.len() > 0 && spec_is_whitespace(s[0]) {
        lemma_trim_start_is_suffix(s.drop_first());
        assert(s.drop_first().skip(s.drop_first().len() - spec_trim_start(s).len()) =~= s.skip(
            s.len() - spec_trim_start(s).len(),
        ));
    } else {
        assert(s.skip(0) =~= s);
    }
}

/// A trimmed-at-the-start sequence is unchanged by trimming again.
pub proof fn lemma_trim_start_idempotent(s: Seq<char>)
    ensures
        spec_trim_start(spec_trim_start(s)) == spec_trim_start(s),
{
    lemma_trim_start_is_suffix(s);
}

/// The characters of `s`, in order.
pub fn chars_of(s: &str) -> (v: Vec<char>)
    ensures
        v@ == s@,
{
    let n = s.unicode_len();
    let mut v: Vec<char> = Vec::new();
    let mut i: usize = 0;
    while i < n
        invariant
            n == s@.len(),
            i <= n,
            v@ == s@.take(i as int),
        decreases n - i,
    {
        let c = s.get_char(i);
        v.push(c);
        i = i + 1;
        assert(v@ =~= s@.take(i as int));
    }
    assert(s@.take(n as int) =~= s@);
    v
}

/// A `String` holding `chars`.
pub fn string_of(chars: &[char]) -> (s: String)
    ensures
        s@ == chars@,
{
    let mut s = String::new();
    let mut i: usize = 0;
    while i < chars.len()
        invariant
            i <= chars@.len(),
            s@ == chars@.take(i as int),
        decreases chars@.len() - i,
    {
        push_char(&mut s, chars[i]);
        i = i + 1;
        assert(s@ =~= chars@.take(i as int));
    }
    assert(chars@.take(chars@.len() as int) =~= chars@);
    s
}

/// Whether `a` and `b` hold the same characters.
pub fn str_eq(a: &str, b: &str) -> (r: bool)
    ensures
        r == (a@ == b@),
{
    let n = a.unicode_len();
    let m = b.unicode_len();
    if n != m {
        return false;
    }
    let mut i: usize = 0;
    while i < n
        invariant
            n == a@.len(),
            m == b@.len(),
            n == m,
            i <= n,
            forall|j: int| 0 <= j < i ==> a@[j] == b@[j],
        decreases n - i,
    {
        if a.get_char(i) != b.get_char(i) {
            return false;
        }
        i = i + 1;
    }
    assert(a@ =~= b@);
    true
}

/// Whether `p` is a prefix of `s` (`str::starts_with`).
pub fn starts_with(s: &str, p: &str) -> (r: bool)
    ensures
        r == p@.is_prefix_of(s@),
{
    let n = s.unicode_len();
    let m = p.unicode_len();
    if m > n {
        return false;
    }
    let mut i: usize = 0;
    while i < m
        invariant
            n == s@.len(),
            m == p@.len(),
            m <= n,
            i <= m,
            forall|j: int| 0 <= j < i ==> p@[j] == s@[j],
        decreases m - i,
    {
        if s.get_char(i) != p.get_char(i) {
            return false;
        }
        i = i + 1;
    }
    true
}

/// Index of the first whitespace character of `s`, or its length.
pub fn find_ws(s: &str) -> (idx: usize)
    ensures
        idx as int == spec_find_ws(s@),
{
    let n = s.unicode_len();
    let mut i: usize = 0;
    while i < n
        invariant
            n == s@.len(),
            i <= n,
            spec_find_ws_from(s@, 0) == spec_find_ws_from(s@, i as int),
        decreases n - i,
    {
        if is_whitespace(s.get_char(i)) {
            return i;
        }
        i = i + 1;
    }
    i
}

/// `s` without its leading whitespace (`str::trim_start`).
pub fn trim_start(s: &str) -> (r: &str)
    ensures
        r@ == spec_trim_start(s@),
{
    let n = s.unicode_len();
    let mut i: usize = 0;
    assert(s@.skip(0) =~= s@);
    while i < n
        invariant
            n == s@.len(),
            i <= n,
            spec_trim_start(s@) == spec_trim_start(s@.skip(i as int)),
        ensures
            i <= n,
            spec_trim_start(s@) == spec_trim_start(s@.skip(i as int)),
            i < n ==> !spec_is_whitespace(s@[i as int]),
        decreases n - i,
    {
        if !is_whitespace(s.get_char(i)) {
            break;
        }
        assert(s@.skip(i as int).drop_first() =~= s@.skip(i + 1));
        i = i + 1;
    }
    let r = s.substring_char(i, n);
    assert(r@ =~= s@.skip(i as int));
    if i < n {
        assert(s@.skip(i as int)[0] == s@[i as int]);
    } else {
        assert(s@.skip(i as int).len() == 0);
    }
    r
}

/// `s` without its leading and trailing whitespace (`str::trim`).
pub fn trim(s: &str) -> (r: &str)
    ensures
        r@ == spec_trim(s@),
{
    let t = trim_start(s);
    let n = t.unicode_len();
    let mut j: usize = n;
    assert(t@.take(n as int) =~= t@);
    while j > 0
        invariant
            n == t@.len(),
            j <= n,
            spec_trim_end(t@) == spec_trim_end(t@.take(j as int)),
        ensures
            j <= n,
            spec_trim_end(t@) == spec_trim_end(t@.take(j as int)),
            j > 0 ==> !spec_is_whitespace(t@[j - 1]),
        decreases j,
    {
        if !is_whitespace(t.get_char(j - 1)) {
            break;
        }
        assert(t@.take(j as int).drop_last() =~= t@.take(j - 1));
        j = j - 1;
    }
    let r = t.substring_char(0, j);
    assert(r@ =~= t@.take(j as int));
    if j > 0 {
        assert(t@.take(j as int).last() == t@[j - 1]);
    }
    r
}

/// `s` with every non-overlapping occurrence of the non-empty pattern `p`,
/// found from left to right, replaced by `r` (`str::replace`).
pub open spec fn spec_replace(s: Seq<char>, p: Seq<char>, r: Seq<char>) -> Seq<char>
    decreases s.len(),
{
    if p.len() == 0 || s.len() == 0 {
        s
    } else if p.is_prefix_of(s) {
        r + spec_replace(s.skip(p.len() as int), p, r)
    } else {
        seq![s[0]] + spec_replace(s.drop_first(), p, r)
    }
}

/// A text without the pattern is unchanged by replacement.
pub proof fn lemma_replace_absent(s: Seq<char>, p: Seq<char>, r: Seq<char>)
    requires
        p.len() > 0,
        forall|i: int| 0 <= i <= s.len() - p.len() ==> !p.is_prefix_of(#[trigger] s.skip(i)),
    ensures
        spec_replace(s, p, r) == s,
    decreases s.len(),
{
    if s.len() > 0 {
        assert(s.skip(0) =~= s);
        if s.len() >= p.len() {
            assert(!p.is_prefix_of(s.skip(0)));
        }
        assert forall|i: int| 0 <= i <= s.drop_first().len() - p.len() implies !p.is_prefix_of(
            #[trigger] s.drop_first().skip(i),
        ) by {
            assert(s.drop_first().skip(i) =~= s.skip(i + 1));
        }
        lemma_replace_absent(s.drop_first(), p, r);
        assert(seq![s[0]] + s.drop_first() =~= s);
    }
}

/// Whether `p` occurs in `s` at character index `i`.
fn occurs_at(s: &Vec<char>, i: usize, p: &Vec<char>) -> (r: bool)
    requires
        i <= s@.len(),
    ensures
        r == p@.is_prefix_of(s@.skip(i as int)),
{
    let n = s.len();
    if p.len() > n - i {
        return false;
    }
    let mut j: usize = 0;
    while j < p.len()
        invariant
            n == s@.len(),
            i <= s@.len(),
            p@.len() <= s@.len() - i,
            j <= p@.len(),
            forall|k: int| 0 <= k < j ==> p@[k] == s@.skip(i as int)[k],
        decreases p@.len() - j,
    {
        if s[i + j] != p[j] {
            return false;
        }
        j = j + 1;
    }
    true
}

/// `s` with every occurrence of the non-empty `p` replaced by `r` (`str::replace`).
pub fn replace(s: &str, p: &str, r: &str) -> (out: String)
    requires
        p@.len() > 0,
    ensures
        out@ == spec_replace(s@, p@, r@),
{
    let sv = chars_of(s);
    let pv = chars_of(p);
    let n = sv.len();
    let mut out = String::new();
    let mut i: usize = 0;
    assert(sv@.skip(0) =~= sv@);
    while i < n
        invariant
            n == sv@.len(),
            sv@ == s@,
            pv@ == p@,
            p@.len() > 0,
            i <= n,
            out@ + spec_replace(sv@.skip(i as int), p@, r@) == spec_replace(s@, p@, r@),
        decreases n - i,
    {
        let ghost rest = sv@.skip(i as int);
        if occurs_at(&sv, i, &pv) {
            out.append(r);
            assert(rest.skip(p@.len() as int) =~= sv@.skip(i + p@.len()));
            assert(out@ + spec_replace(sv@.skip(i + pv@.len()), p@, r@) =~= spec_replace(s@, p@, r@));
            i = i + pv.len();
        } else {
            push_char(&mut out, sv[i]);
            assert(rest.drop_first() =~= sv@.skip(i + 1));
            assert(rest[0] == sv@[i as int]);
            assert(out@ + spec_replace(sv@.skip(i + 1), p@, r@) =~= spec_replace(s@, p@, r@));
            i = i + 1;
        }
    }
    assert(sv@.skip(n as int).len() == 0);
    assert(out@ =~= out@ + spec_replace(sv@.skip(n as int), p@, r@));
    out
}

/// Whether `c` is an ASCII decimal digit.
pub open spec fn spec_is_digit(c: char) -> bool {
    '0' <= c <= '9'
}

/// The value of a string of decimal digits.
pub open spec fn spec_decimal(digits: Seq<char>) -> nat
    decreases digits.len(),
{
    if digits.len() == 0 {
        0
    } else {
        spec_decimal(digits.drop_last()) * 10 + ((digits.last() as int - '0' as int) as nat)
    }
}

/// `s` without one leading `+`.
pub open spec fn spec_unsigned_part(s: Seq<char>) -> Seq<char> {
    if s.len() > 0 && s[0] == '+' {
        s.drop_first()
    } else {
        s
    }
}

/// Whether every character of `s` is a decimal digit.
pub open spec fn spec_all_digits(s: Seq<char>) -> bool {
    forall|i: int| 0 <= i < s.len() ==> spec_is_digit(#[trigger] s[i])
}

/// The value of one or more decimal digits when it fits in `u32`.
pub open spec fn spec_parse_digits(digits: Seq<char>) -> Option<u32> {
    if digits.len() > 0 && spec_all_digits(digits) && spec_decimal(digits) <= u32::MAX {
        Some(spec_decimal(digits) as u32)
    } else {
        None
    }
}

/// What `str::parse::<u32>` gives: an optional `+` followed by one or more
/// decimal digits whose value fits in `u32`; anything else is rejected.
pub open spec fn spec_parse_u32(s: Seq<char>) -> Option<u32> {
    spec_parse_digits(spec_unsigned_part(s))
}

/// The decimal digit for `d`, from 0 to 9.
pub open spec fn spec_digit_char(d: nat) -> char {
    (d + 48) as char
}

/// The decimal numeral of `n`, without leading zeros.
pub open spec fn spec_numeral(n: nat) -> Seq<char>
    decreases n,
{
    if n < 10 {
        seq![spec_digit_char(n)]
    } else {
        spec_numeral(n / 10).push(spec_digit_char(n % 10))
    }
}

/// The numeral of a number that fits in `u32` parses back to it.
pub proof fn lemma_numeral_parses(n: nat)
    requires
        n <= u32::MAX,
    ensures
        spec_numeral(n).len() > 0,
        spec_all_digits(spec_numeral(n)),
        spec_decimal(spec_numeral(n)) == n,
        spec_parse_u32(spec_numeral(n)) == Some(n as u32),
    decreases n,
{
    let s = spec_numeral(n);
    assert(spec_digit_char(n % 10) as int == n % 10 + 48);
    assert('0' as int == 48);
    assert(s.last() == spec_digit_char(n % 10));
    assert(spec_decimal(s) == spec_decimal(s.drop_last()) * 10 + n % 10);
    if n < 10 {
        assert(s.drop_last() =~= Seq::<char>::empty());
    } else {
        lemma_numeral_parses(n / 10);
        let p = spec_numeral(n / 10);
        assert(s.drop_last() =~= p);
        assert(forall|i: int| 0 <= i < p.len() ==> s[i] == p[i]);
        assert(n == (n / 10) * 10 + n % 10);
    }
    assert(s[0] != '+');
}

proof fn lemma_decimal_monotone(digits: Seq<char>, k: int)
    requires
        0 <= k <= digits.len(),
        forall|i: int| 0 <= i < digits.len() ==> spec_is_digit(#[trigger] digits[i]),
    ensures
        spec_decimal(digits.take(k)) <= spec_decimal(digits),
    decreases digits.len(),
{
    if k == digits.len() {
        assert(digits.take(k) =~= digits);
    } else {
        assert(digits.drop_last().take(k) =~= digits.take(k));
        lemma_decimal_monotone(digits.drop_last(), k);
    }
}

/// Parses a decimal `u32` as `str::parse::<u32>` does.
pub fn parse_u32(s: &str) -> (r: Option<u32>)
    ensures
        r == spec_parse_u32(s@),
{
    let n = s.unicode_len();
    let mut start: usize = 0;
    if n > 0 && s.get_char(0) == '+' {
        start = 1;
    }
    let ghost digits = s@.skip(start as int);
    assert(digits =~= spec_unsigned_part(s@));
    if start == n {
        return None;
    }
    let mut value: u64 = 0;
    let mut i: usize = start;
    assert(digits.take(0) =~= Seq::<char>::empty());
    while i < n
        invariant
            n == s@.len(),
            start <= i <= n,
            digits == s@.skip(start as int),
            digits == spec_unsigned_part(s@),
            digits.len() > 0,
            forall|j: int| 0 <= j < i - start ==> spec_is_digit(#[trigger] digits[j]),
            value == spec_decimal(digits.take(i - start)),
            value <= u32::MAX,
        decreases n - i,
    {
        let c = s.get_char(i);
        if !('0' <= c && c <= '9') {
            assert(!spec_is_digit(digits[i - start]));
            assert(!spec_all_digits(digits));
            assert(spec_parse_u32(s@) is None);
            return None;
        }
        let d = (c as u32 - '0' as u32) as u64;
        assert(digits.take(i + 1 - start).drop_last() =~= digits.take(i - start));
        assert(digits.take(i + 1 - start).last() == c);
        let next = value * 10 + d;
        assert(spec_decimal(digits.take(i + 1 - start)) == next);
        if next > 4294967295 {
            proof {
                assert(forall|j: int| 0 <= j < i + 1 - start ==> spec_is_digit(#[trigger] digits.take(i + 1 - start)[j]));
                if spec_all_digits(digits) {
                    lemma_decimal_monotone(digits, i + 1 - start);
                    assert(spec_decimal(digits) > u32::MAX);
                }
                assert(spec_parse_u32(s@) is None);
            }
            return None;
        }
        value = next;
        i = i + 1;
    }
    assert(digits.take(n - start) =~= digits);
    Some(value as u32)
}

} // verus!
