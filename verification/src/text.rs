//! Text handling for names and data files: prefixes, substrings, whitespace
//! splitting, trimming and unsigned decimal integers.
use vstd::prelude::*;

verus! {

// ── Characters and case (std) ───────────────────────────────────────────────

/// What `char::is_whitespace` answers for a character: whether it has the
/// Unicode `White_Space` property.
pub uninterp spec fn is_white(c: char) -> bool;

/// `char::is_whitespace`. Claimed: the answer is `is_white(c)`, a function of
/// `c` alone. Which characters are white is not stated.
#[verifier::external_body]
pub(crate) fn char_is_whitespace(c: char) -> (r: bool)
    ensures
        r == is_white(c),
{
    c.is_whitespace()
}

/// What `str::to_lowercase` returns for a string: its lower-case equivalent
/// under the Unicode `Lowercase` mapping.
pub uninterp spec fn lowercase_of(s: Seq<char>) -> Seq<char>;

/// `str::to_lowercase`. Claimed: the result is `lowercase_of(s@)`, a function
/// of the characters of `s` alone. The mapping itself is not stated.
#[verifier::external_body]
pub(crate) fn to_lowercase(s: &str) -> (r: String)
    ensures
        r@ == lowercase_of(s@),
{
    s.to_lowercase()
}

// ── Prefixes and substrings ─────────────────────────────────────────────────

/// `s` begins with `p`.
pub open spec fn has_prefix(s: Seq<char>, p: Seq<char>) -> bool {
    p.len() <= s.len() && s.subrange(0, p.len() as int) == p
}

/// `p` occurs in `s` starting at position `i`.
pub open spec fn occurs_at(s: Seq<char>, p: Seq<char>, i: int) -> bool {
    0 <= i && i + p.len() <= s.len() && s.subrange(i, i + p.len()) == p
}

/// `p` occurs somewhere in `s` (the empty string occurs in every string).
pub open spec fn has_substring(s: Seq<char>, p: Seq<char>) -> bool {
    exists|i: int| occurs_at(s, p, i)
}

/// The characters of a string, in order.
pub fn chars_of(s: &str) -> (r: Vec<char>)
    ensures
        r@ == s@,
{
    let n = s.unicode_len();
    let mut out: Vec<char> = Vec::new();
    let mut i: usize = 0;
    while i < n
        invariant
            i <= n,
            n == s@.len(),
            out@ == s@.subrange(0, i as int),
        decreases n - i,
    {
        out.push(s.get_char(i));
        i = i + 1;
        assert(out@ =~= s@.subrange(0, i as int));
    }
    assert(s@.subrange(0, n as int) =~= s@);
    out
}

/// Do the two strings hold the same characters?
pub fn str_equal(a: &str, b: &str) -> (r: bool)
    ensures
        r == (a@ == b@),
{
    let n = a.unicode_len();
    if n != b.unicode_len() {
        return false;
    }
    let mut i: usize = 0;
    while i < n
        invariant
            i <= n,
            n == a@.len(),
            n == b@.len(),
            forall|k: int| 0 <= k < i ==> a@[k] == b@[k],
        decreases n - i,
    {
        if a.get_char(i) != b.get_char(i) {
            return false;
        }
        i = i + 1;
    }
    assert(a@ =~= b@);
    true
}

/// `p` occurs in `s` at position `i` (positions counted in characters).
fn matches_at(s: &Vec<char>, p: &Vec<char>, i: usize) -> (r: bool)
    requires
        i + p@.len() <= s@.len(),
    ensures
        r == occurs_at(s@, p@, i as int),
{
    let total = s.len();
    let mut k: usize = 0;
    while k < p.len()
        invariant
            k <= p@.len(),
            total == s@.len(),
            i + p@.len() <= s@.len(),
            forall|j: int| 0 <= j < k ==> s@[i + j] == p@[j],
        decreases p@.len() - k,
    {
        if s[i + k] != p[k] {
            assert(s@.subrange(i as int, i + p@.len())[k as int] != p@[k as int]);
            return false;
        }
        k = k + 1;
    }
    assert(s@.subrange(i as int, i + p@.len()) =~= p@);
    true
}

/// Does `s` begin with `p`?
pub fn starts_with_str(s: &str, p: &str) -> (r: bool)
    ensures
        r == has_prefix(s@, p@),
{
    let sc = chars_of(s);
    let pc = chars_of(p);
    if pc.len() > sc.len() {
        return false;
    }
    matches_at(&sc, &pc, 0)
}

/// Does `p` occur in `s`?
pub fn contains_str(s: &str, p: &str) -> (r: bool)
    ensures
        r == has_substring(s@, p@),
{
    let sc = chars_of(s);
    let pc = chars_of(p);
    if pc.len() > sc.len() {
        return false;
    }
    if pc.len() == 0 {
        assert(s@.subrange(0, 0) =~= p@);
        assert(occurs_at(s@, p@, 0));
        return true;
    }
    let total = sc.len();
    let last = total - pc.len();
    let mut i: usize = 0;
    while i <= last
        invariant
            i <= last + 1,
            total == sc@.len(),
            last + pc@.len() == sc@.len(),
            pc@.len() > 0,
            sc@ == s@,
            pc@ == p@,
            forall|j: int| 0 <= j < i ==> !occurs_at(s@, p@, j),
        decreases last + 1 - i,
    {
        if matches_at(&sc, &pc, i) {
            return true;
        }
        i = i + 1;
    }
    assert forall|j: int| !occurs_at(s@, p@, j) by {
        if 0 <= j <= last {
            assert(j < i);
        }
    }
    false
}

// ── Whitespace ──────────────────────────────────────────────────────────────

/// Length of the leading run of non-white characters of `s`.
pub open spec fn word_len(s: Seq<char>) -> nat
    decreases s.len(),
{
    if s.len() == 0 || is_white(s[0]) {
        0
    } else {
        1 + word_len(s.drop_first())
    }
}

/// The whitespace-separated words of `s`, in order: the maximal runs of
/// characters that are not white.
pub open spec fn words(s: Seq<char>) -> Seq<Seq<char>>
    decreases s.len(),
{
    if s.len() == 0 {
        Seq::empty()
    } else if is_white(s[0]) {
        words(s.drop_first())
    } else {
        proof {
            lemma_word_len_bounds(s);
        }
        let n = word_len(s);
        seq![s.take(n as int)] + words(s.skip(n as int))
    }
}

/// Bounds on the length of the leading word.
pub proof fn lemma_word_len_bounds(s: Seq<char>)
    ensures
        word_len(s) <= s.len(),
        s.len() > 0 && !is_white(s[0]) ==> word_len(s) > 0,
        forall|j: int| 0 <= j < word_len(s) ==> !is_white(#[trigger] s[j]),
        word_len(s) < s.len() ==> is_white(s[word_len(s) as int]),
    decreases s.len(),
{
    if s.len() > 0 && !is_white(s[0]) {
        lemma_word_len_bounds(s.drop_first());
        assert forall|j: int| 0 <= j < word_len(s) implies !is_white(#[trigger] s[j]) by {
            if j > 0 {
                assert(s[j] == s.drop_first()[j - 1]);
            }
        }
    }
}

/// A run of non-white characters followed by a white one, or by the end, has
/// exactly the run's length as its word length.
proof fn lemma_word_len_of_run(s: Seq<char>, n: int)
    requires
        0 <= n <= s.len(),
        forall|j: int| 0 <= j < n ==> !is_white(#[trigger] s[j]),
        n == s.len() || is_white(s[n]),
    ensures
        word_len(s) == n,
    decreases n,
{
    if n > 0 {
        let t = s.drop_first();
        assert forall|j: int| 0 <= j < n - 1 implies !is_white(#[trigger] t[j]) by {
            assert(t[j] == s[j + 1]);
        }
        if n < s.len() {
            assert(t[n - 1] == s[n]);
        }
        lemma_word_len_of_run(t, n - 1);
    }
}

/// Every word is non-empty and holds no white character.
pub proof fn lemma_words_are_words(s: Seq<char>)
    ensures
        forall|k: int| 0 <= k < words(s).len() ==> #[trigger] words(s)[k].len() > 0,
        forall|k: int, j: int|
            0 <= k < words(s).len() && 0 <= j < words(s)[k].len() ==> !is_white(
                #[trigger] words(s)[k][j],
            ),
    decreases s.len(),
{
    if s.len() > 0 {
        if is_white(s[0]) {
            lemma_words_are_words(s.drop_first());
            assert(words(s) == words(s.drop_first()));
        } else {
            lemma_word_len_bounds(s);
            let n = word_len(s);
            let rest = s.skip(n as int);
            lemma_words_are_words(rest);
            assert(words(s) == seq![s.take(n as int)] + words(rest));
            assert forall|k: int, j: int|
                0 <= k < words(s).len() && 0 <= j < words(s)[k].len() implies !is_white(
                #[trigger] words(s)[k][j],
            ) by {
                if k > 0 {
                    assert(words(s)[k] == words(rest)[k - 1]);
                } else {
                    assert(words(s)[0][j] == s[j]);
                }
            }
            assert forall|k: int| 0 <= k < words(s).len() implies #[trigger] words(s)[k].len()
                > 0 by {
                if k > 0 {
                    assert(words(s)[k] == words(rest)[k - 1]);
                }
            }
        }
    }
}

/// Split a string on whitespace, as `str::split_whitespace`: the words of `s`,
/// in order, with no empty words.
pub fn split_whitespace_str(s: &str) -> (r: Vec<&str>)
    ensures
        r@.map_values(|w: &str| w@) == words(s@),
{
    let sc = chars_of(s);
    let n = sc.len();
    let mut out: Vec<&str> = Vec::new();
    let mut i: usize = 0;
    assert(s@.skip(0) =~= s@);
    assert(out@.map_values(|w: &str| w@) + words(s@) =~= words(s@));
    while i < n
        invariant
            i <= n,
            n == s@.len(),
            sc@ == s@,
            out@.map_values(|w: &str| w@) + words(s@.skip(i as int)) == words(s@),
        decreases n - i,
    {
        let ghost rest = s@.skip(i as int);
        if char_is_whitespace(sc[i]) {
            assert(rest.drop_first() =~= s@.skip(i + 1));
            i = i + 1;
        } else {
            let start = i;
            let mut j = i;
            while j < n && !char_is_whitespace(sc[j])
                invariant
                    start <= j <= n,
                    n == s@.len(),
                    sc@ == s@,
                    forall|k: int| start <= k < j ==> !is_white(#[trigger] s@[k]),
                decreases n - j,
            {
                j = j + 1;
            }
            proof {
                assert forall|k: int| 0 <= k < j - start implies !is_white(#[trigger] rest[k]) by {
                    assert(rest[k] == s@[start + k]);
                }
                if j < n {
                    assert(rest[j - start] == s@[j as int]);
                }
                lemma_word_len_of_run(rest, j - start);
                assert(rest.take((j - start) as int) =~= s@.subrange(start as int, j as int));
                assert(rest.skip((j - start) as int) =~= s@.skip(j as int));
            }
            let w = s.substring_char(start, j);
            let ghost before = out@.map_values(|w: &str| w@);
            out.push(w);
            assert(out@.map_values(|w: &str| w@) =~= before.push(w@));
            assert(before.push(w@) + words(s@.skip(j as int)) =~= before + (seq![w@] + words(
                s@.skip(j as int),
            )));
            i = j;
        }
    }
    assert(s@.skip(n as int) =~= Seq::<char>::empty());
    assert(out@.map_values(|w: &str| w@) + Seq::<Seq<char>>::empty() =~= out@.map_values(
        |w: &str| w@,
    ));
    out
}

/// Number of leading white characters of `s`.
pub open spec fn lead_white(s: Seq<char>) -> nat
    decreases s.len(),
{
    if s.len() > 0 && is_white(s[0]) {
        1 + lead_white(s.drop_first())
    } else {
        0
    }
}

/// Number of trailing white characters of `s`.
pub open spec fn trail_white(s: Seq<char>) -> nat
    decreases s.len(),
{
    if s.len() > 0 && is_white(s.last()) {
        1 + trail_white(s.drop_last())
    } else {
        0
    }
}

/// `s` without its leading and trailing whitespace, as `str::trim`.
pub open spec fn trimmed(s: Seq<char>) -> Seq<char> {
    let t = s.skip(lead_white(s) as int);
    t.take(t.len() - trail_white(t))
}

proof fn lemma_lead_white(s: Seq<char>, n: int)
    requires
        0 <= n <= s.len(),
        forall|j: int| 0 <= j < n ==> is_white(#[trigger] s[j]),
        n == s.len() || !is_white(s[n]),
    ensures
        lead_white(s) == n,
    decreases n,
{
    if n > 0 {
        let t = s.drop_first();
        assert forall|j: int| 0 <= j < n - 1 implies is_white(#[trigger] t[j]) by {
            assert(t[j] == s[j + 1]);
        }
        if n < s.len() {
            assert(t[n - 1] == s[n]);
        }
        lemma_lead_white(t, n - 1);
    }
}

proof fn lemma_trail_white(s: Seq<char>, n: int)
    requires
        0 <= n <= s.len(),
        forall|j: int| s.len() - n <= j < s.len() ==> is_white(#[trigger] s[j]),
        n == s.len() || !is_white(s[s.len() - n - 1]),
    ensures
        trail_white(s) == n,
    decreases n,
{
    if n > 0 {
        let t = s.drop_last();
        assert forall|j: int| t.len() - (n - 1) <= j < t.len() implies is_white(#[trigger] t[j]) by {
            assert(t[j] == s[j]);
        }
        if n < s.len() {
            assert(t[t.len() - (n - 1) - 1] == s[s.len() - n - 1]);
        }
        lemma_trail_white(t, n - 1);
    }
}

/// A string of white characters has no words.
proof fn lemma_words_all_white(b: Seq<char>)
    requires
        forall|j: int| 0 <= j < b.len() ==> is_white(#[trigger] b[j]),
    ensures
        words(b) == Seq::<Seq<char>>::empty(),
    decreases b.len(),
{
    if b.len() > 0 {
        let t = b.drop_first();
        assert forall|j: int| 0 <= j < t.len() implies is_white(#[trigger] t[j]) by {
            assert(t[j] == b[j + 1]);
        }
        lemma_words_all_white(t);
    }
}

/// Dropping leading white characters keeps the words.
proof fn lemma_words_skip_white(s: Seq<char>, k: int)
    requires
        0 <= k <= s.len(),
        forall|j: int| 0 <= j < k ==> is_white(#[trigger] s[j]),
    ensures
        words(s.skip(k)) == words(s),
    decreases k,
{
    if k == 0 {
        assert(s.skip(0) =~= s);
    } else {
        let t = s.drop_first();
        assert forall|j: int| 0 <= j < k - 1 implies is_white(#[trigger] t[j]) by {
            assert(t[j] == s[j + 1]);
        }
        lemma_words_skip_white(t, k - 1);
        assert(t.skip(k - 1) =~= s.skip(k));
        assert(is_white(s[0]));
    }
}

/// Appending white characters keeps the words.
proof fn lemma_words_white_suffix(a: Seq<char>, b: Seq<char>)
    requires
        forall|j: int| 0 <= j < b.len() ==> is_white(#[trigger] b[j]),
    ensures
        words(a + b) == words(a),
    decreases a.len(),
{
    let ab = a + b;
    if a.len() == 0 {
        assert(ab =~= b);
        lemma_words_all_white(b);
    } else if is_white(a[0]) {
        assert(ab[0] == a[0]);
        assert(ab.drop_first() =~= a.drop_first() + b);
        lemma_words_white_suffix(a.drop_first(), b);
    } else {
        lemma_word_len_bounds(a);
        let n = word_len(a) as int;
        assert(ab[0] == a[0]);
        assert forall|j: int| 0 <= j < n implies !is_white(#[trigger] ab[j]) by {
            assert(ab[j] == a[j]);
        }
        if n < a.len() {
            assert(ab[n] == a[n]);
        } else if b.len() > 0 {
            assert(ab[n] == b[0]);
        }
        lemma_word_len_of_run(ab, n);
        assert(ab.take(n) =~= a.take(n));
        assert(ab.skip(n) =~= a.skip(n) + b);
        lemma_words_white_suffix(a.skip(n), b);
    }
}

proof fn lemma_lead_white_props(s: Seq<char>)
    ensures
        lead_white(s) <= s.len(),
        forall|j: int| 0 <= j < lead_white(s) ==> is_white(#[trigger] s[j]),
    decreases s.len(),
{
    if s.len() > 0 && is_white(s[0]) {
        let t = s.drop_first();
        lemma_lead_white_props(t);
        assert forall|j: int| 0 <= j < lead_white(s) implies is_white(#[trigger] s[j]) by {
            if j > 0 {
                assert(s[j] == t[j - 1]);
            }
        }
    }
}

proof fn lemma_trail_white_props(s: Seq<char>)
    ensures
        trail_white(s) <= s.len(),
        forall|j: int| s.len() - trail_white(s) <= j < s.len() ==> is_white(#[trigger] s[j]),
    decreases s.len(),
{
    if s.len() > 0 && is_white(s.last()) {
        let t = s.drop_last();
        lemma_trail_white_props(t);
        assert forall|j: int| s.len() - trail_white(s) <= j < s.len() implies is_white(
            #[trigger] s[j],
        ) by {
            if j < s.len() - 1 {
                assert(s[j] == t[j]);
            }
        }
    }
}

/// Trimming a string keeps its words: `str::trim` followed by
/// `split_whitespace` gives the words of the untrimmed string.
pub proof fn lemma_trimmed_words(s: Seq<char>)
    ensures
        words(trimmed(s)) == words(s),
{
    lemma_lead_white_props(s);
    let k = lead_white(s) as int;
    lemma_words_skip_white(s, k);
    let t = s.skip(k);
    lemma_trail_white_props(t);
    let m = t.len() - trail_white(t);
    let body = t.take(m);
    let tail = t.skip(m);
    assert forall|j: int| 0 <= j < tail.len() implies is_white(#[trigger] tail[j]) by {
        assert(tail[j] == t[m + j]);
    }
    assert(body + tail =~= t);
    lemma_words_white_suffix(body, tail);
}

/// `s` without leading and trailing whitespace.
pub fn trim_str(s: &str) -> (r: &str)
    ensures
        r@ == trimmed(s@),
{
    let sc = chars_of(s);
    let n = sc.len();
    let mut lo: usize = 0;
    while lo < n && char_is_whitespace(sc[lo])
        invariant
            lo <= n,
            n == s@.len(),
            sc@ == s@,
            forall|k: int| 0 <= k < lo ==> is_white(#[trigger] s@[k]),
        decreases n - lo,
    {
        lo = lo + 1;
    }
    proof {
        lemma_lead_white(s@, lo as int);
    }
    let mut hi: usize = n;
    while hi > lo && char_is_whitespace(sc[hi - 1])
        invariant
            lo <= hi <= n,
            n == s@.len(),
            sc@ == s@,
            forall|k: int| hi <= k < n ==> is_white(#[trigger] s@[k]),
        decreases hi,
    {
        hi = hi - 1;
    }
    proof {
        let t = s@.skip(lo as int);
        assert forall|j: int| t.len() - (n - hi) <= j < t.len() implies is_white(#[trigger] t[j]) by {
            assert(t[j] == s@[lo + j]);
        }
        if hi > lo {
            assert(t[t.len() - (n - hi) - 1] == s@[hi - 1]);
        }
        lemma_trail_white(t, (n - hi) as int);
        assert(t.take(t.len() - trail_white(t)) =~= s@.subrange(lo as int, hi as int));
    }
    s.substring_char(lo, hi)
}

// ── Unsigned decimal integers ───────────────────────────────────────────────

/// The value of an ASCII decimal digit.
pub open spec fn digit_value(c: char) -> int {
    c as int - '0' as int
}

/// `c` is an ASCII decimal digit.
pub open spec fn is_digit(c: char) -> bool {
    '0' <= c && c <= '9'
}

/// The value of a string of decimal digits, most significant first.
pub open spec fn digits_value(s: Seq<char>) -> nat
    decreases s.len(),
{
    if s.len() == 0 {
        0
    } else {
        (digits_value(s.drop_last()) * 10 + digit_value(s.last())) as nat
    }
}

/// The digits of an unsigned decimal literal: after an optional leading `+`.
pub open spec fn unsigned_digits(s: Seq<char>) -> Seq<char> {
    if s.len() > 0 && s[0] == '+' {
        s.drop_first()
    } else {
        s
    }
}

/// What `str::parse::<usize>` gives for a string: the value of its digits when,
/// after an optional `+`, it consists of one or more ASCII decimal digits whose
/// value fits in `usize`; otherwise no value.
pub open spec fn usize_of(s: Seq<char>) -> Option<usize> {
    let d = unsigned_digits(s);
    if d.len() > 0 && (forall|i: int| 0 <= i < d.len() ==> is_digit(#[trigger] d[i]))
        && digits_value(d) <= usize::MAX {
        Some(digits_value(d) as usize)
    } else {
        None
    }
}

proof fn lemma_digits_value_grows(s: Seq<char>, i: int)
    requires
        0 <= i <= s.len(),
        forall|k: int| 0 <= k < s.len() ==> is_digit(#[trigger] s[k]),
    ensures
        digits_value(s.subrange(0, i)) <= digits_value(s),
    decreases s.len() - i,
{
    if i < s.len() {
        lemma_digits_value_grows(s, i + 1);
        assert(s.subrange(0, i + 1).drop_last() =~= s.subrange(0, i));
    } else {
        assert(s.subrange(0, i) =~= s);
    }
}

/// Parse an unsigned decimal integer, as `str::parse::<usize>`: an optional
/// `+`, then one or more ASCII digits, with a value that fits in `usize`.
pub fn parse_usize(s: &str) -> (r: Option<usize>)
    ensures
        r == usize_of(s@),
{
    let sc = chars_of(s);
    let n = sc.len();
    let start: usize = if n > 0 && sc[0] == '+' { 1 } else { 0 };
    let ghost d = unsigned_digits(s@);
    assert(d =~= s@.subrange(start as int, n as int));
    if start == n {
        return None;
    }
    let mut value: usize = 0;
    let mut i: usize = start;
    while i < n
        invariant
            start <= i <= n,
            start < n,
            n == s@.len(),
            sc@ == s@,
            d == unsigned_digits(s@),
            d =~= s@.subrange(start as int, n as int),
            forall|k: int| 0 <= k < i - start ==> is_digit(#[trigger] d[k]),
            value == digits_value(d.subrange(0, i - start)),
        decreases n - i,
    {
        let c = sc[i];
        if !('0' <= c && c <= '9') {
            assert(!is_digit(d[i - start]));
            return None;
        }
        let dv = (c as u32 - '0' as u32) as usize;
        assert(d.subrange(0, i + 1 - start).drop_last() =~= d.subrange(0, i - start));
        assert(d.subrange(0, i + 1 - start).last() == c);
        match value.checked_mul(10) {
            Some(v10) => match v10.checked_add(dv) {
                Some(next) => {
                    value = next;
                },
                None => {
                    proof {
                        usize_of_overflow(d, (i + 1 - start) as int);
                    }
                    return None;
                },
            },
            None => {
                proof {
                    usize_of_overflow(d, (i + 1 - start) as int);
                }
                return None;
            },
        }
        i = i + 1;
    }
    assert(d.subrange(0, n - start) =~= d);
    Some(value)
}

/// Once a prefix of the digits is too large for `usize`, so is the whole.
proof fn usize_of_overflow(d: Seq<char>, i: int)
    requires
        0 < i <= d.len(),
        digits_value(d.subrange(0, i)) > usize::MAX,
    ensures
        (forall|k: int| 0 <= k < d.len() ==> is_digit(#[trigger] d[k])) ==> digits_value(d)
            > usize::MAX,
{
    if forall|k: int| 0 <= k < d.len() ==> is_digit(#[trigger] d[k]) {
        lemma_digits_value_grows(d, i);
    }
}

} // verus!
