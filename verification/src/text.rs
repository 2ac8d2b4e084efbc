//! Character-level text handling: whitespace, trimming, splitting into
//! words, splitting at a separator, and equality of string slices.
//!
//! Every specification speaks of a string through its view, the sequence of
//! its characters.

use vstd::prelude::*;
use vstd::std_specs::iter::IteratorSpec;
use vstd::string::StrSliceExecFns;
use vstd::string::StringExecFns;

verus! {

/// Whether `c` is whitespace as Unicode defines it (`White_Space`).
pub open spec fn is_space(c: char) -> bool {
    let u = c as u32;
    ||| 0x09 <= u <= 0x0D
    ||| u == 0x20
    ||| u == 0x85
    ||| u == 0xA0
    ||| u == 0x1680
    ||| 0x2000 <= u <= 0x200A
    ||| u == 0x2028
    ||| u == 0x2029
    ||| u == 0x202F
    ||| u == 0x205F
    ||| u == 0x3000
}

/// The first index at or after `i` that holds no whitespace, or the length
/// of `s` if there is none.
pub open spec fn skip_space(s: Seq<char>, i: int) -> int
    decreases s.len() - i,
{
    if 0 <= i < s.len() && is_space(s[i]) {
        skip_space(s, i + 1)
    } else {
        i
    }
}

/// The end of the text that remains of `s[lo..j]` once the whitespace at its
/// end is taken away.
pub open spec fn skip_space_back(s: Seq<char>, lo: int, j: int) -> int
    decreases j,
{
    if 0 <= lo < j <= s.len() && is_space(s[j - 1]) {
        skip_space_back(s, lo, j - 1)
    } else {
        j
    }
}

/// `s` without the whitespace at its start and at its end.
pub open spec fn trimmed(s: Seq<char>) -> Seq<char> {
    let a = skip_space(s, 0);
    let b = skip_space_back(s, a, s.len() as int);
    s.subrange(a, b)
}

/// The end of the run of non-whitespace characters that starts at `i`.
pub open spec fn word_end(s: Seq<char>, i: int) -> int
    decreases s.len() - i,
{
    if 0 <= i < s.len() && !is_space(s[i]) {
        word_end(s, i + 1)
    } else {
        i
    }
}

/// The maximal runs of non-whitespace characters of `s` from index `i` on,
/// in order.
pub open spec fn words_from(s: Seq<char>, i: int) -> Seq<Seq<char>>
    decreases s.len() - i,
{
    if i < 0 || i >= s.len() {
        Seq::empty()
    } else if is_space(s[i]) {
        words_from(s, i + 1)
    } else {
        proof {
            lemma_word_end_bounds(s, i);
        }
        seq![s.subrange(i, word_end(s, i))] + words_from(s, word_end(s, i))
    }
}

/// The words of `s`: its maximal runs of non-whitespace characters.
pub open spec fn words(s: Seq<char>) -> Seq<Seq<char>> {
    words_from(s, 0)
}

/// A word that starts at `i` ends after `i` and within `s`.
pub proof fn lemma_word_end_bounds(s: Seq<char>, i: int)
    requires
        0 <= i <= s.len(),
    ensures
        i <= word_end(s, i) <= s.len(),
        i < s.len() && !is_space(s[i]) ==> i < word_end(s, i),
    decreases s.len() - i,
{
    if i < s.len() && !is_space(s[i]) {
        lemma_word_end_bounds(s, i + 1);
    }
}

/// Everything that `skip_space` passes over is whitespace, and it stops at
/// the end or at a character that is not.
pub proof fn lemma_skip_space(s: Seq<char>, i: int)
    requires
        0 <= i <= s.len(),
    ensures
        i <= skip_space(s, i) <= s.len(),
        forall|k: int| i <= k < skip_space(s, i) ==> is_space(#[trigger] s[k]),
        skip_space(s, i) < s.len() ==> !is_space(s[skip_space(s, i)]),
    decreases s.len() - i,
{
    if i < s.len() && is_space(s[i]) {
        lemma_skip_space(s, i + 1);
    }
}

/// Everything that `skip_space_back` passes over is whitespace, and it stops
/// at `lo` or behind a character that is not.
pub proof fn lemma_skip_space_back(s: Seq<char>, lo: int, j: int)
    requires
        0 <= lo <= j <= s.len(),
    ensures
        lo <= skip_space_back(s, lo, j) <= j,
        forall|k: int| skip_space_back(s, lo, j) <= k < j ==> is_space(#[trigger] s[k]),
        lo < skip_space_back(s, lo, j) ==> !is_space(s[skip_space_back(s, lo, j) - 1]),
    decreases j,
{
    if lo < j && is_space(s[j - 1]) {
        lemma_skip_space_back(s, lo, j - 1);
    }
}

/// Trimming cuts a stretch out of `s`: all that stands before the stretch
/// and all that stands after it is whitespace, and the stretch neither
/// begins nor ends with whitespace.
pub proof fn lemma_trimmed(s: Seq<char>)
    ensures
        ({
            let a = skip_space(s, 0);
            let b = skip_space_back(s, a, s.len() as int);
            &&& 0 <= a <= b <= s.len()
            &&& trimmed(s) == s.subrange(a, b)
            &&& forall|k: int| 0 <= k < a ==> is_space(#[trigger] s[k])
            &&& forall|k: int| b <= k < s.len() ==> is_space(#[trigger] s[k])
            &&& trimmed(s).len() > 0 ==> !is_space(trimmed(s).first()) && !is_space(
                trimmed(s).last(),
            )
        }),
{
    lemma_skip_space(s, 0);
    lemma_skip_space_back(s, skip_space(s, 0), s.len() as int);
}

/// A word holds no whitespace.
pub proof fn lemma_word_has_no_space(s: Seq<char>, i: int)
    requires
        0 <= i <= s.len(),
    ensures
        forall|k: int| i <= k < word_end(s, i) ==> !is_space(#[trigger] s[k]),
        word_end(s, i) < s.len() ==> is_space(s[word_end(s, i)]),
    decreases s.len() - i,
{
    if i < s.len() && !is_space(s[i]) {
        lemma_word_has_no_space(s, i + 1);
    }
}

/// Whether `w` is non-empty and free of whitespace.
pub open spec fn is_word(w: Seq<char>) -> bool {
    w.len() > 0 && forall|k: int| 0 <= k < w.len() ==> !is_space(#[trigger] w[k])
}

/// Every word is non-empty and free of whitespace.
pub proof fn lemma_words_from(s: Seq<char>, i: int)
    requires
        0 <= i <= s.len(),
    ensures
        forall|n: int| 0 <= n < words_from(s, i).len() ==> is_word(#[trigger] words_from(s, i)[n]),
    decreases s.len() - i,
{
    if i < s.len() {
        if is_space(s[i]) {
            lemma_words_from(s, i + 1);
            assert(words_from(s, i) == words_from(s, i + 1));
        } else {
            let e = word_end(s, i);
            lemma_word_end_bounds(s, i);
            lemma_word_has_no_space(s, i);
            lemma_words_from(s, e);
            let first = s.subrange(i, e);
            let rest = words_from(s, e);
            assert(words_from(s, i) == seq![first] + rest);
            assert(is_word(first)) by {
                assert forall|k: int| 0 <= k < first.len() implies !is_space(
                    #[trigger] first[k],
                ) by {
                    assert(first[k] == s[i + k]);
                }
            }
            assert forall|n: int| 0 <= n < words_from(s, i).len() implies is_word(
                #[trigger] words_from(s, i)[n],
            ) by {
                if n == 0 {
                    assert(words_from(s, i)[0] == first);
                } else {
                    assert(words_from(s, i)[n] == rest[n - 1]);
                }
            }
        }
    } else {
        assert(words_from(s, i).len() == 0);
    }
}

/// A stretch of non-whitespace characters that ends at the end of `s` or
/// before whitespace is a word of its own: the word that starts at `i` ends
/// at `e`.
pub proof fn lemma_word_end_at(s: Seq<char>, i: int, e: int)
    requires
        0 <= i <= e <= s.len(),
        forall|k: int| i <= k < e ==> !is_space(#[trigger] s[k]),
        e == s.len() || is_space(s[e]),
    ensures
        word_end(s, i) == e,
    decreases e - i,
{
    if i < e {
        lemma_word_end_at(s, i + 1, e);
    }
}

/// Three words set apart by single spaces are the words of the text so
/// formed.
pub proof fn lemma_three_words(a: Seq<char>, b: Seq<char>, c: Seq<char>)
    requires
        is_word(a),
        is_word(b),
        is_word(c),
    ensures
        words(a + seq![' '] + b + seq![' '] + c) == seq![a, b, c],
{
    let t = a + seq![' '] + b + seq![' '] + c;
    let i1 = a.len() as int;
    let i2 = i1 + 1;
    let i3 = i2 + b.len();
    let i4 = i3 + 1;
    let i5 = i4 + c.len();
    assert(t.len() == i5);
    assert forall|k: int| 0 <= k < i1 implies !is_space(#[trigger] t[k]) by {
        assert(t[k] == a[k]);
    }
    assert forall|k: int| i2 <= k < i3 implies !is_space(#[trigger] t[k]) by {
        assert(t[k] == b[k - i2]);
    }
    assert forall|k: int| i4 <= k < i5 implies !is_space(#[trigger] t[k]) by {
        assert(t[k] == c[k - i4]);
    }
    assert(t[i1] == ' ' && t[i3] == ' ');
    assert(is_space(' '));
    lemma_word_end_at(t, 0, i1);
    lemma_word_end_at(t, i2, i3);
    lemma_word_end_at(t, i4, i5);
    assert(t.subrange(0, i1) =~= a);
    assert(t.subrange(i2, i3) =~= b);
    assert(t.subrange(i4, i5) =~= c);
    assert(words_from(t, i5) =~= Seq::<Seq<char>>::empty());
    assert(words_from(t, i4) =~= seq![c]);
    assert(words_from(t, i3) == words_from(t, i4));
    assert(words_from(t, i2) =~= seq![b, c]);
    assert(words_from(t, i1) == words_from(t, i2));
    assert(words_from(t, 0) =~= seq![a, b, c]);
}

/// The first index at or after `i` that holds `c`, or the length of `s` if
/// there is none.
pub open spec fn find_from(s: Seq<char>, c: char, i: int) -> int
    decreases s.len() - i,
{
    if 0 <= i < s.len() && s[i] != c {
        find_from(s, c, i + 1)
    } else {
        i
    }
}

/// `s` cut at the first occurrence of `c`: what stands before it and what
/// stands after it; `None` where `c` does not occur.
pub open spec fn split_at_first(s: Seq<char>, c: char) -> Option<(Seq<char>, Seq<char>)> {
    let i = find_from(s, c, 0);
    if 0 <= i < s.len() {
        Some((s.subrange(0, i), s.subrange(i + 1, s.len() as int)))
    } else {
        None
    }
}

/// Whether every character of `s` is whitespace.
pub open spec fn all_space(s: Seq<char>) -> bool {
    forall|k: int| 0 <= k < s.len() ==> is_space(#[trigger] s[k])
}

/// Whether `s` is non-empty and neither begins nor ends with whitespace.
pub open spec fn is_tight(s: Seq<char>) -> bool {
    s.len() > 0 && !is_space(s.first()) && !is_space(s.last())
}

/// Whitespace from `i` up to `e`, where the text ends or goes on without
/// whitespace, is skipped as a whole.
pub proof fn lemma_skip_space_to(s: Seq<char>, i: int, e: int)
    requires
        0 <= i <= e <= s.len(),
        forall|k: int| i <= k < e ==> is_space(#[trigger] s[k]),
        e == s.len() || !is_space(s[e]),
    ensures
        skip_space(s, i) == e,
    decreases e - i,
{
    if i < e {
        lemma_skip_space_to(s, i + 1, e);
    }
}

/// Whitespace from `j` back to `e`, where the text begins at `lo` or a
/// character that is no whitespace stands before, is skipped as a whole.
pub proof fn lemma_skip_space_back_to(s: Seq<char>, lo: int, e: int, j: int)
    requires
        0 <= lo <= e <= j <= s.len(),
        forall|k: int| e <= k < j ==> is_space(#[trigger] s[k]),
        e == lo || !is_space(s[e - 1]),
    ensures
        skip_space_back(s, lo, j) == e,
    decreases j - e,
{
    if e < j {
        lemma_skip_space_back_to(s, lo, e, j - 1);
    }
}

/// Trimming takes the whitespace around a tight text away and leaves the
/// text.
pub proof fn lemma_trimmed_padded(before: Seq<char>, s: Seq<char>, after: Seq<char>)
    requires
        all_space(before),
        is_tight(s),
        all_space(after),
    ensures
        trimmed(before + s + after) == s,
{
    let t = before + s + after;
    let a = before.len() as int;
    let b = a + s.len();
    assert forall|k: int| 0 <= k < a implies is_space(#[trigger] t[k]) by {
        assert(t[k] == before[k]);
    }
    assert forall|k: int| b <= k < t.len() implies is_space(#[trigger] t[k]) by {
        assert(t[k] == after[k - b]);
    }
    assert(t[a] == s.first());
    assert(t[b - 1] == s.last());
    lemma_skip_space_to(t, 0, a);
    lemma_skip_space_back_to(t, a, b, t.len() as int);
    assert(t.subrange(a, b) =~= s);
}

/// Where `c` stands at `e` and nowhere from `i` up to `e`, the search from
/// `i` finds it at `e`.
pub proof fn lemma_find_from_at(s: Seq<char>, c: char, i: int, e: int)
    requires
        0 <= i <= e < s.len(),
        forall|k: int| i <= k < e ==> #[trigger] s[k] != c,
        s[e] == c,
    ensures
        find_from(s, c, i) == e,
    decreases e - i,
{
    if i < e {
        lemma_find_from_at(s, c, i + 1, e);
    }
}

/// The views of a sequence of strings.
pub open spec fn views(v: Seq<String>) -> Seq<Seq<char>> {
    Seq::new(v.len(), |i: int| v[i]@)
}

/// The characters of a string slice, in order.
pub fn chars_of(s: &str) -> (v: Vec<char>)
    ensures
        v@ == s@,
{
    let mut v: Vec<char> = Vec::new();
    for c in it: s.chars()
        invariant
            it.seq() == s@,
            v@ == s@.subrange(0, it.index() as int),
    {
        v.push(c);
    }
    v
}

/// Whether two string slices hold the same characters.
pub fn str_eq(a: &str, b: &str) -> (r: bool)
    ensures
        r == (a@ == b@),
{
    let x = chars_of(a);
    let y = chars_of(b);
    if x.len() != y.len() {
        return false;
    }
    let mut i: usize = 0;
    while i < x.len()
        invariant
            i <= x.len(),
            x.len() == y.len(),
            x@ == a@,
            y@ == b@,
            forall|k: int| 0 <= k < i ==> x@[k] == y@[k],
        decreases x.len() - i,
    {
        if x[i] != y[i] {
            return false;
        }
        i += 1;
    }
    assert(a@ =~= b@);
    true
}

/// Whether `c` is whitespace.
pub fn is_whitespace(c: char) -> (b: bool)
    ensures
        b == is_space(c),
{
    let u: u32 = c as u32;
    (0x09 <= u && u <= 0x0D) || u == 0x20 || u == 0x85 || u == 0xA0 || u == 0x1680 || (0x2000 <= u
        && u <= 0x200A) || u == 0x2028 || u == 0x2029 || u == 0x202F || u == 0x205F || u == 0x3000
}

/// Strips the whitespace at both ends of `s`.
pub fn trim(s: &str) -> (r: &str)
    ensures
        r@ == trimmed(s@),
{
    let cs = chars_of(s);
    let n: usize = cs.len();
    let mut a: usize = 0;
    while a < n && is_whitespace(cs[a])
        invariant
            a <= n,
            n == cs.len(),
            cs@ == s@,
            skip_space(s@, 0) == skip_space(s@, a as int),
        decreases n - a,
    {
        a += 1;
    }
    let mut b: usize = n;
    while b > a && is_whitespace(cs[b - 1])
        invariant
            a <= b <= n,
            n == cs.len(),
            cs@ == s@,
            skip_space_back(s@, a as int, n as int) == skip_space_back(s@, a as int, b as int),
        decreases b,
    {
        b -= 1;
    }
    s.substring_char(a, b)
}

/// Splits `s` into its words.
pub fn split_whitespace(s: &str) -> (out: Vec<String>)
    ensures
        views(out@) == words(s@),
{
    let cs = chars_of(s);
    let n: usize = cs.len();
    let mut out: Vec<String> = Vec::new();
    let mut i: usize = 0;
    while i < n
        invariant
            i <= n,
            n == cs.len(),
            cs@ == s@,
            words(s@) == views(out@) + words_from(s@, i as int),
        decreases n - i,
    {
        if is_whitespace(cs[i]) {
            i += 1;
        } else {
            let start: usize = i;
            while i < n && !is_whitespace(cs[i])
                invariant
                    start <= i <= n,
                    n == cs.len(),
                    cs@ == s@,
                    word_end(s@, start as int) == word_end(s@, i as int),
                decreases n - i,
            {
                i += 1;
            }
            let ghost before = views(out@);
            out.push(String::from_str(s.substring_char(start, i)));
            assert(views(out@) =~= before + seq![s@.subrange(start as int, i as int)]);
        }
    }
    assert(views(out@) + Seq::<Seq<char>>::empty() =~= views(out@));
    out
}

/// Cuts `s` at the first occurrence of `c`.
pub fn split_once(s: &str, c: char) -> (r: Option<(&str, &str)>)
    ensures
        match r {
            Some((head, tail)) => split_at_first(s@, c) == Some((head@, tail@)),
            None => split_at_first(s@, c) is None,
        },
{
    let cs = chars_of(s);
    let n: usize = cs.len();
    let mut i: usize = 0;
    while i < n && cs[i] != c
        invariant
            i <= n,
            n == cs.len(),
            cs@ == s@,
            find_from(s@, c, 0) == find_from(s@, c, i as int),
        decreases n - i,
    {
        i += 1;
    }
    if i < n {
        Some((s.substring_char(0, i), s.substring_char(i + 1, n)))
    } else {
        None
    }
}

} // verus!
