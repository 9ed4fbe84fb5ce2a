//! Character-level text helpers shared by the parsers and validators.
//!
//! Strings are modelled by their view, the sequence of their Unicode scalar
//! values (`Seq<char>`). Byte offsets, where the logic works on them,
//! are computed with `utf8_len`.
use vstd::prelude::*;

verus! {

/// The characters of `s`, one element per Unicode scalar value.
pub fn chars_of(s: &str) -> (out: Vec<char>)
    ensures
        out@ == s@,
{
    let mut out: Vec<char> = Vec::new();
    for c in it: s.chars()
        invariant
            out@ == it.seq().take(it.index()),
    {
        out.push(c);
    }
    proof {
        vstd::string::axiom_spec_iter(s);
    }
    out
}

/// `String::push`: appends one character.
#[verifier::external_body]
pub(crate) fn push_char(s: &mut String, c: char)
    ensures
        final(s)@ == old(s)@.push(c),
{
    s.push(c);
}

/// A `String` holding `v[from..to]`.
pub fn string_from_range(v: &Vec<char>, from: usize, to: usize) -> (out: String)
    requires
        from <= to <= v.len(),
    ensures
        out@ == v@.subrange(from as int, to as int),
{
    let mut out = String::new();
    let mut i = from;
    while i < to
        invariant
            from <= i <= to <= v.len(),
            out@ == v@.subrange(from as int, i as int),
        decreases to - i,
    {
        push_char(&mut out, v[i]);
        i = i + 1;
    }
    out
}

/// A `String` holding all of `v`.
pub fn string_from_chars(v: &Vec<char>) -> (out: String)
    ensures
        out@ == v@,
{
    let out = string_from_range(v, 0, v.len());
    assert(v@.subrange(0, v@.len() as int) =~= v@);
    out
}

/// Appends the characters of `t` to `s`.
pub fn push_str(s: &mut String, t: &str)
    ensures
        final(s)@ == old(s)@ + t@,
{
    let v = chars_of(t);
    let mut i: usize = 0;
    while i < v.len()
        invariant
            i <= v.len(),
            v@ == t@,
            s@ == old(s)@ + v@.subrange(0, i as int),
        decreases v.len() - i,
    {
        push_char(s, v[i]);
        i = i + 1;
        assert(v@.subrange(0, i as int) =~= v@.subrange(0, (i - 1) as int).push(v@[i - 1]));
    }
    assert(v@.subrange(0, v@.len() as int) =~= v@);
}

/// Appends a whole `String` to `s`.
pub fn push_string(s: &mut String, t: &String)
    ensures
        final(s)@ == old(s)@ + t@,
{
    push_str(s, t.as_str());
}

/// Unicode `White_Space`, the property that `char::is_whitespace` and the
/// `\s` class test.
pub open spec fn is_ws(c: char) -> bool {
    ||| ('\u{9}' <= c && c <= '\u{d}')
    ||| c == ' '
    ||| c == '\u{85}'
    ||| c == '\u{a0}'
    ||| c == '\u{1680}'
    ||| ('\u{2000}' <= c && c <= '\u{200a}')
    ||| c == '\u{2028}'
    ||| c == '\u{2029}'
    ||| c == '\u{202f}'
    ||| c == '\u{205f}'
    ||| c == '\u{3000}'
}

pub fn is_whitespace(c: char) -> (b: bool)
    ensures
        b == is_ws(c),
{
    ('\u{9}' <= c && c <= '\u{d}') || c == ' ' || c == '\u{85}' || c == '\u{a0}' || c
        == '\u{1680}' || ('\u{2000}' <= c && c <= '\u{200a}') || c == '\u{2028}' || c
        == '\u{2029}' || c == '\u{202f}' || c == '\u{205f}' || c == '\u{3000}'
}

/// Unicode general category `Cc`, the property that `char::is_control` tests.
pub open spec fn is_ctrl(c: char) -> bool {
    c <= '\u{1f}' || ('\u{7f}' <= c && c <= '\u{9f}')
}

pub fn is_control(c: char) -> (b: bool)
    ensures
        b == is_ctrl(c),
{
    c <= '\u{1f}' || ('\u{7f}' <= c && c <= '\u{9f}')
}

/// Index of the first character at or after `i` that is not whitespace.
pub open spec fn skip_ws_from(s: Seq<char>, i: int) -> int
    decreases s.len() - i,
{
    if 0 <= i < s.len() && is_ws(s[i]) {
        skip_ws_from(s, i + 1)
    } else {
        i
    }
}

/// Index just after the last character before `j` that is not whitespace.
pub open spec fn back_ws_from(s: Seq<char>, j: int) -> int
    decreases j,
{
    if 0 < j <= s.len() && is_ws(s[j - 1]) {
        back_ws_from(s, j - 1)
    } else {
        j
    }
}

/// `str::trim_start`.
pub open spec fn trim_start(s: Seq<char>) -> Seq<char> {
    s.subrange(skip_ws_from(s, 0), s.len() as int)
}

/// `str::trim_end`.
pub open spec fn trim_end(s: Seq<char>) -> Seq<char> {
    s.subrange(0, back_ws_from(s, s.len() as int))
}

/// `str::trim`: whitespace removed at both ends.
pub open spec fn trim(s: Seq<char>) -> Seq<char> {
    trim_end(trim_start(s))
}

pub proof fn lemma_skip_ws_from(s: Seq<char>, i: int)
    requires
        0 <= i <= s.len(),
    ensures
        i <= skip_ws_from(s, i) <= s.len(),
        forall|k: int| i <= k < skip_ws_from(s, i) ==> is_ws(#[trigger] s[k]),
        skip_ws_from(s, i) < s.len() ==> !is_ws(s[skip_ws_from(s, i)]),
    decreases s.len() - i,
{
    if i < s.len() && is_ws(s[i]) {
        lemma_skip_ws_from(s, i + 1);
    }
}

pub proof fn lemma_back_ws_from(s: Seq<char>, j: int)
    requires
        0 <= j <= s.len(),
    ensures
        0 <= back_ws_from(s, j) <= j,
        forall|k: int| back_ws_from(s, j) <= k < j ==> is_ws(#[trigger] s[k]),
        back_ws_from(s, j) > 0 ==> !is_ws(s[back_ws_from(s, j) - 1]),
    decreases j,
{
    if 0 < j && is_ws(s[j - 1]) {
        lemma_back_ws_from(s, j - 1);
    }
}

/// Every character is whitespace.
pub open spec fn all_ws(s: Seq<char>) -> bool {
    forall|i: int| 0 <= i < s.len() ==> is_ws(#[trigger] s[i])
}

/// No character is whitespace.
pub open spec fn no_ws(s: Seq<char>) -> bool {
    forall|i: int| 0 <= i < s.len() ==> !is_ws(#[trigger] s[i])
}

/// Trimming removes exactly the whitespace around a text that neither
/// starts nor ends with whitespace.
pub proof fn lemma_trim_padded(w1: Seq<char>, x: Seq<char>, w2: Seq<char>)
    requires
        all_ws(w1),
        all_ws(w2),
        x.len() > 0,
        !is_ws(x[0]),
        !is_ws(x[x.len() - 1]),
    ensures
        trim(w1 + x + w2) == x,
{
    let s = w1 + x + w2;
    lemma_skip_ws_from(s, 0);
    let a = skip_ws_from(s, 0);
    if a < w1.len() {
        assert(s[a] == w1[a]);
    }
    if a > w1.len() {
        assert(s[w1.len() as int] == x[0]);
    }
    assert(a == w1.len());
    let u = s.subrange(a, s.len() as int);
    assert(u =~= x + w2);
    lemma_back_ws_from(u, u.len() as int);
    let b = back_ws_from(u, u.len() as int);
    if b > x.len() {
        assert(u[b - 1] == w2[b - 1 - x.len()]);
    }
    if b < x.len() {
        assert(u[x.len() - 1] == x[x.len() - 1]);
    }
    assert(b == x.len());
    assert(u.subrange(0, b) =~= x);
}

/// A non-empty text without whitespace is one word.
pub proof fn lemma_words_single(v: Seq<char>)
    requires
        v.len() > 0,
        no_ws(v),
    ensures
        words(v) == seq![v],
{
    lemma_skip_ws_from(v, 0);
    assert(skip_ws_from(v, 0) == 0);
    lemma_word_end(v, 0);
    let w = word_end(v, 0);
    if w < v.len() {
        assert(is_ws(v[w]));
    }
    assert(w == v.len());
    assert(v.subrange(0, w) =~= v);
    assert(words_from(v, w) =~= Seq::<Seq<char>>::empty());
    assert(seq![v] + Seq::<Seq<char>>::empty() =~= seq![v]);
}

/// Two non-empty words with one space between them are two words.
pub proof fn lemma_words_pair(a: Seq<char>, b: Seq<char>)
    requires
        a.len() > 0,
        b.len() > 0,
        no_ws(a),
        no_ws(b),
    ensures
        words(a + seq![' '] + b) == seq![a, b],
{
    let s = a + seq![' '] + b;
    let n = a.len() as int;
    lemma_skip_ws_from(s, 0);
    assert(s[0] == a[0]);
    assert(skip_ws_from(s, 0) == 0);
    lemma_word_end(s, 0);
    let w = word_end(s, 0);
    if w < n {
        assert(s[w] == a[w]);
    }
    assert(s[n] == ' ');
    assert(w == n);
    assert(s.subrange(0, n) =~= a);
    lemma_skip_ws_from(s, n);
    assert(s[n + 1] == b[0]);
    assert(skip_ws_from(s, n) == n + 1);
    lemma_word_end(s, n + 1);
    let w2 = word_end(s, n + 1);
    if w2 < s.len() {
        assert(s[w2] == b[w2 - n - 1]);
    }
    assert(w2 == s.len());
    assert(s.subrange(n + 1, w2) =~= b);
    assert(words_from(s, w2) =~= Seq::<Seq<char>>::empty());
    assert(words_from(s, n) =~= seq![b]);
    assert(words(s) =~= seq![a, b]);
}

/// Trimming twice is trimming once.
pub proof fn lemma_trim_idempotent(s: Seq<char>)
    ensures
        trim(trim(s)) == trim(s),
{
    let a = skip_ws_from(s, 0);
    lemma_skip_ws_from(s, 0);
    let u = s.subrange(a, s.len() as int);
    lemma_back_ws_from(u, u.len() as int);
    let b = back_ws_from(u, u.len() as int);
    let t = u.subrange(0, b);
    assert(trim(s) == t);
    if t.len() == 0 {
        assert(skip_ws_from(t, 0) == 0);
        assert(t.subrange(0, 0) =~= t);
        assert(back_ws_from(t, 0) == 0);
    } else {
        assert(t[0] == s[a]);
        assert(skip_ws_from(t, 0) == 0);
        assert(t.subrange(0, t.len() as int) =~= t);
        assert(trim_start(t) == t);
        assert(t[b - 1] == u[b - 1]);
        assert(back_ws_from(t, t.len() as int) == t.len());
        assert(trim_end(t) =~= t);
    }
}

/// The bounds of `trim(v)` inside `v`.
pub fn trim_bounds(v: &Vec<char>) -> (r: (usize, usize))
    ensures
        r.0 <= r.1 <= v.len(),
        v@.subrange(r.0 as int, r.1 as int) == trim(v@),
        r.0 as int == skip_ws_from(v@, 0),
{
    let mut i: usize = 0;
    while i < v.len() && is_whitespace(v[i])
        invariant
            i <= v.len(),
            skip_ws_from(v@, 0) == skip_ws_from(v@, i as int),
        decreases v.len() - i,
    {
        i = i + 1;
    }
    let ghost t = v@.subrange(i as int, v@.len() as int);
    let mut j: usize = v.len();
    while j > i && is_whitespace(v[j - 1])
        invariant
            i <= j <= v.len(),
            t == v@.subrange(i as int, v@.len() as int),
            back_ws_from(t, t.len() as int) == back_ws_from(t, j - i),
        decreases j,
    {
        assert(t[j - i - 1] == v@[j - 1]);
        j = j - 1;
    }
    assert(t.subrange(0, (j - i) as int) =~= v@.subrange(i as int, j as int));
    (i, j)
}

/// `trim_end` on a whole vector: the end bound.
pub fn trim_end_bound(v: &Vec<char>) -> (j: usize)
    ensures
        j <= v.len(),
        v@.subrange(0, j as int) == trim_end(v@),
{
    let mut j: usize = v.len();
    while j > 0 && is_whitespace(v[j - 1])
        invariant
            j <= v.len(),
            back_ws_from(v@, v@.len() as int) == back_ws_from(v@, j as int),
        decreases j,
    {
        j = j - 1;
    }
    j
}

/// Index of the first whitespace character at or after `a` (or the length).
pub open spec fn word_end(s: Seq<char>, a: int) -> int
    decreases s.len() - a,
{
    if 0 <= a < s.len() && !is_ws(s[a]) {
        word_end(s, a + 1)
    } else {
        a
    }
}

pub proof fn lemma_word_end(s: Seq<char>, a: int)
    requires
        0 <= a <= s.len(),
    ensures
        a <= word_end(s, a) <= s.len(),
        a < s.len() && !is_ws(s[a]) ==> a < word_end(s, a),
        forall|k: int| a <= k < word_end(s, a) ==> !is_ws(#[trigger] s[k]),
        word_end(s, a) < s.len() ==> is_ws(s[word_end(s, a)]),
    decreases s.len() - a,
{
    if a < s.len() && !is_ws(s[a]) {
        lemma_word_end(s, a + 1);
    }
}

/// `str::split_whitespace` from index `i`: the maximal runs of
/// non-whitespace characters, in order.
pub open spec fn words_from(s: Seq<char>, i: int) -> Seq<Seq<char>>
    decreases s.len() - i,
{
    if i < 0 || i >= s.len() {
        Seq::empty()
    } else {
        let a = skip_ws_from(s, i);
        if a >= s.len() {
            Seq::empty()
        } else {
            let b = word_end(s, a);
            proof {
                lemma_skip_ws_from(s, i);
                lemma_word_end(s, a);
            }
            seq![s.subrange(a, b)] + words_from(s, b)
        }
    }
}

/// `str::split_whitespace`.
pub open spec fn words(s: Seq<char>) -> Seq<Seq<char>> {
    words_from(s, 0)
}

/// The views of a vector of character vectors.
pub open spec fn char_vec_views(v: Seq<Vec<char>>) -> Seq<Seq<char>> {
    Seq::new(v.len(), |i: int| v[i]@)
}

/// `str::split_whitespace`, on a character vector.
pub fn split_whitespace(v: &Vec<char>) -> (out: Vec<Vec<char>>)
    ensures
        char_vec_views(out@) == words(v@),
{
    let mut out: Vec<Vec<char>> = Vec::new();
    let mut i: usize = 0;
    loop
        invariant
            i <= v.len(),
            words(v@) == char_vec_views(out@) + words_from(v@, i as int),
        decreases v.len() - i,
    {
        let mut a = i;
        while a < v.len() && is_whitespace(v[a])
            invariant
                i <= a <= v.len(),
                skip_ws_from(v@, i as int) == skip_ws_from(v@, a as int),
            decreases v.len() - a,
        {
            a = a + 1;
        }
        if a >= v.len() {
            assert(words_from(v@, i as int) =~= Seq::<Seq<char>>::empty());
            assert(words(v@) =~= char_vec_views(out@));
            return out;
        }
        let mut b = a;
        while b < v.len() && !is_whitespace(v[b])
            invariant
                a <= b <= v.len(),
                word_end(v@, a as int) == word_end(v@, b as int),
            decreases v.len() - b,
        {
            b = b + 1;
        }
        let mut w: Vec<char> = Vec::new();
        let mut k = a;
        while k < b
            invariant
                a <= k <= b <= v.len(),
                w@ == v@.subrange(a as int, k as int),
            decreases b - k,
        {
            w.push(v[k]);
            k = k + 1;
            assert(v@.subrange(a as int, k as int) =~= v@.subrange(a as int, (k - 1) as int).push(
                v@[k - 1],
            ));
        }
        let ghost before = char_vec_views(out@);
        out.push(w);
        proof {
            lemma_word_end(v@, a as int);
            assert(char_vec_views(out@) =~= before.push(v@.subrange(a as int, b as int)));
            assert(words_from(v@, i as int) == seq![v@.subrange(a as int, b as int)] + words_from(
                v@,
                b as int,
            ));
            assert(words(v@) =~= char_vec_views(out@) + words_from(v@, b as int));
        }
        i = b;
    }
}

/// Whether `t` occurs in `s` starting at index `i`.
pub open spec fn occurs_at(s: Seq<char>, t: Seq<char>, i: int) -> bool {
    0 <= i && i + t.len() <= s.len() && s.subrange(i, i + t.len()) == t
}

/// `str::contains` for a string pattern.
pub open spec fn contains(s: Seq<char>, t: Seq<char>) -> bool {
    exists|i: int| occurs_at(s, t, i)
}

/// `str::starts_with` for a string pattern.
pub open spec fn starts_with(s: Seq<char>, t: Seq<char>) -> bool {
    occurs_at(s, t, 0)
}

/// Whether `t` occurs in `v` at index `i`.
pub fn matches_at(v: &Vec<char>, t: &Vec<char>, i: usize) -> (b: bool)
    ensures
        b == occurs_at(v@, t@, i as int),
{
    if i > v.len() || t.len() > v.len() - i {
        return false;
    }
    let mut k: usize = 0;
    while k < t.len()
        invariant
            i + t.len() <= v.len(),
            k <= t.len(),
            forall|m: int| 0 <= m < k ==> v@[i + m] == t@[m],
        decreases t.len() - k,
    {
        if v[i + k] != t[k] {
            assert(v@.subrange(i as int, i + t.len())[k as int] != t@[k as int]);
            return false;
        }
        k = k + 1;
    }
    assert(v@.subrange(i as int, i + t.len()) =~= t@);
    true
}

/// Whether `t` occurs anywhere in `v`.
pub fn vec_contains(v: &Vec<char>, t: &Vec<char>) -> (b: bool)
    ensures
        b == contains(v@, t@),
{
    let mut i: usize = 0;
    loop
        invariant
            i <= v.len(),
            forall|m: int| 0 <= m < i ==> !occurs_at(v@, t@, m),
        decreases v.len() - i,
    {
        if matches_at(v, t, i) {
            return true;
        }
        if i == v.len() {
            assert forall|m: int| !occurs_at(v@, t@, m) by {
                if 0 <= m && m < i {
                }
            }
            return false;
        }
        i = i + 1;
    }
}

/// `str::contains` with a `&str` pattern, on a character vector.
pub fn contains_str(v: &Vec<char>, t: &str) -> (b: bool)
    ensures
        b == contains(v@, t@),
{
    let tv = chars_of(t);
    vec_contains(v, &tv)
}

/// `str::starts_with` with a `&str` pattern, on a character vector.
pub fn starts_with_str(v: &Vec<char>, t: &str) -> (b: bool)
    ensures
        b == starts_with(v@, t@),
{
    let tv = chars_of(t);
    matches_at(v, &tv, 0)
}

/// Equality of a character vector with a string.
pub fn eq_str(v: &Vec<char>, t: &str) -> (b: bool)
    ensures
        b == (v@ == t@),
{
    let tv = chars_of(t);
    if v.len() != tv.len() {
        return false;
    }
    let r = matches_at(v, &tv, 0);
    assert(v@.subrange(0, v@.len() as int) =~= v@);
    r
}

/// Equality of two strings by their characters.
pub fn str_eq(a: &str, b: &str) -> (r: bool)
    ensures
        r == (a@ == b@),
{
    let av = chars_of(a);
    eq_str(&av, b)
}

/// The first index at or after `i` where `t` occurs in `s`.
pub open spec fn find_from(s: Seq<char>, t: Seq<char>, i: int) -> Option<int>
    decreases s.len() + 1 - i,
{
    if i < 0 || i > s.len() {
        None
    } else if occurs_at(s, t, i) {
        Some(i)
    } else {
        find_from(s, t, i + 1)
    }
}

/// The second piece of `s` split at `sep` (`str::split(sep).nth(1)`).
pub open spec fn split_second(s: Seq<char>, sep: Seq<char>) -> Option<Seq<char>> {
    match find_from(s, sep, 0) {
        None => None,
        Some(f) => {
            let r = f + sep.len();
            match find_from(s, sep, r) {
                Some(g) => Some(s.subrange(r, g)),
                None => Some(s.subrange(r, s.len() as int)),
            }
        },
    }
}

/// The first index at or after `i` where `t` occurs in `v`.
pub fn find_from_exec(v: &Vec<char>, t: &Vec<char>, i: usize) -> (r: Option<usize>)
    requires
        i <= v.len(),
    ensures
        match r {
            Some(j) => find_from(v@, t@, i as int) == Some(j as int) && j <= v.len(),
            None => find_from(v@, t@, i as int) is None,
        },
{
    let mut j = i;
    loop
        invariant
            i <= j <= v.len(),
            find_from(v@, t@, i as int) == find_from(v@, t@, j as int),
        decreases v.len() - j,
    {
        if matches_at(v, t, j) {
            return Some(j);
        }
        if j == v.len() {
            assert(find_from(v@, t@, (j + 1) as int) is None);
            return None;
        }
        j = j + 1;
    }
}

/// The second piece of `v` split at `sep`, for a non-empty separator.
pub fn split_second_exec(v: &Vec<char>, sep: &str) -> (r: Option<Vec<char>>)
    ensures
        match r {
            Some(p) => split_second(v@, sep@) == Some(p@),
            None => split_second(v@, sep@) is None,
        },
{
    let t = chars_of(sep);
    match find_from_exec(v, &t, 0) {
        None => None,
        Some(f) => {
            proof {
                let ff = find_from(v@, t@, 0).unwrap();
                lemma_find_from_occurs(v@, t@, 0);
            }
            let r = f + t.len();
            let end = match find_from_exec(v, &t, r) {
                Some(g) => {
                    proof {
                        lemma_find_from_occurs(v@, t@, r as int);
                    }
                    g
                },
                None => v.len(),
            };
            let mut p: Vec<char> = Vec::new();
            let mut k = r;
            while k < end
                invariant
                    r <= k <= end <= v.len(),
                    p@ == v@.subrange(r as int, k as int),
                decreases end - k,
            {
                p.push(v[k]);
                k = k + 1;
                assert(v@.subrange(r as int, k as int) =~= v@.subrange(r as int, (k - 1) as int).push(
                    v@[k - 1],
                ));
            }
            Some(p)
        },
    }
}

/// Where `find_from` answers, the pattern occurs there, at or after the start.
pub proof fn lemma_find_from_occurs(s: Seq<char>, t: Seq<char>, i: int)
    ensures
        find_from(s, t, i) matches Some(j) ==> i <= j && occurs_at(s, t, j) && j + t.len()
            <= s.len(),
        find_from(s, t, i) matches Some(j) ==> forall|k: int| i <= k < j ==> !occurs_at(s, t, k),
        find_from(s, t, i) is None && 0 <= i ==> forall|k: int| i <= k ==> !occurs_at(s, t, k),
    decreases s.len() + 1 - i,
{
    if 0 <= i <= s.len() && !occurs_at(s, t, i) {
        lemma_find_from_occurs(s, t, i + 1);
        if find_from(s, t, i) is None {
            assert forall|k: int| i <= k implies !occurs_at(s, t, k) by {
                if k == i {
                } else {
                }
            }
        }
    }
}

/// `find_from` answers the first occurrence at or after `i`.
pub proof fn lemma_find_first(s: Seq<char>, t: Seq<char>, i: int, j: int)
    requires
        0 <= i <= j,
        occurs_at(s, t, j),
        forall|k: int| i <= k < j ==> !occurs_at(s, t, k),
    ensures
        find_from(s, t, i) == Some(j),
    decreases j - i,
{
    if i < j {
        lemma_find_first(s, t, i + 1, j);
    }
}

/// `find_from` finds nothing where `t` does not occur.
pub proof fn lemma_find_none(s: Seq<char>, t: Seq<char>, i: int)
    requires
        0 <= i,
        forall|k: int| i <= k ==> !occurs_at(s, t, k),
    ensures
        find_from(s, t, i) is None,
    decreases s.len() + 1 - i,
{
    if i <= s.len() {
        lemma_find_none(s, t, i + 1);
    }
}

/// The numeric value of a string of decimal digits.
pub open spec fn digits_value(s: Seq<char>) -> nat
    decreases s.len(),
{
    if s.len() == 0 {
        0
    } else {
        digits_value(s.drop_last()) * 10 + ((s.last() as u32) - ('0' as u32)) as nat
    }
}

pub open spec fn is_digit(c: char) -> bool {
    '0' <= c && c <= '9'
}

/// The digits part of an unsigned integer literal: the string without one
/// leading `+`.
pub open spec fn unsigned_digits(s: Seq<char>) -> Seq<char> {
    if s.len() > 0 && s[0] == '+' {
        s.skip(1)
    } else {
        s
    }
}

/// Every character is an ASCII digit.
pub open spec fn all_digits(d: Seq<char>) -> bool {
    forall|i: int| 0 <= i < d.len() ==> is_digit(#[trigger] d[i])
}

/// What `str::parse::<u16>` gives: an optional `+`, then one or more ASCII
/// digits whose value fits in 16 bits.
pub open spec fn parse_u16(s: Seq<char>) -> Option<u16> {
    if unsigned_digits(s).len() == 0 || !all_digits(unsigned_digits(s)) {
        None
    } else if digits_value(unsigned_digits(s)) > 65535 {
        None
    } else {
        Some(digits_value(unsigned_digits(s)) as u16)
    }
}

proof fn lemma_digits_value_grows(s: Seq<char>, i: int)
    requires
        0 <= i <= s.len(),
        forall|k: int| 0 <= k < s.len() ==> is_digit(#[trigger] s[k]),
    ensures
        digits_value(s.take(i)) <= digits_value(s),
    decreases s.len() - i,
{
    if i < s.len() {
        lemma_digits_value_grows(s, i + 1);
        assert(s.take(i + 1).drop_last() =~= s.take(i));
        assert(digits_value(s.take(i + 1)) >= digits_value(s.take(i)) * 10) by (nonlinear_arith)
            requires
                digits_value(s.take(i + 1)) >= digits_value(s.take(i + 1).drop_last()) * 10,
                s.take(i + 1).drop_last() == s.take(i),
        ;
    } else {
        assert(s.take(i) =~= s);
    }
}

/// `str::parse::<u16>` on a character vector.
pub fn parse_u16_exec(v: &Vec<char>) -> (r: Option<u16>)
    ensures
        r == parse_u16(v@),
{
    let start: usize = if v.len() > 0 && v[0] == '+' {
        1
    } else {
        0
    };
    let ghost d = v@.skip(start as int);
    proof {
        if start == 0 {
            assert(v@.skip(0) =~= v@);
        }
    }
    if start >= v.len() {
        assert(d.len() == 0);
        return None;
    }
    let mut acc: u32 = 0;
    let mut i = start;
    while i < v.len()
        invariant
            start <= i <= v.len(),
            d == v@.skip(start as int),
            d == unsigned_digits(v@),
            start as int == (if v@.len() > 0 && v@[0] == '+' { 1int } else { 0int }),
            forall|k: int| 0 <= k < i - start ==> is_digit(#[trigger] d[k]),
            acc as nat == digits_value(d.take(i - start)),
            acc <= 65535,
        decreases v.len() - i,
    {
        let c = v[i];
        if !('0' <= c && c <= '9') {
            assert(!is_digit(d[i - start]));
            assert(!all_digits(d));
            return None;
        }
        let dv = (c as u32) - ('0' as u32);
        proof {
            assert(d.take(i - start + 1).drop_last() =~= d.take(i - start));
            assert(d[i - start] == c);
        }
        if acc > 6553 || (acc == 6553 && dv > 5) {
            proof {
                assert(d.take(i - start + 1).last() == c);
                assert(digits_value(d.take(i - start + 1)) == digits_value(d.take(i - start)) * 10
                    + dv);
                if all_digits(d) {
                    lemma_digits_value_grows(d, i - start + 1);
                }
            }
            return None;
        }
        proof {
            assert(d.take(i - start + 1).last() == c);
        }
        acc = acc * 10 + dv;
        i = i + 1;
    }
    assert(d.take(d.len() as int) =~= d);
    Some(acc as u16)
}

/// What `str::parse::<usize>` gives: an optional `+`, then one or more
/// ASCII digits whose value fits in a `usize`.
pub open spec fn parse_usize(s: Seq<char>) -> Option<usize> {
    if unsigned_digits(s).len() == 0 || !all_digits(unsigned_digits(s)) {
        None
    } else if digits_value(unsigned_digits(s)) > usize::MAX {
        None
    } else {
        Some(digits_value(unsigned_digits(s)) as usize)
    }
}

/// `str::parse::<usize>` on a character vector.
pub fn parse_usize_exec(v: &Vec<char>) -> (r: Option<usize>)
    ensures
        r == parse_usize(v@),
{
    let start: usize = if v.len() > 0 && v[0] == '+' {
        1
    } else {
        0
    };
    let ghost d = v@.skip(start as int);
    proof {
        if start == 0 {
            assert(v@.skip(0) =~= v@);
        }
    }
    if start >= v.len() {
        assert(d.len() == 0);
        return None;
    }
    let mut acc: usize = 0;
    let mut i = start;
    while i < v.len()
        invariant
            start <= i <= v.len(),
            d == v@.skip(start as int),
            d == unsigned_digits(v@),
            start as int == (if v@.len() > 0 && v@[0] == '+' { 1int } else { 0int }),
            forall|k: int| 0 <= k < i - start ==> is_digit(#[trigger] d[k]),
            acc as nat == digits_value(d.take(i - start)),
        decreases v.len() - i,
    {
        let c = v[i];
        if !('0' <= c && c <= '9') {
            assert(!is_digit(d[i - start]));
            assert(!all_digits(d));
            return None;
        }
        let dv = ((c as u32) - ('0' as u32)) as usize;
        proof {
            assert(d.take(i - start + 1).drop_last() =~= d.take(i - start));
            assert(d[i - start] == c);
            assert(d.take(i - start + 1).last() == c);
            assert(digits_value(d.take(i - start + 1)) == digits_value(d.take(i - start)) * 10
                + dv);
        }
        if acc > (usize::MAX - dv) / 10 {
            proof {
                assert(acc * 10 + dv > usize::MAX) by (nonlinear_arith)
                    requires
                        acc > (usize::MAX - dv) / 10,
                        dv <= 9,
                ;
                if all_digits(d) {
                    lemma_digits_value_grows(d, i - start + 1);
                }
            }
            return None;
        }
        proof {
            assert(acc * 10 + dv <= usize::MAX) by (nonlinear_arith)
                requires
                    acc <= (usize::MAX - dv) / 10,
                    dv <= 9,
            ;
        }
        acc = acc * 10 + dv;
        i = i + 1;
    }
    assert(d.take(d.len() as int) =~= d);
    Some(acc)
}

/// The number of bytes of the UTF-8 encoding of `c` (`char::len_utf8`).
pub open spec fn utf8_width(c: char) -> nat {
    if (c as u32) < 0x80 {
        1
    } else if (c as u32) < 0x800 {
        2
    } else if (c as u32) < 0x10000 {
        3
    } else {
        4
    }
}

/// The number of bytes of the UTF-8 encoding of `s` (`str::len`).
pub open spec fn byte_len(s: Seq<char>) -> nat
    decreases s.len(),
{
    if s.len() == 0 {
        0
    } else {
        byte_len(s.drop_last()) + utf8_width(s.last())
    }
}

/// The byte offset of the character at index `i` of `s`.
pub open spec fn byte_offset(s: Seq<char>, i: int) -> nat {
    byte_len(s.take(i))
}

proof fn lemma_byte_offset_step(s: Seq<char>, i: int, j: int)
    requires
        0 <= i <= j <= s.len(),
    ensures
        byte_offset(s, i) + (j - i) <= byte_offset(s, j),
    decreases j - i,
{
    if i < j {
        lemma_byte_offset_step(s, i + 1, j);
        assert(s.take(i + 1).drop_last() =~= s.take(i));
    }
}

/// Byte offsets grow strictly with the character index.
pub proof fn lemma_byte_offset_mono(s: Seq<char>, i: int, j: int)
    requires
        0 <= i <= j <= s.len(),
    ensures
        byte_offset(s, i) + (j - i) <= byte_offset(s, j),
        byte_offset(s, j) <= byte_len(s),
{
    lemma_byte_offset_step(s, i, j);
    lemma_byte_offset_step(s, j, s.len() as int);
    assert(s.take(s.len() as int) =~= s);
}

proof fn lemma_encode_utf8_len(s: Seq<char>)
    ensures
        vstd::utf8::encode_utf8(s).len() == byte_len(s),
    decreases s.len(),
{
    if s.len() > 0 {
        lemma_encode_utf8_len(s.drop_first());
        lemma_byte_len_concat(seq![s[0]], s.drop_first());
        assert(seq![s[0]] + s.drop_first() =~= s);
        assert(seq![s[0]].drop_last() =~= Seq::<char>::empty());
        let c = s[0];
        assert(byte_len(Seq::<char>::empty()) == 0);
        assert(seq![c].last() == c);
        assert(byte_len(seq![c]) == utf8_width(c));
        let u = c as u32;
        vstd::utf8::char_is_scalar(c);
        if u < 0x80 {
            assert(vstd::utf8::has_width_1_encoding(u));
        } else if u < 0x800 {
            assert(vstd::utf8::has_width_2_encoding(u));
        } else if u < 0x10000 {
            assert(vstd::utf8::has_width_3_encoding(u));
        }
        assert(vstd::utf8::encode_scalar(c as u32).len() == utf8_width(c));
        assert(vstd::utf8::encode_utf8(s) == vstd::utf8::encode_scalar(c as u32)
            + vstd::utf8::encode_utf8(s.drop_first()));
    }
}

/// `str::len`: the number of bytes of the UTF-8 encoding of `s`.
pub fn str_len(s: &str) -> (n: usize)
    requires
        byte_len(s@) <= usize::MAX,
    ensures
        n == byte_len(s@),
{
    proof {
        lemma_encode_utf8_len(s@);
    }
    s.len()
}

/// A control character other than newline, tab and carriage return: what
/// marks content as binary.
pub open spec fn is_binary_char(c: char) -> bool {
    is_ctrl(c) && c != '\n' && c != '\t' && c != '\r'
}

/// Some character of `s` marks it as binary.
pub open spec fn has_binary_char(s: Seq<char>) -> bool {
    exists|i: int| 0 <= i < s.len() && is_binary_char(#[trigger] s[i])
}

/// Whether some character of `v` marks it as binary.
pub fn any_binary_char(v: &Vec<char>) -> (b: bool)
    ensures
        b == has_binary_char(v@),
{
    let mut i: usize = 0;
    while i < v.len()
        invariant
            i <= v.len(),
            forall|k: int| 0 <= k < i ==> !is_binary_char(#[trigger] v@[k]),
        decreases v.len() - i,
    {
        let c = v[i];
        if is_control(c) && c != '\n' && c != '\t' && c != '\r' {
            assert(is_binary_char(v@[i as int]));
            return true;
        }
        i = i + 1;
    }
    false
}

/// Whether `v` holds the character `c`.
pub fn has_char(v: &Vec<char>, c: char) -> (b: bool)
    ensures
        b == v@.contains(c),
{
    let r = find_char(v, c, 0);
    proof {
        lemma_next_char(v@, c, 0);
    }
    r.is_some()
}

/// The byte offset of every character index of `v`, and of its end.
pub fn byte_offsets(v: &Vec<char>) -> (offs: Vec<usize>)
    requires
        byte_len(v@) <= usize::MAX,
    ensures
        offs@.len() == v@.len() + 1,
        forall|i: int| 0 <= i <= v@.len() ==> #[trigger] offs@[i] == byte_offset(v@, i),
{
    let mut offs: Vec<usize> = Vec::new();
    offs.push(0);
    assert(v@.take(0) =~= Seq::<char>::empty());
    let mut acc: usize = 0;
    let mut i: usize = 0;
    while i < v.len()
        invariant
            i <= v@.len(),
            byte_len(v@) <= usize::MAX,
            offs@.len() == i + 1,
            acc == byte_offset(v@, i as int),
            forall|k: int| 0 <= k <= i ==> #[trigger] offs@[k] == byte_offset(v@, k),
        decreases v.len() - i,
    {
        let c = v[i];
        let w: usize = if (c as u32) < 0x80 {
            1
        } else if (c as u32) < 0x800 {
            2
        } else if (c as u32) < 0x10000 {
            3
        } else {
            4
        };
        proof {
            assert(v@.take(i + 1).drop_last() =~= v@.take(i as int));
            assert(byte_offset(v@, i + 1) == acc + w);
            lemma_byte_offset_mono(v@, i + 1, v@.len() as int);
        }
        acc = acc + w;
        offs.push(acc);
        i = i + 1;
    }
    offs
}

/// `str::trim_start_matches` with a string pattern: every leading copy of
/// `p` removed.
pub open spec fn strip_prefixes(s: Seq<char>, p: Seq<char>) -> Seq<char>
    decreases s.len(),
{
    if p.len() > 0 && starts_with(s, p) {
        strip_prefixes(s.skip(p.len() as int), p)
    } else {
        s
    }
}

/// The index of `v` from which `strip_prefixes(v[start..], p)` starts.
pub fn strip_prefixes_from(v: &Vec<char>, start: usize, p: &str) -> (i: usize)
    requires
        start <= v.len(),
    ensures
        start <= i <= v.len(),
        v@.skip(i as int) == strip_prefixes(v@.skip(start as int), p@),
{
    let pv = chars_of(p);
    if pv.len() == 0 {
        return start;
    }
    let mut i = start;
    while matches_at(v, &pv, i)
        invariant
            start <= i <= v.len(),
            pv@ == p@,
            pv@.len() > 0,
            strip_prefixes(v@.skip(start as int), pv@) == strip_prefixes(v@.skip(i as int), pv@),
        decreases v.len() - i,
    {
        assert(starts_with(v@.skip(i as int), pv@)) by {
            assert(v@.skip(i as int).subrange(0, pv@.len() as int) =~= v@.subrange(
                i as int,
                i + pv@.len(),
            ));
        }
        assert(v@.skip(i as int).skip(pv@.len() as int) =~= v@.skip(i + pv@.len()));
        i = i + pv.len();
    }
    assert(!starts_with(v@.skip(i as int), pv@)) by {
        if starts_with(v@.skip(i as int), pv@) {
            assert(v@.skip(i as int).subrange(0, pv@.len() as int) =~= v@.subrange(
                i as int,
                i + pv@.len(),
            ));
        }
    }
    i
}

/// The first index at or after `i` holding `c`.
pub open spec fn next_char(s: Seq<char>, c: char, i: int) -> Option<int>
    decreases s.len() - i,
{
    if i < 0 || i >= s.len() {
        None
    } else if s[i] == c {
        Some(i)
    } else {
        next_char(s, c, i + 1)
    }
}

/// Where `next_char` answers, `c` is there, at or after `i`, and not before.
pub proof fn lemma_next_char(s: Seq<char>, c: char, i: int)
    requires
        0 <= i,
    ensures
        next_char(s, c, i) matches Some(k) ==> i <= k < s.len() && s[k] == c,
        next_char(s, c, i) matches Some(k) ==> forall|j: int| i <= j < k ==> s[j] != c,
        next_char(s, c, i) is None ==> forall|j: int| i <= j < s.len() ==> s[j] != c,
    decreases s.len() - i,
{
    if i < s.len() && s[i] != c {
        lemma_next_char(s, c, i + 1);
    }
}

/// Text appended after a found character does not change where it is found.
pub proof fn lemma_next_char_extend(a: Seq<char>, b: Seq<char>, c: char, i: int)
    requires
        0 <= i,
        next_char(a, c, i) is Some,
    ensures
        next_char(a + b, c, i) == next_char(a, c, i),
    decreases a.len() - i,
{
    if i < a.len() && a[i] != c {
        lemma_next_char_extend(a, b, c, i + 1);
    }
}

/// Searching a suffix is searching the whole from the suffix's start.
pub proof fn lemma_next_char_shift(v: Seq<char>, c: char, pos: int, k: int)
    requires
        0 <= pos <= v.len(),
        0 <= k,
    ensures
        next_char(v.subrange(pos, v.len() as int), c, k) == (match next_char(v, c, pos + k) {
            Some(x) => Some(x - pos),
            None => None,
        }),
    decreases v.len() - pos - k,
{
    let r = v.subrange(pos, v.len() as int);
    if k < r.len() {
        assert(r[k] == v[pos + k]);
        if r[k] != c {
            lemma_next_char_shift(v, c, pos, k + 1);
        }
    }
}

/// The first index at or after `i` of `v` holding `c`.
pub fn find_char(v: &Vec<char>, c: char, i: usize) -> (r: Option<usize>)
    ensures
        match r {
            Some(k) => next_char(v@, c, i as int) == Some(k as int),
            None => next_char(v@, c, i as int) is None,
        },
{
    let mut k = i;
    while k < v.len()
        invariant
            i <= k,
            next_char(v@, c, i as int) == next_char(v@, c, k as int),
        decreases v.len() - k,
    {
        if v[k] == c {
            return Some(k);
        }
        k = k + 1;
    }
    None
}

/// `v[a..b]` as a vector.
pub fn sub_vec(v: &Vec<char>, a: usize, b: usize) -> (r: Vec<char>)
    requires
        a <= b <= v.len(),
    ensures
        r@ == v@.subrange(a as int, b as int),
{
    let mut r: Vec<char> = Vec::new();
    let mut k = a;
    while k < b
        invariant
            a <= k <= b <= v.len(),
            r@ == v@.subrange(a as int, k as int),
        decreases b - k,
    {
        r.push(v[k]);
        k = k + 1;
        assert(v@.subrange(a as int, k as int) =~= v@.subrange(a as int, (k - 1) as int).push(
            v@[k - 1],
        ));
    }
    r
}

/// The byte length of a concatenation is the sum of the byte lengths.
pub proof fn lemma_byte_len_concat(a: Seq<char>, b: Seq<char>)
    ensures
        byte_len(a + b) == byte_len(a) + byte_len(b),
    decreases b.len(),
{
    if b.len() > 0 {
        lemma_byte_len_concat(a, b.drop_last());
        assert((a + b).drop_last() =~= a + b.drop_last());
    } else {
        assert(a + b =~= a);
    }
}

/// A piece of a text is no longer in bytes than the text.
pub proof fn lemma_byte_len_subrange(t: Seq<char>, i: int, j: int)
    requires
        0 <= i <= j <= t.len(),
    ensures
        byte_len(t.subrange(i, j)) <= byte_len(t),
{
    lemma_byte_len_concat(t.subrange(0, i), t.subrange(i, j));
    lemma_byte_len_concat(t.subrange(0, i) + t.subrange(i, j), t.subrange(j, t.len() as int));
    assert(t =~= t.subrange(0, i) + t.subrange(i, j) + t.subrange(j, t.len() as int));
}

/// A line without one trailing carriage return.
pub open spec fn strip_cr(x: Seq<char>) -> Seq<char> {
    if x.len() > 0 && x.last() == '\r' {
        x.drop_last()
    } else {
        x
    }
}

/// `str::lines` from index `i`: pieces ending at each `\n` (which is
/// dropped, with one `\r` before it), the last piece without a line end.
pub open spec fn lines_from(s: Seq<char>, i: int) -> Seq<Seq<char>>
    decreases s.len() - i,
{
    if i < 0 || i >= s.len() {
        Seq::empty()
    } else {
        match next_char(s, '\n', i) {
            Some(e) => {
                proof {
                    lemma_next_char(s, '\n', i);
                }
                seq![strip_cr(s.subrange(i, e))] + lines_from(s, e + 1)
            },
            None => seq![s.subrange(i, s.len() as int)],
        }
    }
}

/// `str::lines`.
pub open spec fn lines(s: Seq<char>) -> Seq<Seq<char>> {
    lines_from(s, 0)
}

/// `str::lines` on a character vector.
pub fn split_lines(v: &Vec<char>) -> (out: Vec<Vec<char>>)
    ensures
        char_vec_views(out@) == lines(v@),
{
    let mut out: Vec<Vec<char>> = Vec::new();
    let mut i: usize = 0;
    while i < v.len()
        invariant
            i <= v.len(),
            lines(v@) == char_vec_views(out@) + lines_from(v@, i as int),
        decreases v.len() - i,
    {
        let ghost before = char_vec_views(out@);
        match find_char(v, '\n', i) {
            Some(e) => {
                proof {
                    lemma_next_char(v@, '\n', i as int);
                }
                let end = if e > i && v[e - 1] == '\r' {
                    e - 1
                } else {
                    e
                };
                let line = sub_vec(v, i, end);
                out.push(line);
                proof {
                    if e > i {
                        assert(v@.subrange(i as int, e as int).drop_last() =~= v@.subrange(
                            i as int,
                            e - 1,
                        ));
                    }
                    assert(char_vec_views(out@) =~= before.push(
                        strip_cr(v@.subrange(i as int, e as int)),
                    ));
                    assert(lines(v@) =~= char_vec_views(out@) + lines_from(v@, e + 1));
                }
                i = e + 1;
            },
            None => {
                let line = sub_vec(v, i, v.len());
                out.push(line);
                proof {
                    assert(char_vec_views(out@) =~= before.push(
                        v@.subrange(i as int, v@.len() as int),
                    ));
                    assert(lines_from(v@, v@.len() as int) =~= Seq::<Seq<char>>::empty());
                    assert(lines(v@) =~= char_vec_views(out@) + lines_from(
                        v@,
                        v@.len() as int,
                    ));
                }
                i = v.len();
            },
        }
    }
    assert(lines_from(v@, i as int) =~= Seq::<Seq<char>>::empty());
    assert(lines(v@) =~= char_vec_views(out@));
    out
}

/// Every line of a text is no longer in bytes than the text.
pub proof fn lemma_lines_byte_len(s: Seq<char>, i: int)
    requires
        0 <= i,
    ensures
        forall|k: int|
            0 <= k < lines_from(s, i).len() ==> byte_len(#[trigger] lines_from(s, i)[k])
                <= byte_len(s),
    decreases s.len() - i,
{
    if i < s.len() {
        lemma_next_char(s, '\n', i);
        match next_char(s, '\n', i) {
            Some(e) => {
                lemma_lines_byte_len(s, e + 1);
                let first = s.subrange(i, e);
                if first.len() > 0 && first.last() == '\r' {
                    assert(first.drop_last() =~= s.subrange(i, e - 1));
                    lemma_byte_len_subrange(s, i, e - 1);
                } else {
                    lemma_byte_len_subrange(s, i, e);
                }
                let ls = lines_from(s, i);
                assert forall|k: int| 0 <= k < ls.len() implies byte_len(#[trigger] ls[k])
                    <= byte_len(s) by {
                    if k > 0 {
                        assert(ls[k] == lines_from(s, e + 1)[k - 1]);
                    }
                }
            },
            None => {
                lemma_byte_len_subrange(s, i, s.len() as int);
            },
        }
    }
}

/// The ASCII lower-case mapping of one character.
pub open spec fn ascii_lower_char(c: char) -> char {
    if 'A' <= c && c <= 'Z' {
        ((c as u32) + 32) as char
    } else {
        c
    }
}

/// Every character is ASCII.
pub open spec fn all_ascii(s: Seq<char>) -> bool {
    forall|i: int| 0 <= i < s.len() ==> (#[trigger] s[i] as u32) < 128
}

/// The ASCII lower-case mapping of a string.
pub open spec fn ascii_lower(s: Seq<char>) -> Seq<char> {
    Seq::new(s.len(), |i: int| ascii_lower_char(s[i]))
}

/// What `str::to_lowercase` returns for `s`.
pub uninterp spec fn lowercase(s: Seq<char>) -> Seq<char>;

/// `str::to_lowercase`: the Unicode lower-case mapping of `s`.
///
/// Claimed: the result is `lowercase(s@)`, the same for the same input;
/// and, on an all-ASCII input, it is the ASCII lower-case mapping, which is
/// what the Unicode mapping gives on ASCII letters. The mapping of other
/// characters is not stated.
#[verifier::external_body]
pub(crate) fn to_lowercase(s: &str) -> (r: String)
    ensures
        r@ == lowercase(s@),
        all_ascii(s@) ==> r@ == ascii_lower(s@),
{
    s.to_lowercase()
}

/// The lower-case form of `s` as `str::to_lowercase` gives it, with the
/// ASCII case written out.
pub open spec fn fold_case(s: Seq<char>) -> Seq<char> {
    if all_ascii(s) {
        ascii_lower(s)
    } else {
        lowercase(s)
    }
}

/// `str::to_lowercase`, described by `fold_case`.
pub fn lower_case(s: &str) -> (r: String)
    ensures
        r@ == fold_case(s@),
        r@ == lowercase(s@),
{
    to_lowercase(s)
}

/// The decimal digits of `n`, as `u64::to_string` writes them.
pub open spec fn decimal(n: nat) -> Seq<char>
    decreases n,
{
    if n < 10 {
        seq![digit_char(n)]
    } else {
        decimal(n / 10).push(digit_char(n % 10))
    }
}

pub open spec fn digit_char(d: nat) -> char {
    (('0' as u32) + d) as char
}

/// The decimal digits of `n` are digits, at least one of them, and read
/// back as `n`.
pub proof fn lemma_decimal_digits(n: nat)
    ensures
        decimal(n).len() >= 1,
        all_digits(decimal(n)),
        digits_value(decimal(n)) == n,
    decreases n,
{
    if n >= 10 {
        lemma_decimal_digits(n / 10);
        assert(decimal(n).drop_last() =~= decimal(n / 10));
        assert(decimal(n).last() == digit_char(n % 10));
        assert((digit_char(n % 10) as u32) - ('0' as u32) == n % 10);
        assert(digits_value(decimal(n)) == digits_value(decimal(n / 10)) * 10 + n % 10);
        vstd::arithmetic::div_mod::lemma_fundamental_div_mod(n as int, 10);
        assert(digits_value(decimal(n)) == n);
        assert forall|k: int| 0 <= k < decimal(n).len() implies is_digit(#[trigger] decimal(n)[k]) by {
            if k < decimal(n).len() - 1 {
                assert(decimal(n)[k] == decimal(n / 10)[k]);
            }
        }
    } else {
        assert((digit_char(n) as u32) - ('0' as u32) == n);
        assert(decimal(n).drop_last() =~= Seq::<char>::empty());
        assert(digits_value(Seq::<char>::empty()) == 0);
    }
}

/// Reading a `u16` gives back the number whose digits were written.
pub proof fn lemma_parse_u16_decimal(x: u16)
    ensures
        parse_u16(decimal(x as nat)) == Some(x),
{
    lemma_decimal_digits(x as nat);
    assert(is_digit(decimal(x as nat)[0]));
}

/// `u64::to_string`.
pub fn u64_to_string(n: u64) -> (s: String)
    ensures
        s@ == decimal(n as nat),
    decreases n,
{
    if n < 10 {
        let mut s = String::new();
        push_char(&mut s, digit(n));
        s
    } else {
        let mut s = u64_to_string(n / 10);
        push_char(&mut s, digit(n % 10));
        s
    }
}

fn digit(d: u64) -> (c: char)
    requires
        d < 10,
    ensures
        c == digit_char(d as nat),
{
    if d == 0 {
        '0'
    } else if d == 1 {
        '1'
    } else if d == 2 {
        '2'
    } else if d == 3 {
        '3'
    } else if d == 4 {
        '4'
    } else if d == 5 {
        '5'
    } else if d == 6 {
        '6'
    } else if d == 7 {
        '7'
    } else if d == 8 {
        '8'
    } else {
        '9'
    }
}

} // verus!
