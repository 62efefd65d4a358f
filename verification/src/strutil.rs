//! Verified character-level text helpers.
//!
//! All document processing in this crate works over vectors of characters;
//! the two trusted wrappers at the top convert between `&str`/`String` and
//! `Vec<char>`, and everything below them is verified against exact
//! sequence-level specifications.

use vstd::prelude::*;

verus! {

/// Relies on `str::chars`: the characters of the string, in order.
#[verifier::external_body]
pub fn str_chars(s: &str) -> (r: Vec<char>)
    ensures
        r@ == s@,
{
    s.chars().collect()
}

/// Relies on `FromIterator<char> for String`: the string spelled by the
/// characters, in order.
#[verifier::external_body]
pub fn chars_string(v: &Vec<char>) -> (r: String)
    ensures
        r@ == v@,
{
    v.iter().collect()
}

/// The whitespace characters of `char::is_whitespace`.
pub open spec fn is_ws(c: char) -> bool {
    c == ' ' || c == '\t' || c == '\n' || c == '\u{b}' || c == '\u{c}' || c == '\r'
        || c == '\u{85}' || c == '\u{a0}' || c == '\u{1680}'
        || ('\u{2000}' <= c && c <= '\u{200a}')
        || c == '\u{2028}' || c == '\u{2029}' || c == '\u{202f}' || c == '\u{205f}'
        || c == '\u{3000}'
}

/// Whitespace test matching `char::is_whitespace`.
pub fn char_is_ws(c: char) -> (r: bool)
    ensures
        r == is_ws(c),
{
    c == ' ' || c == '\t' || c == '\n' || c == '\u{b}' || c == '\u{c}' || c == '\r'
        || c == '\u{85}' || c == '\u{a0}' || c == '\u{1680}'
        || ('\u{2000}' <= c && c <= '\u{200a}')
        || c == '\u{2028}' || c == '\u{2029}' || c == '\u{202f}' || c == '\u{205f}'
        || c == '\u{3000}'
}

pub open spec fn is_ascii_digit(c: char) -> bool {
    '0' <= c && c <= '9'
}

pub open spec fn is_ascii_alpha(c: char) -> bool {
    ('a' <= c && c <= 'z') || ('A' <= c && c <= 'Z')
}

pub open spec fn is_alnum_underscore(c: char) -> bool {
    is_ascii_digit(c) || is_ascii_alpha(c) || c == '_'
}

/// Upper-casing of the ASCII letters; other characters are unchanged.
pub open spec fn to_upper(c: char) -> char {
    if 'a' <= c && c <= 'z' {
        ((c as u32) - 32) as char
    } else {
        c
    }
}

/// Lower-casing of the ASCII letters; other characters are unchanged.
pub open spec fn to_lower(c: char) -> char {
    if 'A' <= c && c <= 'Z' {
        ((c as u32) + 32) as char
    } else {
        c
    }
}

pub fn char_to_upper(c: char) -> (r: char)
    ensures
        r == to_upper(c),
{
    if 'a' <= c && c <= 'z' {
        ((c as u8) - 32) as char
    } else {
        c
    }
}

pub fn char_to_lower(c: char) -> (r: char)
    ensures
        r == to_lower(c),
{
    if 'A' <= c && c <= 'Z' {
        ((c as u8) + 32) as char
    } else {
        c
    }
}

/// The number of whitespace characters at the front of `s`.
pub open spec fn ws_prefix(s: Seq<char>) -> nat
    decreases s.len(),
{
    if s.len() == 0 || !is_ws(s[0]) {
        0
    } else {
        1 + ws_prefix(s.skip(1))
    }
}

/// Characterization of `ws_prefix` by indices.
pub proof fn lemma_ws_prefix(s: Seq<char>)
    ensures
        ws_prefix(s) <= s.len(),
        forall|j: int| 0 <= j < ws_prefix(s) ==> is_ws(#[trigger] s[j]),
        ws_prefix(s) < s.len() ==> !is_ws(s[ws_prefix(s) as int]),
    decreases s.len(),
{
    if s.len() == 0 || !is_ws(s[0]) {
    } else {
        lemma_ws_prefix(s.skip(1));
        assert forall|j: int| 0 <= j < ws_prefix(s) implies is_ws(#[trigger] s[j]) by {
            if j > 0 {
                assert(s.skip(1)[j - 1] == s[j]);
            }
        }
        if ws_prefix(s) < s.len() {
            assert(s.skip(1)[ws_prefix(s) - 1] == s[ws_prefix(s) as int]);
        }
    }
}

/// The number of whitespace characters at the back of `s`.
pub open spec fn ws_suffix(s: Seq<char>) -> nat
    decreases s.len(),
{
    if s.len() == 0 || !is_ws(s[s.len() - 1]) {
        0
    } else {
        1 + ws_suffix(s.drop_last())
    }
}

pub proof fn lemma_ws_suffix(s: Seq<char>)
    ensures
        ws_suffix(s) <= s.len(),
        forall|j: int| s.len() - ws_suffix(s) <= j < s.len() ==> is_ws(#[trigger] s[j]),
        ws_suffix(s) < s.len() ==> !is_ws(s[s.len() - ws_suffix(s) - 1]),
    decreases s.len(),
{
    if s.len() == 0 || !is_ws(s[s.len() - 1]) {
    } else {
        lemma_ws_suffix(s.drop_last());
        assert forall|j: int| s.len() - ws_suffix(s) <= j < s.len() implies is_ws(
            #[trigger] s[j],
        ) by {
            if j < s.len() - 1 {
                assert(s.drop_last()[j] == s[j]);
            }
        }
        if ws_suffix(s) < s.len() {
            assert(s.drop_last()[s.len() - ws_suffix(s) - 1] == s[s.len() - ws_suffix(s) - 1]);
        }
    }
}

/// `str::trim_start` over a character sequence.
pub open spec fn spec_trim_start(s: Seq<char>) -> Seq<char> {
    s.skip(ws_prefix(s) as int)
}

/// `str::trim_end` over a character sequence.
pub open spec fn spec_trim_end(s: Seq<char>) -> Seq<char> {
    s.take(s.len() - ws_suffix(s))
}

/// `str::trim` over a character sequence.
pub open spec fn spec_trim(s: Seq<char>) -> Seq<char> {
    spec_trim_end(spec_trim_start(s))
}

/// The index after the leading whitespace of `v`.
pub fn trim_start_idx(v: &Vec<char>) -> (i: usize)
    ensures
        i == ws_prefix(v@),
{
    let mut i: usize = 0;
    proof {
        lemma_ws_prefix(v@);
    }
    while i < v.len() && char_is_ws(v[i])
        invariant
            0 <= i <= v@.len(),
            forall|j: int| 0 <= j < i ==> is_ws(#[trigger] v@[j]),
            i <= ws_prefix(v@),
        decreases v@.len() - i,
    {
        proof {
            lemma_ws_prefix(v@);
            if ws_prefix(v@) == i {
                assert(!is_ws(v@[i as int]));
            }
        }
        i = i + 1;
    }
    proof {
        lemma_ws_prefix(v@);
        if i < ws_prefix(v@) {
            assert(is_ws(v@[i as int]));
        }
    }
    i
}

/// The index before the trailing whitespace of `v`.
pub fn trim_end_idx(v: &Vec<char>) -> (i: usize)
    ensures
        i == v@.len() - ws_suffix(v@),
{
    let mut i: usize = v.len();
    proof {
        lemma_ws_suffix(v@);
    }
    while i > 0 && char_is_ws(v[i - 1])
        invariant
            0 <= i <= v@.len(),
            forall|j: int| i <= j < v@.len() ==> is_ws(#[trigger] v@[j]),
            v@.len() - ws_suffix(v@) <= i,
        decreases i,
    {
        proof {
            lemma_ws_suffix(v@);
            if v@.len() - ws_suffix(v@) == i {
                assert(!is_ws(v@[i - 1]));
            }
        }
        i = i - 1;
    }
    proof {
        lemma_ws_suffix(v@);
        if i > v@.len() - ws_suffix(v@) {
            assert(is_ws(v@[i - 1]));
        }
    }
    i
}

/// A copy of `v[from..to]`.
pub fn subrange_chars(v: &Vec<char>, from: usize, to: usize) -> (r: Vec<char>)
    requires
        0 <= from <= to <= v@.len(),
    ensures
        r@ == v@.subrange(from as int, to as int),
{
    let mut r: Vec<char> = Vec::new();
    let mut i: usize = from;
    while i < to
        invariant
            from <= i <= to <= v@.len(),
            r@ == v@.subrange(from as int, i as int),
        decreases to - i,
    {
        r.push(v[i]);
        proof {
            assert(r@ =~= v@.subrange(from as int, i + 1));
        }
        i = i + 1;
    }
    r
}

/// `str::trim` as a fresh character vector.
pub fn trim_chars(v: &Vec<char>) -> (r: Vec<char>)
    ensures
        r@ == spec_trim(v@),
{
    let lo = trim_start_idx(v);
    let hi = trim_end_idx(v);
    proof {
        lemma_ws_prefix(v@);
        lemma_ws_suffix(v@);
    }
    if lo >= hi {
        proof {
            // Between lo and hi everything is whitespace on both sides, so the
            // trimmed sequence is empty.
            let t = spec_trim_start(v@);
            lemma_ws_suffix(t);
            if t.len() - ws_suffix(t) > 0 {
                assert(!is_ws(t[t.len() - ws_suffix(t) - 1]));
                assert(t[t.len() - ws_suffix(t) - 1] == v@[ws_prefix(v@) + t.len() - ws_suffix(t)
                    - 1]);
                assert(is_ws(v@[ws_prefix(v@) + t.len() - ws_suffix(t) - 1]));
            }
            assert(spec_trim(v@) =~= Seq::<char>::empty());
        }
        Vec::new()
    } else {
        let r = subrange_chars(v, lo, hi);
        proof {
            let t = spec_trim_start(v@);
            lemma_ws_suffix(t);
            // hi is exactly where the whitespace suffix of the trimmed-start
            // sequence begins.
            assert forall|j: int| hi <= j + lo < v@.len() implies is_ws(#[trigger] t[j]) by {
                assert(t[j] == v@[j + lo]);
            }
            if t.len() - ws_suffix(t) > hi - lo {
                let k = t.len() - ws_suffix(t) - 1;
                assert(!is_ws(t[k]));
                assert(t[k] == v@[k + lo]);
            }
            if t.len() - ws_suffix(t) < hi - lo {
                let k = hi - lo - 1;
                assert(is_ws(t[k]));
                assert(t[k] == v@[hi - 1]);
                assert(!is_ws(v@[hi - 1]));
            }
            assert(r@ =~= spec_trim(v@));
        }
        r
    }
}

/// Equality of two character vectors.
pub fn eq_chars(a: &Vec<char>, b: &Vec<char>) -> (r: bool)
    ensures
        r == (a@ == b@),
{
    if a.len() != b.len() {
        proof {
            assert(a@ != b@);
        }
        return false;
    }
    let mut i: usize = 0;
    while i < a.len()
        invariant
            a@.len() == b@.len(),
            0 <= i <= a@.len(),
            forall|j: int| 0 <= j < i ==> a@[j] == b@[j],
        decreases a@.len() - i,
    {
        if a[i] != b[i] {
            return false;
        }
        i = i + 1;
    }
    proof {
        assert(a@ =~= b@);
    }
    true
}

/// Does `s` start with `p`?
pub open spec fn spec_starts_with(s: Seq<char>, p: Seq<char>) -> bool {
    p.len() <= s.len() && s.take(p.len() as int) == p
}

pub fn starts_with_chars(s: &Vec<char>, p: &Vec<char>) -> (r: bool)
    ensures
        r == spec_starts_with(s@, p@),
{
    if p.len() > s.len() {
        return false;
    }
    let mut i: usize = 0;
    while i < p.len()
        invariant
            p@.len() <= s@.len(),
            0 <= i <= p@.len(),
            forall|j: int| 0 <= j < i ==> s@[j] == p@[j],
        decreases p@.len() - i,
    {
        if s[i] != p[i] {
            proof {
                assert(s@.take(p@.len() as int)[i as int] != p@[i as int]);
            }
            return false;
        }
        i = i + 1;
    }
    proof {
        assert(s@.take(p@.len() as int) =~= p@);
    }
    true
}

/// Does `s` end with `p`?
pub open spec fn spec_ends_with(s: Seq<char>, p: Seq<char>) -> bool {
    p.len() <= s.len() && s.skip(s.len() - p.len()) == p
}

pub fn ends_with_chars(s: &Vec<char>, p: &Vec<char>) -> (r: bool)
    ensures
        r == spec_ends_with(s@, p@),
{
    if p.len() > s.len() {
        return false;
    }
    let n = s.len();
    let m = p.len();
    let off = n - m;
    let mut i: usize = 0;
    while i < m
        invariant
            m <= n,
            n == s@.len(),
            m == p@.len(),
            off == n - m,
            0 <= i <= m,
            forall|j: int| 0 <= j < i ==> s@[off + j] == p@[j],
        decreases m - i,
    {
        if s[off + i] != p[i] {
            proof {
                assert(s@.skip(s@.len() - p@.len())[i as int] != p@[i as int]);
            }
            return false;
        }
        i = i + 1;
    }
    proof {
        assert(s@.skip(s@.len() - p@.len()) =~= p@);
    }
    true
}

/// Does `s` contain `p` as a contiguous run?
pub open spec fn spec_contains(s: Seq<char>, p: Seq<char>) -> bool {
    exists|i: int| 0 <= i && i + p.len() <= s.len() && #[trigger] s.subrange(i, i + p.len()) == p
}

pub fn contains_chars(s: &Vec<char>, p: &Vec<char>) -> (r: bool)
    ensures
        r == spec_contains(s@, p@),
{
    if p.len() > s.len() {
        return false;
    }
    let n = s.len();
    let m = p.len();
    let mut i: usize = 0;
    while i <= n - m
        invariant
            m <= n,
            n == s@.len(),
            m == p@.len(),
            0 <= i,
            i <= n,
            forall|k: int|
                0 <= k < i ==> #[trigger] s@.subrange(k, k + p@.len()) != p@,
        decreases n - i,
    {
        let mut j: usize = 0;
        let mut all: bool = true;
        while j < m
            invariant
                m == p@.len(),
                n == s@.len(),
                0 <= j <= m,
                i + m <= n,
                all <==> (forall|t: int| 0 <= t < j ==> s@[i + t] == p@[t]),
            decreases m - j,
        {
            if s[i + j] != p[j] {
                all = false;
                proof {
                    assert(s@[i + j] != p@[j as int]);
                }
                j = p.len();
            } else {
                j = j + 1;
            }
        }
        if all {
            proof {
                assert(s@.subrange(i as int, i + p@.len()) =~= p@);
            }
            return true;
        }
        proof {
            if s@.subrange(i as int, i + p@.len()) == p@ {
                let t = choose|t: int| 0 <= t < p@.len() && s@[i + t] != p@[t];
                assert(s@.subrange(i as int, i + p@.len())[t] == s@[i + t]);
            }
        }
        i = i + 1;
    }
    proof {
        if spec_contains(s@, p@) {
            let k = choose|k: int|
                0 <= k && k + p@.len() <= s@.len() && #[trigger] s@.subrange(k, k + p@.len())
                    == p@;
            assert(s@.subrange(k, k + p@.len()) == p@);
        }
    }
    false
}

/// Does `s` contain the character `c`?
pub open spec fn spec_contains_char(s: Seq<char>, c: char) -> bool {
    exists|i: int| 0 <= i < s.len() && s[i] == c
}

pub fn contains_char(s: &Vec<char>, c: char) -> (r: bool)
    ensures
        r == spec_contains_char(s@, c),
{
    let mut i: usize = 0;
    while i < s.len()
        invariant
            0 <= i <= s@.len(),
            forall|j: int| 0 <= j < i ==> s@[j] != c,
        decreases s@.len() - i,
    {
        if s[i] == c {
            return true;
        }
        i = i + 1;
    }
    false
}

/// How often `c` occurs in `s`.
pub open spec fn spec_count_char(s: Seq<char>, c: char) -> nat
    decreases s.len(),
{
    if s.len() == 0 {
        0
    } else {
        spec_count_char(s.drop_last(), c) + (if s.last() == c {
            1nat
        } else {
            0nat
        })
    }
}

pub fn count_char(s: &Vec<char>, c: char) -> (r: usize)
    ensures
        r == spec_count_char(s@, c),
{
    let mut i: usize = 0;
    let mut n: usize = 0;
    while i < s.len()
        invariant
            0 <= i <= s@.len(),
            n <= i,
            n == spec_count_char(s@.take(i as int), c),
        decreases s@.len() - i,
    {
        proof {
            assert(s@.take(i + 1).drop_last() =~= s@.take(i as int));
            assert(s@.take(i + 1).last() == s@[i as int]);
        }
        if s[i] == c {
            n = n + 1;
        }
        i = i + 1;
    }
    proof {
        assert(s@.take(s@.len() as int) =~= s@);
    }
    n
}

} // verus!

verus! {

/// Appends all characters of `src` to `dst`.
pub fn append_chars(dst: &mut Vec<char>, src: &Vec<char>)
    ensures
        final(dst)@ == old(dst)@ + src@,
{
    let mut i: usize = 0;
    while i < src.len()
        invariant
            0 <= i <= src@.len(),
            dst@ == old(dst)@ + src@.take(i as int),
        decreases src@.len() - i,
    {
        dst.push(src[i]);
        proof {
            assert(old(dst)@ + src@.take(i + 1) =~= (old(dst)@ + src@.take(i as int)).push(
                src@[i as int],
            ));
        }
        i = i + 1;
    }
    proof {
        assert(src@.take(src@.len() as int) =~= src@);
    }
}

/// The index of the first occurrence of `c` in `s`, or `s.len()` if absent.
pub open spec fn first_occ(s: Seq<char>, c: char) -> nat
    decreases s.len(),
{
    if s.len() == 0 {
        0
    } else if s[0] == c {
        0
    } else {
        1 + first_occ(s.skip(1), c)
    }
}

pub proof fn lemma_first_occ(s: Seq<char>, c: char)
    ensures
        first_occ(s, c) <= s.len(),
        forall|j: int| 0 <= j < first_occ(s, c) ==> #[trigger] s[j] != c,
        first_occ(s, c) < s.len() ==> s[first_occ(s, c) as int] == c,
    decreases s.len(),
{
    if s.len() == 0 || s[0] == c {
    } else {
        lemma_first_occ(s.skip(1), c);
        assert forall|j: int| 0 <= j < first_occ(s, c) implies #[trigger] s[j] != c by {
            if j > 0 {
                assert(s.skip(1)[j - 1] == s[j]);
            }
        }
        if first_occ(s, c) < s.len() {
            assert(s.skip(1)[first_occ(s, c) - 1] == s[first_occ(s, c) as int]);
        }
    }
}

/// `str::split` over characters: the runs between occurrences of `c`.
pub open spec fn spec_split(s: Seq<char>, c: char) -> Seq<Seq<char>>
    decreases s.len(),
{
    let i = first_occ(s, c) as int;
    if i < s.len() {
        seq![s.take(i)] + spec_split(s.skip(i + 1), c)
    } else {
        seq![s]
    }
}


/// A separator-free prefix splits off as one piece.
pub proof fn lemma_split_step(pre: Seq<char>, rest: Seq<char>, c: char)
    requires
        forall|j: int| 0 <= j < pre.len() ==> #[trigger] pre[j] != c,
    ensures
        spec_split(pre + seq![c] + rest, c) == seq![pre] + spec_split(rest, c),
{
    let s = pre + seq![c] + rest;
    lemma_first_occ_concat(pre, rest, c);
    assert(s.take(pre.len() as int) =~= pre);
    assert(s.skip(pre.len() as int + 1) =~= rest);
}

pub proof fn lemma_first_occ_concat(pre: Seq<char>, rest: Seq<char>, c: char)
    requires
        forall|j: int| 0 <= j < pre.len() ==> #[trigger] pre[j] != c,
    ensures
        first_occ(pre + seq![c] + rest, c) == pre.len(),
    decreases pre.len(),
{
    let s = pre + seq![c] + rest;
    if pre.len() == 0 {
        assert(s[0] == c);
    } else {
        assert(s[0] == pre[0]);
        assert(s.skip(1) =~= pre.skip(1) + seq![c] + rest);
        assert(forall|j: int|
            0 <= j < pre.skip(1).len() ==> #[trigger] pre.skip(1)[j] == pre[j + 1]);
        lemma_first_occ_concat(pre.skip(1), rest, c);
    }
}

/// A separator-free sequence splits into just itself.
pub proof fn lemma_split_whole(s: Seq<char>, c: char)
    requires
        forall|j: int| 0 <= j < s.len() ==> #[trigger] s[j] != c,
    ensures
        spec_split(s, c) == seq![s],
    decreases s.len(),
{
    lemma_first_occ(s, c);
    if first_occ(s, c) < s.len() {
        assert(s[first_occ(s, c) as int] == c);
    }
}

/// The views of a sequence of character vectors.
pub open spec fn views(s: Seq<Vec<char>>) -> Seq<Seq<char>> {
    s.map_values(|x: Vec<char>| x@)
}

/// `str::split` as a vector of character vectors.
pub fn split_chars(v: &Vec<char>, c: char) -> (r: Vec<Vec<char>>)
    ensures
        views(r@) == spec_split(v@, c),
        r@.len() >= 1,
{
    let mut done: Vec<Vec<char>> = Vec::new();
    let mut cur: Vec<char> = Vec::new();
    let mut i: usize = 0;
    proof {
        assert(cur@ + v@.skip(0) =~= v@);
        assert(views(done@) =~= Seq::<Seq<char>>::empty());
    }
    while i < v.len()
        invariant
            0 <= i <= v@.len(),
            forall|j: int| 0 <= j < cur@.len() ==> #[trigger] cur@[j] != c,
            spec_split(v@, c) == views(done@) + spec_split(cur@ + v@.skip(i as int), c),
        decreases v@.len() - i,
    {
        let x = v[i];
        if x == c {
            proof {
                assert(cur@ + v@.skip(i as int) =~= cur@ + seq![c] + v@.skip(i + 1));
                lemma_split_step(cur@, v@.skip(i + 1), c);
            }
            let ghost old_done = done@;
            let ghost cur_view = cur@;
            done.push(cur);
            cur = Vec::new();
            proof {
                assert(views(done@) =~= views(old_done).push(cur_view));
                assert(views(old_done).push(cur_view) + spec_split(v@.skip(i + 1), c) =~= views(
                    old_done,
                ) + (seq![cur_view] + spec_split(v@.skip(i + 1), c)));
                assert(cur@ + v@.skip(i + 1) =~= v@.skip(i + 1));
            }
        } else {
            proof {
                assert(cur@.push(x) + v@.skip(i + 1) =~= cur@ + v@.skip(i as int));
            }
            cur.push(x);
        }
        i = i + 1;
    }
    proof {
        assert(cur@ + v@.skip(v@.len() as int) =~= cur@);
        lemma_split_whole(cur@, c);
    }
    let ghost old_done = done@;
    let ghost cur_view = cur@;
    done.push(cur);
    proof {
        assert(views(done@) =~= views(old_done).push(cur_view));
        assert(views(old_done).push(cur_view) =~= views(old_done) + seq![cur_view]);
    }
    done
}

/// `str::split_once` over characters.
pub open spec fn spec_split_once(s: Seq<char>, c: char) -> Option<(Seq<char>, Seq<char>)> {
    if first_occ(s, c) < s.len() {
        Some((s.take(first_occ(s, c) as int), s.skip(first_occ(s, c) as int + 1)))
    } else {
        None
    }
}

pub fn split_once_chars(v: &Vec<char>, c: char) -> (r: Option<(Vec<char>, Vec<char>)>)
    ensures
        r is Some <==> spec_split_once(v@, c) is Some,
        r is Some ==> ((r->0).0@, (r->0).1@) == spec_split_once(v@, c)->0,
{
    let mut i: usize = 0;
    proof {
        lemma_first_occ(v@, c);
    }
    while i < v.len() && v[i] != c
        invariant
            0 <= i <= v@.len(),
            forall|j: int| 0 <= j < i ==> #[trigger] v@[j] != c,
            i <= first_occ(v@, c),
        decreases v@.len() - i,
    {
        proof {
            lemma_first_occ(v@, c);
            if first_occ(v@, c) == i {
                assert(v@[i as int] != c);
            }
        }
        i = i + 1;
    }
    proof {
        lemma_first_occ(v@, c);
        if i < v@.len() && i < first_occ(v@, c) {
            assert(v@[i as int] != c);
        }
    }
    if i < v.len() {
        let left = subrange_chars(v, 0, i);
        let right = subrange_chars(v, i + 1, v.len());
        Some((left, right))
    } else {
        None
    }
}

/// A line with its `\r` terminator removed, as `str::lines` does for
/// `\r\n` endings.
pub open spec fn strip_cr(x: Seq<char>) -> Seq<char> {
    if x.len() > 0 && x.last() == '\r' {
        x.drop_last()
    } else {
        x
    }
}

/// `str::lines` over characters: pieces between `\n` separators, with a
/// final empty piece dropped and `\r` stripped before each separator.
pub open spec fn spec_lines(s: Seq<char>) -> Seq<Seq<char>> {
    if s.len() == 0 {
        Seq::empty()
    } else {
        let p = spec_split(s, '\n');
        let k = if p.last().len() == 0 {
            p.len() - 1
        } else {
            p.len() as int
        };
        Seq::new(k as nat, |i: int| if i == p.len() - 1 {
            p[i]
        } else {
            strip_cr(p[i])
        })
    }
}

fn strip_cr_chars(v: &Vec<char>, from: usize, to: usize) -> (r: Vec<char>)
    requires
        0 <= from <= to <= v@.len(),
    ensures
        r@ == strip_cr(v@.subrange(from as int, to as int)),
{
    if to > from && v[to - 1] == '\r' {
        proof {
            assert(v@.subrange(from as int, to as int).last() == v@[to - 1]);
            assert(v@.subrange(from as int, to - 1) =~= v@.subrange(
                from as int,
                to as int,
            ).drop_last());
        }
        subrange_chars(v, from, to - 1)
    } else {
        proof {
            if to > from {
                assert(v@.subrange(from as int, to as int).last() == v@[to - 1]);
            }
        }
        subrange_chars(v, from, to)
    }
}

/// `str::lines` as a vector of character vectors.
pub fn lines_chars(v: &Vec<char>) -> (r: Vec<Vec<char>>)
    ensures
        views(r@) == spec_lines(v@),
{
    if v.len() == 0 {
        let out: Vec<Vec<char>> = Vec::new();
        proof {
            assert(views(out@) =~= Seq::<Seq<char>>::empty());
        }
        return out;
    }
    let parts = split_chars(v, '\n');
    let n = parts.len();
    let k: usize = if parts[n - 1].len() == 0 {
        n - 1
    } else {
        n
    };
    proof {
        assert(views(parts@).last() == parts@[n - 1]@);
    }
    let mut out: Vec<Vec<char>> = Vec::new();
    let mut i: usize = 0;
    while i < k
        invariant
            0 <= i <= k <= n,
            n == parts@.len(),
            n >= 1,
            views(parts@) == spec_split(v@, '\n'),
            v@.len() > 0,
            k == (if views(parts@).last().len() == 0 {
                n - 1
            } else {
                n as int
            }),
            out@.len() == i,
            forall|j: int| 0 <= j < i ==> views(out@)[j] == spec_lines(v@)[j],
        decreases k - i,
    {
        let part = &parts[i];
        let line = if i == n - 1 {
            subrange_chars(part, 0, part.len())
        } else {
            strip_cr_chars(part, 0, part.len())
        };
        proof {
            assert(part@.subrange(0, part@.len() as int) =~= part@);
            assert(views(parts@)[i as int] == parts@[i as int]@);
        }
        let ghost old_out = out@;
        out.push(line);
        proof {
            assert(views(out@) =~= views(old_out).push(line@));
            assert(views(out@)[i as int] == line@);
            assert(spec_lines(v@)[i as int] == line@);
        }
        i = i + 1;
    }
    proof {
        assert(views(out@) =~= spec_lines(v@));
    }
    out
}

/// Concatenation of `parts` with `sep` between consecutive pieces.
pub open spec fn spec_join(parts: Seq<Seq<char>>, sep: Seq<char>) -> Seq<char>
    decreases parts.len(),
{
    if parts.len() == 0 {
        Seq::empty()
    } else if parts.len() == 1 {
        parts[0]
    } else {
        parts[0] + sep + spec_join(parts.skip(1), sep)
    }
}

pub proof fn lemma_join_push(parts: Seq<Seq<char>>, sep: Seq<char>, x: Seq<char>)
    ensures
        spec_join(parts.push(x), sep) == if parts.len() == 0 {
            x
        } else {
            spec_join(parts, sep) + sep + x
        },
    decreases parts.len(),
{
    if parts.len() == 0 {
        assert(spec_join(parts.push(x), sep) == parts.push(x)[0]);
        assert(parts.push(x)[0] == x);
    } else {
        assert(parts.push(x).len() >= 2);
        assert(parts.push(x)[0] == parts[0]);
        assert(parts.push(x).skip(1) =~= parts.skip(1).push(x));
        lemma_join_push(parts.skip(1), sep, x);
        if parts.len() == 1 {
            assert(spec_join(parts.skip(1).push(x), sep) == x);
            assert(spec_join(parts, sep) == parts[0]);
        } else {
            assert(spec_join(parts, sep) == parts[0] + sep + spec_join(parts.skip(1), sep));
            assert((parts[0] + sep + (spec_join(parts.skip(1), sep) + sep + x)) =~= (parts[0] + sep
                + spec_join(parts.skip(1), sep)) + sep + x);
        }
    }
}

/// Join as a character vector.
pub fn join_chars(parts: &Vec<Vec<char>>, sep: &Vec<char>) -> (r: Vec<char>)
    ensures
        r@ == spec_join(views(parts@), sep@),
{
    let mut out: Vec<char> = Vec::new();
    let mut i: usize = 0;
    proof {
        assert(views(parts@).take(0) =~= Seq::<Seq<char>>::empty());
    }
    while i < parts.len()
        invariant
            0 <= i <= parts@.len(),
            out@ == spec_join(views(parts@).take(i as int), sep@),
        decreases parts@.len() - i,
    {
        if i > 0 {
            append_chars(&mut out, sep);
        }
        append_chars(&mut out, &parts[i]);
        proof {
            assert(views(parts@).take(i + 1) =~= views(parts@).take(i as int).push(
                views(parts@)[i as int],
            ));
            lemma_join_push(views(parts@).take(i as int), sep@, views(parts@)[i as int]);
            assert(views(parts@)[i as int] == parts@[i as int]@);
        }
        i = i + 1;
    }
    proof {
        assert(views(parts@).take(views(parts@).len() as int) =~= views(parts@));
    }
    out
}

/// ASCII lower-casing of a whole sequence.
pub fn to_lower_chars(v: &Vec<char>) -> (r: Vec<char>)
    ensures
        r@ == v@.map_values(|c: char| to_lower(c)),
{
    let mut out: Vec<char> = Vec::new();
    let mut i: usize = 0;
    while i < v.len()
        invariant
            0 <= i <= v@.len(),
            out@ == v@.take(i as int).map_values(|c: char| to_lower(c)),
        decreases v@.len() - i,
    {
        out.push(char_to_lower(v[i]));
        proof {
            assert(v@.take(i + 1).map_values(|c: char| to_lower(c)) =~= v@.take(
                i as int,
            ).map_values(|c: char| to_lower(c)).push(to_lower(v@[i as int])));
        }
        i = i + 1;
    }
    proof {
        assert(v@.take(v@.len() as int) =~= v@);
    }
    out
}

/// ASCII upper-casing of a whole sequence.
pub fn to_upper_chars(v: &Vec<char>) -> (r: Vec<char>)
    ensures
        r@ == v@.map_values(|c: char| to_upper(c)),
{
    let mut out: Vec<char> = Vec::new();
    let mut i: usize = 0;
    while i < v.len()
        invariant
            0 <= i <= v@.len(),
            out@ == v@.take(i as int).map_values(|c: char| to_upper(c)),
        decreases v@.len() - i,
    {
        out.push(char_to_upper(v[i]));
        proof {
            assert(v@.take(i + 1).map_values(|c: char| to_upper(c)) =~= v@.take(
                i as int,
            ).map_values(|c: char| to_upper(c)).push(to_upper(v@[i as int])));
        }
        i = i + 1;
    }
    proof {
        assert(v@.take(v@.len() as int) =~= v@);
    }
    out
}

pub open spec fn all_digits(s: Seq<char>) -> bool {
    forall|i: int| 0 <= i < s.len() ==> is_ascii_digit(#[trigger] s[i])
}

/// The number spelled by a digit sequence, most significant digit first.
pub open spec fn digits_val(s: Seq<char>) -> int
    decreases s.len(),
{
    if s.len() == 0 {
        0
    } else {
        digits_val(s.drop_last()) * 10 + (s.last() as int - '0' as int)
    }
}

pub proof fn lemma_digits_val_nonneg(s: Seq<char>)
    requires
        all_digits(s),
    ensures
        digits_val(s) >= 0,
    decreases s.len(),
{
    if s.len() > 0 {
        assert(forall|i: int|
            0 <= i < s.drop_last().len() ==> is_ascii_digit(#[trigger] s.drop_last()[i]));
        lemma_digits_val_nonneg(s.drop_last());
    }
}

pub proof fn lemma_digits_val_prefix(s: Seq<char>, k: int)
    requires
        all_digits(s),
        0 <= k <= s.len(),
    ensures
        digits_val(s.take(k)) <= digits_val(s),
    decreases s.len(),
{
    if k == s.len() {
        assert(s.take(k) =~= s);
    } else {
        assert(forall|i: int|
            0 <= i < s.drop_last().len() ==> is_ascii_digit(#[trigger] s.drop_last()[i]));
        assert(s.take(k) =~= s.drop_last().take(k));
        lemma_digits_val_prefix(s.drop_last(), k);
        lemma_digits_val_nonneg(s.drop_last());
        assert(is_ascii_digit(s.last()));
    }
}

/// `str::parse::<usize>`: an optional `+`, then one or more ASCII digits,
/// rejecting values that do not fit.
pub open spec fn spec_parse_usize(s: Seq<char>) -> Option<usize> {
    let d = if s.len() > 0 && s[0] == '+' {
        s.skip(1)
    } else {
        s
    };
    if d.len() > 0 && all_digits(d) && digits_val(d) <= usize::MAX {
        Some(digits_val(d) as usize)
    } else {
        None
    }
}

pub fn parse_usize_chars(v: &Vec<char>) -> (r: Option<usize>)
    ensures
        r == spec_parse_usize(v@),
{
    let start: usize = if v.len() > 0 && v[0] == '+' {
        1
    } else {
        0
    };
    let ghost d = if v@.len() > 0 && v@[0] == '+' {
        v@.skip(1)
    } else {
        v@
    };
    proof {
        assert(d =~= v@.skip(start as int));
    }
    if v.len() == start {
        return None;
    }
    let mut acc: usize = 0;
    let mut i: usize = start;
    while i < v.len()
        invariant
            start <= i <= v@.len(),
            start <= 1,
            v@.len() > start,
            d == v@.skip(start as int),
            d == (if v@.len() > 0 && v@[0] == '+' {
                v@.skip(1)
            } else {
                v@
            }),
            all_digits(d.take(i - start)),
            acc == digits_val(d.take(i - start)),
        decreases v@.len() - i,
    {
        let c = v[i];
        proof {
            assert(d[i - start] == c);
        }
        if !('0' <= c && c <= '9') {
            proof {
                assert(!is_ascii_digit(d[i - start]));
                assert(!all_digits(d));
            }
            return None;
        }
        let dig: u128 = ((c as u8) - 48) as u128;
        let wide: u128 = (acc as u128) * 10 + dig;
        proof {
            assert(dig == c as int - '0' as int);
            assert(d.take(i - start + 1).drop_last() =~= d.take(i - start));
            assert(d.take(i - start + 1).last() == d[i - start]);
            assert(digits_val(d.take(i - start + 1)) == wide);
            assert(all_digits(d.take(i - start + 1)));
        }
        if wide > (usize::MAX as u128) {
            proof {
                if all_digits(d) {
                    lemma_digits_val_prefix(d, i - start + 1);
                }
            }
            return None;
        }
        acc = wide as usize;
        i = i + 1;
    }
    proof {
        assert(d.take(v@.len() - start) =~= d);
    }
    Some(acc)
}

} // verus!

verus! {

/// `n` copies of the character `c`.
pub fn repeat_char(c: char, n: usize) -> (r: Vec<char>)
    ensures
        r@ == Seq::new(n as nat, |i: int| c),
{
    let mut out: Vec<char> = Vec::new();
    let mut i: usize = 0;
    while i < n
        invariant
            0 <= i <= n,
            out@ == Seq::new(i as nat, |j: int| c),
        decreases n - i,
    {
        out.push(c);
        proof {
            assert(out@ =~= Seq::new((i + 1) as nat, |j: int| c));
        }
        i = i + 1;
    }
    out
}

/// The ASCII digit for a value below ten.
pub open spec fn digit_char(d: nat) -> char {
    ((48 + d) as u8) as char
}

/// The decimal rendering of a natural number, most significant digit first.
pub open spec fn spec_nat_str(n: nat) -> Seq<char>
    decreases n,
{
    if n < 10 {
        seq![digit_char(n)]
    } else {
        spec_nat_str(n / 10) + seq![digit_char(n % 10)]
    }
}

/// The decimal rendering of a `usize`, as `Display` prints it.
pub fn usize_to_chars(n: usize) -> (r: Vec<char>)
    ensures
        r@ == spec_nat_str(n as nat),
{
    let mut tmp: Vec<char> = Vec::new();
    let mut m: usize = n;
    proof {
        assert(spec_nat_str(n as nat) =~= spec_nat_str(m as nat) + tmp@.reverse());
    }
    while m >= 10
        invariant
            spec_nat_str(n as nat) == spec_nat_str(m as nat) + tmp@.reverse(),
        decreases m,
    {
        let d: u8 = (m % 10) as u8;
        let ghost old_tmp = tmp@;
        tmp.push(((48 + d)) as char);
        m = m / 10;
        proof {
            assert(tmp@.reverse() =~= seq![digit_char((m as nat * 10 + d as nat) % 10)]
                + old_tmp.reverse());
            assert(spec_nat_str(n as nat) =~= spec_nat_str(m as nat) + tmp@.reverse());
        }
    }
    let d: u8 = m as u8;
    let mut out: Vec<char> = Vec::new();
    out.push((48 + d) as char);
    proof {
        assert(out@ =~= spec_nat_str(m as nat));
    }
    let mut k: usize = tmp.len();
    while k > 0
        invariant
            0 <= k <= tmp@.len(),
            out@ == spec_nat_str((n as nat)).take(
                spec_nat_str(n as nat).len() - k,
            ),
            spec_nat_str(n as nat) == spec_nat_str((n as nat)).take(
                spec_nat_str(n as nat).len() - k,
            ) + tmp@.take(k as int).reverse(),
        decreases k,
    {
        proof {
            assert(tmp@.take(k as int).reverse()[0] == tmp@[k - 1]);
        }
        out.push(tmp[k - 1]);
        k = k - 1;
        proof {
            let full = spec_nat_str(n as nat);
            assert(out@ =~= full.take(full.len() - k));
            assert(full =~= full.take(full.len() - k) + tmp@.take(k as int).reverse());
        }
    }
    proof {
        let full = spec_nat_str(n as nat);
        assert(out@ =~= full);
    }
    out
}

} // verus!

verus! {

/// The first index where `p` occurs in `s`, or `s.len() + 1` marking
/// absence (kept distinct from any valid index).
pub open spec fn spec_find_from(s: Seq<char>, p: Seq<char>, i: int) -> int
    decreases s.len() + 1 - i,
{
    if i < 0 || i + p.len() > s.len() {
        s.len() as int + 1
    } else if s.subrange(i, i + p.len()) == p {
        i
    } else {
        spec_find_from(s, p, i + 1)
    }
}

/// `str::find` for a literal pattern: the first match index, if any.
pub open spec fn spec_find(s: Seq<char>, p: Seq<char>) -> Option<int> {
    if spec_find_from(s, p, 0) <= s.len() {
        Some(spec_find_from(s, p, 0))
    } else {
        None
    }
}

pub proof fn lemma_find_from(s: Seq<char>, p: Seq<char>, i: int)
    requires
        0 <= i <= s.len() + 1,
    ensures
        i <= spec_find_from(s, p, i) <= s.len() + 1,
        spec_find_from(s, p, i) + p.len() <= s.len() ==> s.subrange(
            spec_find_from(s, p, i),
            spec_find_from(s, p, i) + p.len(),
        ) == p,
        spec_find_from(s, p, i) <= s.len() ==> spec_find_from(s, p, i) + p.len() <= s.len(),
        forall|k: int|
            i <= k < spec_find_from(s, p, i) && k + p.len() <= s.len() ==> #[trigger] s.subrange(
                k,
                k + p.len(),
            ) != p,
    decreases s.len() + 1 - i,
{
    if i + p.len() > s.len() {
    } else if s.subrange(i, i + p.len()) == p {
    } else {
        lemma_find_from(s, p, i + 1);
    }
}

/// Finds the first occurrence of `p` in `s`.
pub fn find_chars(s: &Vec<char>, p: &Vec<char>) -> (r: Option<usize>)
    ensures
        (r is Some <==> spec_find(s@, p@) is Some),
        r is Some ==> r->0 == spec_find(s@, p@)->0 && r->0 + p@.len() <= s@.len(),
{
    let n = s.len();
    let m = p.len();
    proof {
        lemma_find_from(s@, p@, 0);
    }
    if m > n {
        return None;
    }
    let mut i: usize = 0;
    while i <= n - m
        invariant
            m <= n,
            n == s@.len(),
            m == p@.len(),
            0 <= i,
            i <= n,
            forall|k: int|
                0 <= k < i && k + p@.len() <= s@.len() ==> #[trigger] s@.subrange(
                    k,
                    k + p@.len(),
                ) != p@,
            i <= spec_find_from(s@, p@, 0) || spec_find_from(s@, p@, 0) <= s@.len(),
        decreases n - i,
    {
        let mut j: usize = 0;
        let mut all: bool = true;
        while j < m
            invariant
                m == p@.len(),
                n == s@.len(),
                0 <= j <= m,
                i + m <= n,
                all <==> (forall|t: int| 0 <= t < j ==> s@[i + t] == p@[t]),
            decreases m - j,
        {
            if s[i + j] != p[j] {
                all = false;
                proof {
                    assert(s@[i + j] != p@[j as int]);
                }
                j = m;
            } else {
                j = j + 1;
            }
        }
        if all {
            proof {
                assert(s@.subrange(i as int, i + p@.len()) =~= p@);
                lemma_find_from(s@, p@, 0);
                if spec_find_from(s@, p@, 0) < i {
                    assert(s@.subrange(
                        spec_find_from(s@, p@, 0),
                        spec_find_from(s@, p@, 0) + p@.len(),
                    ) == p@);
                }
                assert(spec_find_from(s@, p@, 0) == i as int);
            }
            return Some(i);
        }
        proof {
            if s@.subrange(i as int, i + p@.len()) == p@ {
                let t = choose|t: int| 0 <= t < p@.len() && s@[i + t] != p@[t];
                assert(s@.subrange(i as int, i + p@.len())[t] == s@[i + t]);
            }
        }
        i = i + 1;
    }
    proof {
        lemma_find_from(s@, p@, 0);
        if spec_find_from(s@, p@, 0) <= s@.len() {
            let f = spec_find_from(s@, p@, 0);
            assert(s@.subrange(f, f + p@.len()) == p@);
            assert(f < i || f + p@.len() > s@.len());
        }
    }
    None
}

} // verus!

verus! {

/// Trimming is idempotent: a trimmed text has no whitespace at either end.
pub proof fn lemma_trim_idempotent(s: Seq<char>)
    ensures
        spec_trim(spec_trim(s)) == spec_trim(s),
{
    let t = spec_trim(s);
    lemma_ws_prefix(s);
    lemma_ws_suffix(spec_trim_start(s));
    if t.len() > 0 {
        assert(t[0] == spec_trim_start(s)[0]);
        assert(!is_ws(t[0])) by {
            lemma_ws_prefix(s);
            if ws_prefix(s) < s.len() {
                assert(spec_trim_start(s)[0] == s[ws_prefix(s) as int]);
            }
        }
        assert(ws_prefix(t) == 0);
        assert(!is_ws(t[t.len() - 1])) by {
            let u = spec_trim_start(s);
            lemma_ws_suffix(u);
            if ws_suffix(u) < u.len() {
                assert(t[t.len() - 1] == u[u.len() - ws_suffix(u) - 1]);
            }
        }
        assert(ws_suffix(t) == 0);
        assert(spec_trim_start(t) =~= t);
        assert(spec_trim_end(t) =~= t);
    } else {
        assert(spec_trim_start(t) =~= t);
        assert(spec_trim_end(t) =~= t);
    }
}

} // verus!
