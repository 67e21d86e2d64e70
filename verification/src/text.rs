//! Verified character-level text primitives used throughout the library:
//! whitespace trimming, prefix tests and equality over `&str`/`String`.

use vstd::prelude::*;
use vstd::string::StrSliceExecFns;
use vstd::string::StringExecFns;

verus! {

/// The whitespace characters this library trims: the ASCII ones.
pub open spec fn is_ws_char(c: char) -> bool {
    c == ' ' || c == '\t' || c == '\n' || c == '\r'
}

/// `s` with leading whitespace removed.
pub open spec fn spec_ltrim(s: Seq<char>) -> Seq<char>
    decreases s.len(),
{
    if s.len() > 0 && is_ws_char(s[0]) {
        spec_ltrim(s.drop_first())
    } else {
        s
    }
}

/// `s` with trailing whitespace removed.
pub open spec fn spec_rtrim(s: Seq<char>) -> Seq<char>
    decreases s.len(),
{
    if s.len() > 0 && is_ws_char(s[s.len() - 1]) {
        spec_rtrim(s.drop_last())
    } else {
        s
    }
}

/// `s` with whitespace removed at both ends.
pub open spec fn spec_trim(s: Seq<char>) -> Seq<char> {
    spec_rtrim(spec_ltrim(s))
}

pub proof fn lemma_ltrim_at(s: Seq<char>, i: int)
    requires
        0 <= i <= s.len(),
        forall|k: int| 0 <= k < i ==> is_ws_char(s[k]),
        i < s.len() ==> !is_ws_char(s[i]),
    ensures
        spec_ltrim(s) == s.skip(i),
    decreases i,
{
    if i == 0 {
        assert(s.skip(0) =~= s);
    } else {
        lemma_ltrim_at(s.drop_first(), i - 1);
        assert(s.drop_first().skip(i - 1) =~= s.skip(i));
    }
}

pub proof fn lemma_rtrim_at(s: Seq<char>, j: int)
    requires
        0 <= j <= s.len(),
        forall|k: int| j <= k < s.len() ==> is_ws_char(s[k]),
        j > 0 ==> !is_ws_char(s[j - 1]),
    ensures
        spec_rtrim(s) == s.take(j),
    decreases s.len() - j,
{
    if j == s.len() {
        assert(s.take(j) =~= s);
    } else {
        lemma_rtrim_at(s.drop_last(), j);
        assert(s.drop_last().take(j) =~= s.take(j));
    }
}

/// Whether `c` counts as whitespace for trimming.
pub fn is_ws(c: char) -> (r: bool)
    ensures
        r == is_ws_char(c),
{
    c == ' ' || c == '\t' || c == '\n' || c == '\r'
}

/// A fresh `String` holding `s` without whitespace at either end.
pub fn trim_string(s: &str) -> (r: String)
    ensures
        r@ == spec_trim(s@),
{
    let n = s.unicode_len();
    let mut i: usize = 0;
    while i < n && is_ws(s.get_char(i))
        invariant
            0 <= i <= n,
            n == s@.len(),
            forall|k: int| 0 <= k < i ==> is_ws_char(s@[k]),
        decreases n - i,
    {
        i = i + 1;
    }
    proof {
        lemma_ltrim_at(s@, i as int);
    }
    let mut j: usize = n;
    while j > i && is_ws(s.get_char(j - 1))
        invariant
            i <= j <= n,
            n == s@.len(),
            forall|k: int| j <= k < n ==> is_ws_char(s@[k]),
        decreases j,
    {
        j = j - 1;
    }
    proof {
        let t = s@.skip(i as int);
        assert(forall|k: int| j - i <= k < t.len() ==> is_ws_char(#[trigger] t[k]));
        if j > i {
            assert(t[j - i - 1] == s@[j - 1]);
        }
        lemma_rtrim_at(t, j - i);
        assert(t.take(j - i) =~= s@.subrange(i as int, j as int));
    }
    String::from_str(s.substring_char(i, j))
}

/// A fresh `String` holding `s` without leading whitespace.
pub fn ltrim_string(s: &str) -> (r: String)
    ensures
        r@ == spec_ltrim(s@),
{
    let n = s.unicode_len();
    let mut i: usize = 0;
    while i < n && is_ws(s.get_char(i))
        invariant
            0 <= i <= n,
            n == s@.len(),
            forall|k: int| 0 <= k < i ==> is_ws_char(s@[k]),
        decreases n - i,
    {
        i = i + 1;
    }
    proof {
        lemma_ltrim_at(s@, i as int);
        assert(s@.subrange(i as int, n as int) =~= s@.skip(i as int));
    }
    String::from_str(s.substring_char(i, n))
}

/// Whether `s` begins with `p`.
pub fn str_starts_with(s: &str, p: &str) -> (r: bool)
    ensures
        r == (s@.len() >= p@.len() && s@.take(p@.len() as int) == p@),
{
    let n = s.unicode_len();
    let m = p.unicode_len();
    if n < m {
        return false;
    }
    let mut i: usize = 0;
    while i < m
        invariant
            0 <= i <= m,
            m == p@.len(),
            n == s@.len(),
            m <= n,
            forall|k: int| 0 <= k < i ==> s@[k] == p@[k],
        decreases m - i,
    {
        if s.get_char(i) != p.get_char(i) {
            assert(s@.take(m as int)[i as int] != p@[i as int]);
            return false;
        }
        i = i + 1;
    }
    proof {
        assert(s@.take(m as int) =~= p@);
    }
    true
}

/// Whether `s` ends with `p`.
pub fn str_ends_with(s: &str, p: &str) -> (r: bool)
    ensures
        r == (s@.len() >= p@.len() && s@.skip(s@.len() - p@.len()) == p@),
{
    let n = s.unicode_len();
    let m = p.unicode_len();
    if n < m {
        return false;
    }
    let mut i: usize = 0;
    while i < m
        invariant
            0 <= i <= m,
            m == p@.len(),
            n == s@.len(),
            m <= n,
            forall|k: int| 0 <= k < i ==> s@[n - m + k] == p@[k],
        decreases m - i,
    {
        if s.get_char(n - m + i) != p.get_char(i) {
            assert(s@.skip(n as int - m as int)[i as int] != p@[i as int]);
            return false;
        }
        i = i + 1;
    }
    proof {
        assert(s@.skip(n as int - m as int) =~= p@);
    }
    true
}

/// Whether two string slices hold the same characters.
pub fn str_eq(a: &str, b: &str) -> (r: bool)
    ensures
        r == (a@ == b@),
{
    let n = a.unicode_len();
    let m = b.unicode_len();
    if n != m {
        return false;
    }
    let mut i: usize = 0;
    while i < n
        invariant
            0 <= i <= n,
            n == a@.len(),
            n == b@.len(),
            forall|k: int| 0 <= k < i ==> a@[k] == b@[k],
        decreases n - i,
    {
        if a.get_char(i) != b.get_char(i) {
            return false;
        }
        i = i + 1;
    }
    proof {
        assert(a@ =~= b@);
    }
    true
}

/// `a` and `b` joined into one fresh `String`.
pub fn concat_strs(a: &str, b: &str) -> (r: String)
    ensures
        r@ == a@ + b@,
{
    let mut r = String::from_str(a);
    r.append(b);
    r
}

/// The character sequences of a list of strings.
pub open spec fn views_of(items: Seq<String>) -> Seq<Seq<char>> {
    items.map_values(|s: String| s@)
}

pub proof fn lemma_views_push(items: Seq<String>, x: String)
    ensures
        views_of(items.push(x)) == views_of(items).push(x@),
{
    assert(views_of(items.push(x)) =~= views_of(items).push(x@));
}

/// Appends a copy of `s` to `items`.
pub fn push_str_item(items: &mut Vec<String>, s: &str)
    ensures
        views_of(final(items)@) == views_of(old(items)@).push(s@),
{
    let v = String::from_str(s);
    proof {
        lemma_views_push(items@, v);
    }
    items.push(v);
}

/// Appends `s` to `items`.
pub fn push_string_item(items: &mut Vec<String>, s: String)
    ensures
        views_of(final(items)@) == views_of(old(items)@).push(s@),
{
    proof {
        lemma_views_push(items@, s);
    }
    items.push(s);
}

/// `needle` occurs in `hay` starting at index `i`.
pub open spec fn is_str_match_at(hay: Seq<char>, needle: Seq<char>, i: int) -> bool {
    0 <= i && i + needle.len() <= hay.len() && hay.subrange(i, i + needle.len()) == needle
}

/// `needle` occurs somewhere in `hay`.
pub open spec fn str_contains_seq(hay: Seq<char>, needle: Seq<char>) -> bool {
    exists|i: int| is_str_match_at(hay, needle, i)
}

/// The index of the first occurrence of `needle` in `hay`, if any.
pub fn find_str(hay: &str, needle: &str) -> (r: Option<usize>)
    ensures
        r matches Some(i) ==> is_str_match_at(hay@, needle@, i as int) && (forall|k: int|
            0 <= k < i ==> !is_str_match_at(hay@, needle@, k)),
        r is None ==> !str_contains_seq(hay@, needle@),
{
    let hl = hay.unicode_len();
    let nl = needle.unicode_len();
    if nl > hl {
        proof {
            assert(forall|i: int| !is_str_match_at(hay@, needle@, i));
        }
        return Option::None;
    }
    if nl == 0 {
        proof {
            assert(hay@.subrange(0, 0) =~= needle@);
        }
        return Option::Some(0);
    }
    let mut i: usize = 0;
    while i <= hl - nl
        invariant
            nl == needle@.len(),
            hl == hay@.len(),
            1 <= nl <= hl,
            0 <= i <= hl - nl + 1,
            forall|k: int| 0 <= k < i ==> !is_str_match_at(hay@, needle@, k),
        decreases hl - nl + 1 - i,
    {
        if str_eq(hay.substring_char(i, i + nl), needle) {
            return Option::Some(i);
        }
        i = i + 1;
    }
    proof {
        assert(forall|k: int| k > hl - nl ==> !is_str_match_at(hay@, needle@, k));
    }
    Option::None
}

/// A plain substring test on character sequences.
pub fn contains_str(hay: &str, needle: &str) -> (r: bool)
    ensures
        r == str_contains_seq(hay@, needle@),
{
    match find_str(hay, needle) {
        Option::Some(_) => true,
        Option::None => false,
    }
}

/// How many bytes one character occupies in UTF-8.
pub open spec fn char_utf8_len(c: char) -> int {
    if (c as u32) < 0x80 {
        1
    } else if (c as u32) < 0x800 {
        2
    } else if (c as u32) < 0x10000 {
        3
    } else {
        4
    }
}

/// How many bytes a character sequence occupies in UTF-8.
pub open spec fn utf8_len(s: Seq<char>) -> int
    decreases s.len(),
{
    if s.len() == 0 {
        0
    } else {
        char_utf8_len(s[0]) + utf8_len(s.drop_first())
    }
}

/// The longest prefix of `s` whose UTF-8 encoding fits in `limit` bytes.
pub open spec fn spec_byte_prefix(s: Seq<char>, limit: int) -> Seq<char>
    decreases s.len(),
{
    if s.len() == 0 {
        Seq::empty()
    } else if char_utf8_len(s[0]) <= limit {
        seq![s[0]] + spec_byte_prefix(s.drop_first(), limit - char_utf8_len(s[0]))
    } else {
        Seq::empty()
    }
}

/// `s` truncated to its byte budget: left whole when its UTF-8 form fits in
/// `limit` bytes, else cut to the longest fitting prefix with a newline and
/// an ellipsis appended.
pub open spec fn spec_truncate(s: Seq<char>, limit: int) -> Seq<char> {
    if utf8_len(s) <= limit {
        s
    } else {
        spec_byte_prefix(s, limit) + "\n…"@
    }
}

pub proof fn lemma_utf8_len_nonneg(s: Seq<char>)
    ensures
        utf8_len(s) >= 0,
    decreases s.len(),
{
    if s.len() > 0 {
        lemma_utf8_len_nonneg(s.drop_first());
    }
}

pub proof fn lemma_utf8_len_snoc(s: Seq<char>, c: char)
    ensures
        utf8_len(s.push(c)) == utf8_len(s) + char_utf8_len(c),
    decreases s.len(),
{
    let p = s.push(c);
    if s.len() == 0 {
        assert(p[0] == c);
        assert(p.drop_first() =~= Seq::<char>::empty());
        assert(utf8_len(p.drop_first()) == 0);
        assert(utf8_len(p) == char_utf8_len(c) + utf8_len(p.drop_first()));
    } else {
        assert(p[0] == s[0]);
        assert(p.drop_first() =~= s.drop_first().push(c));
        lemma_utf8_len_snoc(s.drop_first(), c);
        assert(utf8_len(p) == char_utf8_len(s[0]) + utf8_len(p.drop_first()));
    }
}

pub proof fn lemma_utf8_len_decompose(s: Seq<char>, i: int)
    requires
        0 <= i <= s.len(),
    ensures
        utf8_len(s) == utf8_len(s.take(i)) + utf8_len(s.skip(i)),
    decreases i,
{
    if i == 0 {
        assert(s.take(0) =~= Seq::<char>::empty());
        assert(s.skip(0) =~= s);
    } else {
        assert(s.take(i).drop_first() =~= s.drop_first().take(i - 1));
        assert(s.skip(i) =~= s.drop_first().skip(i - 1));
        assert(s.take(i)[0] == s[0]);
        lemma_utf8_len_decompose(s.drop_first(), i - 1);
    }
}

proof fn lemma_byte_prefix_at(s: Seq<char>, limit: int, i: int)
    requires
        0 <= i <= s.len(),
        utf8_len(s.take(i)) <= limit,
        i < s.len() ==> utf8_len(s.take(i)) + char_utf8_len(s[i]) > limit,
    ensures
        spec_byte_prefix(s, limit) == s.take(i),
    decreases s.len(),
{
    if s.len() == 0 {
        assert(s.take(i) =~= Seq::<char>::empty());
    } else if i == 0 {
        assert(s.take(0) =~= Seq::<char>::empty());
        if char_utf8_len(s[0]) <= limit {
            // cannot happen: the prefix would have grown past index 0
            assert(utf8_len(s.take(0)) == 0);
            assert(false);
        }
    } else {
        let rest = s.drop_first();
        assert(s.take(i)[0] == s[0]);
        assert(s.take(i).drop_first() =~= rest.take(i - 1));
        assert(utf8_len(s.take(i)) == char_utf8_len(s[0]) + utf8_len(rest.take(i - 1)));
        if i < s.len() {
            assert(rest[i - 1] == s[i]);
        }
        lemma_byte_prefix_at(rest, limit - char_utf8_len(s[0]), i - 1);
        assert(seq![s[0]] + rest.take(i - 1) =~= s.take(i));
    }
}

/// How many bytes `c` occupies in UTF-8.
pub fn char_len(c: char) -> (r: usize)
    ensures
        r as int == char_utf8_len(c),
{
    let u = c as u32;
    if u < 0x80 {
        1
    } else if u < 0x800 {
        2
    } else if u < 0x10000 {
        3
    } else {
        4
    }
}

/// Truncates `input` to its byte budget: returned whole when its UTF-8 form
/// fits in `limit` bytes, else cut to the longest fitting character prefix
/// with a newline and an ellipsis appended.
pub fn truncate_string(input: &str, limit: usize) -> (r: String)
    ensures
        r@ == spec_truncate(input@, limit as int),
{
    let n = input.unicode_len();
    let mut i: usize = 0;
    let mut used: usize = 0;
    proof {
        assert(input@.take(0) =~= Seq::<char>::empty());
    }
    while i < n && char_len(input.get_char(i)) <= limit - used
        invariant
            0 <= i <= n,
            n == input@.len(),
            used as int == utf8_len(input@.take(i as int)),
            used <= limit,
        decreases n - i,
    {
        let c = input.get_char(i);
        proof {
            assert(input@.take(i + 1) =~= input@.take(i as int).push(input@[i as int]));
            lemma_utf8_len_snoc(input@.take(i as int), input@[i as int]);
        }
        used = used + char_len(c);
        i = i + 1;
    }
    if i == n {
        proof {
            assert(input@.take(n as int) =~= input@);
        }
        String::from_str(input)
    } else {
        proof {
            lemma_byte_prefix_at(input@, limit as int, i as int);
            lemma_utf8_len_decompose(input@, i as int);
            let tail = input@.skip(i as int);
            assert(tail[0] == input@[i as int]);
            lemma_utf8_len_nonneg(tail.drop_first());
            assert(utf8_len(tail) >= char_utf8_len(input@[i as int]));
            assert(utf8_len(input@) > limit);
        }
        let prefix = input.substring_char(0, i);
        proof {
            assert(input@.subrange(0, i as int) =~= input@.take(i as int));
        }
        concat_strs(prefix, "\n…")
    }
}

/// `s` with every occurrence of `pat` replaced by `rep`, scanning left to
/// right without revisiting replaced text.
pub open spec fn spec_replace(s: Seq<char>, pat: Seq<char>, rep: Seq<char>) -> Seq<char>
    recommends
        pat.len() > 0,
    decreases s.len(),
{
    if pat.len() == 0 || s.len() < pat.len() {
        s
    } else if s.take(pat.len() as int) == pat {
        rep + spec_replace(s.skip(pat.len() as int), pat, rep)
    } else {
        seq![s[0]] + spec_replace(s.drop_first(), pat, rep)
    }
}

/// Replaces every occurrence of `pat` in `s` by `rep`.
pub fn replace_all(s: &str, pat: &str, rep: &str) -> (r: String)
    requires
        pat@.len() > 0,
    ensures
        r@ == spec_replace(s@, pat@, rep@),
{
    let n = s.unicode_len();
    let m = pat.unicode_len();
    let mut r = String::new();
    let mut i: usize = 0;
    proof {
        assert(s@.skip(0) =~= s@);
        assert(r@ + spec_replace(s@, pat@, rep@) =~= spec_replace(s@, pat@, rep@));
    }
    while i < n
        invariant
            0 <= i <= n,
            n == s@.len(),
            m == pat@.len(),
            m > 0,
            spec_replace(s@, pat@, rep@) == r@ + spec_replace(s@.skip(i as int), pat@, rep@),
        decreases n - i,
    {
        let ghost tail = s@.skip(i as int);
        let is_match = m <= n - i && str_eq(s.substring_char(i, i + m), pat);
        if is_match {
            proof {
                assert(tail.take(m as int) =~= s@.subrange(i as int, i + m));
                assert(tail.skip(m as int) =~= s@.skip(i + m));
                assert(r@ + (rep@ + spec_replace(s@.skip(i + m), pat@, rep@)) =~= (r@ + rep@)
                    + spec_replace(s@.skip(i + m), pat@, rep@));
            }
            r.append(rep);
            i = i + m;
        } else {
            proof {
                if tail.len() >= m {
                    assert(tail.take(m as int) =~= s@.subrange(i as int, i + m));
                }
                assert(tail.drop_first() =~= s@.skip(i + 1));
                assert(tail[0] == s@[i as int]);
                assert(s@.subrange(i as int, i + 1) =~= seq![s@[i as int]]);
                assert(r@ + (seq![s@[i as int]] + spec_replace(s@.skip(i + 1), pat@, rep@)) =~= (
                r@ + seq![s@[i as int]]) + spec_replace(s@.skip(i + 1), pat@, rep@));
            }
            let one = s.substring_char(i, i + 1);
            r.append(one);
            i = i + 1;
        }
    }
    proof {
        assert(s@.skip(n as int) =~= Seq::<char>::empty());
    }
    r
}

} // verus!
