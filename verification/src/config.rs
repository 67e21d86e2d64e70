//! Logic over the agent runner's configuration file text: listing the
//! configured MCP servers, adding the documentation server's entry when it
//! is missing, and recovering an issue-tracker token.  Reading and writing
//! the file itself happens outside the library.

use vstd::prelude::*;
use vstd::string::StrSliceExecFns;
use vstd::string::StringExecFns;
use crate::text::concat_strs;
use crate::text::contains_str;
use crate::text::is_str_match_at;
use crate::text::str_contains_seq;
use crate::text::str_eq;
use crate::text::find_str;
use crate::text::spec_trim;
use crate::text::trim_string;
use crate::text::views_of;
use crate::text::push_string_item;

verus! {

/// Splitting point: the index of the first newline, or the length.
pub open spec fn spec_first_nl(s: Seq<char>) -> int
    decreases s.len(),
{
    if s.len() == 0 {
        0
    } else if s[0] == '\n' {
        0
    } else {
        1 + spec_first_nl(s.drop_first())
    }
}

/// One line with a trailing carriage return removed.
pub open spec fn spec_strip_cr(line: Seq<char>) -> Seq<char> {
    if line.len() > 0 && line[line.len() - 1] == '\r' {
        line.drop_last()
    } else {
        line
    }
}

/// The lines of `s`: split at each newline, each newline-terminated line
/// without its trailing carriage return, with no empty final line after a
/// trailing newline.  A final line with no newline keeps a bare trailing
/// carriage return.
pub open spec fn spec_lines(s: Seq<char>) -> Seq<Seq<char>>
    decreases s.len(),
{
    if s.len() == 0 {
        Seq::empty()
    } else {
        let i = spec_first_nl(s);
        proof {
            lemma_first_nl_bounds(s);
        }
        if i == s.len() {
            seq![s]
        } else {
            seq![spec_strip_cr(s.take(i))] + spec_lines(s.skip(i + 1))
        }
    }
}

pub proof fn lemma_first_nl_bounds(s: Seq<char>)
    ensures
        0 <= spec_first_nl(s) <= s.len(),
        spec_first_nl(s) < s.len() ==> s[spec_first_nl(s)] == '\n',
        forall|k: int| 0 <= k < spec_first_nl(s) ==> s[k] != '\n',
    decreases s.len(),
{
    if s.len() > 0 && s[0] != '\n' {
        lemma_first_nl_bounds(s.drop_first());
        assert(forall|k: int|
            1 <= k < spec_first_nl(s) ==> s[k] == s.drop_first()[k - 1] && s.drop_first()[k - 1]
                != '\n');
    }
}

proof fn lemma_first_nl_at(s: Seq<char>, i: int)
    requires
        0 <= i <= s.len(),
        forall|k: int| 0 <= k < i ==> s[k] != '\n',
        i < s.len() ==> s[i] == '\n',
    ensures
        spec_first_nl(s) == i,
    decreases i,
{
    if i > 0 {
        lemma_first_nl_at(s.drop_first(), i - 1);
    }
}

/// Splits `s` into its lines.
pub fn split_lines(s: &str) -> (r: Vec<String>)
    ensures
        views_of(r@) == spec_lines(s@),
{
    let n = s.unicode_len();
    let mut out: Vec<String> = Vec::new();
    let mut pos: usize = 0;
    proof {
        assert(s@.skip(0) =~= s@);
    }
    while pos < n
        invariant
            0 <= pos <= n,
            n == s@.len(),
            spec_lines(s@) == views_of(out@) + spec_lines(s@.skip(pos as int)),
        decreases n - pos,
    {
        let ghost tail = s@.skip(pos as int);
        let mut j: usize = pos;
        while j < n && s.get_char(j) != '\n'
            invariant
                pos <= j <= n,
                n == s@.len(),
                forall|k: int| pos <= k < j ==> s@[k] != '\n',
            decreases n - j,
        {
            j = j + 1;
        }
        proof {
            assert(forall|k: int| 0 <= k < j - pos ==> tail[k] != '\n');
            if j < n {
                assert(tail[j - pos] == s@[j as int]);
            }
            lemma_first_nl_at(tail, j - pos);
        }
        // a newline-terminated line loses its trailing carriage return
        let line_end = if j < n && j > pos && s.get_char(j - 1) == '\r' {
            j - 1
        } else {
            j
        };
        let line = String::from_str(s.substring_char(pos, line_end));
        proof {
            let raw = tail.take(j - pos);
            assert(raw =~= s@.subrange(pos as int, j as int));
            if j > pos && s@[j - 1] == '\r' {
                assert(spec_strip_cr(raw) =~= s@.subrange(pos as int, j - 1));
            } else {
                assert(spec_strip_cr(raw) =~= raw);
            }
            if j - pos == tail.len() {
                assert(raw =~= tail);
            }
        }
        push_string_item(&mut out, line);
        if j < n {
            proof {
                assert(tail.skip(j - pos + 1) =~= s@.skip(j + 1));
                assert(views_of(out@) + spec_lines(s@.skip(j + 1)) =~= spec_lines(s@));
            }
            pos = j + 1;
        } else {
            proof {
                assert(views_of(out@) =~= spec_lines(s@));
            }
            pos = n;
            proof {
                assert(s@.skip(n as int) =~= Seq::<char>::empty());
            }
        }
    }
    proof {
        assert(s@.skip(n as int) =~= Seq::<char>::empty());
    }
    out
}

/// `s` with every leading copy of `p` removed.
pub open spec fn spec_strip_prefix_rep(s: Seq<char>, p: Seq<char>) -> Seq<char>
    recommends
        p.len() > 0,
    decreases s.len(),
{
    if p.len() > 0 && s.len() >= p.len() && s.take(p.len() as int) == p {
        spec_strip_prefix_rep(s.skip(p.len() as int), p)
    } else {
        s
    }
}

/// `s` with every trailing `c` removed.
pub open spec fn spec_strip_trailing(s: Seq<char>, c: char) -> Seq<char>
    decreases s.len(),
{
    if s.len() > 0 && s[s.len() - 1] == c {
        spec_strip_trailing(s.drop_last(), c)
    } else {
        s
    }
}

fn strip_prefix_rep(s: &str, p: &str) -> (r: String)
    requires
        p@.len() > 0,
    ensures
        r@ == spec_strip_prefix_rep(s@, p@),
{
    let n = s.unicode_len();
    let m = p.unicode_len();
    let mut pos: usize = 0;
    proof {
        assert(s@.skip(0) =~= s@);
    }
    loop
        invariant
            0 <= pos <= n,
            n == s@.len(),
            m == p@.len(),
            m > 0,
            spec_strip_prefix_rep(s@, p@) == spec_strip_prefix_rep(s@.skip(pos as int), p@),
        decreases n - pos,
    {
        let ghost tail = s@.skip(pos as int);
        let matches_here = m <= n - pos && str_eq(s.substring_char(pos, pos + m), p);
        proof {
            if m <= n - pos {
                assert(tail.take(m as int) =~= s@.subrange(pos as int, pos + m));
            }
        }
        if matches_here {
            proof {
                assert(tail.skip(m as int) =~= s@.skip(pos + m));
            }
            pos = pos + m;
        } else {
            let r = String::from_str(s.substring_char(pos, n));
            proof {
                assert(s@.subrange(pos as int, n as int) =~= tail);
            }
            return r;
        }
    }
}

fn strip_trailing(s: &str, c: char) -> (r: String)
    ensures
        r@ == spec_strip_trailing(s@, c),
{
    let n = s.unicode_len();
    let mut end: usize = n;
    proof {
        assert(s@.take(n as int) =~= s@);
    }
    while end > 0 && s.get_char(end - 1) == c
        invariant
            0 <= end <= n,
            n == s@.len(),
            spec_strip_trailing(s@, c) == spec_strip_trailing(s@.take(end as int), c),
        decreases end,
    {
        proof {
            assert(s@.take(end as int).drop_last() =~= s@.take(end - 1));
        }
        end = end - 1;
    }
    let r = String::from_str(s.substring_char(0, end));
    proof {
        assert(s@.subrange(0, end as int) =~= s@.take(end as int));
        if end > 0 {
            assert(s@.take(end as int)[end - 1] == s@[end - 1]);
        }
    }
    r
}

/// The server name a configuration line declares, if any: a trimmed line of
/// the form `[mcp_servers.<name>]`.
pub open spec fn spec_mcp_name_of_line(line: Seq<char>) -> Option<Seq<char>> {
    let t = spec_trim(line);
    if t.len() >= "[mcp_servers."@.len() && t.take("[mcp_servers."@.len() as int)
        == "[mcp_servers."@ && t.len() > 0 && t[t.len() - 1] == ']' {
        let name = spec_strip_trailing(spec_strip_prefix_rep(t, "[mcp_servers."@), ']');
        if name.len() > 0 {
            Option::Some(name)
        } else {
            Option::None
        }
    } else {
        Option::None
    }
}

/// The declared server names of all lines, in file order.
pub open spec fn spec_mcp_names(lines: Seq<Seq<char>>) -> Seq<Seq<char>>
    decreases lines.len(),
{
    if lines.len() == 0 {
        Seq::empty()
    } else {
        (match spec_mcp_name_of_line(lines[0]) {
            Option::Some(name) => seq![name],
            Option::None => Seq::empty(),
        }) + spec_mcp_names(lines.drop_first())
    }
}

/// Lexicographic order on character sequences by code point, which matches
/// the byte order of their UTF-8 encodings.
pub open spec fn spec_lex_le(a: Seq<char>, b: Seq<char>) -> bool
    decreases a.len(),
{
    if a.len() == 0 {
        true
    } else if b.len() == 0 {
        false
    } else if (a[0] as u32) < (b[0] as u32) {
        true
    } else if (a[0] as u32) > (b[0] as u32) {
        false
    } else {
        spec_lex_le(a.drop_first(), b.drop_first())
    }
}

/// Whether `a` precedes `b` or equals it, in lexicographic order.
pub fn str_le(a: &str, b: &str) -> (r: bool)
    ensures
        r == spec_lex_le(a@, b@),
{
    let an = a.unicode_len();
    let bn = b.unicode_len();
    let mut i: usize = 0;
    proof {
        assert(a@.skip(0) =~= a@);
        assert(b@.skip(0) =~= b@);
    }
    loop
        invariant
            0 <= i <= an,
            i <= bn,
            an == a@.len(),
            bn == b@.len(),
            spec_lex_le(a@, b@) == spec_lex_le(a@.skip(i as int), b@.skip(i as int)),
        decreases an - i,
    {
        let ghost ta = a@.skip(i as int);
        let ghost tb = b@.skip(i as int);
        if i == an {
            return true;
        }
        if i == bn {
            return false;
        }
        let ca = a.get_char(i);
        let cb = b.get_char(i);
        proof {
            assert(ta[0] == a@[i as int]);
            assert(tb[0] == b@[i as int]);
            assert(ta.drop_first() =~= a@.skip(i + 1));
            assert(tb.drop_first() =~= b@.skip(i + 1));
        }
        if (ca as u32) < (cb as u32) {
            return true;
        }
        if (ca as u32) > (cb as u32) {
            return false;
        }
        i = i + 1;
    }
}

/// The lexicographic order is total: of any two sequences, one precedes
/// the other or they are equal.
pub proof fn lemma_lex_total(a: Seq<char>, b: Seq<char>)
    ensures
        spec_lex_le(a, b) || spec_lex_le(b, a),
    decreases a.len(),
{
    if a.len() > 0 && b.len() > 0 && (a[0] as u32) == (b[0] as u32) {
        lemma_lex_total(a.drop_first(), b.drop_first());
    }
}

/// The lexicographic order is antisymmetric: mutual precedence is equality.
pub proof fn lemma_lex_antisymmetric(a: Seq<char>, b: Seq<char>)
    requires
        spec_lex_le(a, b),
        spec_lex_le(b, a),
    ensures
        a == b,
    decreases a.len(),
{
    if a.len() == 0 {
        assert(b.len() == 0);
        assert(a =~= b);
    } else {
        assert(b.len() > 0);
        assert((a[0] as u32) == (b[0] as u32));
        vstd::utf8::char_u32_cast(a[0], a[0] as u32);
        vstd::utf8::char_u32_cast(b[0], b[0] as u32);
        assert(a[0] == b[0]);
        lemma_lex_antisymmetric(a.drop_first(), b.drop_first());
        assert(a =~= seq![a[0]] + a.drop_first());
        assert(b =~= seq![b[0]] + b.drop_first());
    }
}

/// The lexicographic order is transitive.
pub proof fn lemma_lex_transitive(a: Seq<char>, b: Seq<char>, c: Seq<char>)
    requires
        spec_lex_le(a, b),
        spec_lex_le(b, c),
    ensures
        spec_lex_le(a, c),
    decreases a.len(),
{
    if a.len() > 0 && b.len() > 0 && c.len() > 0 && (a[0] as u32) == (b[0] as u32) && (
    b[0] as u32) == (c[0] as u32) {
        lemma_lex_transitive(a.drop_first(), b.drop_first(), c.drop_first());
    }
}

/// `x` inserted into `l` before the first element it does not exceed.
pub open spec fn spec_insert_sorted(x: Seq<char>, l: Seq<Seq<char>>) -> Seq<Seq<char>>
    decreases l.len(),
{
    if l.len() == 0 {
        seq![x]
    } else if spec_lex_le(x, l[0]) {
        seq![x] + l
    } else {
        seq![l[0]] + spec_insert_sorted(x, l.drop_first())
    }
}

/// `l` sorted by repeated insertion, front first.
pub open spec fn spec_sort(l: Seq<Seq<char>>) -> Seq<Seq<char>>
    decreases l.len(),
{
    if l.len() == 0 {
        Seq::empty()
    } else {
        spec_insert_sorted(l[0], spec_sort(l.drop_first()))
    }
}

proof fn lemma_insert_at(x: Seq<char>, l: Seq<Seq<char>>, k: int)
    requires
        0 <= k <= l.len(),
        forall|j: int| 0 <= j < k ==> !spec_lex_le(x, l[j]),
        k < l.len() ==> spec_lex_le(x, l[k]),
    ensures
        spec_insert_sorted(x, l) == l.take(k) + seq![x] + l.skip(k),
    decreases k,
{
    if l.len() == 0 {
        assert(spec_insert_sorted(x, l) =~= l.take(k) + seq![x] + l.skip(k));
    } else if k == 0 {
        assert(l.take(0) =~= Seq::<Seq<char>>::empty());
        assert(l.skip(0) =~= l);
        assert(spec_insert_sorted(x, l) =~= l.take(0) + seq![x] + l.skip(0));
    } else {
        let rest = l.drop_first();
        assert(forall|j: int| 0 <= j < k - 1 ==> rest[j] == l[j + 1]);
        if k - 1 < rest.len() {
            assert(rest[k - 1] == l[k]);
        }
        lemma_insert_at(x, rest, k - 1);
        assert(seq![l[0]] + (rest.take(k - 1) + seq![x] + rest.skip(k - 1)) =~= l.take(k)
            + seq![x] + l.skip(k));
    }
}

fn insert_sorted(out: &mut Vec<String>, x: String)
    ensures
        views_of(final(out)@) == spec_insert_sorted(x@, views_of(old(out)@)),
{
    let mut k: usize = 0;
    while k < out.len() && !str_le(x.as_str(), out[k].as_str())
        invariant
            0 <= k <= out@.len(),
            out@ == old(out)@,
            forall|j: int| 0 <= j < k ==> !spec_lex_le(x@, views_of(out@)[j]),
        decreases out@.len() - k,
    {
        k = k + 1;
    }
    proof {
        lemma_insert_at(x@, views_of(out@), k as int);
    }
    out.insert(k, x);
    proof {
        let l = views_of(old(out)@);
        assert(views_of(old(out)@.insert(k as int, x)) =~= l.take(k as int) + seq![x@] + l.skip(
            k as int,
        ));
    }
}

/// Adjacent duplicates removed, given what immediately preceded.
pub open spec fn spec_dedup_from(l: Seq<Seq<char>>, prev: Option<Seq<char>>) -> Seq<Seq<char>>
    decreases l.len(),
{
    if l.len() == 0 {
        Seq::empty()
    } else if prev matches Some(p) && l[0] == p {
        spec_dedup_from(l.drop_first(), prev)
    } else {
        seq![l[0]] + spec_dedup_from(l.drop_first(), Option::Some(l[0]))
    }
}

fn dedup_adjacent(items: &Vec<String>) -> (r: Vec<String>)
    ensures
        views_of(r@) == spec_dedup_from(views_of(items@), Option::None),
{
    let mut out: Vec<String> = Vec::new();
    let mut i: usize = 0;
    let ghost all = views_of(items@);
    proof {
        assert(all.skip(0) =~= all);
    }
    while i < items.len()
        invariant
            0 <= i <= items@.len(),
            all == views_of(items@),
            all.len() == items@.len(),
            forall|k: int| 0 <= k < items@.len() ==> all[k] == items@[k]@,
            spec_dedup_from(all, Option::None) == views_of(out@) + spec_dedup_from(
                all.skip(i as int),
                if out@.len() == 0 {
                    Option::None
                } else {
                    Option::Some(out@[out@.len() - 1]@)
                },
            ),
        decreases items@.len() - i,
    {
        let ghost tail = all.skip(i as int);
        proof {
            assert(tail[0] == all[i as int]);
            assert(tail.drop_first() =~= all.skip(i + 1));
        }
        let ghost prev0 = if out@.len() == 0 {
            Option::<Seq<char>>::None
        } else {
            Option::Some(out@[out@.len() - 1]@)
        };
        let is_dup = out.len() > 0 && str_eq(out[out.len() - 1].as_str(), items[i].as_str());
        if !is_dup {
            let ghost v0 = views_of(out@);
            push_string_item(&mut out, items[i].clone());
            proof {
                assert(spec_dedup_from(tail, prev0) =~= seq![tail[0]] + spec_dedup_from(
                    tail.drop_first(),
                    Option::Some(tail[0]),
                ));
                assert(v0 + (seq![tail[0]] + spec_dedup_from(
                    all.skip(i + 1),
                    Option::Some(tail[0]),
                )) =~= views_of(out@) + spec_dedup_from(all.skip(i + 1), Option::Some(tail[0])));
                assert(views_of(out@)[v0.len() as int] == tail[0]);
                assert(views_of(out@)[out@.len() - 1] == out@[out@.len() - 1]@);
                assert(out@[out@.len() - 1]@ == tail[0]);
            }
        } else {
            proof {
                assert(spec_dedup_from(tail, prev0) == spec_dedup_from(
                    tail.drop_first(),
                    prev0,
                ));
            }
        }
        i = i + 1;
    }
    proof {
        assert(all.skip(items@.len() as int) =~= Seq::<Seq<char>>::empty());
    }
    out
}

/// Every pair of positions is in lexicographic order.
pub open spec fn sorted_lex(l: Seq<Seq<char>>) -> bool {
    forall|i: int, j: int| 0 <= i < j < l.len() ==> spec_lex_le(#[trigger] l[i], #[trigger] l[j])
}

proof fn lemma_insert_sorted_elems(x: Seq<char>, l: Seq<Seq<char>>)
    ensures
        spec_insert_sorted(x, l).len() == l.len() + 1,
        spec_insert_sorted(x, l).contains(x),
        forall|e: Seq<char>| l.contains(e) ==> #[trigger] spec_insert_sorted(x, l).contains(e),
        forall|k: int|
            0 <= k < spec_insert_sorted(x, l).len() ==> #[trigger] spec_insert_sorted(x, l)[k] == x
                || l.contains(spec_insert_sorted(x, l)[k]),
    decreases l.len(),
{
    let r = spec_insert_sorted(x, l);
    if l.len() == 0 {
        assert(r[0] == x);
    } else if spec_lex_le(x, l[0]) {
        assert(r == seq![x] + l);
        assert(r[0] == x);
        assert(forall|e: Seq<char>| l.contains(e) ==> #[trigger] r.contains(e)) by {
            assert(forall|k: int| 0 <= k < l.len() ==> r[k + 1] == l[k]);
        }
        assert(forall|k: int| 1 <= k < r.len() ==> r[k] == l[k - 1]);
    } else {
        let rest = l.drop_first();
        lemma_insert_sorted_elems(x, rest);
        let inner = spec_insert_sorted(x, rest);
        assert(r == seq![l[0]] + inner);
        assert(forall|k: int| 0 <= k < inner.len() ==> r[k + 1] == inner[k]);
        assert(r[0] == l[0]);
        assert(l.contains(l[0]));
        assert forall|e: Seq<char>| l.contains(e) implies #[trigger] r.contains(e) by {
            let k = choose|k: int| 0 <= k < l.len() && l[k] == e;
            if k == 0 {
                assert(r[0] == e);
            } else {
                assert(rest[k - 1] == e);
                assert(rest.contains(e));
                assert(inner.contains(e));
                let m = choose|m: int| 0 <= m < inner.len() && inner[m] == e;
                assert(r[m + 1] == e);
            }
        }
        assert forall|k: int| 0 <= k < r.len() implies #[trigger] r[k] == x || l.contains(
            r[k],
        ) by {
            if k > 0 {
                if inner[k - 1] != x {
                    assert(rest.contains(inner[k - 1]));
                    let m = choose|m: int| 0 <= m < rest.len() && rest[m] == inner[k - 1];
                    assert(l[m + 1] == inner[k - 1]);
                }
            }
        }
        assert(inner.contains(x));
        let m = choose|m: int| 0 <= m < inner.len() && inner[m] == x;
        assert(r[m + 1] == x);
    }
}

proof fn lemma_insert_sorted_sorted(x: Seq<char>, l: Seq<Seq<char>>)
    requires
        sorted_lex(l),
    ensures
        sorted_lex(spec_insert_sorted(x, l)),
    decreases l.len(),
{
    let r = spec_insert_sorted(x, l);
    if l.len() == 0 {
    } else if spec_lex_le(x, l[0]) {
        assert(r == seq![x] + l);
        assert forall|i: int, j: int| 0 <= i < j < r.len() implies spec_lex_le(
            #[trigger] r[i],
            #[trigger] r[j],
        ) by {
            if i == 0 {
                if j == 1 {
                    assert(r[j] == l[0]);
                } else {
                    lemma_lex_transitive(x, l[0], l[j - 1]);
                }
            } else {
                assert(r[i] == l[i - 1] && r[j] == l[j - 1]);
            }
        }
    } else {
        let rest = l.drop_first();
        assert(sorted_lex(rest)) by {
            assert(forall|k: int| 0 <= k < rest.len() ==> rest[k] == l[k + 1]);
        }
        lemma_insert_sorted_sorted(x, rest);
        lemma_insert_sorted_elems(x, rest);
        let inner = spec_insert_sorted(x, rest);
        assert(r == seq![l[0]] + inner);
        lemma_lex_total(x, l[0]);
        assert(spec_lex_le(l[0], x));
        assert forall|i: int, j: int| 0 <= i < j < r.len() implies spec_lex_le(
            #[trigger] r[i],
            #[trigger] r[j],
        ) by {
            if i == 0 {
                assert(r[j] == inner[j - 1]);
                if inner[j - 1] == x {
                } else {
                    assert(rest.contains(inner[j - 1]));
                    let m = choose|m: int| 0 <= m < rest.len() && rest[m] == inner[j - 1];
                    assert(l[m + 1] == inner[j - 1]);
                    assert(spec_lex_le(l[0], l[m + 1]));
                }
            } else {
                assert(r[i] == inner[i - 1] && r[j] == inner[j - 1]);
            }
        }
    }
}

proof fn lemma_sort_sorted(l: Seq<Seq<char>>)
    ensures
        sorted_lex(spec_sort(l)),
        forall|e: Seq<char>| #[trigger] spec_sort(l).contains(e) <==> l.contains(e),
    decreases l.len(),
{
    if l.len() == 0 {
    } else {
        let rest = l.drop_first();
        lemma_sort_sorted(rest);
        lemma_insert_sorted_sorted(l[0], spec_sort(rest));
        lemma_insert_sorted_elems(l[0], spec_sort(rest));
        let r = spec_sort(l);
        assert forall|e: Seq<char>| #[trigger] r.contains(e) implies l.contains(e) by {
            let k = choose|k: int| 0 <= k < r.len() && r[k] == e;
            if r[k] == l[0] {
                assert(l[0] == l[0] && l.contains(l[0]));
            } else {
                assert(spec_sort(rest).contains(e));
                assert(rest.contains(e));
                let m = choose|m: int| 0 <= m < rest.len() && rest[m] == e;
                assert(l[m + 1] == e);
            }
        }
        assert forall|e: Seq<char>| l.contains(e) implies #[trigger] r.contains(e) by {
            let k = choose|k: int| 0 <= k < l.len() && l[k] == e;
            if k == 0 {
                assert(r.contains(l[0]));
            } else {
                assert(rest[k - 1] == e);
                assert(rest.contains(e));
                assert(spec_sort(rest).contains(e));
            }
        }
    }
}

proof fn lemma_dedup_strict(l: Seq<Seq<char>>, prev: Option<Seq<char>>)
    requires
        sorted_lex(l),
        prev matches Some(p) ==> forall|k: int| 0 <= k < l.len() ==> spec_lex_le(
            p,
            #[trigger] l[k],
        ),
    ensures
        sorted_lex(spec_dedup_from(l, prev)),
        forall|i: int, j: int|
            0 <= i < j < spec_dedup_from(l, prev).len() ==> #[trigger] spec_dedup_from(l, prev)[i]
                != #[trigger] spec_dedup_from(l, prev)[j],
        forall|e: Seq<char>|
            #[trigger] spec_dedup_from(l, prev).contains(e) <==> (l.contains(e) && (prev matches
            Some(p) ==> e != p)),
    decreases l.len(),
{
    let d = spec_dedup_from(l, prev);
    if l.len() == 0 {
    } else {
        let rest = l.drop_first();
        assert(sorted_lex(rest)) by {
            assert(forall|k: int| 0 <= k < rest.len() ==> rest[k] == l[k + 1]);
        }
        assert(forall|k: int| 0 <= k < rest.len() ==> spec_lex_le(l[0], #[trigger] rest[k]));
        let head_repeats = match prev {
            Option::Some(p) => l[0] == p,
            Option::None => false,
        };
        if head_repeats {
            let p = prev->0;
            lemma_dedup_strict(rest, prev);
            assert(d == spec_dedup_from(rest, prev));
            assert forall|e: Seq<char>|
                #[trigger] d.contains(e) <==> (l.contains(e) && e != p) by {
                if l.contains(e) && e != p {
                    let k = choose|k: int| 0 <= k < l.len() && l[k] == e;
                    assert(k != 0);
                    assert(rest[k - 1] == e);
                    assert(rest.contains(e));
                }
                if rest.contains(e) {
                    let k = choose|k: int| 0 <= k < rest.len() && rest[k] == e;
                    assert(l[k + 1] == e);
                }
            }
        } else {
            lemma_dedup_strict(rest, Option::Some(l[0]));
            let inner = spec_dedup_from(rest, Option::Some(l[0]));
            assert(d == seq![l[0]] + inner);
            assert(forall|k: int| 0 <= k < inner.len() ==> d[k + 1] == inner[k]);
            assert(d[0] == l[0]);
            // the head precedes, and differs from, everything kept after it
            assert forall|k: int| 0 <= k < inner.len() implies spec_lex_le(l[0], inner[k])
                && inner[k] != l[0] by {
                assert(inner.contains(inner[k]));
                assert(rest.contains(inner[k]));
                let m = choose|m: int| 0 <= m < rest.len() && rest[m] == inner[k];
            }
            assert forall|i: int, j: int| 0 <= i < j < d.len() implies spec_lex_le(
                #[trigger] d[i],
                #[trigger] d[j],
            ) by {
                if i > 0 {
                    assert(d[i] == inner[i - 1] && d[j] == inner[j - 1]);
                }
            }
            assert forall|i: int, j: int| 0 <= i < j < d.len() implies #[trigger] d[i]
                != #[trigger] d[j] by {
                if i > 0 {
                    assert(d[i] == inner[i - 1] && d[j] == inner[j - 1]);
                }
            }
            assert forall|e: Seq<char>|
                #[trigger] d.contains(e) <==> (l.contains(e) && (prev matches Some(p) ==> e
                    != p)) by {
                if d.contains(e) {
                    let k = choose|k: int| 0 <= k < d.len() && d[k] == e;
                    if k == 0 {
                        assert(l.contains(l[0]));
                    } else {
                        assert(e == inner[k - 1]);
                        assert(inner.contains(e));
                        assert(rest.contains(e));
                        let m = choose|m: int| 0 <= m < rest.len() && rest[m] == e;
                        assert(l[m + 1] == e);
                        match prev {
                            Option::Some(p) => {
                                if e == p {
                                    // impossible: p precedes the head, which
                                    // strictly precedes everything kept after it
                                    assert(spec_lex_le(p, l[0]));
                                    assert(spec_lex_le(l[0], e));
                                    lemma_lex_antisymmetric(l[0], p);
                                    assert(false);
                                }
                            },
                            Option::None => {},
                        }
                    }
                }
                if l.contains(e) && (prev matches Some(p) ==> e != p) {
                    let k = choose|k: int| 0 <= k < l.len() && l[k] == e;
                    if k == 0 {
                        assert(d[0] == e);
                    } else {
                        assert(rest[k - 1] == e);
                        assert(rest.contains(e));
                        if e != l[0] {
                            assert(inner.contains(e));
                            let m = choose|m: int| 0 <= m < inner.len() && inner[m] == e;
                            assert(d[m + 1] == e);
                        } else {
                            assert(d[0] == e);
                        }
                    }
                }
            }
        }
    }
}

/// The server list is strictly sorted — each name precedes the next and no
/// name repeats — and holds exactly the names the configuration declares.
pub proof fn lemma_mcp_servers_exact(content: Seq<char>)
    ensures
        sorted_lex(spec_mcp_servers(content)),
        forall|i: int, j: int|
            0 <= i < j < spec_mcp_servers(content).len() ==> #[trigger] spec_mcp_servers(
                content,
            )[i] != #[trigger] spec_mcp_servers(content)[j],
        forall|e: Seq<char>|
            #[trigger] spec_mcp_servers(content).contains(e) <==> spec_mcp_names(
                spec_lines(content),
            ).contains(e),
{
    let names = spec_mcp_names(spec_lines(content));
    lemma_sort_sorted(names);
    lemma_dedup_strict(spec_sort(names), Option::None);
}

/// The sorted, duplicate-free list of MCP server names declared in the
/// configuration file text.
pub open spec fn spec_mcp_servers(content: Seq<char>) -> Seq<Seq<char>> {
    spec_dedup_from(spec_sort(spec_mcp_names(spec_lines(content))), Option::None)
}

/// Lists the configured MCP servers: every `[mcp_servers.<name>]` heading,
/// sorted with duplicates removed.
pub fn parse_mcp_servers(content: &str) -> (r: Vec<String>)
    ensures
        views_of(r@) == spec_mcp_servers(content@),
{
    let lines = split_lines(content);
    let mut sorted: Vec<String> = Vec::new();
    let ghost lviews = views_of(lines@);
    // insert each declared name in order; insertion keeps the list sorted
    let mut i: usize = lines.len();
    proof {
        assert(lviews.skip(lines@.len() as int) =~= Seq::<Seq<char>>::empty());
    }
    while i > 0
        invariant
            0 <= i <= lines@.len(),
            lviews == views_of(lines@),
            lviews.len() == lines@.len(),
            forall|k: int| 0 <= k < lines@.len() ==> lviews[k] == lines@[k]@,
            views_of(sorted@) == spec_sort(spec_mcp_names(lviews.skip(i as int))),
        decreases i,
    {
        i = i - 1;
        let ghost tail = lviews.skip(i as int);
        proof {
            assert(tail[0] == lviews[i as int]);
            assert(tail.drop_first() =~= lviews.skip(i + 1));
        }
        let trimmed = trim_string(lines[i].as_str());
        let is_heading = is_mcp_heading(trimmed.as_str());
        if is_heading {
            proof {
                reveal_strlit("[mcp_servers.");
            }
            let name = strip_trailing(
                strip_prefix_rep(trimmed.as_str(), "[mcp_servers.").as_str(),
                ']',
            );
            if !name.as_str().is_empty() {
                proof {
                    assert(spec_mcp_name_of_line(tail[0]) == Option::Some(name@));
                    assert(spec_mcp_names(tail) =~= seq![name@] + spec_mcp_names(
                        lviews.skip(i + 1),
                    ));
                    assert(spec_mcp_names(tail)[0] == name@);
                    assert(spec_mcp_names(tail).drop_first() =~= spec_mcp_names(
                        lviews.skip(i + 1),
                    ));
                    assert(spec_sort(spec_mcp_names(tail)) == spec_insert_sorted(
                        name@,
                        spec_sort(spec_mcp_names(lviews.skip(i + 1))),
                    ));
                }
                insert_sorted(&mut sorted, name);
            } else {
                proof {
                    assert(spec_mcp_name_of_line(tail[0]) is None);
                    assert(spec_mcp_names(tail) =~= spec_mcp_names(lviews.skip(i + 1)));
                }
            }
        } else {
            proof {
                assert(spec_mcp_name_of_line(tail[0]) is None);
                assert(spec_mcp_names(tail) =~= spec_mcp_names(lviews.skip(i + 1)));
            }
        }
    }
    proof {
        assert(lviews.skip(0) =~= lviews);
    }
    dedup_adjacent(&sorted)
}

fn is_mcp_heading(t: &str) -> (r: bool)
    ensures
        r == (t@.len() >= "[mcp_servers."@.len() && t@.take("[mcp_servers."@.len() as int)
            == "[mcp_servers."@ && t@.len() > 0 && t@[t@.len() - 1] == ']'),
{
    proof {
        reveal_strlit("[mcp_servers.");
    }
    let starts = crate::text::str_starts_with(t, "[mcp_servers.");
    if !starts {
        return false;
    }
    let n = t.unicode_len();
    if n == 0 {
        return false;
    }
    t.get_char(n - 1) == ']'
}

/// The configuration section that registers the documentation MCP server.
pub open spec fn spec_mcp_section() -> Seq<char> {
    "\n[mcp_servers.openaiDeveloperDocs]\nurl = \"https://developers.openai.com/mcp\"\n"@
}

/// New configuration text registering the documentation MCP server, or
/// nothing when it is already registered: the old text, ending in a
/// newline, with the section appended.
pub fn ensure_mcp_entry(content: &str) -> (r: Option<String>)
    ensures
        str_contains_seq(content@, "[mcp_servers.openaiDeveloperDocs]"@) ==> r is None,
        !str_contains_seq(content@, "[mcp_servers.openaiDeveloperDocs]"@) ==> (r matches Some(c)
            && c@ == (if content@.len() > 0 && content@[content@.len() - 1] == '\n' {
            content@
        } else {
            content@ + "\n"@
        }) + spec_mcp_section()),
{
    if contains_str(content, "[mcp_servers.openaiDeveloperDocs]") {
        return Option::None;
    }
    let n = content.unicode_len();
    let ends_nl = n > 0 && content.get_char(n - 1) == '\n';
    let base = if ends_nl {
        String::from_str(content)
    } else {
        concat_strs(content, "\n")
    };
    proof {
        reveal_strlit("\n");
    }
    Option::Some(
        concat_strs(
            base.as_str(),
            "\n[mcp_servers.openaiDeveloperDocs]\nurl = \"https://developers.openai.com/mcp\"\n",
        ),
    )
}

/// A character an issue-tracker token may contain.
pub open spec fn is_token_char(c: char) -> bool {
    (97 <= (c as u32) && (c as u32) <= 122) || (65 <= (c as u32) && (c as u32) <= 90) || (48 <= (
    c as u32) && (c as u32) <= 57) || c == '_' || c == '-'
}

/// `needle` first occurs in `hay` at `i`.
pub open spec fn first_match(hay: Seq<char>, needle: Seq<char>, i: int) -> bool {
    is_str_match_at(hay, needle, i) && forall|k: int| 0 <= k < i ==> !is_str_match_at(
        hay,
        needle,
        k,
    )
}

/// The run of token characters beginning at `i` ends at `j`.
pub open spec fn token_run(s: Seq<char>, i: int, j: int) -> bool {
    i <= j <= s.len() && (forall|k: int| i <= k < j ==> is_token_char(s[k])) && (j == s.len()
        || !is_token_char(s[j]))
}

/// Recovers an issue-tracker token from configuration file text: the run of
/// token characters starting at the first `lin_api_` marker.
pub fn extract_config_token(content: &str) -> (r: Option<String>)
    ensures
        (r is Some) == str_contains_seq(content@, "lin_api_"@),
        r matches Some(t) ==> exists|i: int, j: int|
            #![auto]
            first_match(content@, "lin_api_"@, i) && token_run(content@, i, j) && i < j && t@
                == content@.subrange(i, j),
{
    match find_str(content, "lin_api_") {
        Option::Some(i) => {
            let n = content.unicode_len();
            let mut j: usize = i;
            while j < n && is_token_char_exec(content.get_char(j))
                invariant
                    i <= j <= n,
                    n == content@.len(),
                    forall|k: int| i <= k < j ==> is_token_char(content@[k]),
                decreases n - j,
            {
                j = j + 1;
            }
            proof {
                reveal_strlit("lin_api_");
                assert(content@.subrange(i as int, i + 8)[0] == content@[i as int]);
                assert(is_token_char(content@[i as int]));
                assert(j > i);
                assert(is_str_match_at(content@, "lin_api_"@, i as int));
            }
            Option::Some(String::from_str(content.substring_char(i, j)))
        },
        Option::None => Option::None,
    }
}

fn is_token_char_exec(c: char) -> (r: bool)
    ensures
        r == is_token_char(c),
{
    let u = c as u32;
    (97 <= u && u <= 122) || (65 <= u && u <= 90) || (48 <= u && u <= 57) || c == '_' || c == '-'
}

/// The first of several candidate values that is not blank, trimmed.
pub open spec fn spec_first_nonempty(values: Seq<Option<String>>) -> Option<Seq<char>>
    decreases values.len(),
{
    if values.len() == 0 {
        Option::None
    } else {
        match values[0] {
            Option::Some(v) => if spec_trim(v@).len() > 0 {
                Option::Some(spec_trim(v@))
            } else {
                spec_first_nonempty(values.drop_first())
            },
            Option::None => spec_first_nonempty(values.drop_first()),
        }
    }
}

/// Picks the first candidate value that is not blank, trimmed; used to
/// choose among several environment variables holding a token.
pub fn first_nonempty_trimmed(values: &Vec<Option<String>>) -> (r: Option<String>)
    ensures
        (r is Some) == (spec_first_nonempty(values@) is Some),
        r matches Some(t) ==> (spec_first_nonempty(values@) matches Some(q) && t@ == q),
{
    let mut i: usize = 0;
    proof {
        assert(values@.skip(0) =~= values@);
    }
    while i < values.len()
        invariant
            0 <= i <= values@.len(),
            spec_first_nonempty(values@) == spec_first_nonempty(values@.skip(i as int)),
        decreases values@.len() - i,
    {
        let ghost tail = values@.skip(i as int);
        proof {
            assert(tail[0] == values@[i as int]);
            assert(tail.drop_first() =~= values@.skip(i + 1));
        }
        match &values[i] {
            Option::Some(v) => {
                let t = trim_string(v.as_str());
                if !t.as_str().is_empty() {
                    return Option::Some(t);
                }
            },
            Option::None => {},
        }
        i = i + 1;
    }
    proof {
        assert(values@.skip(values@.len() as int) =~= Seq::<Option<String>>::empty());
    }
    Option::None
}

} // verus!
