//! Case-insensitive match ranges, highlight segments and match snippets.
//!
//! Positions are character offsets into the text.
use vstd::prelude::*;
use vstd::relations::{sorted_by, total_ordering};
use vstd::utf8::is_ascii_chars;
use crate::note_discovery::{HighlightSegment, segs_view};
use crate::tag_rules::{fold_chars, lemma_sorted_unique, spec_fold_case};
use crate::text::{
    ascii_lower, ascii_lowercase_chars, chars_of, join_seq, join_strings, len_utf8, matches_at,
    occurs_at, seq_starts_with, starts_with_chars, string_of, to_lowercase, trim_bounds, trim_seq,
    unicode_lowercase, utf8_len, words, words_seq,
};

verus! {

broadcast use vstd::string::group_string_axioms;

// ---------------------------------------------------------------------------
// Matches of one term
// ---------------------------------------------------------------------------

/// The first position at or after `from` where `q` occurs in `t`.
pub open spec fn first_occurrence(t: Seq<char>, q: Seq<char>, from: int) -> Option<int>
    decreases t.len() + 1 - from,
{
    if from < 0 || from + q.len() > t.len() {
        None
    } else if occurs_at(t, q, from) {
        Some(from)
    } else {
        first_occurrence(t, q, from + 1)
    }
}

pub proof fn lemma_first_occurrence(t: Seq<char>, q: Seq<char>, from: int)
    ensures
        first_occurrence(t, q, from) matches Some(s) ==> from <= s && s + q.len() <= t.len()
            && occurs_at(t, q, s),
    decreases t.len() + 1 - from,
{
    if !(from < 0 || from + q.len() > t.len()) && !occurs_at(t, q, from) {
        lemma_first_occurrence(t, q, from + 1);
    }
}

/// Successive non-overlapping occurrences of a non-empty `q` in `t` from
/// `from`, each search resuming after the previous occurrence.
pub open spec fn occurrences_from(t: Seq<char>, q: Seq<char>, from: int) -> Seq<(int, int)>
    decreases t.len() + 1 - from,
{
    if q.len() == 0 {
        Seq::empty()
    } else {
        match first_occurrence(t, q, from) {
            Some(s) => {
                proof {
                    lemma_first_occurrence(t, q, from);
                }
                seq![(s, s + q.len())] + occurrences_from(t, q, s + q.len())
            },
            None => Seq::empty(),
        }
    }
}

/// Scanning ends `j, j + 1, ...` for the shortest text starting at `i` whose
/// case-folded form starts with `ql`; gives up once the folded text is as
/// long (in UTF-8 bytes) as `ql` without matching.
pub open spec fn scan_end(t: Seq<char>, i: int, j: int, ql: Seq<char>) -> Option<int>
    decreases t.len() + 1 - j,
{
    if j < 0 || j > t.len() {
        None
    } else {
        let c = spec_fold_case(t.subrange(i, j));
        if seq_starts_with(c, ql) {
            Some(j)
        } else if utf8_len(c) >= utf8_len(ql) {
            None
        } else {
            scan_end(t, i, j + 1, ql)
        }
    }
}

pub proof fn lemma_scan_end(t: Seq<char>, i: int, j: int, ql: Seq<char>)
    ensures
        scan_end(t, i, j, ql) matches Some(e) ==> j <= e <= t.len(),
    decreases t.len() + 1 - j,
{
    if !(j < 0 || j > t.len()) {
        let c = spec_fold_case(t.subrange(i, j));
        if !seq_starts_with(c, ql) && utf8_len(c) < utf8_len(ql) {
            lemma_scan_end(t, i, j + 1, ql);
        }
    }
}

/// Matches of the lower-cased term `ql` in non-ASCII text, from position `i`.
pub open spec fn folded_matches_from(t: Seq<char>, ql: Seq<char>, i: int) -> Seq<(int, int)>
    decreases t.len() - i,
{
    if i < 0 || i >= t.len() {
        Seq::empty()
    } else {
        match scan_end(t, i, i + 1, ql) {
            Some(e) => {
                proof {
                    lemma_scan_end(t, i, i + 1, ql);
                }
                seq![(i, e)] + folded_matches_from(t, ql, e)
            },
            None => folded_matches_from(t, ql, i + 1),
        }
    }
}

/// The case-insensitive matches of one search term in a text, as
/// `(start, end)` character ranges, in order.
pub open spec fn term_ranges(t: Seq<char>, q: Seq<char>) -> Seq<(int, int)> {
    if q.len() == 0 {
        Seq::empty()
    } else if is_ascii_chars(t) && is_ascii_chars(q) {
        occurrences_from(ascii_lower(t), ascii_lower(q), 0)
    } else if unicode_lowercase(q).len() == 0 {
        Seq::empty()
    } else {
        folded_matches_from(t, unicode_lowercase(q), 0)
    }
}

/// A range lies within a text of length `n`.
pub open spec fn range_in(r: (int, int), n: int) -> bool {
    0 <= r.0 <= r.1 <= n
}

pub open spec fn ranges_in(rs: Seq<(int, int)>, n: int) -> bool {
    forall|k: int| 0 <= k < rs.len() ==> range_in(#[trigger] rs[k], n)
}

pub proof fn lemma_occurrences_in(t: Seq<char>, q: Seq<char>, from: int)
    requires
        0 <= from,
    ensures
        ranges_in(occurrences_from(t, q, from), t.len() as int),
    decreases t.len() + 1 - from,
{
    if q.len() > 0 {
        lemma_first_occurrence(t, q, from);
        if let Some(s) = first_occurrence(t, q, from) {
            lemma_occurrences_in(t, q, s + q.len());
            let rest = occurrences_from(t, q, s + q.len());
            assert forall|k: int| 0 <= k < occurrences_from(t, q, from).len() implies range_in(
                #[trigger] occurrences_from(t, q, from)[k],
                t.len() as int,
            ) by {
                if k > 0 {
                    assert(occurrences_from(t, q, from)[k] == rest[k - 1]);
                }
            }
        }
    }
}

pub proof fn lemma_folded_matches_in(t: Seq<char>, ql: Seq<char>, i: int)
    requires
        0 <= i,
    ensures
        ranges_in(folded_matches_from(t, ql, i), t.len() as int),
    decreases t.len() - i,
{
    if i < t.len() {
        lemma_scan_end(t, i, i + 1, ql);
        match scan_end(t, i, i + 1, ql) {
            Some(e) => {
                lemma_folded_matches_in(t, ql, e);
                let rest = folded_matches_from(t, ql, e);
                assert forall|k: int| 0 <= k < folded_matches_from(t, ql, i).len() implies range_in(
                    #[trigger] folded_matches_from(t, ql, i)[k],
                    t.len() as int,
                ) by {
                    if k > 0 {
                        assert(folded_matches_from(t, ql, i)[k] == rest[k - 1]);
                    }
                }
            },
            None => {
                lemma_folded_matches_in(t, ql, i + 1);
            },
        }
    }
}

pub proof fn lemma_term_ranges_in(t: Seq<char>, q: Seq<char>)
    ensures
        ranges_in(term_ranges(t, q), t.len() as int),
{
    if q.len() > 0 {
        if is_ascii_chars(t) && is_ascii_chars(q) {
            lemma_occurrences_in(ascii_lower(t), ascii_lower(q), 0);
        } else if unicode_lowercase(q).len() > 0 {
            lemma_folded_matches_in(t, unicode_lowercase(q), 0);
        }
    }
}

/// The ranges of an executable list, as integers.
pub open spec fn ranges_view(v: Seq<(usize, usize)>) -> Seq<(int, int)> {
    v.map_values(|p: (usize, usize)| (p.0 as int, p.1 as int))
}

fn find_next(t: &Vec<char>, q: &Vec<char>, from: usize) -> (r: Option<usize>)
    requires
        from <= t.len(),
        q.len() > 0,
    ensures
        r matches Some(s) ==> first_occurrence(t@, q@, from as int) == Some(s as int),
        r is None ==> first_occurrence(t@, q@, from as int) is None,
{
    let mut p = from;
    while p <= t.len() && q.len() <= t.len() - p
        invariant
            from <= p,
            p <= t.len() + 1,
            q.len() > 0,
            first_occurrence(t@, q@, from as int) == first_occurrence(t@, q@, p as int),
        decreases t.len() + 1 - p,
    {
        if matches_at(t, q, p) {
            return Some(p);
        }
        p += 1;
    }
    None
}

fn occurrences(t: &Vec<char>, q: &Vec<char>) -> (r: Vec<(usize, usize)>)
    requires
        q.len() > 0,
    ensures
        ranges_view(r@) == occurrences_from(t@, q@, 0),
{
    let mut acc: Vec<(usize, usize)> = Vec::new();
    let mut from: usize = 0;
    while from <= t.len()
        invariant
            q.len() > 0,
            ranges_view(acc@) + occurrences_from(t@, q@, from as int) == occurrences_from(
                t@,
                q@,
                0,
            ),
        decreases t.len() + 1 - from,
    {
        proof {
            lemma_first_occurrence(t@, q@, from as int);
        }
        match find_next(t, q, from) {
            Some(s) => {
                let ghost before = ranges_view(acc@);
                acc.push((s, s + q.len()));
                proof {
                    assert(ranges_view(acc@) =~= before.push((s as int, s + q.len())));
                    let rest = occurrences_from(t@, q@, s + q.len());
                    assert(before.push((s as int, s + q.len())) + rest =~= before + (seq![
                        (s as int, s + q.len()),
                    ] + rest));
                }
                from = s + q.len();
            },
            None => {
                assert(ranges_view(acc@) + Seq::empty() =~= ranges_view(acc@));
                return acc;
            },
        }
    }
    proof {
        assert(occurrences_from(t@, q@, from as int) =~= Seq::empty());
        assert(ranges_view(acc@) + Seq::empty() =~= ranges_view(acc@));
    }
    acc
}

/// Length in UTF-8 bytes of the characters.
fn utf8_len_of(v: &Vec<char>) -> (n: u128)
    ensures
        n == utf8_len(v@),
{
    let mut n: u128 = 0;
    let mut i: usize = 0;
    while i < v.len()
        invariant
            i <= v.len(),
            n == utf8_len(v@.take(i as int)),
            n <= 4 * i,
        decreases v.len() - i,
    {
        assert(v@.take(i + 1).drop_last() =~= v@.take(i as int));
        let c = len_utf8(v[i]);
        n = n + c as u128;
        i += 1;
    }
    assert(v@.take(v.len() as int) =~= v@);
    n
}

fn scan(t: &Vec<char>, i: usize, ql: &Vec<char>) -> (r: Option<usize>)
    requires
        i < t.len(),
    ensures
        r matches Some(e) ==> scan_end(t@, i as int, i + 1, ql@) == Some(e as int),
        r is None ==> scan_end(t@, i as int, i + 1, ql@) is None,
{
    let qbytes = utf8_len_of(ql);
    let mut j = i + 1;
    loop
        invariant
            i < j <= t.len(),
            qbytes == utf8_len(ql@),
            scan_end(t@, i as int, i + 1, ql@) == scan_end(t@, i as int, j as int, ql@),
        decreases t.len() + 1 - j,
    {
        let piece = string_of(t, i, j);
        let c = fold_chars(piece.as_str());
        if starts_with_chars(&c, ql) {
            return Some(j);
        }
        if utf8_len_of(&c) >= qbytes {
            return None;
        }
        if j == t.len() {
            assert(scan_end(t@, i as int, j + 1, ql@) is None);
            return None;
        }
        j += 1;
    }
}

fn folded_matches(t: &Vec<char>, ql: &Vec<char>) -> (r: Vec<(usize, usize)>)
    ensures
        ranges_view(r@) == folded_matches_from(t@, ql@, 0),
{
    let mut acc: Vec<(usize, usize)> = Vec::new();
    let mut i: usize = 0;
    while i < t.len()
        invariant
            i <= t.len(),
            ranges_view(acc@) + folded_matches_from(t@, ql@, i as int) == folded_matches_from(
                t@,
                ql@,
                0,
            ),
        decreases t.len() - i,
    {
        proof {
            lemma_scan_end(t@, i as int, i + 1, ql@);
        }
        match scan(t, i, ql) {
            Some(e) => {
                let ghost before = ranges_view(acc@);
                acc.push((i, e));
                proof {
                    assert(ranges_view(acc@) =~= before.push((i as int, e as int)));
                    let rest = folded_matches_from(t@, ql@, e as int);
                    assert(before.push((i as int, e as int)) + rest =~= before + (seq![
                        (i as int, e as int),
                    ] + rest));
                }
                i = e;
            },
            None => {
                i += 1;
            },
        }
    }
    assert(ranges_view(acc@) + Seq::empty() =~= ranges_view(acc@));
    acc
}

/// The case-insensitive matches of `term` in `text`.
fn find_term_ranges(text: &str, term: &str) -> (r: Vec<(usize, usize)>)
    ensures
        ranges_view(r@) == term_ranges(text@, term@),
{
    let t = chars_of(text);
    let q = chars_of(term);
    if q.len() == 0 {
        return Vec::new();
    }
    if text.is_ascii() && term.is_ascii() {
        let tl = ascii_lowercase_chars(&t);
        let ql = ascii_lowercase_chars(&q);
        return occurrences(&tl, &ql);
    }
    let lowered = to_lowercase(term);
    let ql = chars_of(lowered.as_str());
    if ql.len() == 0 {
        return Vec::new();
    }
    folded_matches(&t, &ql)
}

// ---------------------------------------------------------------------------
// Matches of several terms, merged
// ---------------------------------------------------------------------------

/// The matches of every term, term after term.
pub open spec fn all_term_ranges(t: Seq<char>, terms: Seq<Seq<char>>) -> Seq<(int, int)>
    decreases terms.len(),
{
    if terms.len() == 0 {
        Seq::empty()
    } else {
        all_term_ranges(t, terms.drop_last()) + term_ranges(t, terms.last())
    }
}

/// Ranges by start, and among equal starts the longest first.
pub open spec fn range_order(a: (int, int), b: (int, int)) -> bool {
    a.0 < b.0 || (a.0 == b.0 && b.1 <= a.1)
}

pub open spec fn range_leq() -> spec_fn((int, int), (int, int)) -> bool {
    |a: (int, int), b: (int, int)| range_order(a, b)
}

/// Sorted ranges with each range that starts inside (or right at the end
/// of) the previous merged range folded into it.
pub open spec fn merge_ranges(s: Seq<(int, int)>) -> Seq<(int, int)>
    decreases s.len(),
{
    if s.len() == 0 {
        Seq::empty()
    } else {
        let m = merge_ranges(s.drop_last());
        let r = s.last();
        if m.len() > 0 && r.0 <= m.last().1 {
            let end = if r.1 > m.last().1 {
                r.1
            } else {
                m.last().1
            };
            m.update(m.len() - 1, (m.last().0, end))
        } else {
            m.push(r)
        }
    }
}

/// The matches of all the terms, sorted and merged.
pub open spec fn match_ranges(t: Seq<char>, terms: Seq<Seq<char>>) -> Seq<(int, int)> {
    merge_ranges(all_term_ranges(t, terms).sort_by(range_leq()))
}

pub proof fn lemma_range_order_total()
    ensures
        total_ordering(range_leq()),
{
}

pub proof fn lemma_all_term_ranges_in(t: Seq<char>, terms: Seq<Seq<char>>)
    ensures
        ranges_in(all_term_ranges(t, terms), t.len() as int),
    decreases terms.len(),
{
    if terms.len() > 0 {
        lemma_all_term_ranges_in(t, terms.drop_last());
        lemma_term_ranges_in(t, terms.last());
        let a = all_term_ranges(t, terms.drop_last());
        let b = term_ranges(t, terms.last());
        assert forall|k: int| 0 <= k < (a + b).len() implies range_in(
            #[trigger] (a + b)[k],
            t.len() as int,
        ) by {
            if k >= a.len() {
                assert((a + b)[k] == b[k - a.len()]);
            }
        }
    }
}

pub proof fn lemma_merge_in(s: Seq<(int, int)>, n: int)
    requires
        ranges_in(s, n),
    ensures
        ranges_in(merge_ranges(s), n),
        merge_ranges(s).len() <= s.len(),
        s.len() > 0 ==> merge_ranges(s).len() > 0,
    decreases s.len(),
{
    if s.len() > 0 {
        assert(ranges_in(s.drop_last(), n)) by {
            assert forall|k: int| 0 <= k < s.drop_last().len() implies range_in(
                #[trigger] s.drop_last()[k],
                n,
            ) by {
                assert(s.drop_last()[k] == s[k]);
            }
        }
        assert(range_in(s[s.len() - 1], n));
        lemma_merge_in(s.drop_last(), n);
    }
}

fn collect_ranges(text: &str, terms: &Vec<String>) -> (r: Vec<(usize, usize)>)
    ensures
        ranges_view(r@) == all_term_ranges(text@, terms.deep_view()),
{
    let mut acc: Vec<(usize, usize)> = Vec::new();
    let mut k: usize = 0;
    while k < terms.len()
        invariant
            k <= terms.len(),
            ranges_view(acc@) == all_term_ranges(text@, terms.deep_view().take(k as int)),
        decreases terms.len() - k,
    {
        proof {
            assert(terms.deep_view().take(k + 1).drop_last() =~= terms.deep_view().take(k as int));
            assert(terms.deep_view().take(k + 1).last() == terms@[k as int]@);
        }
        let found = find_term_ranges(text, terms[k].as_str());
        let ghost before = ranges_view(acc@);
        let mut j: usize = 0;
        while j < found.len()
            invariant
                j <= found.len(),
                ranges_view(acc@) == before + ranges_view(found@).take(j as int),
            decreases found.len() - j,
        {
            let ghost prev = ranges_view(acc@);
            acc.push(found[j]);
            assert(ranges_view(acc@) =~= prev.push(ranges_view(found@)[j as int]));
            j += 1;
            assert(ranges_view(acc@) =~= before + ranges_view(found@).take(j as int));
        }
        assert(ranges_view(found@).take(j as int) =~= ranges_view(found@));
        k += 1;
    }
    assert(terms.deep_view().take(k as int) =~= terms.deep_view());
    acc
}

fn range_before(a: (usize, usize), b: (usize, usize)) -> (r: bool)
    ensures
        r == range_order((a.0 as int, a.1 as int), (b.0 as int, b.1 as int)),
{
    a.0 < b.0 || (a.0 == b.0 && b.1 <= a.1)
}

/// The ranges sorted by `range_order`.
fn sort_ranges(v: Vec<(usize, usize)>) -> (r: Vec<(usize, usize)>)
    ensures
        ranges_view(r@) == ranges_view(v@).sort_by(range_leq()),
{
    broadcast use vstd::seq_lib::group_to_multiset_ensures;

    let ghost leq = range_leq();
    let ghost src = ranges_view(v@);
    proof {
        lemma_range_order_total();
    }
    let mut out: Vec<(usize, usize)> = Vec::new();
    let mut i: usize = 0;
    while i < v.len()
        invariant
            i <= v.len(),
            src == ranges_view(v@),
            leq == range_leq(),
            total_ordering(leq),
            sorted_by(ranges_view(out@), leq),
            ranges_view(out@).to_multiset() == src.take(i as int).to_multiset(),
        decreases v.len() - i,
    {
        let x = v[i];
        let ghost xv = (x.0 as int, x.1 as int);
        let mut p: usize = 0;
        while p < out.len() && range_before(out[p], x)
            invariant
                p <= out.len(),
                leq == range_leq(),
                xv == (x.0 as int, x.1 as int),
                forall|k: int| 0 <= k < p ==> #[trigger] leq(ranges_view(out@)[k], xv),
            decreases out.len() - p,
        {
            p += 1;
        }
        let ghost before = ranges_view(out@);
        out.insert(p, x);
        proof {
            assert(ranges_view(out@) =~= before.insert(p as int, xv));
            let after = ranges_view(out@);
            if p < before.len() {
                assert(!leq(before[p as int], xv));
                assert(leq(xv, before[p as int]));
            }
            assert forall|a: int, b: int| 0 <= a < b < after.len() implies #[trigger] leq(
                after[a],
                after[b],
            ) by {
                if b < p {
                    assert(leq(before[a], before[b]));
                } else if b == p {
                    assert(leq(before[a], xv));
                } else if a < p {
                    assert(leq(before[a], xv));
                    assert(leq(xv, before[p as int]));
                    if b - 1 > p {
                        assert(leq(before[p as int], before[b - 1]));
                    }
                } else if a == p {
                    assert(leq(xv, before[p as int]));
                    if b - 1 > p {
                        assert(leq(before[p as int], before[b - 1]));
                    }
                } else {
                    assert(leq(before[a - 1], before[b - 1]));
                }
            }
            assert(after.remove(p as int) =~= before);
            assert(after[p as int] == xv);
            after.to_multiset_ensures();
            before.to_multiset_ensures();
            src.take(i as int).to_multiset_ensures();
            assert(after.remove(p as int).to_multiset() == after.to_multiset().remove(xv));
            assert(after.to_multiset().count(xv) > 0);
            assert(after.to_multiset() =~= before.to_multiset().insert(xv));
            assert(src.take(i + 1) =~= src.take(i as int).push(xv));
        }
        i += 1;
    }
    proof {
        assert(src.take(v.len() as int) =~= src);
        src.lemma_sort_by_ensures(leq);
        lemma_sorted_unique(ranges_view(out@), src.sort_by(leq), leq);
    }
    out
}

fn merge(v: &Vec<(usize, usize)>) -> (r: Vec<(usize, usize)>)
    ensures
        ranges_view(r@) == merge_ranges(ranges_view(v@)),
{
    let mut m: Vec<(usize, usize)> = Vec::new();
    let mut i: usize = 0;
    while i < v.len()
        invariant
            i <= v.len(),
            ranges_view(m@) == merge_ranges(ranges_view(v@).take(i as int)),
        decreases v.len() - i,
    {
        proof {
            assert(ranges_view(v@).take(i + 1).drop_last() =~= ranges_view(v@).take(i as int));
            assert(ranges_view(v@).take(i + 1).last() == ranges_view(v@)[i as int]);
        }
        let r = v[i];
        let n = m.len();
        if n > 0 && r.0 <= m[n - 1].1 {
            let last = m[n - 1];
            let end = if r.1 > last.1 {
                r.1
            } else {
                last.1
            };
            m.set(n - 1, (last.0, end));
            assert(ranges_view(m@) =~= merge_ranges(ranges_view(v@).take(i + 1)));
        } else {
            m.push(r);
            assert(ranges_view(m@) =~= merge_ranges(ranges_view(v@).take(i + 1)));
        }
        i += 1;
    }
    assert(ranges_view(v@).take(i as int) =~= ranges_view(v@));
    m
}

/// The merged match ranges of the terms in the text.
fn find_match_ranges(text: &str, terms: &Vec<String>) -> (r: Vec<(usize, usize)>)
    ensures
        ranges_view(r@) == match_ranges(text@, terms.deep_view()),
        ranges_in(ranges_view(r@), text@.len() as int),
{
    let all = collect_ranges(text, terms);
    let ghost src = ranges_view(all@);
    let sorted = sort_ranges(all);
    proof {
        lemma_all_term_ranges_in(text@, terms.deep_view());
        lemma_range_order_total();
        src.lemma_sort_by_ensures(range_leq());
        let s = src.sort_by(range_leq());
        assert forall|k: int| 0 <= k < s.len() implies range_in(#[trigger] s[k], text@.len() as int) by {
            assert(s.contains(s[k]));
            assert(src.contains(s[k]));
        }
        lemma_merge_in(s, text@.len() as int);
    }
    merge(&sorted)
}

// ---------------------------------------------------------------------------
// Highlight segments
// ---------------------------------------------------------------------------

/// The segments before the end of the last range, and where that range ends.
pub open spec fn seg_state(t: Seq<char>, r: Seq<(int, int)>) -> (Seq<(Seq<char>, bool)>, int)
    decreases r.len(),
{
    if r.len() == 0 {
        (Seq::empty(), 0)
    } else {
        let (segs, last) = seg_state(t, r.drop_last());
        let (s, e) = r.last();
        let segs1 = if s > last {
            segs.push((t.subrange(last, s), false))
        } else {
            segs
        };
        (segs1.push((t.subrange(s, e), true)), e)
    }
}

/// The text cut into unmatched and matched pieces by the ranges; the whole
/// text unmatched when there is no range.
pub open spec fn segments_for(t: Seq<char>, r: Seq<(int, int)>) -> Seq<(Seq<char>, bool)> {
    if r.len() == 0 {
        seq![(t, false)]
    } else {
        let (segs, last) = seg_state(t, r);
        if last < t.len() {
            segs.push((t.subrange(last, t.len() as int), false))
        } else {
            segs
        }
    }
}

/// The text with the matches of the terms highlighted.
pub open spec fn highlight_for_terms(t: Seq<char>, terms: Seq<Seq<char>>) -> Seq<(Seq<char>, bool)> {
    segments_for(t, match_ranges(t, terms))
}

fn segment(v: &Vec<char>, lo: usize, hi: usize, is_match: bool) -> (s: HighlightSegment)
    requires
        lo <= hi <= v.len(),
    ensures
        s.text@ == v@.subrange(lo as int, hi as int),
        s.is_match == is_match,
{
    HighlightSegment { text: string_of(v, lo, hi), is_match }
}

fn segments_from(text: &str, ranges: &Vec<(usize, usize)>) -> (r: Vec<HighlightSegment>)
    requires
        ranges_in(ranges_view(ranges@), text@.len() as int),
    ensures
        segs_view(r@) == segments_for(text@, ranges_view(ranges@)),
{
    let t = chars_of(text);
    let ghost rv = ranges_view(ranges@);
    if ranges.len() == 0 {
        let mut out: Vec<HighlightSegment> = Vec::new();
        out.push(HighlightSegment { text: string_of(&t, 0, t.len()), is_match: false });
        assert(t@.subrange(0, t.len() as int) =~= t@);
        assert(segs_view(out@) =~= seq![(text@, false)]);
        return out;
    }
    let mut out: Vec<HighlightSegment> = Vec::new();
    let mut last: usize = 0;
    let mut k: usize = 0;
    while k < ranges.len()
        invariant
            k <= ranges.len(),
            t@ == text@,
            rv == ranges_view(ranges@),
            ranges_in(rv, t@.len() as int),
            last <= t.len(),
            (segs_view(out@), last as int) == seg_state(t@, rv.take(k as int)),
        decreases ranges.len() - k,
    {
        proof {
            assert(rv.take(k + 1).drop_last() =~= rv.take(k as int));
            assert(rv.take(k + 1).last() == rv[k as int]);
            assert(range_in(rv[k as int], t@.len() as int));
        }
        let (s, e) = ranges[k];
        if s > last {
            let ghost prev = segs_view(out@);
            out.push(segment(&t, last, s, false));
            assert(segs_view(out@) =~= prev.push((t@.subrange(last as int, s as int), false)));
        }
        let ghost prev = segs_view(out@);
        out.push(segment(&t, s, e, true));
        assert(segs_view(out@) =~= prev.push((t@.subrange(s as int, e as int), true)));
        last = e;
        k += 1;
    }
    assert(rv.take(k as int) =~= rv);
    if last < t.len() {
        let ghost prev = segs_view(out@);
        out.push(segment(&t, last, t.len(), false));
        assert(segs_view(out@) =~= prev.push((t@.subrange(last as int, t@.len() as int), false)));
    }
    out
}

/// The text cut into pieces, those that match one of the terms marked.
pub fn highlight_segments_for_terms(text: &str, terms: &Vec<String>) -> (r: Vec<HighlightSegment>)
    ensures
        segs_view(r@) == highlight_for_terms(text@, terms.deep_view()),
{
    let ranges = find_match_ranges(text, terms);
    segments_from(text, &ranges)
}

// ---------------------------------------------------------------------------
// Match snippets
// ---------------------------------------------------------------------------

/// Characters of context kept on each side of a match in a snippet.
pub const MATCH_SNIPPET_CONTEXT_CHARS: usize = 24;

/// The context window around a range in a text of length `n`.
pub open spec fn window_of(n: int, r: (int, int)) -> (int, int) {
    (
        if r.0 >= MATCH_SNIPPET_CONTEXT_CHARS {
            r.0 - MATCH_SNIPPET_CONTEXT_CHARS
        } else {
            0
        },
        if r.1 + MATCH_SNIPPET_CONTEXT_CHARS <= n {
            r.1 + MATCH_SNIPPET_CONTEXT_CHARS
        } else {
            n
        },
    )
}

/// How many of the terms occur in `w`.
pub open spec fn terms_found(w: Seq<char>, terms: Seq<Seq<char>>) -> nat
    decreases terms.len(),
{
    if terms.len() == 0 {
        0
    } else {
        terms_found(w, terms.drop_last()) + if term_ranges(w, terms.last()).len() > 0 {
            1nat
        } else {
            0nat
        }
    }
}

/// How many terms the window around a range explains.
pub open spec fn window_score(src: Seq<char>, terms: Seq<Seq<char>>, r: (int, int)) -> nat {
    let (a, b) = window_of(src.len() as int, r);
    terms_found(src.subrange(a, b), terms)
}

/// The position of the last range whose window explains the most terms.
pub open spec fn best_anchor(src: Seq<char>, terms: Seq<Seq<char>>, rs: Seq<(int, int)>) -> int
    decreases rs.len(),
{
    if rs.len() <= 1 {
        0
    } else {
        let b = best_anchor(src, terms, rs.drop_last());
        if window_score(src, terms, rs.last()) >= window_score(src, terms, rs[b]) {
            rs.len() - 1
        } else {
            b
        }
    }
}

pub proof fn lemma_best_anchor(src: Seq<char>, terms: Seq<Seq<char>>, rs: Seq<(int, int)>)
    requires
        rs.len() > 0,
    ensures
        0 <= best_anchor(src, terms, rs) < rs.len(),
    decreases rs.len(),
{
    if rs.len() > 1 {
        lemma_best_anchor(src, terms, rs.drop_last());
    }
}

/// The content with runs of whitespace collapsed to one space and the ends
/// trimmed.
pub open spec fn compact_text(text: Seq<char>) -> Seq<char> {
    join_seq(words_seq(text), " "@)
}

pub open spec fn ellipsis_if(b: bool) -> Seq<char> {
    if b {
        "..."@
    } else {
        Seq::empty()
    }
}

/// A snippet of the content around its best match, with `...` where it was
/// cut, and its highlights; nothing when no term matches.
pub open spec fn match_snippet(text: Seq<char>, terms: Seq<Seq<char>>) -> Option<
    (Seq<char>, Seq<(Seq<char>, bool)>),
> {
    let src = compact_text(text);
    let rs = match_ranges(src, terms);
    if src.len() == 0 || terms.len() == 0 || rs.len() == 0 {
        None
    } else {
        let (a, b) = window_of(src.len() as int, rs[best_anchor(src, terms, rs)]);
        let snippet = ellipsis_if(a > 0) + trim_seq(src.subrange(a, b)) + ellipsis_if(
            b < src.len(),
        );
        Some((snippet, highlight_for_terms(snippet, terms)))
    }
}

fn window(n: usize, r: (usize, usize)) -> (w: (usize, usize))
    requires
        r.0 <= r.1 <= n,
    ensures
        (w.0 as int, w.1 as int) == window_of(n as int, (r.0 as int, r.1 as int)),
        w.0 <= r.0,
        r.1 <= w.1 <= n,
{
    let a = if r.0 >= MATCH_SNIPPET_CONTEXT_CHARS {
        r.0 - MATCH_SNIPPET_CONTEXT_CHARS
    } else {
        0
    };
    let b = if n - r.1 >= MATCH_SNIPPET_CONTEXT_CHARS {
        r.1 + MATCH_SNIPPET_CONTEXT_CHARS
    } else {
        n
    };
    (a, b)
}

fn count_terms_found(w: &str, terms: &Vec<String>) -> (n: usize)
    ensures
        n == terms_found(w@, terms.deep_view()),
{
    let mut n: usize = 0;
    let mut k: usize = 0;
    while k < terms.len()
        invariant
            k <= terms.len(),
            n <= k,
            n == terms_found(w@, terms.deep_view().take(k as int)),
        decreases terms.len() - k,
    {
        proof {
            assert(terms.deep_view().take(k + 1).drop_last() =~= terms.deep_view().take(k as int));
            assert(terms.deep_view().take(k + 1).last() == terms@[k as int]@);
        }
        let found = find_term_ranges(w, terms[k].as_str());
        if found.len() > 0 {
            n += 1;
        }
        k += 1;
    }
    assert(terms.deep_view().take(k as int) =~= terms.deep_view());
    n
}

fn score(src: &Vec<char>, terms: &Vec<String>, r: (usize, usize)) -> (n: usize)
    requires
        r.0 <= r.1 <= src.len(),
    ensures
        n == window_score(src@, terms.deep_view(), (r.0 as int, r.1 as int)),
{
    let (a, b) = window(src.len(), r);
    let w = string_of(src, a, b);
    count_terms_found(w.as_str(), terms)
}

fn best(src: &Vec<char>, terms: &Vec<String>, rs: &Vec<(usize, usize)>) -> (b: usize)
    requires
        rs.len() > 0,
        ranges_in(ranges_view(rs@), src@.len() as int),
    ensures
        b == best_anchor(src@, terms.deep_view(), ranges_view(rs@)),
        b < rs.len(),
{
    let ghost rv = ranges_view(rs@);
    let ghost tv = terms.deep_view();
    assert(range_in(rv[0], src@.len() as int));
    let mut b: usize = 0;
    let mut best_score = score(src, terms, rs[0]);
    let mut k: usize = 1;
    assert(rv.take(1).len() == 1);
    while k < rs.len()
        invariant
            1 <= k <= rs.len(),
            rv == ranges_view(rs@),
            tv == terms.deep_view(),
            ranges_in(rv, src@.len() as int),
            b < k,
            b == best_anchor(src@, tv, rv.take(k as int)),
            best_score == window_score(src@, tv, rv[b as int]),
        decreases rs.len() - k,
    {
        proof {
            assert(rv.take(k + 1).drop_last() =~= rv.take(k as int));
            assert(rv.take(k + 1).last() == rv[k as int]);
            assert(rv.take(k + 1)[b as int] == rv[b as int]);
            assert(range_in(rv[k as int], src@.len() as int));
        }
        let s = score(src, terms, rs[k]);
        if s >= best_score {
            b = k;
            best_score = s;
        }
        k += 1;
    }
    assert(rv.take(k as int) =~= rv);
    b
}

/// The snippet of `text` around its best match of the terms, and its
/// highlights.
pub(crate) fn match_snippet_for_terms(text: &str, terms: &Vec<String>) -> (r: Option<
    (String, Vec<HighlightSegment>),
>)
    ensures
        match r {
            Some((s, h)) => match_snippet(text@, terms.deep_view()) == Some((s@, segs_view(h@))),
            None => match_snippet(text@, terms.deep_view()) is None,
        },
{
    proof {
        reveal_strlit(" ");
        reveal_strlit("...");
    }
    let chars = chars_of(text);
    let ws = words(&chars);
    let source = join_strings(&ws, " ");
    if source.as_str().unicode_len() == 0 || terms.len() == 0 {
        return None;
    }
    let ranges = find_match_ranges(source.as_str(), terms);
    if ranges.len() == 0 {
        return None;
    }
    let src = chars_of(source.as_str());
    let b = best(&src, terms, &ranges);
    proof {
        assert(range_in(ranges_view(ranges@)[b as int], src@.len() as int));
    }
    let (lo, hi) = window(src.len(), ranges[b]);
    let (tlo, thi) = trim_bounds(&src, lo, hi);
    let mut snippet = String::new();
    if lo > 0 {
        snippet.append("...");
    }
    let body = string_of(&src, tlo, thi);
    snippet.append(body.as_str());
    if hi < src.len() {
        snippet.append("...");
    }
    proof {
        assert(snippet@ =~= ellipsis_if(lo > 0) + trim_seq(src@.subrange(lo as int, hi as int))
            + ellipsis_if(hi < src@.len()));
    }
    let highlights = highlight_segments_for_terms(snippet.as_str(), terms);
    Some((snippet, highlights))
}


/// The texts of the segments, one after the other.
pub open spec fn joined(segs: Seq<(Seq<char>, bool)>) -> Seq<char>
    decreases segs.len(),
{
    if segs.len() == 0 {
        Seq::empty()
    } else {
        joined(segs.drop_last()) + segs.last().0
    }
}

/// Merged ranges are apart: each ends before the next one starts.
proof fn lemma_merge_apart(s: Seq<(int, int)>, n: int)
    requires
        ranges_in(s, n),
    ensures
        forall|i: int, j: int|
            0 <= i < j < merge_ranges(s).len() ==> #[trigger] merge_ranges(s)[i].1
                < #[trigger] merge_ranges(s)[j].0,
    decreases s.len(),
{
    if s.len() > 0 {
        let rest = s.drop_last();
        assert(ranges_in(rest, n)) by {
            assert forall|k: int| 0 <= k < rest.len() implies range_in(#[trigger] rest[k], n) by {
                assert(rest[k] == s[k]);
            }
        }
        lemma_merge_apart(rest, n);
        lemma_merge_in(rest, n);
        let m = merge_ranges(rest);
        let m2 = merge_ranges(s);
        let r = s.last();
        assert(range_in(s[s.len() - 1], n));
        if m.len() > 0 && r.0 <= m.last().1 {
            assert(range_in(m[m.len() - 1], n));
            assert forall|i: int, j: int| 0 <= i < j < m2.len() implies #[trigger] m2[i].1
                < #[trigger] m2[j].0 by {
                assert(m2[i] == m[i]);
                assert(m2[j].0 == m[j].0);
            }
        } else {
            assert forall|i: int, j: int| 0 <= i < j < m2.len() implies #[trigger] m2[i].1
                < #[trigger] m2[j].0 by {
                assert(m2[i] == m[i]);
                if j < m.len() {
                    assert(m2[j] == m[j]);
                } else {
                    assert(m2[j] == r);
                    if i < m.len() - 1 {
                        assert(m[i].1 < m[m.len() - 1].0);
                        assert(range_in(m[m.len() - 1], n));
                    }
                }
            }
        }
    }
}

/// Cutting by ranges that lie in the text and are apart gives, joined, the
/// text up to the end of the last range.
proof fn lemma_seg_state_joined(t: Seq<char>, r: Seq<(int, int)>)
    requires
        ranges_in(r, t.len() as int),
        forall|i: int, j: int| 0 <= i < j < r.len() ==> #[trigger] r[i].1 < #[trigger] r[j].0,
    ensures
        joined(seg_state(t, r).0) == t.take(seg_state(t, r).1),
        r.len() > 0 ==> seg_state(t, r).1 == r.last().1,
        r.len() == 0 ==> seg_state(t, r).1 == 0,
    decreases r.len(),
{
    if r.len() > 0 {
        let rest = r.drop_last();
        assert(ranges_in(rest, t.len() as int)) by {
            assert forall|k: int| 0 <= k < rest.len() implies range_in(
                #[trigger] rest[k],
                t.len() as int,
            ) by {
                assert(rest[k] == r[k]);
            }
        }
        assert forall|i: int, j: int| 0 <= i < j < rest.len() implies #[trigger] rest[i].1
            < #[trigger] rest[j].0 by {
            assert(rest[i] == r[i] && rest[j] == r[j]);
        }
        lemma_seg_state_joined(t, rest);
        let (segs, last) = seg_state(t, rest);
        let (s, e) = r.last();
        assert(range_in(r[r.len() - 1], t.len() as int));
        if rest.len() > 0 {
            assert(rest.last() == r[r.len() - 2]);
            assert(r[r.len() - 2].1 < r[r.len() - 1].0);
            assert(range_in(r[r.len() - 2], t.len() as int));
        }
        assert(last <= s);
        assert(0 <= last);
        if s > last {
            let segs1 = segs.push((t.subrange(last, s), false));
            assert(segs1.drop_last() == segs);
            assert(joined(segs1) =~= t.take(s));
            assert(segs1.push((t.subrange(s, e), true)).drop_last() == segs1);
            assert(joined(segs1.push((t.subrange(s, e), true))) =~= t.take(e));
        } else {
            assert(segs.push((t.subrange(s, e), true)).drop_last() == segs);
            assert(joined(segs.push((t.subrange(s, e), true))) =~= t.take(e));
        }
    }
}

/// Highlighting only marks text: the segments, joined, give back the text
/// exactly, whatever the terms.
pub proof fn lemma_highlight_keeps_text(t: Seq<char>, terms: Seq<Seq<char>>)
    ensures
        joined(highlight_for_terms(t, terms)) == t,
{
    broadcast use vstd::seq_lib::group_to_multiset_ensures;

    let all = all_term_ranges(t, terms);
    let n = t.len() as int;
    lemma_all_term_ranges_in(t, terms);
    lemma_range_order_total();
    all.lemma_sort_by_ensures(range_leq());
    let sorted = all.sort_by(range_leq());
    assert(ranges_in(sorted, n)) by {
        assert forall|k: int| 0 <= k < sorted.len() implies range_in(#[trigger] sorted[k], n) by {
            assert(sorted.contains(sorted[k]));
            assert(all.contains(sorted[k]));
            let w = choose|w: int| 0 <= w < all.len() && all[w] == sorted[k];
            assert(range_in(all[w], n));
        }
    }
    lemma_merge_in(sorted, n);
    lemma_merge_apart(sorted, n);
    let r = match_ranges(t, terms);
    lemma_seg_state_joined(t, r);
    if r.len() == 0 {
        assert(seq![(t, false)].drop_last() =~= Seq::<(Seq<char>, bool)>::empty());
        assert(joined(seq![(t, false)]) =~= t);
    } else {
        let (segs, last) = seg_state(t, r);
        assert(range_in(r[r.len() - 1], n));
        if last < t.len() {
            assert(segs.push((t.subrange(last, n), false)).drop_last() == segs);
            assert(joined(segs.push((t.subrange(last, n), false))) =~= t);
        } else {
            assert(t.take(last) =~= t);
        }
    }
}

} // verus!
