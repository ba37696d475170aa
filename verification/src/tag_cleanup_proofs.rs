//! What a collection-wide tag cleanup achieves: afterwards every note uses
//! the collection's spelling of each tag, without blanks or repeats, and a
//! new cleanup plan finds nothing left to change.
use vstd::prelude::*;
use crate::backup::{has_id, unique_ids};
use crate::model::{NoteView, index_of_id};
use crate::tag_rules::{
    canonical_for, cleanup_applied, cleanup_applies, cleanup_changes, cleanup_step,
    has_tag_key, is_normal_tag_list, lemma_normalized_is_normal, normalized, normalized_with,
    seen_before, spec_fold_case, tag_key,
};
use crate::text::{lemma_trim_idempotent, trim_seq};

verus! {

// ---------------------------------------------------------------------------
// The notes after a cleanup
// ---------------------------------------------------------------------------

/// A note with other tags.
pub open spec fn with_tags(n: NoteView, tags: Seq<Seq<char>>) -> NoteView {
    NoteView {
        id: n.id,
        title: n.title,
        content: n.content,
        created: n.created,
        last_modified: n.last_modified,
        tags: tags,
        is_pinned: n.is_pinned,
    }
}

/// Every note with its tags normalised against the canonical spellings.
pub open spec fn cleaned(notes: Seq<NoteView>, canonical: Seq<Seq<char>>) -> Seq<NoteView> {
    Seq::new(notes.len(), |i: int| with_tags(notes[i], normalized_with(notes[i].tags, canonical)))
}

proof fn lemma_changes_ids(notes: Seq<NoteView>, canonical: Seq<Seq<char>>, k: int)
    requires
        0 <= k < cleanup_changes(notes, canonical).len(),
    ensures
        has_id(notes, cleanup_changes(notes, canonical)[k].0),
    decreases notes.len(),
{
    let rest = notes.drop_last();
    let prev = cleanup_changes(rest, canonical);
    if k < prev.len() {
        lemma_changes_ids(rest, canonical, k);
        let w = choose|w: int| 0 <= w < rest.len() && (#[trigger] rest[w]).id == prev[k].0;
        assert(notes[w] == rest[w]);
    } else {
        assert(notes[notes.len() - 1] == notes.last());
    }
}

/// The first position holding an identifier is what `index_of_id` gives.
proof fn lemma_index_is_first(s: Seq<NoteView>, id: u128, k: int)
    requires
        0 <= k < s.len(),
        s[k].id == id,
        forall|j: int| 0 <= j < k ==> (#[trigger] s[j]).id != id,
    ensures
        index_of_id(s, id) == Some(k),
{
    let c = index_of_id(s, id)->0;
    assert(index_of_id(s, id) is Some);
    if c < k {
        assert(s[c].id != id);
    }
    if c > k {
        assert(s[k].id != id);
    }
}

proof fn lemma_first_position(s: Seq<NoteView>, id: u128, w: int)
    requires
        0 <= w < s.len(),
        s[w].id == id,
    ensures
        exists|k: int|
            0 <= k <= w && s[k].id == id && forall|j: int| 0 <= j < k ==> (#[trigger] s[j]).id != id,
    decreases w,
{
    if exists|j: int| 0 <= j < w && (#[trigger] s[j]).id == id {
        let j = choose|j: int| 0 <= j < w && (#[trigger] s[j]).id == id;
        lemma_first_position(s, id, j);
    }
}

proof fn lemma_index_push(m: Seq<NoteView>, l: NoteView, id: u128)
    requires
        l.id != id,
    ensures
        index_of_id(m.push(l), id) == index_of_id(m, id),
{
    let u = m.push(l);
    if exists|w: int| 0 <= w < m.len() && m[w].id == id {
        let w = choose|w: int| 0 <= w < m.len() && m[w].id == id;
        lemma_first_position(m, id, w);
        let k = choose|k: int|
            0 <= k <= w && m[k].id == id && forall|j: int| 0 <= j < k ==> (#[trigger] m[j]).id != id;
        lemma_index_is_first(m, id, k);
        assert forall|j: int| 0 <= j < k implies (#[trigger] u[j]).id != id by {
            assert(u[j] == m[j]);
        }
        assert(u[k] == m[k]);
        lemma_index_is_first(u, id, k);
    } else {
        assert(!exists|w: int| 0 <= w < u.len() && u[w].id == id) by {
            if exists|w: int| 0 <= w < u.len() && u[w].id == id {
                let w = choose|w: int| 0 <= w < u.len() && u[w].id == id;
                if w < m.len() {
                    assert(u[w] == m[w]);
                } else {
                    assert(u[w] == l);
                }
            }
        }
    }
}

/// A cleanup keeps every note where it is, with its identity.
pub proof fn lemma_applied_ids(m: Seq<NoteView>, cs: Seq<(u128, Seq<Seq<char>>, Seq<Seq<char>>)>)
    ensures
        cleanup_applied(m, cs).0.len() == m.len(),
        forall|i: int| 0 <= i < m.len() ==> (#[trigger] cleanup_applied(m, cs).0[i]).id == m[i].id,
    decreases cs.len(),
{
    if cs.len() > 0 {
        lemma_applied_ids(m, cs.drop_last());
        let w = cleanup_applied(m, cs.drop_last()).0;
        let c = cs.last();
        if cleanup_applies(w, c) {
            crate::backup::lemma_index_of_id(w, c.0);
        }
    }
}

#[verifier::spinoff_prover]
#[verifier::rlimit(30)]
proof fn lemma_step_push(w: Seq<NoteView>, l: NoteView, c: (u128, Seq<Seq<char>>, Seq<Seq<char>>))
    requires
        c.0 != l.id,
    ensures
        cleanup_applies(w.push(l), c) == cleanup_applies(w, c),
        cleanup_applies(w, c) ==> cleanup_step(w.push(l), c) == cleanup_step(w, c).push(l),
{
    let wl = w.push(l);
    lemma_index_push(w, l, c.0);
    crate::backup::lemma_index_of_id(w, c.0);
    let found = index_of_id(w, c.0);
    assert(index_of_id(wl, c.0) == found);
    if found is Some {
        let i = found->0;
        assert(0 <= i < w.len());
        assert(wl[i] == w[i]);
        assert(cleanup_applies(wl, c) == (w[i].tags == c.1 && w[i].tags != c.2));
        assert(cleanup_applies(w, c) == (w[i].tags == c.1 && w[i].tags != c.2));
        if cleanup_applies(w, c) {
            let x = NoteView {
                id: w[i].id,
                title: w[i].title,
                content: w[i].content,
                created: w[i].created,
                last_modified: w[i].last_modified,
                tags: c.2,
                is_pinned: w[i].is_pinned,
            };
            assert(cleanup_step(wl, c) == wl.update(i, x));
            assert(cleanup_step(w, c) == w.update(i, x));
            assert(wl.update(i, x) =~= w.update(i, x).push(l));
        }
    } else {
        assert(!cleanup_applies(wl, c));
        assert(!cleanup_applies(w, c));
    }
}

#[verifier::spinoff_prover]
proof fn lemma_applied_push(
    m: Seq<NoteView>,
    l: NoteView,
    cs: Seq<(u128, Seq<Seq<char>>, Seq<Seq<char>>)>,
)
    requires
        forall|k: int| 0 <= k < cs.len() ==> (#[trigger] cs[k]).0 != l.id,
    ensures
        cleanup_applied(m.push(l), cs).0 == cleanup_applied(m, cs).0.push(l),
    decreases cs.len(),
{
    if cs.len() > 0 {
        let rest = cs.drop_last();
        let c = cs.last();
        assert(c == cs[cs.len() - 1]);
        assert forall|k: int| 0 <= k < rest.len() implies (#[trigger] rest[k]).0 != l.id by {
            assert(rest[k] == cs[k]);
        }
        lemma_applied_push(m, l, rest);
        let w = cleanup_applied(m, rest).0;
        let wl = cleanup_applied(m.push(l), rest).0;
        assert(wl == w.push(l));
        lemma_step_push(w, l, c);
        assert(cleanup_applied(m.push(l), cs).0 == (if cleanup_applies(wl, c) {
            cleanup_step(wl, c)
        } else {
            wl
        }));
        assert(cleanup_applied(m, cs).0 == (if cleanup_applies(w, c) {
            cleanup_step(w, c)
        } else {
            w
        }));
    }
}

/// Applying the cleanup planned against some spellings normalises every
/// note's tags against them, when identities are distinct.
pub proof fn lemma_cleanup_applied_cleans(notes: Seq<NoteView>, canonical: Seq<Seq<char>>)
    requires
        unique_ids(notes),
    ensures
        cleanup_applied(notes, cleanup_changes(notes, canonical)).0 == cleaned(notes, canonical),
    decreases notes.len(),
{
    if notes.len() == 0 {
        assert(cleaned(notes, canonical) =~= notes);
    } else {
        let rest = notes.drop_last();
        let l = notes.last();
        assert(notes == rest.push(l));
        assert(unique_ids(rest)) by {
            assert forall|i: int, j: int| 0 <= i < j < rest.len() implies rest[i].id != rest[j].id by {
                assert(rest[i] == notes[i]);
                assert(rest[j] == notes[j]);
            }
        }
        lemma_cleanup_applied_cleans(rest, canonical);
        let prev = cleanup_changes(rest, canonical);
        assert forall|k: int| 0 <= k < prev.len() implies (#[trigger] prev[k]).0 != l.id by {
            lemma_changes_ids(rest, canonical, k);
            let w = choose|w: int| 0 <= w < rest.len() && (#[trigger] rest[w]).id == prev[k].0;
            assert(notes[w] == rest[w]);
            assert(notes[notes.len() - 1] == l);
        }
        lemma_applied_push(cleaned(rest, canonical), l, Seq::empty());
        lemma_applied_push(rest, l, prev);
        let w = cleaned(rest, canonical).push(l);
        assert(cleanup_applied(notes, prev).0 == w);
        let after = normalized_with(l.tags, canonical);
        let target = cleaned(notes, canonical);
        if l.tags != after {
            let c = (l.id, l.tags, after);
            assert(cleanup_changes(notes, canonical) == prev.push(c));
            assert(prev.push(c).drop_last() =~= prev);
            assert forall|j: int| 0 <= j < rest.len() implies (#[trigger] w[j]).id != l.id by {
                assert(w[j] == cleaned(rest, canonical)[j]);
                assert(notes[j] == rest[j]);
                assert(notes[notes.len() - 1] == l);
            }
            assert(w[rest.len() as int] == l);
            lemma_index_is_first(w, l.id, rest.len() as int);
            assert(w[rest.len() as int] == l);
            assert(cleanup_applies(w, c));
            assert(cleanup_step(w, c) =~= target);
        } else {
            assert(cleanup_changes(notes, canonical) == prev);
            assert(with_tags(l, after) == l);
            assert(w =~= target);
        }
    }
}


// ---------------------------------------------------------------------------
// Normalising against canonical spellings
// ---------------------------------------------------------------------------

/// A normalised tag's canonical spelling is trimmed, non-blank and the same
/// tag, and it is its own canonical spelling.
proof fn lemma_canonical_props(canonical: Seq<Seq<char>>, t: Seq<char>)
    requires
        is_normal_tag_list(canonical),
        trim_seq(t) == t,
        t.len() > 0,
    ensures
        trim_seq(canonical_for(canonical, t)) == canonical_for(canonical, t),
        canonical_for(canonical, t).len() > 0,
        spec_fold_case(canonical_for(canonical, t)) == spec_fold_case(t),
        canonical_for(canonical, canonical_for(canonical, t)) == canonical_for(canonical, t),
{
    if exists|j: int| 0 <= j < canonical.len() && tag_key(canonical[j]) == tag_key(t) {
        let w = choose|j: int| 0 <= j < canonical.len() && tag_key(canonical[j]) == tag_key(t);
        assert(trim_seq(canonical[w]) == canonical[w]);
        assert forall|k: int| 0 <= k < w implies tag_key(#[trigger] canonical[k]) != tag_key(t) by {
            assert(trim_seq(canonical[k]) == canonical[k]);
        }
        let c = canonical_for(canonical, t);
        let cj = choose|j: int|
            0 <= j < canonical.len() && tag_key(canonical[j]) == tag_key(t) && forall|k: int|
                0 <= k < j ==> tag_key(#[trigger] canonical[k]) != tag_key(t);
        assert(c == canonical[cj]);
        assert(trim_seq(canonical[cj]) == canonical[cj]);
        lemma_canonical_of_member(canonical, cj);
    }
}

/// An entry of the canonical spellings is its own canonical spelling.
proof fn lemma_canonical_of_member(canonical: Seq<Seq<char>>, i: int)
    requires
        is_normal_tag_list(canonical),
        0 <= i < canonical.len(),
    ensures
        canonical_for(canonical, canonical[i]) == canonical[i],
{
    let x = canonical[i];
    assert(trim_seq(x) == x);
    assert forall|k: int| 0 <= k < i implies tag_key(#[trigger] canonical[k]) != tag_key(x) by {
        assert(trim_seq(canonical[k]) == canonical[k]);
    }
    let cj = choose|j: int|
        0 <= j < canonical.len() && tag_key(canonical[j]) == tag_key(x) && forall|k: int|
            0 <= k < j ==> tag_key(#[trigger] canonical[k]) != tag_key(x);
    assert(trim_seq(canonical[cj]) == canonical[cj]);
    if cj != i {
        assert(spec_fold_case(canonical[cj]) == spec_fold_case(x));
        if cj < i {
            assert(spec_fold_case(canonical[cj]) != spec_fold_case(canonical[i]));
        } else {
            assert(spec_fold_case(canonical[i]) != spec_fold_case(canonical[cj]));
        }
    }
}

/// Normalising against canonical spellings gives tags in normal form, the
/// same tags as the entry, each its own canonical spelling.
proof fn lemma_normalized_with_is_normal(tags: Seq<Seq<char>>, canonical: Seq<Seq<char>>)
    requires
        is_normal_tag_list(canonical),
    ensures
        is_normal_tag_list(normalized_with(tags, canonical)),
        forall|key: Seq<char>| has_tag_key(normalized_with(tags, canonical), key) <==> seen_before(tags, key),
        forall|i: int|
            0 <= i < normalized_with(tags, canonical).len() ==> canonical_for(
                canonical,
                #[trigger] normalized_with(tags, canonical)[i],
            ) == normalized_with(tags, canonical)[i],
    decreases tags.len(),
{
    if tags.len() > 0 {
        let rest = tags.drop_last();
        lemma_normalized_with_is_normal(rest, canonical);
        let prev = normalized_with(rest, canonical);
        let t = trim_seq(tags.last());
        lemma_trim_idempotent(tags.last());
        let out = normalized_with(tags, canonical);
        assert forall|key: Seq<char>| seen_before(tags, key) <==> (seen_before(rest, key) || (t.len()
            > 0 && spec_fold_case(t) == key)) by {
            if seen_before(tags, key) {
                let j = choose|j: int|
                    0 <= j < tags.len() && trim_seq(tags[j]).len() > 0 && #[trigger] spec_fold_case(
                        trim_seq(tags[j]),
                    ) == key;
                if j < rest.len() {
                    assert(rest[j] == tags[j]);
                }
            }
            if seen_before(rest, key) {
                let j = choose|j: int|
                    0 <= j < rest.len() && trim_seq(rest[j]).len() > 0 && #[trigger] spec_fold_case(
                        trim_seq(rest[j]),
                    ) == key;
                assert(tags[j] == rest[j]);
            }
            if t.len() > 0 && spec_fold_case(t) == key {
                assert(tags[tags.len() - 1] == tags.last());
            }
        }
        if t.len() == 0 || seen_before(rest, spec_fold_case(t)) {
            assert(out == prev);
        } else {
            let c = canonical_for(canonical, t);
            lemma_canonical_props(canonical, t);
            assert(out == prev.push(c));
            assert(!has_tag_key(prev, spec_fold_case(t)));
            assert forall|key: Seq<char>| has_tag_key(out, key) <==> (has_tag_key(prev, key)
                || spec_fold_case(t) == key) by {
                if has_tag_key(out, key) {
                    let i = choose|i: int| 0 <= i < out.len() && #[trigger] spec_fold_case(out[i]) == key;
                    if i < prev.len() {
                        assert(out[i] == prev[i]);
                    }
                }
                if has_tag_key(prev, key) {
                    let i = choose|i: int| 0 <= i < prev.len() && #[trigger] spec_fold_case(prev[i]) == key;
                    assert(out[i] == prev[i]);
                }
                if spec_fold_case(t) == key {
                    assert(out[prev.len() as int] == c);
                }
            }
            assert forall|i: int, j: int| 0 <= i < j < out.len() implies spec_fold_case(
                #[trigger] out[i],
            ) != spec_fold_case(#[trigger] out[j]) by {
                assert(out[i] == prev[i]);
                if j == prev.len() {
                    assert(out[j] == c);
                    if spec_fold_case(prev[i]) == spec_fold_case(c) {
                        assert(has_tag_key(prev, spec_fold_case(t)));
                    }
                } else {
                    assert(out[j] == prev[j]);
                }
            }
            assert forall|i: int| 0 <= i < out.len() implies trim_seq(#[trigger] out[i]) == out[i]
                && out[i].len() > 0 && canonical_for(canonical, out[i]) == out[i] by {
                if i < prev.len() {
                    assert(out[i] == prev[i]);
                } else {
                    assert(out[i] == c);
                }
            }
        }
    }
}

/// Tags in normal form, each its own canonical spelling, are left as they are.
proof fn lemma_canonical_tags_unchanged(tags: Seq<Seq<char>>, canonical: Seq<Seq<char>>)
    requires
        is_normal_tag_list(tags),
        forall|i: int| 0 <= i < tags.len() ==> canonical_for(canonical, #[trigger] tags[i]) == tags[i],
    ensures
        normalized_with(tags, canonical) == tags,
    decreases tags.len(),
{
    if tags.len() > 0 {
        let rest = tags.drop_last();
        let last = tags.last();
        assert(tags[tags.len() - 1] == last);
        assert forall|i: int| 0 <= i < rest.len() implies trim_seq(#[trigger] rest[i]) == rest[i]
            && rest[i].len() > 0 && canonical_for(canonical, rest[i]) == rest[i] by {
            assert(rest[i] == tags[i]);
        }
        assert forall|i: int, j: int| 0 <= i < j < rest.len() implies spec_fold_case(
            #[trigger] rest[i],
        ) != spec_fold_case(#[trigger] rest[j]) by {
            assert(rest[i] == tags[i]);
            assert(rest[j] == tags[j]);
        }
        lemma_canonical_tags_unchanged(rest, canonical);
        assert(!seen_before(rest, spec_fold_case(last))) by {
            if seen_before(rest, spec_fold_case(last)) {
                let j = choose|j: int|
                    0 <= j < rest.len() && trim_seq(rest[j]).len() > 0 && #[trigger] spec_fold_case(
                        trim_seq(rest[j]),
                    ) == spec_fold_case(last);
                assert(rest[j] == tags[j]);
            }
        }
        assert(tags == rest.push(last));
    }
}

/// Normalising twice against the same canonical spellings is normalising once.
pub proof fn lemma_normalized_with_idempotent(tags: Seq<Seq<char>>, canonical: Seq<Seq<char>>)
    requires
        is_normal_tag_list(canonical),
    ensures
        normalized_with(normalized_with(tags, canonical), canonical) == normalized_with(tags, canonical),
{
    lemma_normalized_with_is_normal(tags, canonical);
    lemma_canonical_tags_unchanged(normalized_with(tags, canonical), canonical);
}


// ---------------------------------------------------------------------------
// The collection's spellings after a cleanup
// ---------------------------------------------------------------------------

proof fn lemma_seen_concat(a: Seq<Seq<char>>, b: Seq<Seq<char>>, key: Seq<char>)
    ensures
        seen_before(a + b, key) <==> seen_before(a, key) || seen_before(b, key),
{
    let ab = a + b;
    if seen_before(ab, key) {
        let j = choose|j: int|
            0 <= j < ab.len() && trim_seq(ab[j]).len() > 0 && #[trigger] spec_fold_case(trim_seq(ab[j])) == key;
        if j < a.len() {
            assert(ab[j] == a[j]);
        } else {
            assert(ab[j] == b[j - a.len()]);
        }
    }
    if seen_before(a, key) {
        let j = choose|j: int|
            0 <= j < a.len() && trim_seq(a[j]).len() > 0 && #[trigger] spec_fold_case(trim_seq(a[j])) == key;
        assert(ab[j] == a[j]);
    }
    if seen_before(b, key) {
        let j = choose|j: int|
            0 <= j < b.len() && trim_seq(b[j]).len() > 0 && #[trigger] spec_fold_case(trim_seq(b[j])) == key;
        assert(ab[a.len() + j] == b[j]);
    }
}

proof fn lemma_normal_seen(y: Seq<Seq<char>>, key: Seq<char>)
    requires
        is_normal_tag_list(y),
    ensures
        seen_before(y, key) <==> has_tag_key(y, key),
{
    if seen_before(y, key) {
        let j = choose|j: int|
            0 <= j < y.len() && trim_seq(y[j]).len() > 0 && #[trigger] spec_fold_case(trim_seq(y[j])) == key;
        assert(trim_seq(y[j]) == y[j]);
    }
    if has_tag_key(y, key) {
        let j = choose|j: int| 0 <= j < y.len() && #[trigger] spec_fold_case(y[j]) == key;
        assert(trim_seq(y[j]) == y[j] && y[j].len() > 0);
    }
}

/// What normalising adds after a prefix depends on the prefix only through
/// its normalisation.
proof fn lemma_normalized_congruence(a: Seq<Seq<char>>, b: Seq<Seq<char>>, u: Seq<Seq<char>>)
    requires
        normalized(a) == normalized(b),
    ensures
        normalized(a + u) == normalized(b + u),
    decreases u.len(),
{
    if u.len() > 0 {
        let ur = u.drop_last();
        lemma_normalized_congruence(a, b, ur);
        assert((a + u).drop_last() =~= a + ur);
        assert((b + u).drop_last() =~= b + ur);
        assert((a + u).last() == u.last());
        assert((b + u).last() == u.last());
        let key = spec_fold_case(trim_seq(u.last()));
        lemma_seen_concat(a, ur, key);
        lemma_seen_concat(b, ur, key);
        lemma_normalized_is_normal(a);
        lemma_normalized_is_normal(b);
        assert(seen_before(a, key) == seen_before(b, key)) by {
            assert(has_tag_key(normalized(a), key) == has_tag_key(normalized(b), key));
        }
    }
}

/// Where every first occurrence in `t` (after `s`) is already spelled as
/// the canonical spelling, normalising `t` against the spellings first
/// changes nothing of the normalisation of `s` followed by `t`.
proof fn lemma_canonical_keeps_normalization(
    s: Seq<Seq<char>>,
    t: Seq<Seq<char>>,
    canonical: Seq<Seq<char>>,
)
    requires
        is_normal_tag_list(canonical),
        forall|j: int|
            0 <= j < t.len() && trim_seq(#[trigger] t[j]).len() > 0 && !seen_before(
                s + t.take(j),
                spec_fold_case(trim_seq(t[j])),
            ) ==> canonical_for(canonical, trim_seq(t[j])) == trim_seq(t[j]),
    ensures
        normalized(s + normalized_with(t, canonical)) == normalized(s + t),
    decreases t.len(),
{
    if t.len() == 0 {
        assert(s + normalized_with(t, canonical) =~= s + t);
    } else {
        let tr = t.drop_last();
        assert forall|j: int|
            0 <= j < tr.len() && trim_seq(#[trigger] tr[j]).len() > 0 && !seen_before(
                s + tr.take(j),
                spec_fold_case(trim_seq(tr[j])),
            ) implies canonical_for(canonical, trim_seq(tr[j])) == trim_seq(tr[j]) by {
            assert(tr[j] == t[j]);
            assert(tr.take(j) =~= t.take(j));
        }
        lemma_canonical_keeps_normalization(s, tr, canonical);
        let nr = normalized_with(tr, canonical);
        let x = trim_seq(t.last());
        let key = spec_fold_case(x);
        lemma_trim_idempotent(t.last());
        assert((s + t).drop_last() =~= s + tr);
        assert((s + t).last() == t.last());
        lemma_seen_concat(s, tr, key);
        lemma_normalized_with_is_normal(tr, canonical);
        lemma_normal_seen(nr, key);
        if x.len() == 0 || seen_before(tr, key) {
            assert(normalized_with(t, canonical) == nr);
        } else {
            let c = canonical_for(canonical, x);
            lemma_canonical_props(canonical, x);
            assert(normalized_with(t, canonical) == nr.push(c));
            let sn = s + nr.push(c);
            assert(sn.drop_last() =~= s + nr);
            assert(sn.last() == c);
            lemma_seen_concat(s, nr, key);
            assert(spec_fold_case(trim_seq(c)) == key);
            if !seen_before(s, key) {
                assert(t[t.len() - 1] == t.last());
                assert(t.take(t.len() - 1) =~= tr);
                assert(c == x);
            }
        }
    }
}

/// The trimmed first occurrence of a tag is the collection's spelling of it.
proof fn lemma_first_occurrence_listed(tags: Seq<Seq<char>>, p: int)
    requires
        0 <= p < tags.len(),
        trim_seq(tags[p]).len() > 0,
        !seen_before(tags.take(p), spec_fold_case(trim_seq(tags[p]))),
    ensures
        exists|i: int| 0 <= i < normalized(tags).len() && normalized(tags)[i] == trim_seq(tags[p]),
    decreases tags.len(),
{
    let rest = tags.drop_last();
    let prev = normalized(rest);
    if p == tags.len() - 1 {
        assert(tags.take(p) =~= rest);
        assert(tags[p] == tags.last());
        assert(normalized(tags) == prev.push(trim_seq(tags[p])));
        assert(normalized(tags)[prev.len() as int] == trim_seq(tags[p]));
    } else {
        assert(rest.take(p) =~= tags.take(p));
        assert(rest[p] == tags[p]);
        lemma_first_occurrence_listed(rest, p);
        let i = choose|i: int| 0 <= i < prev.len() && prev[i] == trim_seq(rest[p]);
        assert(normalized(tags)[i] == prev[i]);
    }
}

/// Every tag of every note, in note order, as the notes' views hold them.
pub open spec fn view_tags(notes: Seq<NoteView>) -> Seq<Seq<char>>
    decreases notes.len(),
{
    if notes.len() == 0 {
        Seq::empty()
    } else {
        view_tags(notes.drop_last()) + notes.last().tags
    }
}

proof fn lemma_view_tags_concat(a: Seq<NoteView>, b: Seq<NoteView>)
    ensures
        view_tags(a + b) == view_tags(a) + view_tags(b),
    decreases b.len(),
{
    if b.len() == 0 {
        assert(a + b =~= a);
        assert(view_tags(a) + view_tags(b) =~= view_tags(a));
    } else {
        lemma_view_tags_concat(a, b.drop_last());
        assert((a + b).drop_last() =~= a + b.drop_last());
        assert((a + b).last() == b.last());
    }
}

proof fn lemma_all_tags_view(notes: Seq<crate::model::Note>)
    ensures
        crate::tag_rules::all_tags(notes) == view_tags(crate::model::notes_view(notes)),
    decreases notes.len(),
{
    if notes.len() > 0 {
        lemma_all_tags_view(notes.drop_last());
        assert(crate::model::notes_view(notes).drop_last() =~= crate::model::notes_view(
            notes.drop_last(),
        ));
    }
}

/// Cleaning the first `i` notes against the collection's spellings keeps
/// their normalisation.
proof fn lemma_cleaned_prefix(notes: Seq<NoteView>, i: int)
    requires
        0 <= i <= notes.len(),
    ensures
        normalized(view_tags(cleaned(notes, normalized(view_tags(notes))).take(i))) == normalized(
            view_tags(notes.take(i)),
        ),
    decreases i,
{
    let canonical = normalized(view_tags(notes));
    let cl = cleaned(notes, canonical);
    if i == 0 {
        assert(cl.take(0) =~= notes.take(0));
    } else {
        lemma_cleaned_prefix(notes, i - 1);
        lemma_normalized_is_normal(view_tags(notes));
        let a = view_tags(notes.take(i - 1));
        let a2 = view_tags(cl.take(i - 1));
        let t = notes[i - 1].tags;
        let n = normalized_with(t, canonical);
        assert(notes.take(i).drop_last() =~= notes.take(i - 1));
        assert(cl.take(i).drop_last() =~= cl.take(i - 1));
        assert(view_tags(notes.take(i)) == a + t);
        assert(view_tags(cl.take(i)) == a2 + n);
        lemma_normalized_congruence(a2, a, n);
        lemma_view_tags_concat(notes.take(i), notes.skip(i));
        assert(notes.take(i) + notes.skip(i) =~= notes);
        let whole = view_tags(notes);
        assert forall|j: int|
            0 <= j < t.len() && trim_seq(#[trigger] t[j]).len() > 0 && !seen_before(
                a + t.take(j),
                spec_fold_case(trim_seq(t[j])),
            ) implies canonical_for(canonical, trim_seq(t[j])) == trim_seq(t[j]) by {
            let p = a.len() + j;
            assert(whole == (a + t) + view_tags(notes.skip(i)));
            assert(whole[p] == t[j]);
            assert(whole.take(p) =~= a + t.take(j));
            lemma_first_occurrence_listed(whole, p);
            let w = choose|w: int| 0 <= w < canonical.len() && canonical[w] == trim_seq(whole[p]);
            lemma_canonical_of_member(canonical, w);
        }
        lemma_canonical_keeps_normalization(a, t, canonical);
    }
}

/// Every note with tags that are already normalised gives no change.
proof fn lemma_no_changes(notes: Seq<NoteView>, canonical: Seq<Seq<char>>)
    requires
        forall|i: int| 0 <= i < notes.len() ==> normalized_with(#[trigger] notes[i].tags, canonical) == notes[i].tags,
    ensures
        cleanup_changes(notes, canonical).len() == 0,
    decreases notes.len(),
{
    if notes.len() > 0 {
        let rest = notes.drop_last();
        assert forall|i: int| 0 <= i < rest.len() implies normalized_with(#[trigger] rest[i].tags, canonical) == rest[i].tags by {
            assert(rest[i] == notes[i]);
        }
        lemma_no_changes(rest, canonical);
        assert(notes[notes.len() - 1] == notes.last());
    }
}

/// After the cleanup a collection's own plan proposes is applied, a new
/// plan proposes no change: every note then uses the collection's spelling
/// of each of its tags, without blanks or repeats. This holds when the
/// notes' identities are distinct.
pub proof fn lemma_cleanup_settles(before: Seq<crate::model::Note>, after: Seq<crate::model::Note>)
    requires
        unique_ids(crate::model::notes_view(before)),
        crate::model::notes_view(after) == cleanup_applied(
            crate::model::notes_view(before),
            cleanup_changes(crate::model::notes_view(before), crate::tag_rules::canonical_tags(before)),
        ).0,
    ensures
        cleanup_changes(crate::model::notes_view(after), crate::tag_rules::canonical_tags(after)).len() == 0,
{
    let nv = crate::model::notes_view(before);
    let av = crate::model::notes_view(after);
    lemma_all_tags_view(before);
    lemma_all_tags_view(after);
    let canonical = normalized(view_tags(nv));
    lemma_cleanup_applied_cleans(nv, canonical);
    assert(av == cleaned(nv, canonical));
    lemma_cleaned_prefix(nv, nv.len() as int);
    assert(nv.take(nv.len() as int) =~= nv);
    assert(cleaned(nv, canonical).take(nv.len() as int) =~= cleaned(nv, canonical));
    assert(crate::tag_rules::canonical_tags(after) == canonical);
    lemma_normalized_is_normal(view_tags(nv));
    assert forall|i: int| 0 <= i < av.len() implies normalized_with(#[trigger] av[i].tags, canonical) == av[i].tags by {
        lemma_normalized_with_idempotent(nv[i].tags, canonical);
    }
    lemma_no_changes(av, canonical);
}

} // verus!
