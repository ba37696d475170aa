//! Tag rules: case-insensitive identity, normalisation, suggestions and
//! collection-wide cleanup.
use vstd::prelude::*;
use vstd::relations::{sorted_by, total_ordering};
use vstd::utf8::is_ascii_chars;
use crate::model::{
    Note, NoteView, copy_strings, find_note_index, index_of_id, lemma_notes_view_update, notes_view,
};
use crate::text::{
    ascii_lower, ascii_lowercase_chars, chars_equal, chars_of, join_seq, join_strings,
    lemma_lex_antisymmetric, lemma_lex_reflexive, lemma_lex_total, lemma_lex_transitive, lex_le,
    lex_le_chars, seq_starts_with, split_on, split_seq, starts_with_chars, string_from, string_of,
    to_lowercase, trim, trim_bounds, trim_seq, unicode_lowercase, lemma_trim_idempotent,
};

verus! {

broadcast use vstd::string::group_string_axioms;

// ---------------------------------------------------------------------------
// Case folding and tag identity
// ---------------------------------------------------------------------------

/// The case-folded form of a text: ASCII lower-casing for ASCII text, full
/// Unicode lower-casing otherwise.
pub open spec fn spec_fold_case(s: Seq<char>) -> Seq<char> {
    if is_ascii_chars(s) {
        ascii_lower(s)
    } else {
        unicode_lowercase(s)
    }
}

/// The identity of a tag: its trimmed, case-folded text.
pub open spec fn tag_key(t: Seq<char>) -> Seq<char> {
    spec_fold_case(trim_seq(t))
}

pub fn fold_case(text: &str) -> (r: String)
    ensures
        r@ == spec_fold_case(text@),
{
    if text.is_ascii() {
        let v = chars_of(text);
        let lower = ascii_lowercase_chars(&v);
        string_from(&lower)
    } else {
        to_lowercase(text)
    }
}

/// The characters of the case-folded text.
pub fn fold_chars(text: &str) -> (r: Vec<char>)
    ensures
        r@ == spec_fold_case(text@),
{
    let f = fold_case(text);
    chars_of(f.as_str())
}

/// The characters of a tag's identity.
pub fn tag_key_chars(tag: &str) -> (r: Vec<char>)
    ensures
        r@ == tag_key(tag@),
{
    let t = trim(tag);
    fold_chars(t.as_str())
}

/// Two tags are the same tag when their trimmed, case-folded texts agree.
pub fn tags_equal(left: &str, right: &str) -> (r: bool)
    ensures
        r == (tag_key(left@) == tag_key(right@)),
{
    let a = tag_key_chars(left);
    let b = tag_key_chars(right);
    chars_equal(&a, &b)
}

// ---------------------------------------------------------------------------
// Normalisation
// ---------------------------------------------------------------------------

/// Some earlier non-blank entry of `tags` has the case-folded key `key`.
pub open spec fn seen_before(tags: Seq<Seq<char>>, key: Seq<char>) -> bool {
    exists|j: int|
        0 <= j < tags.len() && trim_seq(tags[j]).len() > 0 && #[trigger] spec_fold_case(
            trim_seq(tags[j]),
        ) == key
}

/// The first entry of `canonical` that is the same tag as `t`, or `t` itself.
pub open spec fn canonical_for(canonical: Seq<Seq<char>>, t: Seq<char>) -> Seq<char> {
    if exists|j: int| 0 <= j < canonical.len() && tag_key(canonical[j]) == tag_key(t) {
        canonical[choose|j: int|
            0 <= j < canonical.len() && tag_key(canonical[j]) == tag_key(t) && forall|k: int|
                0 <= k < j ==> tag_key(#[trigger] canonical[k]) != tag_key(t)]
    } else {
        t
    }
}

/// Tags trimmed, without blanks, keeping the first of each case-insensitive
/// group, each replaced by its spelling in `canonical` where it has one.
pub open spec fn normalized_with(tags: Seq<Seq<char>>, canonical: Seq<Seq<char>>) -> Seq<
    Seq<char>,
>
    decreases tags.len(),
{
    if tags.len() == 0 {
        Seq::<Seq<char>>::empty()
    } else {
        let prev = normalized_with(tags.drop_last(), canonical);
        let t = trim_seq(tags.last());
        if t.len() == 0 || seen_before(tags.drop_last(), spec_fold_case(t)) {
            prev
        } else {
            prev.push(canonical_for(canonical, t))
        }
    }
}

/// Tags trimmed, without blanks, keeping the first of each case-insensitive group.
pub open spec fn normalized(tags: Seq<Seq<char>>) -> Seq<Seq<char>> {
    normalized_with(tags, Seq::<Seq<char>>::empty())
}

/// Tags in normal form: each trimmed and non-blank, no two the same tag.
pub open spec fn is_normal_tag_list(tags: Seq<Seq<char>>) -> bool {
    &&& forall|i: int| 0 <= i < tags.len() ==> trim_seq(#[trigger] tags[i]) == tags[i]
    &&& forall|i: int| 0 <= i < tags.len() ==> (#[trigger] tags[i]).len() > 0
    &&& forall|i: int, j: int|
        0 <= i < j < tags.len() ==> spec_fold_case(#[trigger] tags[i]) != spec_fold_case(
            #[trigger] tags[j],
        )
}

/// Some tag of the list has the case-folded key `key`.
pub open spec fn has_tag_key(tags: Seq<Seq<char>>, key: Seq<char>) -> bool {
    exists|i: int| 0 <= i < tags.len() && #[trigger] spec_fold_case(tags[i]) == key
}

/// Normalising gives tags in normal form, and keeps exactly the tags of the
/// entry: a key is among the normalised tags when a non-blank entry has it.
pub proof fn lemma_normalized_is_normal(tags: Seq<Seq<char>>)
    ensures
        is_normal_tag_list(normalized(tags)),
        forall|key: Seq<char>| has_tag_key(normalized(tags), key) <==> seen_before(tags, key),
    decreases tags.len(),
{
    if tags.len() > 0 {
        let rest = tags.drop_last();
        lemma_normalized_is_normal(rest);
        let prev = normalized(rest);
        let t = trim_seq(tags.last());
        lemma_trim_idempotent(tags.last());
        let out = normalized(tags);
        assert forall|key: Seq<char>| seen_before(tags, key) <==> (seen_before(rest, key) || (t.len()
            > 0 && spec_fold_case(t) == key)) by {
            if seen_before(tags, key) {
                let j = choose|j: int|
                    0 <= j < tags.len() && trim_seq(tags[j]).len() > 0 && #[trigger] spec_fold_case(
                        trim_seq(tags[j]),
                    ) == key;
                if j < rest.len() {
                    assert(rest[j] == tags[j]);
                }
            }
            if seen_before(rest, key) {
                let j = choose|j: int|
                    0 <= j < rest.len() && trim_seq(rest[j]).len() > 0 && #[trigger] spec_fold_case(
                        trim_seq(rest[j]),
                    ) == key;
                assert(tags[j] == rest[j]);
            }
            if t.len() > 0 && spec_fold_case(t) == key {
                assert(tags[tags.len() - 1] == tags.last());
            }
        }
        if t.len() == 0 || seen_before(rest, spec_fold_case(t)) {
            assert(out == prev);
        } else {
            assert(canonical_for(Seq::<Seq<char>>::empty(), t) == t);
            assert(out == prev.push(t));
            assert(!has_tag_key(prev, spec_fold_case(t)));
            assert forall|key: Seq<char>| has_tag_key(out, key) <==> (has_tag_key(prev, key)
                || spec_fold_case(t) == key) by {
                if has_tag_key(out, key) {
                    let i = choose|i: int| 0 <= i < out.len() && #[trigger] spec_fold_case(out[i]) == key;
                    if i < prev.len() {
                        assert(out[i] == prev[i]);
                    }
                }
                if has_tag_key(prev, key) {
                    let i = choose|i: int| 0 <= i < prev.len() && #[trigger] spec_fold_case(prev[i]) == key;
                    assert(out[i] == prev[i]);
                }
                if spec_fold_case(t) == key {
                    assert(out[prev.len() as int] == t);
                }
            }
            assert forall|i: int, j: int| 0 <= i < j < out.len() implies spec_fold_case(
                #[trigger] out[i],
            ) != spec_fold_case(#[trigger] out[j]) by {
                if j == prev.len() {
                    assert(out[i] == prev[i]);
                    assert(out[j] == t);
                    if spec_fold_case(prev[i]) == spec_fold_case(t) {
                        assert(has_tag_key(prev, spec_fold_case(t)));
                    }
                } else {
                    assert(out[i] == prev[i]);
                    assert(out[j] == prev[j]);
                }
            }
            assert forall|i: int| 0 <= i < out.len() implies trim_seq(#[trigger] out[i]) == out[i]
                && out[i].len() > 0 by {
                if i < prev.len() {
                    assert(out[i] == prev[i]);
                }
            }
        }
    }
}

/// Tags already in normal form are left as they are.
pub proof fn lemma_normal_tags_unchanged(tags: Seq<Seq<char>>)
    requires
        is_normal_tag_list(tags),
    ensures
        normalized(tags) == tags,
    decreases tags.len(),
{
    if tags.len() > 0 {
        let rest = tags.drop_last();
        let last = tags.last();
        assert(is_normal_tag_list(rest)) by {
            assert forall|i: int| 0 <= i < rest.len() implies trim_seq(#[trigger] rest[i]) == rest[i]
                && rest[i].len() > 0 by {
                assert(rest[i] == tags[i]);
            }
            assert forall|i: int, j: int| 0 <= i < j < rest.len() implies spec_fold_case(
                #[trigger] rest[i],
            ) != spec_fold_case(#[trigger] rest[j]) by {
                assert(rest[i] == tags[i]);
                assert(rest[j] == tags[j]);
            }
        }
        lemma_normal_tags_unchanged(rest);
        assert(trim_seq(last) == last) by {
            assert(tags[tags.len() - 1] == last);
        }
        assert(last.len() > 0) by {
            assert(tags[tags.len() - 1] == last);
        }
        assert(!seen_before(rest, spec_fold_case(last))) by {
            if seen_before(rest, spec_fold_case(last)) {
                let j = choose|j: int|
                    0 <= j < rest.len() && trim_seq(rest[j]).len() > 0 && #[trigger] spec_fold_case(
                        trim_seq(rest[j]),
                    ) == spec_fold_case(last);
                assert(rest[j] == tags[j]);
                assert(trim_seq(tags[j]) == tags[j]);
                assert(tags[tags.len() - 1] == last);
            }
        }
        assert(canonical_for(Seq::<Seq<char>>::empty(), last) == last);
        assert(tags == rest.push(last));
    }
}

/// Normalising twice is normalising once.
pub proof fn lemma_normalize_idempotent(tags: Seq<Seq<char>>)
    ensures
        normalized(normalized(tags)) == normalized(tags),
{
    lemma_normalized_is_normal(tags);
    lemma_normal_tags_unchanged(normalized(tags));
}

/// Entries of a list kept when later entries with the same case-folded text are dropped.
pub open spec fn dedup_by_fold(tags: Seq<Seq<char>>) -> Seq<Seq<char>>
    decreases tags.len(),
{
    if tags.len() == 0 {
        Seq::<Seq<char>>::empty()
    } else {
        let prev = dedup_by_fold(tags.drop_last());
        if exists|j: int|
            0 <= j < tags.len() - 1 && #[trigger] spec_fold_case(tags[j]) == spec_fold_case(
                tags.last(),
            ) {
            prev
        } else {
            prev.push(tags.last())
        }
    }
}

/// Whether some entry of `seen` holds `key`.
fn member(seen: &Vec<Vec<char>>, key: &Vec<char>) -> (b: bool)
    ensures
        b == exists|j: int| 0 <= j < seen.len() && #[trigger] seen@[j]@ == key@,
{
    let mut j: usize = 0;
    while j < seen.len()
        invariant
            j <= seen.len(),
            forall|k: int| 0 <= k < j ==> #[trigger] seen@[k]@ != key@,
        decreases seen.len() - j,
    {
        if chars_equal(&seen[j], key) {
            return true;
        }
        j += 1;
    }
    false
}

/// The spelling of `t` in `canonical`, where `canonical` holds the same tag.
fn canonical_spelling(canonical: &Vec<String>, t: &String) -> (r: String)
    ensures
        r@ == canonical_for(canonical.deep_view(), t@),
{
    let ghost c = canonical.deep_view();
    let mut j: usize = 0;
    while j < canonical.len()
        invariant
            j <= canonical.len(),
            c == canonical.deep_view(),
            forall|k: int| 0 <= k < j ==> tag_key(#[trigger] c[k]) != tag_key(t@),
        decreases canonical.len() - j,
    {
        if tags_equal(canonical[j].as_str(), t.as_str()) {
            proof {
                assert(c[j as int] == canonical@[j as int]@);
                let w = choose|w: int|
                    0 <= w < c.len() && tag_key(c[w]) == tag_key(t@) && forall|k: int|
                        0 <= k < w ==> tag_key(#[trigger] c[k]) != tag_key(t@);
                assert(0 <= j < c.len() && tag_key(c[j as int]) == tag_key(t@));
                if w < j {
                } else if w > j {
                    assert(tag_key(c[j as int]) != tag_key(t@));
                }
                assert(w == j);
            }
            return canonical[j].clone();
        }
        j += 1;
    }
    t.clone()
}

proof fn lemma_seen_before_step(tags: Seq<Seq<char>>, i: int, key: Seq<char>)
    requires
        0 <= i < tags.len(),
    ensures
        seen_before(tags.take(i + 1), key) <==> (seen_before(tags.take(i), key) || (trim_seq(
            tags[i],
        ).len() > 0 && spec_fold_case(trim_seq(tags[i])) == key)),
{
    let a = tags.take(i + 1);
    let b = tags.take(i);
    if seen_before(a, key) {
        let j = choose|j: int|
            0 <= j < a.len() && trim_seq(a[j]).len() > 0 && #[trigger] spec_fold_case(
                trim_seq(a[j]),
            ) == key;
        if j < i {
            assert(b[j] == a[j]);
        }
    }
    if seen_before(b, key) {
        let j = choose|j: int|
            0 <= j < b.len() && trim_seq(b[j]).len() > 0 && #[trigger] spec_fold_case(
                trim_seq(b[j]),
            ) == key;
        assert(a[j] == b[j]);
    }
    if trim_seq(tags[i]).len() > 0 && spec_fold_case(trim_seq(tags[i])) == key {
        assert(a[i] == tags[i]);
    }
}

/// Tags trimmed, without blanks, without later case-insensitive repeats, and
/// spelled as in `canonical` where it holds the same tag.
pub fn normalize_with_canonical(tags: &Vec<String>, canonical: &Vec<String>) -> (r: Vec<String>)
    ensures
        r.deep_view() == normalized_with(tags.deep_view(), canonical.deep_view()),
{
    let ghost tv = tags.deep_view();
    let mut out: Vec<String> = Vec::new();
    let mut seen: Vec<Vec<char>> = Vec::new();
    let mut i: usize = 0;
    while i < tags.len()
        invariant
            i <= tags.len(),
            tv == tags.deep_view(),
            out.deep_view() == normalized_with(tv.take(i as int), canonical.deep_view()),
            forall|key: Seq<char>|
                (exists|j: int| 0 <= j < seen.len() && #[trigger] seen@[j]@ == key)
                    <==> #[trigger] seen_before(tv.take(i as int), key),
        decreases tags.len() - i,
    {
        proof {
            assert(tv.take(i + 1).drop_last() =~= tv.take(i as int));
            assert(tv.take(i + 1).last() == tags@[i as int]@);
        }
        let t = trim(tags[i].as_str());
        let tc = chars_of(t.as_str());
        let ghost prev_seen = seen@;
        if tc.len() > 0 {
            let key = fold_chars(t.as_str());
            if !member(&seen, &key) {
                let c = canonical_spelling(canonical, &t);
                out.push(c);
                seen.push(key);
            }
        }
        proof {
            assert forall|key: Seq<char>|
                (exists|j: int| 0 <= j < seen.len() && #[trigger] seen@[j]@ == key)
                    <==> #[trigger] seen_before(tv.take(i + 1), key) by {
                lemma_seen_before_step(tv, i as int, key);
                if seen@.len() > prev_seen.len() {
                    if exists|j: int| 0 <= j < prev_seen.len() && #[trigger] prev_seen[j]@ == key {
                        let j = choose|j: int|
                            0 <= j < prev_seen.len() && #[trigger] prev_seen[j]@ == key;
                        assert(seen@[j] == prev_seen[j]);
                    }
                    if exists|j: int| 0 <= j < seen.len() && #[trigger] seen@[j]@ == key {
                        let j = choose|j: int| 0 <= j < seen.len() && #[trigger] seen@[j]@ == key;
                        if j < prev_seen.len() {
                            assert(prev_seen[j] == seen@[j]);
                        }
                    }
                    assert(seen@[prev_seen.len() as int]@ == spec_fold_case(trim_seq(tv[i as int])));
                }
            }
            assert(out.deep_view() =~= normalized_with(tv.take(i + 1), canonical.deep_view()));
        }
        i += 1;
    }
    assert(tv.take(tags.len() as int) =~= tv);
    out
}

/// Tags trimmed, without blanks, keeping the first of each case-insensitive group.
pub fn normalize_tags(tags: Vec<String>) -> (r: Vec<String>)
    ensures
        r.deep_view() == normalized(tags.deep_view()),
{
    let none: Vec<String> = Vec::new();
    assert(none.deep_view() =~= Seq::<Seq<char>>::empty());
    normalize_with_canonical(&tags, &none)
}

/// The tags written in a comma-separated entry.
pub fn parse_tags_input(input: &str) -> (r: Vec<String>)
    ensures
        r.deep_view() == normalized(split_seq(input@, ',')),
{
    let chars = chars_of(input);
    let pieces = split_on(&chars, ',');
    normalize_tags(pieces)
}

/// The list with later entries of the same case-folded text dropped.
fn dedup_folded(tags: &Vec<String>) -> (r: Vec<String>)
    ensures
        r.deep_view() == dedup_by_fold(tags.deep_view()),
{
    let ghost tv = tags.deep_view();
    let mut out: Vec<String> = Vec::new();
    let mut seen: Vec<Vec<char>> = Vec::new();
    let mut i: usize = 0;
    while i < tags.len()
        invariant
            i <= tags.len(),
            tv == tags.deep_view(),
            out.deep_view() == dedup_by_fold(tv.take(i as int)),
            seen.len() == i,
            forall|k: int| 0 <= k < i ==> #[trigger] seen@[k]@ == spec_fold_case(tv[k]),
        decreases tags.len() - i,
    {
        proof {
            assert(tv.take(i + 1).drop_last() =~= tv.take(i as int));
            assert(tv.take(i + 1).last() == tv[i as int]);
        }
        let key = fold_chars(tags[i].as_str());
        let dup = member(&seen, &key);
        proof {
            let p = tv.take(i + 1);
            if dup {
                let j = choose|j: int| 0 <= j < seen.len() && #[trigger] seen@[j]@ == key@;
                assert(p[j] == tv[j]);
                assert(spec_fold_case(p[j]) == spec_fold_case(p.last()));
            } else {
                assert forall|j: int| 0 <= j < p.len() - 1 implies #[trigger] spec_fold_case(p[j])
                    != spec_fold_case(p.last()) by {
                    assert(p[j] == tv[j]);
                    assert(seen@[j]@ == spec_fold_case(tv[j]));
                }
            }
        }
        if !dup {
            out.push(tags[i].clone());
            assert(out.deep_view() =~= dedup_by_fold(tv.take(i + 1)));
        }
        seen.push(key);
        i += 1;
    }
    assert(tv.take(tags.len() as int) =~= tv);
    out
}

/// The spellings an update keeps: the note's own tags, normalised.
pub open spec fn existing_spellings(existing: Seq<Seq<char>>) -> Seq<Seq<char>> {
    dedup_by_fold(normalized(existing))
}

/// New tags for a note, normalised and spelled as the note already spells
/// the same tags.
pub fn normalize_tags_for_update(existing: &[String], tags: Vec<String>) -> (r: Vec<String>)
    ensures
        r.deep_view() == normalized_with(tags.deep_view(), existing_spellings(existing.deep_view())),
{
    let copy = crate::model::copy_strings(existing);
    let normal = normalize_tags(copy);
    let canonical = dedup_folded(&normal);
    normalize_with_canonical(&tags, &canonical)
}

/// Tags as a comma-separated entry.
pub fn tags_to_input(tags: &[String]) -> (r: String)
    ensures
        r@ == join_seq(tags.deep_view(), ", "@),
{
    join_strings(tags, ", ")
}

/// Normalising looks at the trimmed entries only.
proof fn lemma_normalized_by_trims(a: Seq<Seq<char>>, b: Seq<Seq<char>>, canonical: Seq<Seq<char>>)
    requires
        a.len() == b.len(),
        forall|i: int| 0 <= i < a.len() ==> trim_seq(#[trigger] a[i]) == trim_seq(b[i]),
    ensures
        normalized_with(a, canonical) == normalized_with(b, canonical),
    decreases a.len(),
{
    if a.len() > 0 {
        let ai = a.drop_last();
        let bi = b.drop_last();
        assert forall|i: int| 0 <= i < ai.len() implies trim_seq(#[trigger] ai[i]) == trim_seq(bi[i]) by {
            assert(ai[i] == a[i] && bi[i] == b[i]);
        }
        lemma_normalized_by_trims(ai, bi, canonical);
        assert(trim_seq(a.last()) == trim_seq(b.last())) by {
            assert(a.last() == a[a.len() - 1] && b.last() == b[b.len() - 1]);
        }
        let k = spec_fold_case(trim_seq(a.last()));
        if seen_before(ai, k) {
            let j = choose|j: int|
                0 <= j < ai.len() && trim_seq(ai[j]).len() > 0 && #[trigger] spec_fold_case(
                    trim_seq(ai[j]),
                ) == k;
            assert(trim_seq(bi[j]) == trim_seq(ai[j]));
            assert(seen_before(bi, k));
        }
        if seen_before(bi, k) {
            let j = choose|j: int|
                0 <= j < bi.len() && trim_seq(bi[j]).len() > 0 && #[trigger] spec_fold_case(
                    trim_seq(bi[j]),
                ) == k;
            assert(trim_seq(ai[j]) == trim_seq(bi[j]));
            assert(seen_before(ai, k));
        }
    }
}

/// Writing tags in normal form, none holding a comma, as a tag entry
/// (`tags_to_input`) and parsing the entry back (`parse_tags_input`) gives
/// the same tags.
pub proof fn lemma_tags_input_roundtrip(tags: Seq<Seq<char>>)
    requires
        is_normal_tag_list(tags),
        forall|i: int| 0 <= i < tags.len() ==> !(#[trigger] tags[i]).contains(','),
    ensures
        normalized(split_seq(join_seq(tags, ", "@), ',')) == tags,
{
    if tags.len() == 0 {
        let e = Seq::<char>::empty();
        assert(join_seq(tags, ", "@) == e);
        assert(split_seq(e, ',') == seq![e]);
        assert(seq![e].drop_last() =~= Seq::<Seq<char>>::empty());
        assert(crate::text::trim_start_seq(e) == e);
        assert(crate::text::trim_end_seq(e) == e);
        assert(trim_seq(e) == e);
        let one = seq![e];
        assert(one.last() == e);
        assert(normalized_with(one.drop_last(), Seq::<Seq<char>>::empty()) == Seq::<Seq<char>>::empty());
        assert(normalized_with(one, Seq::<Seq<char>>::empty()) == Seq::<Seq<char>>::empty());
        assert(normalized(seq![e]) =~= tags);
    } else {
        crate::text::lemma_split_joined(tags);
        let spaced = crate::text::comma_spaced(tags);
        assert forall|i: int| 0 <= i < spaced.len() implies trim_seq(#[trigger] spaced[i])
            == trim_seq(tags[i]) by {
            if i > 0 {
                crate::text::lemma_trim_leading_space(tags[i]);
            }
        }
        lemma_normalized_by_trims(spaced, tags, Seq::<Seq<char>>::empty());
        lemma_normal_tags_unchanged(tags);
    }
}

/// A note holds the tag.
pub open spec fn has_tag(note: NoteView, tag: Seq<char>) -> bool {
    exists|j: int| 0 <= j < note.tags.len() && tag_key(#[trigger] note.tags[j]) == tag_key(tag)
}

pub fn note_has_active_tag(note: &Note, active_tag: &str) -> (r: bool)
    ensures
        r == has_tag(note@, active_tag@),
{
    let ghost tv = note.tags.deep_view();
    let mut j: usize = 0;
    while j < note.tags.len()
        invariant
            j <= note.tags.len(),
            tv == note.tags.deep_view(),
            forall|k: int| 0 <= k < j ==> tag_key(#[trigger] tv[k]) != tag_key(active_tag@),
        decreases note.tags.len() - j,
    {
        if tags_equal(note.tags[j].as_str(), active_tag) {
            assert(tv[j as int] == note.tags@[j as int]@);
            assert(note@.tags[j as int] == tv[j as int]);
            assert(tag_key(note@.tags[j as int]) == tag_key(active_tag@));
            return true;
        }
        j += 1;
    }
    false
}

/// The tags without those that are the same tag as `removed`.
pub open spec fn without_tag(tags: Seq<Seq<char>>, removed: Seq<char>) -> Seq<Seq<char>>
    decreases tags.len(),
{
    if tags.len() == 0 {
        Seq::<Seq<char>>::empty()
    } else {
        let prev = without_tag(tags.drop_last(), removed);
        if tag_key(tags.last()) == tag_key(removed) {
            prev
        } else {
            prev.push(tags.last())
        }
    }
}

/// The tags without the given tag, normalised.
pub fn remove_tag(tags: &[String], tag_to_remove: &str) -> (r: Vec<String>)
    ensures
        r.deep_view() == normalized(without_tag(tags.deep_view(), tag_to_remove@)),
{
    let ghost tv = tags.deep_view();
    let mut kept: Vec<String> = Vec::new();
    let mut i: usize = 0;
    while i < tags.len()
        invariant
            i <= tags.len(),
            tv == tags.deep_view(),
            kept.deep_view() == without_tag(tv.take(i as int), tag_to_remove@),
        decreases tags.len() - i,
    {
        proof {
            assert(tv.take(i + 1).drop_last() =~= tv.take(i as int));
            assert(tv.take(i + 1).last() == tv[i as int]);
        }
        if !tags_equal(tags[i].as_str(), tag_to_remove) {
            kept.push(tags[i].clone());
            assert(kept.deep_view() =~= without_tag(tv.take(i + 1), tag_to_remove@));
        }
        i += 1;
    }
    assert(tv.take(tags.len() as int) =~= tv);
    normalize_tags(kept)
}

// ---------------------------------------------------------------------------
// Collection tags
// ---------------------------------------------------------------------------

/// Every tag of every note, in note order.
pub open spec fn all_tags(notes: Seq<Note>) -> Seq<Seq<char>>
    decreases notes.len(),
{
    if notes.len() == 0 {
        Seq::<Seq<char>>::empty()
    } else {
        all_tags(notes.drop_last()) + notes.last().tags.deep_view()
    }
}

/// The order in which tags are listed: by case-folded text, then by text.
pub open spec fn tag_order(a: Seq<char>, b: Seq<char>) -> bool {
    let (fa, fb) = (spec_fold_case(a), spec_fold_case(b));
    (lex_le(fa, fb) && fa != fb) || (fa == fb && lex_le(a, b))
}

pub proof fn lemma_tag_order_total()
    ensures
        total_ordering(|a: Seq<char>, b: Seq<char>| tag_order(a, b)),
{
    let r = |a: Seq<char>, b: Seq<char>| tag_order(a, b);
    assert forall|x: Seq<char>| #[trigger] r(x, x) by {
        lemma_lex_reflexive(x);
    }
    assert forall|x: Seq<char>, y: Seq<char>| #[trigger] r(x, y) && #[trigger] r(y, x) implies x
        == y by {
        let (fx, fy) = (spec_fold_case(x), spec_fold_case(y));
        if fx != fy {
            lemma_lex_antisymmetric(fx, fy);
        } else {
            lemma_lex_antisymmetric(x, y);
        }
    }
    assert forall|x: Seq<char>, y: Seq<char>, z: Seq<char>| #[trigger] r(x, y) && #[trigger] r(
        y,
        z,
    ) implies r(x, z) by {
        let (fx, fy, fz) = (spec_fold_case(x), spec_fold_case(y), spec_fold_case(z));
        if fx == fy && fy == fz {
            lemma_lex_transitive(x, y, z);
        } else {
            lemma_lex_reflexive(fx);
            lemma_lex_reflexive(fy);
            assert(lex_le(fx, fy));
            assert(lex_le(fy, fz));
            lemma_lex_transitive(fx, fy, fz);
            if fx == fz {
                lemma_lex_antisymmetric(fx, fy);
            }
        }
    }
    assert forall|x: Seq<char>, y: Seq<char>| #[trigger] r(x, y) || #[trigger] r(y, x) by {
        lemma_lex_total(spec_fold_case(x), spec_fold_case(y));
        lemma_lex_total(x, y);
    }
}

/// Two sequences sorted by the same total order with the same elements are equal.
pub proof fn lemma_sorted_unique<T>(a: Seq<T>, b: Seq<T>, leq: spec_fn(T, T) -> bool)
    requires
        total_ordering(leq),
        sorted_by(a, leq),
        sorted_by(b, leq),
        a.to_multiset() == b.to_multiset(),
    ensures
        a == b,
    decreases a.len(),
{
    a.to_multiset_ensures();
    b.to_multiset_ensures();
    assert(a.to_multiset().len() == a.len());
    assert(b.to_multiset().len() == b.len());
    if a.len() == 0 {
        assert(b.len() == 0);
        assert(a =~= b);
    } else {
        assert(b.len() == a.len());
        assert(a.contains(a[0]));
        assert(a.to_multiset().count(a[0]) > 0);
        assert(b.to_multiset().count(a[0]) > 0);
        assert(b.contains(a[0]));
        assert(b.contains(b[0]));
        assert(b.to_multiset().count(b[0]) > 0);
        assert(a.to_multiset().count(b[0]) > 0);
        assert(a.contains(b[0]));
        let ka = choose|k: int| 0 <= k < a.len() && a[k] == b[0];
        let kb = choose|k: int| 0 <= k < b.len() && b[k] == a[0];
        if ka > 0 {
            assert(leq(a[0], a[ka]));
        }
        if kb > 0 {
            assert(leq(b[0], b[kb]));
        }
        assert(a[0] == b[0]);
        assert(a.remove(0) =~= a.drop_first());
        assert(b.remove(0) =~= b.drop_first());
        assert(a.remove(0).to_multiset() == a.to_multiset().remove(a[0]));
        assert(b.remove(0).to_multiset() == b.to_multiset().remove(b[0]));
        assert(a.drop_first().to_multiset() =~= a.to_multiset().remove(a[0]));
        assert(b.drop_first().to_multiset() =~= b.to_multiset().remove(b[0]));
        assert forall|i: int, j: int| 0 <= i < j < a.drop_first().len() implies #[trigger] leq(
            a.drop_first()[i],
            a.drop_first()[j],
        ) by {
            assert(leq(a[i + 1], a[j + 1]));
        }
        assert forall|i: int, j: int| 0 <= i < j < b.drop_first().len() implies #[trigger] leq(
            b.drop_first()[i],
            b.drop_first()[j],
        ) by {
            assert(leq(b[i + 1], b[j + 1]));
        }
        lemma_sorted_unique(a.drop_first(), b.drop_first(), leq);
        assert forall|i: int| 0 <= i < a.len() implies a[i] == b[i] by {
            if i > 0 {
                assert(a[i] == a.drop_first()[i - 1]);
                assert(b[i] == b.drop_first()[i - 1]);
            }
        }
        assert(a =~= b);
    }
}

/// Inserting an element before the first one it does not follow keeps a
/// sorted sequence sorted, and adds the element to its multiset.
pub proof fn lemma_insert_sorted<T>(before: Seq<T>, p: int, x: T, leq: spec_fn(T, T) -> bool)
    requires
        total_ordering(leq),
        sorted_by(before, leq),
        0 <= p <= before.len(),
        forall|k: int| 0 <= k < p ==> #[trigger] leq(before[k], x),
        p < before.len() ==> !leq(before[p], x),
    ensures
        sorted_by(before.insert(p, x), leq),
        before.insert(p, x).to_multiset() == before.to_multiset().insert(x),
{
    let after = before.insert(p, x);
    if p < before.len() {
        assert(leq(x, before[p]));
    }
    assert forall|a: int, b: int| 0 <= a < b < after.len() implies #[trigger] leq(
        after[a],
        after[b],
    ) by {
        if b < p {
            assert(leq(before[a], before[b]));
        } else if b == p {
            assert(leq(before[a], x));
        } else if a < p {
            assert(leq(before[a], x));
            assert(leq(x, before[p]));
            if b - 1 > p {
                assert(leq(before[p], before[b - 1]));
            }
        } else if a == p {
            assert(leq(x, before[p]));
            if b - 1 > p {
                assert(leq(before[p], before[b - 1]));
            }
        } else {
            assert(leq(before[a - 1], before[b - 1]));
        }
    }
    assert(after.remove(p) =~= before);
    assert(after[p] == x);
    after.to_multiset_ensures();
    before.to_multiset_ensures();
    assert(after.remove(p).to_multiset() == after.to_multiset().remove(x));
    assert(after.to_multiset().count(x) > 0);
    assert(after.to_multiset() =~= before.to_multiset().insert(x));
}

/// The distinct tags of a collection, in listing order.
pub open spec fn collection_tags(notes: Seq<Note>) -> Seq<Seq<char>> {
    normalized(all_tags(notes)).sort_by(|a: Seq<char>, b: Seq<char>| tag_order(a, b))
}

fn flatten_tags(notes: &[Note]) -> (r: Vec<String>)
    ensures
        r.deep_view() == all_tags(notes@),
{
    let mut r: Vec<String> = Vec::new();
    let mut i: usize = 0;
    while i < notes.len()
        invariant
            i <= notes.len(),
            r.deep_view() == all_tags(notes@.take(i as int)),
        decreases notes.len() - i,
    {
        proof {
            assert(notes@.take(i + 1).drop_last() =~= notes@.take(i as int));
            assert(notes@.take(i + 1).last() == notes@[i as int]);
        }
        let ghost before = r.deep_view();
        let tags = &notes[i].tags;
        let mut k: usize = 0;
        while k < tags.len()
            invariant
                k <= tags.len(),
                r.deep_view() == before + tags.deep_view().take(k as int),
            decreases tags.len() - k,
        {
            let ghost prev = r.deep_view();
            r.push(tags[k].clone());
            proof {
                assert(r.deep_view() =~= prev.push(tags@[k as int]@));
                assert(tags.deep_view().take(k + 1) =~= tags.deep_view().take(k as int).push(
                    tags@[k as int]@,
                ));
            }
            k += 1;
            assert(r.deep_view() =~= before + tags.deep_view().take(k as int));
        }
        assert(tags.deep_view().take(tags.len() as int) =~= tags.deep_view());
        i += 1;
    }
    assert(notes@.take(notes.len() as int) =~= notes@);
    r
}

fn tag_order_exec(a: &String, b: &String) -> (r: bool)
    ensures
        r == tag_order(a@, b@),
{
    let fa = fold_chars(a.as_str());
    let fb = fold_chars(b.as_str());
    let same = chars_equal(&fa, &fb);
    if same {
        let av = chars_of(a.as_str());
        let bv = chars_of(b.as_str());
        lex_le_chars(&av, &bv)
    } else {
        lex_le_chars(&fa, &fb)
    }
}

/// The list sorted by `tag_order`.
fn sort_tags(tags: Vec<String>) -> (r: Vec<String>)
    ensures
        r.deep_view() == tags.deep_view().sort_by(|a: Seq<char>, b: Seq<char>| tag_order(a, b)),
{
    broadcast use vstd::seq_lib::group_to_multiset_ensures;

    let ghost leq = |a: Seq<char>, b: Seq<char>| tag_order(a, b);
    let ghost src = tags.deep_view();
    proof {
        lemma_tag_order_total();
    }
    let mut out: Vec<String> = Vec::new();
    let mut i: usize = 0;
    while i < tags.len()
        invariant
            i <= tags.len(),
            src == tags.deep_view(),
            leq == (|a: Seq<char>, b: Seq<char>| tag_order(a, b)),
            total_ordering(leq),
            sorted_by(out.deep_view(), leq),
            out.deep_view().to_multiset() == src.take(i as int).to_multiset(),
        decreases tags.len() - i,
    {
        let x = tags[i].clone();
        let mut p: usize = 0;
        while p < out.len() && tag_order_exec(&out[p], &x)
            invariant
                p <= out.len(),
                leq == (|a: Seq<char>, b: Seq<char>| tag_order(a, b)),
                total_ordering(leq),
                forall|k: int| 0 <= k < p ==> #[trigger] leq(out.deep_view()[k], x@),
            decreases out.len() - p,
        {
            assert(out.deep_view()[p as int] == out@[p as int]@);
            p += 1;
        }
        proof {
            if p < out.len() {
                assert(out.deep_view()[p as int] == out@[p as int]@);
            }
        }
        let ghost before = out.deep_view();
        out.insert(p, x);
        proof {
            assert(out.deep_view() =~= before.insert(p as int, x@));
            let after = out.deep_view();
            if p < before.len() {
                assert(!leq(before[p as int], x@));
                assert(leq(x@, before[p as int]));
            }
            assert forall|a: int, b: int| 0 <= a < b < after.len() implies #[trigger] leq(
                after[a],
                after[b],
            ) by {
                if b < p {
                    assert(leq(before[a], before[b]));
                } else if b == p {
                    assert(leq(before[a], x@));
                } else if a < p {
                    assert(leq(before[a], x@));
                    assert(leq(x@, before[p as int]));
                    if b - 1 > p {
                        assert(leq(before[p as int], before[b - 1]));
                    }
                } else if a == p {
                    assert(leq(x@, before[p as int]));
                    if b - 1 > p {
                        assert(leq(before[p as int], before[b - 1]));
                    }
                } else {
                    assert(leq(before[a - 1], before[b - 1]));
                }
            }
            assert(after.remove(p as int) =~= before);
            assert(after[p as int] == x@);
            after.to_multiset_ensures();
            before.to_multiset_ensures();
            src.take(i as int).to_multiset_ensures();
            assert(after.remove(p as int).to_multiset() == after.to_multiset().remove(x@));
            assert(after.to_multiset().count(x@) > 0);
            assert(after.to_multiset() =~= before.to_multiset().insert(x@));
            assert(src.take(i + 1) =~= src.take(i as int).push(x@));
        }
        i += 1;
    }
    proof {
        assert(src.take(tags.len() as int) =~= src);
        src.lemma_sort_by_ensures(leq);
        lemma_sorted_unique(out.deep_view(), src.sort_by(leq), leq);
    }
    out
}

/// The distinct tags of the notes, trimmed, sorted by case-folded text.
pub fn collect_note_tags(notes: &[Note]) -> (r: Vec<String>)
    ensures
        r.deep_view() == collection_tags(notes@),
{
    let flat = flatten_tags(notes);
    let unique = normalize_tags(flat);
    sort_tags(unique)
}

// ---------------------------------------------------------------------------
// Suggestions
// ---------------------------------------------------------------------------

/// A tag that the entry can be completed with, and the entry after completion.
#[derive(Debug, Clone, PartialEq, Eq)]
pub struct TagSuggestion {
    pub label: String,
    pub completed_input: String,
}

/// The text before and after the last comma (`str::rsplit_once(',')`).
pub open spec fn split_at_last_comma(s: Seq<char>) -> Option<(Seq<char>, Seq<char>)> {
    if exists|i: int| 0 <= i < s.len() && s[i] == ',' {
        let i = choose|i: int|
            0 <= i < s.len() && s[i] == ',' && forall|k: int| i < k < s.len() ==> s[k] != ',';
        Some((s.take(i), s.skip(i + 1)))
    } else {
        None
    }
}

/// The tag being typed: the trimmed text after the last comma.
pub open spec fn current_fragment(input: Seq<char>) -> Seq<char> {
    trim_seq(
        match split_at_last_comma(input) {
            Some(parts) => parts.1,
            None => input,
        },
    )
}

/// The entry once the tag being typed is replaced by `tag`.
pub open spec fn completed_input_seq(input: Seq<char>, tag: Seq<char>) -> Seq<char> {
    let prefix = match split_at_last_comma(input) {
        Some(parts) => normalized(split_seq(parts.0, ',')),
        None => Seq::<Seq<char>>::empty(),
    };
    join_seq(normalized(prefix.push(tag)), ", "@)
}

/// Some tag of the note has the given identity.
pub open spec fn holds_tag_key(n: NoteView, key: Seq<char>) -> bool {
    exists|j: int| 0 <= j < n.tags.len() && tag_key(#[trigger] n.tags[j]) == key
}

/// The selected note already holds a tag with the case-folded text of `tag`.
pub open spec fn already_on_note(selected: Option<NoteView>, tag: Seq<char>) -> bool {
    match selected {
        Some(n) => holds_tag_key(n, spec_fold_case(tag)),
        None => false,
    }
}

proof fn lemma_already_on_note(n: NoteView, tag: Seq<char>, k: int)
    requires
        0 <= k < n.tags.len(),
        tag_key(n.tags[k]) == spec_fold_case(tag),
    ensures
        already_on_note(Some(n), tag),
{
}

/// The collection tags offered while typing `input`: not already on the
/// selected note, and starting with the case-folded fragment being typed.
pub open spec fn suggestions_from(
    tags: Seq<Seq<char>>,
    selected: Option<NoteView>,
    input: Seq<char>,
) -> Seq<(Seq<char>, Seq<char>)>
    decreases tags.len(),
{
    if tags.len() == 0 {
        Seq::empty()
    } else {
        let prev = suggestions_from(tags.drop_last(), selected, input);
        let tag = tags.last();
        let fragment = spec_fold_case(current_fragment(input));
        if !already_on_note(selected, tag) && (fragment.len() == 0 || seq_starts_with(
            spec_fold_case(tag),
            fragment,
        )) {
            prev.push((tag, completed_input_seq(input, tag)))
        } else {
            prev
        }
    }
}

/// Suggestions as their labels and completed entries.
pub open spec fn suggestion_views(s: Seq<TagSuggestion>) -> Seq<(Seq<char>, Seq<char>)> {
    s.map_values(|t: TagSuggestion| (t.label@, t.completed_input@))
}

/// Position of the last comma of the entry, if any.
fn last_comma(v: &Vec<char>) -> (r: Option<usize>)
    ensures
        match r {
            Some(i) => split_at_last_comma(v@) == Some((v@.take(i as int), v@.skip(i + 1))) && i
                < v.len(),
            None => split_at_last_comma(v@) is None,
        },
{
    let mut i = v.len();
    while i > 0
        invariant
            i <= v.len(),
            forall|k: int| i <= k < v.len() ==> v@[k] != ',',
        decreases i,
    {
        if v[i - 1] == ',' {
            proof {
                let j = choose|j: int|
                    0 <= j < v@.len() && v@[j] == ',' && forall|k: int|
                        j < k < v@.len() ==> v@[k] != ',';
                assert(v@[i - 1] == ',');
                if j < i - 1 {
                } else if j > i - 1 {
                }
                assert(j == i - 1);
            }
            return Some(i - 1);
        }
        i -= 1;
    }
    None
}

fn completed_input_with_tag(input: &Vec<char>, tag: &String) -> (r: String)
    ensures
        r@ == completed_input_seq(input@, tag@),
{
    let mut tags: Vec<String> = match last_comma(input) {
        Some(i) => {
            let prefix = string_of(input, 0, i);
            let pv = chars_of(prefix.as_str());
            let pieces = split_on(&pv, ',');
            assert(pv@ =~= input@.take(i as int));
            normalize_tags(pieces)
        },
        None => {
            let empty: Vec<String> = Vec::new();
            assert(empty.deep_view() =~= Seq::<Seq<char>>::empty());
            empty
        },
    };
    let ghost before = tags.deep_view();
    tags.push(tag.clone());
    assert(tags.deep_view() =~= before.push(tag@));
    let normal = normalize_tags(tags);
    tags_to_input(&normal)
}

/// Collection tags to offer while `input` is being typed for the selected note.
pub fn suggest_existing_tags(notes: &[Note], selected_note: Option<&Note>, input: &str) -> (r:
    Vec<TagSuggestion>)
    ensures
        suggestion_views(r@) == suggestions_from(
            collection_tags(notes@),
            match selected_note {
                Some(n) => Some(n@),
                None => None,
            },
            input@,
        ),
{
    let ghost sel = match selected_note {
        Some(n) => Some(n@),
        None => None::<NoteView>,
    };
    let input_chars = chars_of(input);
    let fragment_end = match last_comma(&input_chars) {
        Some(i) => i + 1,
        None => 0,
    };
    let (flo, fhi) = trim_bounds(&input_chars, fragment_end, input_chars.len());
    let fragment = string_of(&input_chars, flo, fhi);
    proof {
        if fragment_end > 0 {
            assert(input@.skip(fragment_end as int) =~= input@.subrange(
                fragment_end as int,
                input@.len() as int,
            ));
        } else {
            assert(input@ =~= input@.subrange(0, input@.len() as int));
        }
    }
    let folded_fragment = fold_chars(fragment.as_str());
    let tags = collect_note_tags(notes);
    let ghost tv = tags.deep_view();
    let mut out: Vec<TagSuggestion> = Vec::new();
    let mut i: usize = 0;
    while i < tags.len()
        invariant
            i <= tags.len(),
            tv == tags.deep_view(),
            tv == collection_tags(notes@),
            folded_fragment@ == spec_fold_case(current_fragment(input@)),
            input_chars@ == input@,
            sel == match selected_note {
                Some(n) => Some(n@),
                None => None::<NoteView>,
            },
            suggestion_views(out@) == suggestions_from(tv.take(i as int), sel, input@),
        decreases tags.len() - i,
    {
        proof {
            assert(tv.take(i + 1).drop_last() =~= tv.take(i as int));
            assert(tv.take(i + 1).last() == tags@[i as int]@);
        }
        let tag = &tags[i];
        let tag_folded = fold_chars(tag.as_str());
        let mut excluded = false;
        match selected_note {
            Some(n) => {
                let ghost ntv = n.tags.deep_view();
                let mut j: usize = 0;
                while j < n.tags.len()
                    invariant
                        j <= n.tags.len(),
                        ntv == n.tags.deep_view(),
                        tag_folded@ == spec_fold_case(tag@),
                        excluded == exists|k: int|
                            0 <= k < j && tag_key(#[trigger] ntv[k]) == spec_fold_case(tag@),
                    decreases n.tags.len() - j,
                {
                    let key = tag_key_chars(n.tags[j].as_str());
                    if chars_equal(&key, &tag_folded) {
                        assert(ntv[j as int] == n.tags@[j as int]@);
                        excluded = true;
                    }
                    proof {
                        assert(ntv[j as int] == n.tags@[j as int]@);
                    }
                    j += 1;
                }
                proof {
                    if excluded {
                        let k = choose|k: int|
                            0 <= k < j && tag_key(#[trigger] ntv[k]) == spec_fold_case(tag@);
                        assert(n@.tags.len() == n.tags.len());
                        assert(n@.tags[k] == ntv[k]);
                        assert(tag_key(n@.tags[k]) == spec_fold_case(tag@));
                        assert(0 <= k < n@.tags.len());
                        lemma_already_on_note(n@, tag@, k);
                    } else {
                        assert forall|k: int| 0 <= k < n@.tags.len() implies tag_key(
                            #[trigger] n@.tags[k],
                        ) != spec_fold_case(tag@) by {
                            assert(n@.tags[k] == ntv[k]);
                        }
                        assert(!already_on_note(Some(n@), tag@));
                    }
                    assert(excluded == already_on_note(Some(n@), tag@));
                    assert(excluded == already_on_note(sel, tag@));
                }
            },
            None => {
                assert(sel == None::<NoteView>);
            },
        }
        assert(excluded == already_on_note(sel, tag@));
        assert(tag@ == tv.take(i + 1).last());
        let shown = !excluded && (folded_fragment.len() == 0 || starts_with_chars(
            &tag_folded,
            &folded_fragment,
        ));
        if shown {
            let completed = completed_input_with_tag(&input_chars, tag);
            let ghost before = out@;
            out.push(TagSuggestion { label: tag.clone(), completed_input: completed });
            assert(suggestion_views(out@) =~= suggestion_views(before).push(
                (tag@, completed_input_seq(input@, tag@)),
            ));
        }
        i += 1;
    }
    assert(tv.take(tags.len() as int) =~= tv);
    out
}

// ---------------------------------------------------------------------------
// Collection cleanup
// ---------------------------------------------------------------------------

/// A note whose tags a cleanup rewrites: its tags before and after.
#[derive(Debug, Clone, PartialEq, Eq)]
pub struct TagCleanupChange {
    pub note_id: u128,
    pub before: Vec<String>,
    pub after: Vec<String>,
}

/// The notes whose tags a collection cleanup rewrites.
#[derive(Debug, Clone, PartialEq, Eq)]
pub struct TagCleanupPlan {
    pub changes: Vec<TagCleanupChange>,
}

pub open spec fn change_view(c: TagCleanupChange) -> (u128, Seq<Seq<char>>, Seq<Seq<char>>) {
    (c.note_id, c.before.deep_view(), c.after.deep_view())
}

pub open spec fn changes_view(cs: Seq<TagCleanupChange>) -> Seq<
    (u128, Seq<Seq<char>>, Seq<Seq<char>>),
> {
    cs.map_values(|c: TagCleanupChange| change_view(c))
}

impl TagCleanupPlan {
    pub fn is_empty(&self) -> (r: bool)
        ensures
            r == (self.changes@.len() == 0),
    {
        self.changes.len() == 0
    }
}

/// The spelling the collection uses for each tag: the first one met.
pub open spec fn canonical_tags(notes: Seq<Note>) -> Seq<Seq<char>> {
    normalized(all_tags(notes))
}

/// The changes a cleanup makes: each note, in order, whose tags differ from
/// their normalisation with the collection's spellings.
pub open spec fn cleanup_changes(notes: Seq<NoteView>, canonical: Seq<Seq<char>>) -> Seq<
    (u128, Seq<Seq<char>>, Seq<Seq<char>>),
>
    decreases notes.len(),
{
    if notes.len() == 0 {
        Seq::empty()
    } else {
        let prev = cleanup_changes(notes.drop_last(), canonical);
        let n = notes.last();
        let after = normalized_with(n.tags, canonical);
        if n.tags != after {
            prev.push((n.id, n.tags, after))
        } else {
            prev
        }
    }
}

/// Whether two tag lists hold the same texts.
pub fn tag_lists_equal(a: &Vec<String>, b: &Vec<String>) -> (r: bool)
    ensures
        r == (a.deep_view() == b.deep_view()),
{
    if a.len() != b.len() {
        assert(a.deep_view().len() != b.deep_view().len());
        return false;
    }
    let mut i: usize = 0;
    while i < a.len()
        invariant
            i <= a.len(),
            a.len() == b.len(),
            forall|k: int| 0 <= k < i ==> a.deep_view()[k] == b.deep_view()[k],
        decreases a.len() - i,
    {
        if a[i] != b[i] {
            assert(a.deep_view()[i as int] != b.deep_view()[i as int]);
            return false;
        }
        i += 1;
    }
    assert(a.deep_view() =~= b.deep_view());
    true
}

/// The spelling the collection uses for each tag: the first one met.
fn collection_canonical_tags(notes: &[Note]) -> (r: Vec<String>)
    ensures
        r.deep_view() == canonical_tags(notes@),
{
    let flat = flatten_tags(notes);
    normalize_tags(flat)
}

/// The changes that would make every note use the collection's spelling of
/// its tags, without repeats or blanks. Nothing is changed.
pub fn plan_collection_tag_cleanup(notes: &[Note]) -> (r: TagCleanupPlan)
    ensures
        changes_view(r.changes@) == cleanup_changes(notes_view(notes@), canonical_tags(notes@)),
{
    let canonical = collection_canonical_tags(notes);
    let ghost nv = notes_view(notes@);
    let mut changes: Vec<TagCleanupChange> = Vec::new();
    let mut i: usize = 0;
    while i < notes.len()
        invariant
            i <= notes.len(),
            nv == notes_view(notes@),
            canonical.deep_view() == canonical_tags(notes@),
            changes_view(changes@) == cleanup_changes(nv.take(i as int), canonical.deep_view()),
        decreases notes.len() - i,
    {
        proof {
            assert(nv.take(i + 1).drop_last() =~= nv.take(i as int));
            assert(nv.take(i + 1).last() == notes@[i as int]@);
        }
        let note = &notes[i];
        let after = normalize_with_canonical(&note.tags, &canonical);
        if !tag_lists_equal(&note.tags, &after) {
            let ghost before = changes@;
            changes.push(
                TagCleanupChange { note_id: note.id, before: copy_strings(&note.tags), after },
            );
            assert(changes_view(changes@) =~= changes_view(before).push(
                (note.id, note@.tags, normalized_with(note@.tags, canonical.deep_view())),
            ));
        }
        i += 1;
    }
    assert(nv.take(notes.len() as int) =~= nv);
    TagCleanupPlan { changes }
}

/// One change applied: the first note with the change's identifier takes
/// the new tags, when its tags are still those the change saw and differ
/// from the new ones.
pub open spec fn cleanup_applies(notes: Seq<NoteView>, c: (u128, Seq<Seq<char>>, Seq<Seq<char>>)) -> bool {
    match index_of_id(notes, c.0) {
        Some(i) => notes[i].tags == c.1 && notes[i].tags != c.2,
        None => false,
    }
}

pub open spec fn cleanup_step(notes: Seq<NoteView>, c: (u128, Seq<Seq<char>>, Seq<Seq<char>>)) -> Seq<NoteView> {
    if cleanup_applies(notes, c) {
        let i = index_of_id(notes, c.0)->0;
        notes.update(
            i,
            NoteView {
                id: notes[i].id,
                title: notes[i].title,
                content: notes[i].content,
                created: notes[i].created,
                last_modified: notes[i].last_modified,
                tags: c.2,
                is_pinned: notes[i].is_pinned,
            },
        )
    } else {
        notes
    }
}

/// The notes after the changes are applied in order, and the identifiers of
/// the notes changed.
pub open spec fn cleanup_applied(
    notes: Seq<NoteView>,
    cs: Seq<(u128, Seq<Seq<char>>, Seq<Seq<char>>)>,
) -> (Seq<NoteView>, Seq<u128>)
    decreases cs.len(),
{
    if cs.len() == 0 {
        (notes, Seq::empty())
    } else {
        let (ns, ids) = cleanup_applied(notes, cs.drop_last());
        let c = cs.last();
        if cleanup_applies(ns, c) {
            (cleanup_step(ns, c), ids.push(c.0))
        } else {
            (ns, ids)
        }
    }
}

/// Applies a cleanup plan, skipping notes changed since the plan was made;
/// returns the identifiers of the notes changed.
#[verifier::rlimit(40)]
pub fn apply_tag_cleanup_plan(notes: &mut Vec<Note>, plan: &TagCleanupPlan) -> (r: Vec<u128>)
    ensures
        notes_view(final(notes)@) == cleanup_applied(
            notes_view(old(notes)@),
            changes_view(plan.changes@),
        ).0,
        r@ == cleanup_applied(notes_view(old(notes)@), changes_view(plan.changes@)).1,
{
    let ghost cs = changes_view(plan.changes@);
    let ghost start = notes_view(notes@);
    let mut changed: Vec<u128> = Vec::new();
    let mut i: usize = 0;
    while i < plan.changes.len()
        invariant
            i <= plan.changes.len(),
            cs == changes_view(plan.changes@),
            start == notes_view(old(notes)@),
            notes_view(notes@) == cleanup_applied(start, cs.take(i as int)).0,
            changed@ == cleanup_applied(start, cs.take(i as int)).1,
        decreases plan.changes.len() - i,
    {
        let ghost nv = notes_view(notes@);
        let ghost c = cs[i as int];
        proof {
            assert(cs.take(i + 1).drop_last() =~= cs.take(i as int));
            assert(cs.take(i + 1).last() == c);
            assert(c == change_view(plan.changes@[i as int]));
        }
        let change = &plan.changes[i];
        match find_note_index(notes, change.note_id) {
            Some(k) => {
                assert(nv[k as int] == notes@[k as int]@);
                let same_before = tag_lists_equal(&notes[k].tags, &change.before);
                let same_after = tag_lists_equal(&notes[k].tags, &change.after);
                assert(cleanup_applies(nv, c) == (same_before && !same_after));
                if same_before && !same_after {
                    let mut note = notes[k].duplicate();
                    note.tags = copy_strings(&change.after);
                    proof {
                        lemma_notes_view_update(notes@, k as int, note);
                    }
                    notes.set(k, note);
                    changed.push(change.note_id);
                    assert(notes_view(notes@) =~= cleanup_step(nv, c));
                }
            },
            None => {
                assert(!cleanup_applies(nv, c));
            },
        }
        i += 1;
    }
    assert(cs.take(plan.changes.len() as int) =~= cs);
    changed
}


/// What each offered tag satisfies, and that every tag satisfying it is
/// offered.
proof fn lemma_suggestions_from_members(
    tags: Seq<Seq<char>>,
    selected: Option<NoteView>,
    input: Seq<char>,
)
    ensures
        forall|k: int|
            #![trigger suggestions_from(tags, selected, input)[k]]
            0 <= k < suggestions_from(tags, selected, input).len() ==> {
                let (label, completed) = suggestions_from(tags, selected, input)[k];
                &&& tags.contains(label)
                &&& completed == completed_input_seq(input, label)
                &&& !already_on_note(selected, label)
                &&& (spec_fold_case(current_fragment(input)).len() == 0 || seq_starts_with(
                    spec_fold_case(label),
                    spec_fold_case(current_fragment(input)),
                ))
            },
        forall|j: int|
            #![trigger tags[j]]
            0 <= j < tags.len() && !already_on_note(selected, tags[j]) && (spec_fold_case(
                current_fragment(input),
            ).len() == 0 || seq_starts_with(
                spec_fold_case(tags[j]),
                spec_fold_case(current_fragment(input)),
            )) ==> exists|k: int|
                0 <= k < suggestions_from(tags, selected, input).len()
                    && (#[trigger] suggestions_from(tags, selected, input)[k]).0 == tags[j],
    decreases tags.len(),
{
    if tags.len() > 0 {
        let rest = tags.drop_last();
        let prev = suggestions_from(rest, selected, input);
        let r = suggestions_from(tags, selected, input);
        lemma_suggestions_from_members(rest, selected, input);
        assert(forall|k: int| 0 <= k < prev.len() ==> r[k] == prev[k]);
        assert forall|k: int| 0 <= k < r.len() implies tags.contains(#[trigger] r[k].0) by {
            if k < prev.len() {
                assert(r[k] == prev[k]);
                let w = choose|w: int| 0 <= w < rest.len() && rest[w] == prev[k].0;
                assert(tags[w] == rest[w]);
            } else {
                assert(tags[tags.len() - 1] == r[k].0);
            }
        }
        assert forall|j: int|
            0 <= j < tags.len() && !already_on_note(selected, #[trigger] tags[j]) && (
            spec_fold_case(current_fragment(input)).len() == 0 || seq_starts_with(
                spec_fold_case(tags[j]),
                spec_fold_case(current_fragment(input)),
            )) implies exists|k: int| 0 <= k < r.len() && (#[trigger] r[k]).0 == tags[j] by {
            if j < rest.len() {
                assert(rest[j] == tags[j]);
                let k = choose|k: int| 0 <= k < prev.len() && (#[trigger] prev[k]).0 == rest[j];
                assert(r[k] == prev[k]);
            } else {
                assert(r[r.len() - 1].0 == tags[j]);
            }
        }
    }
}

/// No tag is offered for a note that already holds it: every suggestion made
/// while typing tags for the selected note `n` is a collection tag whose
/// case-folded text differs from the trimmed, case-folded text of each tag of
/// `n`, and starts with the case-folded fragment being typed; and every
/// collection tag that meets both conditions is offered.
pub proof fn lemma_suggestions_skip_tags_of_note(
    tags: Seq<Seq<char>>,
    n: NoteView,
    input: Seq<char>,
)
    ensures
        forall|k: int, j: int|
            0 <= k < suggestions_from(tags, Some(n), input).len() && 0 <= j < n.tags.len()
                ==> tag_key(#[trigger] n.tags[j]) != spec_fold_case(
                (#[trigger] suggestions_from(tags, Some(n), input)[k]).0,
            ),
        forall|k: int|
            0 <= k < suggestions_from(tags, Some(n), input).len() ==> tags.contains(
                (#[trigger] suggestions_from(tags, Some(n), input)[k]).0,
            ) && (spec_fold_case(current_fragment(input)).len() == 0 || seq_starts_with(
                spec_fold_case(suggestions_from(tags, Some(n), input)[k].0),
                spec_fold_case(current_fragment(input)),
            )),
        forall|i: int|
            0 <= i < tags.len() && (forall|j: int|
                0 <= j < n.tags.len() ==> tag_key(#[trigger] n.tags[j]) != spec_fold_case(
                    tags[i],
                )) && (spec_fold_case(current_fragment(input)).len() == 0 || seq_starts_with(
                spec_fold_case(#[trigger] tags[i]),
                spec_fold_case(current_fragment(input)),
            )) ==> exists|k: int|
                0 <= k < suggestions_from(tags, Some(n), input).len()
                    && (#[trigger] suggestions_from(tags, Some(n), input)[k]).0 == tags[i],
{
    lemma_suggestions_from_members(tags, Some(n), input);
    let r = suggestions_from(tags, Some(n), input);
    assert forall|k: int, j: int| 0 <= k < r.len() && 0 <= j < n.tags.len() implies tag_key(
        #[trigger] n.tags[j],
    ) != spec_fold_case((#[trigger] r[k]).0) by {
        assert(!already_on_note(Some(n), r[k].0));
    }
    assert forall|i: int|
        0 <= i < tags.len() && (forall|j: int|
            0 <= j < n.tags.len() ==> tag_key(#[trigger] n.tags[j]) != spec_fold_case(tags[i]))
            && (spec_fold_case(current_fragment(input)).len() == 0 || seq_starts_with(
            spec_fold_case(#[trigger] tags[i]),
            spec_fold_case(current_fragment(input)),
        )) implies exists|k: int| 0 <= k < r.len() && (#[trigger] r[k]).0 == tags[i] by {
        assert(!already_on_note(Some(n), tags[i]));
    }
}

} // verus!
