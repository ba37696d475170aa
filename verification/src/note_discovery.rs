//! The note list: which notes a search and an active tag keep, in which
//! order, and what each row shows.
use vstd::prelude::*;
use vstd::relations::{sorted_by, total_ordering};
use crate::highlight::{
    highlight_for_terms, highlight_segments_for_terms, match_snippet, match_snippet_for_terms,
};
use crate::model::{
    Note, NoteView, copy_strings, display_title_seq, earlier, find_note_index, index_of_id,
    notes_view, preview_seq, utc_format,
};
use crate::search_query::{
    SearchQuery, TermSpec, all_terms_match, parse_terms, preview_terms, tag_terms, title_terms,
};
use crate::tag_rules::{
    has_tag, lemma_insert_sorted, lemma_sorted_unique, note_has_active_tag, tag_key,
};
use crate::text::{trim, trim_seq};

verus! {

broadcast use vstd::string::group_string_axioms;

/// A piece of displayed text, marked when it matches the search.
#[derive(Debug, Clone, PartialEq, Eq, Hash)]
pub struct HighlightSegment {
    pub text: String,
    pub is_match: bool,
}

/// The displayed pieces of a highlighted text.
pub open spec fn segs_view(v: Seq<HighlightSegment>) -> Seq<(Seq<char>, bool)> {
    v.map_values(|s: HighlightSegment| (s.text@, s.is_match))
}

/// The highlighted texts of a list of texts.
pub open spec fn seg_lists_view(v: Seq<Vec<HighlightSegment>>) -> Seq<Seq<(Seq<char>, bool)>> {
    v.map_values(|s: Vec<HighlightSegment>| segs_view(s@))
}

/// Everything a row of the note list shows, as mathematical values.
pub struct RowView {
    pub id: u128,
    pub display_title: Seq<char>,
    pub display_date: Seq<char>,
    pub preview: Seq<char>,
    pub tags: Seq<Seq<char>>,
    pub is_pinned: bool,
    pub is_selected: bool,
    pub title_highlights: Seq<(Seq<char>, bool)>,
    pub preview_highlights: Seq<(Seq<char>, bool)>,
    pub tag_highlights: Seq<Seq<(Seq<char>, bool)>>,
    pub uses_match_snippet: bool,
}

/// What a change of which tells a list to draw a row again.
#[derive(Debug, Clone, PartialEq, Eq, Hash)]
pub struct NoteListRenderKey {
    pub id: u128,
    pub display_title: String,
    pub display_date: String,
    pub preview: String,
    pub tags: Vec<String>,
    pub is_pinned: bool,
    pub is_selected: bool,
    pub title_highlights: Vec<HighlightSegment>,
    pub preview_highlights: Vec<HighlightSegment>,
    pub tag_highlights: Vec<Vec<HighlightSegment>>,
    pub uses_match_snippet: bool,
}

/// One row of the note list, ready to draw.
#[derive(Debug, Clone, PartialEq, Eq)]
pub struct NoteListItem {
    pub id: u128,
    pub display_title: String,
    pub display_date: String,
    pub preview: String,
    pub tags: Vec<String>,
    pub is_pinned: bool,
    pub is_selected: bool,
    pub title_highlights: Vec<HighlightSegment>,
    pub preview_highlights: Vec<HighlightSegment>,
    pub tag_highlights: Vec<Vec<HighlightSegment>>,
    pub uses_match_snippet: bool,
}

impl View for NoteListItem {
    type V = RowView;

    open spec fn view(&self) -> RowView {
        RowView {
            id: self.id,
            display_title: self.display_title@,
            display_date: self.display_date@,
            preview: self.preview@,
            tags: self.tags.deep_view(),
            is_pinned: self.is_pinned,
            is_selected: self.is_selected,
            title_highlights: segs_view(self.title_highlights@),
            preview_highlights: segs_view(self.preview_highlights@),
            tag_highlights: seg_lists_view(self.tag_highlights@),
            uses_match_snippet: self.uses_match_snippet,
        }
    }
}

impl View for NoteListRenderKey {
    type V = RowView;

    open spec fn view(&self) -> RowView {
        RowView {
            id: self.id,
            display_title: self.display_title@,
            display_date: self.display_date@,
            preview: self.preview@,
            tags: self.tags.deep_view(),
            is_pinned: self.is_pinned,
            is_selected: self.is_selected,
            title_highlights: segs_view(self.title_highlights@),
            preview_highlights: segs_view(self.preview_highlights@),
            tag_highlights: seg_lists_view(self.tag_highlights@),
            uses_match_snippet: self.uses_match_snippet,
        }
    }
}

/// Whether the selected note shows in the list.
#[derive(Debug, Clone, Copy, PartialEq, Eq, Structural)]
pub enum SelectedNoteVisibility {
    NoSelection,
    Visible,
    HiddenByFilter,
}

/// The note list as displayed.
#[derive(Debug, Clone, PartialEq, Eq)]
pub struct NoteListProjection {
    pub rows: Vec<NoteListItem>,
    pub has_active_filter: bool,
    pub selected_note_visibility: SelectedNoteVisibility,
}

pub struct ProjectionView {
    pub rows: Seq<RowView>,
    pub has_active_filter: bool,
    pub selected_note_visibility: SelectedNoteVisibility,
}

pub open spec fn rows_view(rows: Seq<NoteListItem>) -> Seq<RowView> {
    rows.map_values(|r: NoteListItem| r@)
}

impl View for NoteListProjection {
    type V = ProjectionView;

    open spec fn view(&self) -> ProjectionView {
        ProjectionView {
            rows: rows_view(self.rows@),
            has_active_filter: self.has_active_filter,
            selected_note_visibility: self.selected_note_visibility,
        }
    }
}

// ---------------------------------------------------------------------------
// What a row shows
// ---------------------------------------------------------------------------

/// Some piece of the highlighted text matches.
pub open spec fn has_match(segs: Seq<(Seq<char>, bool)>) -> bool {
    exists|k: int| 0 <= k < segs.len() && (#[trigger] segs[k]).1
}

/// Some piece of some highlighted tag matches.
pub open spec fn any_has_match(lists: Seq<Seq<(Seq<char>, bool)>>) -> bool {
    exists|j: int| 0 <= j < lists.len() && has_match(#[trigger] lists[j])
}

/// The tags, each highlighted with the terms.
pub open spec fn tags_highlighted(tags: Seq<Seq<char>>, terms: Seq<Seq<char>>) -> Seq<
    Seq<(Seq<char>, bool)>,
> {
    tags.map_values(|t: Seq<char>| highlight_for_terms(t, terms))
}

/// The preview of a row, its highlights, and whether it is a match snippet:
/// the normal preview when the title or a tag already shows a match, else a
/// snippet around the best match in the content when there is one.
pub open spec fn row_preview(
    note: NoteView,
    explained: bool,
    preview_terms: Seq<Seq<char>>,
) -> (Seq<char>, Seq<(Seq<char>, bool)>, bool) {
    let normal = preview_seq(note.content);
    if explained {
        (normal, highlight_for_terms(normal, preview_terms), false)
    } else {
        match match_snippet(note.content, preview_terms) {
            Some((s, h)) => (s, h, true),
            None => (normal, highlight_for_terms(normal, preview_terms), false),
        }
    }
}

/// The row of a note, given the texts to highlight in titles, previews and
/// tags.
pub open spec fn row_for(
    note: NoteView,
    selected_id: Option<u128>,
    title_terms: Seq<Seq<char>>,
    preview_terms: Seq<Seq<char>>,
    tag_terms: Seq<Seq<char>>,
) -> RowView {
    let title = display_title_seq(note.title);
    let title_h = highlight_for_terms(title, title_terms);
    let tag_h = tags_highlighted(note.tags, tag_terms);
    let (preview, preview_h, snippet) = row_preview(
        note,
        has_match(title_h) || any_has_match(tag_h),
        preview_terms,
    );
    RowView {
        id: note.id,
        display_title: title,
        display_date: utc_format(
            note.last_modified.spec_secs(),
            note.last_modified.spec_nanos(),
            "%d/%m/%Y"@,
        ),
        preview,
        tags: note.tags,
        is_pinned: note.is_pinned,
        is_selected: selected_id == Some(note.id),
        title_highlights: title_h,
        preview_highlights: preview_h,
        tag_highlights: tag_h,
        uses_match_snippet: snippet,
    }
}

/// The row of a note for a search.
pub open spec fn project_row(note: NoteView, selected_id: Option<u128>, q: Seq<TermSpec>) -> RowView {
    row_for(note, selected_id, title_terms(q), preview_terms(q), tag_terms(q))
}

// ---------------------------------------------------------------------------
// Which notes, in which order
// ---------------------------------------------------------------------------

/// The active tag that filters the list: the trimmed tag, unless blank.
pub open spec fn tag_filter(active_tag: Option<Seq<char>>) -> Option<Seq<char>> {
    match active_tag {
        Some(t) => if trim_seq(t).len() > 0 {
            Some(trim_seq(t))
        } else {
            None
        },
        None => None,
    }
}

pub open spec fn opt_str_view(o: Option<&str>) -> Option<Seq<char>> {
    match o {
        Some(t) => Some(t@),
        None => None,
    }
}

/// The note satisfies the search and holds the active tag, if any.
pub open spec fn note_listed(note: NoteView, q: Seq<TermSpec>, tag: Option<Seq<char>>) -> bool {
    all_terms_match(q, note) && match tag {
        Some(t) => has_tag(note, t),
        None => true,
    }
}

/// The positions of the listed notes, in collection order.
pub open spec fn listed_positions(notes: Seq<NoteView>, q: Seq<TermSpec>, tag: Option<Seq<char>>) -> Seq<int>
    decreases notes.len(),
{
    if notes.len() == 0 {
        Seq::empty()
    } else {
        let v = listed_positions(notes.drop_last(), q, tag);
        if note_listed(notes.last(), q, tag) {
            v.push(notes.len() - 1)
        } else {
            v
        }
    }
}

/// Two instants are the same.
pub open spec fn same_instant_spec(a: crate::model::Timestamp, b: crate::model::Timestamp) -> bool {
    a.spec_secs() == b.spec_secs() && a.spec_nanos() == b.spec_nanos()
}

/// `a` comes before `b` in the list: pinned notes first, then the most
/// recently modified.
pub open spec fn listed_before(a: NoteView, b: NoteView) -> bool {
    (a.is_pinned && !b.is_pinned) || (a.is_pinned == b.is_pinned && earlier(
        b.last_modified,
        a.last_modified,
    ))
}

/// Neither note comes before the other.
pub open spec fn same_rank(a: NoteView, b: NoteView) -> bool {
    a.is_pinned == b.is_pinned && same_instant_spec(a.last_modified, b.last_modified)
}

/// The list order on positions: by rank, and in collection order among
/// notes of the same rank.
pub open spec fn list_order(notes: Seq<NoteView>) -> spec_fn(int, int) -> bool {
    |i: int, j: int|
        listed_before(notes[i], notes[j]) || (same_rank(notes[i], notes[j]) && i <= j)
}

/// The positions of the listed notes, in list order.
pub open spec fn ordered_positions(notes: Seq<NoteView>, q: Seq<TermSpec>, tag: Option<Seq<char>>) -> Seq<int> {
    listed_positions(notes, q, tag).sort_by(list_order(notes))
}

/// The first note with the same identifier as the note at `i`.
pub open spec fn first_with_id_of(notes: Seq<NoteView>, i: int) -> NoteView {
    notes[index_of_id(notes, notes[i].id)->0]
}

/// The rows of the list.
pub open spec fn project_rows(
    notes: Seq<NoteView>,
    selected_id: Option<u128>,
    q: Seq<TermSpec>,
    tag: Option<Seq<char>>,
) -> Seq<RowView> {
    ordered_positions(notes, q, tag).map_values(
        |i: int| project_row(first_with_id_of(notes, i), selected_id, q),
    )
}

/// Whether the selected note is shown, hidden by the filter, or absent.
pub open spec fn visibility_of(
    notes: Seq<NoteView>,
    selected_id: Option<u128>,
    rows: Seq<RowView>,
    has_active_filter: bool,
) -> SelectedNoteVisibility {
    match selected_id {
        None => SelectedNoteVisibility::NoSelection,
        Some(id) => if exists|k: int| 0 <= k < rows.len() && (#[trigger] rows[k]).id == id {
            SelectedNoteVisibility::Visible
        } else if has_active_filter && exists|k: int|
            0 <= k < notes.len() && (#[trigger] notes[k]).id == id {
            SelectedNoteVisibility::HiddenByFilter
        } else {
            SelectedNoteVisibility::NoSelection
        },
    }
}

/// The note list for a search text and an active tag.
pub open spec fn projection(
    notes: Seq<NoteView>,
    selected_id: Option<u128>,
    query: Seq<char>,
    active_tag: Option<Seq<char>>,
) -> ProjectionView {
    let q = parse_terms(query);
    let tag = tag_filter(active_tag);
    let filter = q.len() > 0 || tag is Some;
    let rows = project_rows(notes, selected_id, q, tag);
    ProjectionView {
        rows,
        has_active_filter: filter,
        selected_note_visibility: visibility_of(notes, selected_id, rows, filter),
    }
}

pub proof fn lemma_list_order_total(notes: Seq<NoteView>)
    ensures
        total_ordering(list_order(notes)),
{
}

// ---------------------------------------------------------------------------
// Executable projection
// ---------------------------------------------------------------------------

pub open spec fn positions_view(v: Seq<usize>) -> Seq<int> {
    v.map_values(|i: usize| i as int)
}

fn listed_note_positions(notes: &[Note], query: &SearchQuery, tag: &Option<String>) -> (r: Vec<
    usize,
>)
    ensures
        positions_view(r@) == listed_positions(
            notes_view(notes@),
            query@,
            match tag {
                Some(t) => Some(t@),
                None => None,
            },
        ),
        forall|k: int| 0 <= k < r@.len() ==> #[trigger] r@[k] < notes@.len(),
{
    let ghost tv = match tag {
        Some(t) => Some(t@),
        None => None::<Seq<char>>,
    };
    let ghost nv = notes_view(notes@);
    let mut r: Vec<usize> = Vec::new();
    let mut i: usize = 0;
    while i < notes.len()
        invariant
            i <= notes.len(),
            nv == notes_view(notes@),
            tv == match tag {
                Some(t) => Some(t@),
                None => None::<Seq<char>>,
            },
            positions_view(r@) == listed_positions(nv.take(i as int), query@, tv),
            forall|k: int| 0 <= k < r@.len() ==> #[trigger] r@[k] < i,
        decreases notes.len() - i,
    {
        proof {
            assert(nv.take(i + 1).drop_last() =~= nv.take(i as int));
            assert(nv.take(i + 1).last() == notes@[i as int]@);
        }
        let note = &notes[i];
        let keep = query.matches(note) && match tag {
            Some(t) => note_has_active_tag(note, t.as_str()),
            None => true,
        };
        if keep {
            let ghost prev = positions_view(r@);
            r.push(i);
            assert(positions_view(r@) =~= prev.push(i as int));
        }
        i += 1;
    }
    assert(nv.take(i as int) =~= nv);
    r
}

fn before_in_list(notes: &[Note], i: usize, j: usize) -> (r: bool)
    requires
        i < notes.len(),
        j < notes.len(),
    ensures
        r == list_order(notes_view(notes@))(i as int, j as int),
{
    let a = &notes[i];
    let b = &notes[j];
    let (sa, na) = (a.last_modified.secs(), a.last_modified.subsec_nanos());
    let (sb, nb) = (b.last_modified.secs(), b.last_modified.subsec_nanos());
    if a.is_pinned != b.is_pinned {
        return a.is_pinned;
    }
    if sa != sb {
        return sb < sa;
    }
    if na != nb {
        return nb < na;
    }
    i <= j
}

fn order_positions(notes: &[Note], v: Vec<usize>) -> (r: Vec<usize>)
    requires
        forall|k: int| 0 <= k < v@.len() ==> #[trigger] v@[k] < notes@.len(),
    ensures
        positions_view(r@) == positions_view(v@).sort_by(list_order(notes_view(notes@))),
{
    broadcast use vstd::seq_lib::group_to_multiset_ensures;

    let ghost leq = list_order(notes_view(notes@));
    let ghost src = positions_view(v@);
    proof {
        lemma_list_order_total(notes_view(notes@));
    }
    let mut out: Vec<usize> = Vec::new();
    let mut i: usize = 0;
    while i < v.len()
        invariant
            i <= v.len(),
            src == positions_view(v@),
            leq == list_order(notes_view(notes@)),
            total_ordering(leq),
            forall|k: int| 0 <= k < v@.len() ==> #[trigger] v@[k] < notes@.len(),
            forall|k: int| 0 <= k < out@.len() ==> #[trigger] out@[k] < notes@.len(),
            sorted_by(positions_view(out@), leq),
            positions_view(out@).to_multiset() == src.take(i as int).to_multiset(),
        decreases v.len() - i,
    {
        let x = v[i];
        let mut p: usize = 0;
        while p < out.len() && before_in_list(notes, out[p], x)
            invariant
                p <= out.len(),
                x < notes@.len(),
                leq == list_order(notes_view(notes@)),
                forall|k: int| 0 <= k < out@.len() ==> #[trigger] out@[k] < notes@.len(),
                forall|k: int| 0 <= k < p ==> #[trigger] leq(positions_view(out@)[k], x as int),
            decreases out.len() - p,
        {
            p += 1;
        }
        let ghost before = positions_view(out@);
        let ghost raw = out@;
        out.insert(p, x);
        proof {
            assert(positions_view(out@) =~= before.insert(p as int, x as int));
            lemma_insert_sorted(before, p as int, x as int, leq);
            assert(src.take(i + 1) =~= src.take(i as int).push(x as int));
            src.take(i as int).to_multiset_ensures();
            assert forall|k: int| 0 <= k < out@.len() implies #[trigger] out@[k] < notes@.len() by {
                if k < p {
                    assert(out@[k] == raw[k]);
                } else if k > p {
                    assert(out@[k] == raw[k - 1]);
                }
            }
        }
        i += 1;
    }
    proof {
        assert(src.take(v.len() as int) =~= src);
        src.lemma_sort_by_ensures(leq);
        lemma_sorted_unique(positions_view(out@), src.sort_by(leq), leq);
    }
    out
}

fn has_match_exec(segs: &Vec<HighlightSegment>) -> (r: bool)
    ensures
        r == has_match(segs_view(segs@)),
{
    let ghost sv = segs_view(segs@);
    let mut k: usize = 0;
    while k < segs.len()
        invariant
            k <= segs.len(),
            sv == segs_view(segs@),
            forall|j: int| 0 <= j < k ==> !(#[trigger] sv[j]).1,
        decreases segs.len() - k,
    {
        if segs[k].is_match {
            assert(sv[k as int].1);
            return true;
        }
        k += 1;
    }
    false
}

fn any_has_match_exec(lists: &Vec<Vec<HighlightSegment>>) -> (r: bool)
    ensures
        r == any_has_match(seg_lists_view(lists@)),
{
    let ghost lv = seg_lists_view(lists@);
    let mut k: usize = 0;
    while k < lists.len()
        invariant
            k <= lists.len(),
            lv == seg_lists_view(lists@),
            forall|j: int| 0 <= j < k ==> !has_match(#[trigger] lv[j]),
        decreases lists.len() - k,
    {
        if has_match_exec(&lists[k]) {
            assert(has_match(lv[k as int]));
            return true;
        }
        k += 1;
    }
    false
}

fn highlight_tags(tags: &Vec<String>, terms: &Vec<String>) -> (r: Vec<Vec<HighlightSegment>>)
    ensures
        seg_lists_view(r@) == tags_highlighted(tags.deep_view(), terms.deep_view()),
{
    let ghost want = tags_highlighted(tags.deep_view(), terms.deep_view());
    let mut r: Vec<Vec<HighlightSegment>> = Vec::new();
    let mut k: usize = 0;
    while k < tags.len()
        invariant
            k <= tags.len(),
            want == tags_highlighted(tags.deep_view(), terms.deep_view()),
            seg_lists_view(r@) == want.take(k as int),
        decreases tags.len() - k,
    {
        let h = highlight_segments_for_terms(tags[k].as_str(), terms);
        let ghost prev = seg_lists_view(r@);
        r.push(h);
        proof {
            assert(tags.deep_view()[k as int] == tags@[k as int]@);
            assert(seg_lists_view(r@) =~= prev.push(segs_view(h@)));
        }
        k += 1;
        assert(seg_lists_view(r@) =~= want.take(k as int));
    }
    assert(want.take(k as int) =~= want);
    r
}

fn build_row(
    note: &Note,
    selected_id: Option<u128>,
    title_terms: &Vec<String>,
    preview_terms: &Vec<String>,
    tag_terms: &Vec<String>,
) -> (r: NoteListItem)
    ensures
        r@ == row_for(
            note@,
            selected_id,
            title_terms.deep_view(),
            preview_terms.deep_view(),
            tag_terms.deep_view(),
        ),
{
    let display_title = note.display_title();
    let title_highlights = highlight_segments_for_terms(display_title.as_str(), title_terms);
    let tag_highlights = highlight_tags(&note.tags, tag_terms);
    let explained = has_match_exec(&title_highlights) || any_has_match_exec(&tag_highlights);
    let (preview, preview_highlights, uses_match_snippet) = if explained {
        let p = note.preview();
        let h = highlight_segments_for_terms(p.as_str(), preview_terms);
        (p, h, false)
    } else {
        match match_snippet_for_terms(note.content.as_str(), preview_terms) {
            Some((s, h)) => (s, h, true),
            None => {
                let p = note.preview();
                let h = highlight_segments_for_terms(p.as_str(), preview_terms);
                (p, h, false)
            },
        }
    };
    let is_selected = match selected_id {
        Some(id) => id == note.id,
        None => false,
    };
    NoteListItem {
        id: note.id,
        display_title,
        display_date: note.display_date(),
        preview,
        tags: copy_strings(&note.tags),
        is_pinned: note.is_pinned,
        is_selected,
        title_highlights,
        preview_highlights,
        tag_highlights,
        uses_match_snippet,
    }
}

fn row_with_id(rows: &Vec<NoteListItem>, id: u128) -> (r: bool)
    ensures
        r == exists|k: int| 0 <= k < rows@.len() && (#[trigger] rows_view(rows@)[k]).id == id,
{
    let ghost rv = rows_view(rows@);
    let mut k: usize = 0;
    while k < rows.len()
        invariant
            k <= rows.len(),
            rv == rows_view(rows@),
            forall|j: int| 0 <= j < k ==> (#[trigger] rv[j]).id != id,
        decreases rows.len() - k,
    {
        if rows[k].id == id {
            assert(rv[k as int].id == id);
            return true;
        }
        k += 1;
    }
    false
}

/// The note list for the notes, the selected note, a search text and an
/// active tag: the notes that match the search and hold the tag, pinned
/// first, then most recently modified first, each as a row with its
/// highlights.
#[verifier::spinoff_prover]
#[verifier::rlimit(40)]
pub fn project_note_list(
    notes: &[Note],
    selected_id: Option<u128>,
    query: &str,
    active_tag: Option<&str>,
) -> (r: NoteListProjection)
    ensures
        r@ == projection(notes_view(notes@), selected_id, query@, opt_str_view(active_tag)),
{
    let ghost nv = notes_view(notes@);
    let search = SearchQuery::parse(query);
    let title_words = search.title_highlight_terms();
    let preview_words = search.preview_highlight_terms();
    let tag_words = search.tag_highlight_terms();
    let tag: Option<String> = match active_tag {
        Some(t) => {
            let tr = trim(t);
            if tr.as_str().unicode_len() > 0 {
                Some(tr)
            } else {
                None
            }
        },
        None => None,
    };
    let ghost tv = tag_filter(opt_str_view(active_tag));
    assert(tv == match tag {
        Some(t) => Some(t@),
        None => None::<Seq<char>>,
    });
    let has_active_filter = !search.is_empty() || tag.is_some();
    let listed = listed_note_positions(notes, &search, &tag);
    let ordered = order_positions(notes, listed);
    let ghost want = ordered_positions(nv, search@, tv);
    proof {
        let src = positions_view(listed@);
        lemma_list_order_total(nv);
        src.lemma_sort_by_ensures(list_order(nv));
        assert forall|k: int| 0 <= k < ordered@.len() implies #[trigger] ordered@[k] < notes@.len() by {
            let s = src.sort_by(list_order(nv));
            assert(s[k] == ordered@[k] as int);
            assert(s.contains(s[k]));
            assert(src.contains(s[k]));
            let w = choose|w: int| 0 <= w < src.len() && src[w] == s[k];
            assert(src[w] == listed@[w] as int);
        }
    }
    let mut rows: Vec<NoteListItem> = Vec::new();
    let mut k: usize = 0;
    while k < ordered.len()
        invariant
            k <= ordered.len(),
            nv == notes_view(notes@),
            positions_view(ordered@) == want,
            forall|j: int| 0 <= j < ordered@.len() ==> #[trigger] ordered@[j] < notes@.len(),
            title_words.deep_view() == title_terms(search@),
            preview_words.deep_view() == preview_terms(search@),
            tag_words.deep_view() == tag_terms(search@),
            rows_view(rows@) == want.take(k as int).map_values(
                |i: int| project_row(first_with_id_of(nv, i), selected_id, search@),
            ),
        decreases ordered.len() - k,
    {
        let i = ordered[k];
        assert(want[k as int] == i as int);
        let id = notes[i].id;
        assert(nv[i as int].id == id);
        let j = match find_note_index(notes, id) {
            Some(j) => j,
            None => i,
        };
        assert(first_with_id_of(nv, i as int) == nv[j as int]);
        let row = build_row(&notes[j], selected_id, &title_words, &preview_words, &tag_words);
        let ghost prev = rows_view(rows@);
        rows.push(row);
        proof {
            assert(rows_view(rows@) =~= prev.push(row@));
        }
        k += 1;
        assert(rows_view(rows@) =~= want.take(k as int).map_values(
            |i: int| project_row(first_with_id_of(nv, i), selected_id, search@),
        ));
    }
    assert(want.take(k as int) =~= want);
    let selected_note_visibility = match selected_id {
        None => SelectedNoteVisibility::NoSelection,
        Some(id) => {
            if row_with_id(&rows, id) {
                SelectedNoteVisibility::Visible
            } else if has_active_filter && find_note_index(notes, id).is_some() {
                SelectedNoteVisibility::HiddenByFilter
            } else {
                SelectedNoteVisibility::NoSelection
            }
        },
    };
    NoteListProjection { rows, has_active_filter, selected_note_visibility }
}

impl NoteListItem {
    /// The displayed fields of the row, to tell when it must be drawn again.
    pub fn render_key(&self) -> (k: NoteListRenderKey)
        ensures
            k@ == self@,
    {
        NoteListRenderKey {
            id: self.id,
            display_title: self.display_title.clone(),
            display_date: self.display_date.clone(),
            preview: self.preview.clone(),
            tags: copy_strings(&self.tags),
            is_pinned: self.is_pinned,
            is_selected: self.is_selected,
            title_highlights: copy_segments(&self.title_highlights),
            preview_highlights: copy_segments(&self.preview_highlights),
            tag_highlights: copy_segment_lists(&self.tag_highlights),
            uses_match_snippet: self.uses_match_snippet,
        }
    }
}

fn copy_segments(v: &Vec<HighlightSegment>) -> (r: Vec<HighlightSegment>)
    ensures
        segs_view(r@) == segs_view(v@),
{
    let mut r: Vec<HighlightSegment> = Vec::new();
    let mut k: usize = 0;
    while k < v.len()
        invariant
            k <= v.len(),
            segs_view(r@) == segs_view(v@).take(k as int),
        decreases v.len() - k,
    {
        let ghost prev = segs_view(r@);
        r.push(HighlightSegment { text: v[k].text.clone(), is_match: v[k].is_match });
        assert(segs_view(r@) =~= prev.push((v@[k as int].text@, v@[k as int].is_match)));
        k += 1;
        assert(segs_view(r@) =~= segs_view(v@).take(k as int));
    }
    assert(segs_view(v@).take(k as int) =~= segs_view(v@));
    r
}

fn copy_segment_lists(v: &Vec<Vec<HighlightSegment>>) -> (r: Vec<Vec<HighlightSegment>>)
    ensures
        seg_lists_view(r@) == seg_lists_view(v@),
{
    let mut r: Vec<Vec<HighlightSegment>> = Vec::new();
    let mut k: usize = 0;
    while k < v.len()
        invariant
            k <= v.len(),
            seg_lists_view(r@) == seg_lists_view(v@).take(k as int),
        decreases v.len() - k,
    {
        let c = copy_segments(&v[k]);
        let ghost prev = seg_lists_view(r@);
        r.push(c);
        assert(seg_lists_view(r@) =~= prev.push(segs_view(v@[k as int]@)));
        k += 1;
        assert(seg_lists_view(r@) =~= seg_lists_view(v@).take(k as int));
    }
    assert(seg_lists_view(v@).take(k as int) =~= seg_lists_view(v@));
    r
}


/// Every listed position is a position of the collection.
proof fn lemma_listed_positions_in_range(
    notes: Seq<NoteView>,
    q: Seq<TermSpec>,
    tag: Option<Seq<char>>,
)
    ensures
        forall|k: int|
            0 <= k < listed_positions(notes, q, tag).len() ==> 0 <= #[trigger] listed_positions(
                notes,
                q,
                tag,
            )[k] < notes.len(),
    decreases notes.len(),
{
    if notes.len() > 0 {
        let v = listed_positions(notes.drop_last(), q, tag);
        lemma_listed_positions_in_range(notes.drop_last(), q, tag);
        let r = listed_positions(notes, q, tag);
        assert forall|k: int| 0 <= k < r.len() implies 0 <= #[trigger] r[k] < notes.len() by {
            if k < v.len() {
                assert(r[k] == v[k]);
            }
        }
    }
}

/// The list puts pinned notes first and, among notes with the same pin,
/// the most recently modified first, whatever their creation times; notes
/// modified at the same instant keep their collection order. For any two
/// rows `a` before `b`, with `pa` and `pb` the positions of their notes:
/// `b` pinned means `a` pinned, and with the same pin `a` was not modified
/// earlier than `b`.
pub proof fn lemma_list_pinned_then_most_recent(
    notes: Seq<NoteView>,
    selected_id: Option<u128>,
    q: Seq<TermSpec>,
    tag: Option<Seq<char>>,
    a: int,
    b: int,
)
    requires
        0 <= a < b < ordered_positions(notes, q, tag).len(),
    ensures
        project_rows(notes, selected_id, q, tag).len() == ordered_positions(notes, q, tag).len(),
        project_rows(notes, selected_id, q, tag)[a] == project_row(
            first_with_id_of(notes, ordered_positions(notes, q, tag)[a]),
            selected_id,
            q,
        ),
        project_rows(notes, selected_id, q, tag)[b] == project_row(
            first_with_id_of(notes, ordered_positions(notes, q, tag)[b]),
            selected_id,
            q,
        ),
        0 <= ordered_positions(notes, q, tag)[a] < notes.len(),
        0 <= ordered_positions(notes, q, tag)[b] < notes.len(),
        notes[ordered_positions(notes, q, tag)[b]].is_pinned ==> notes[ordered_positions(
            notes,
            q,
            tag,
        )[a]].is_pinned,
        notes[ordered_positions(notes, q, tag)[a]].is_pinned == notes[ordered_positions(
            notes,
            q,
            tag,
        )[b]].is_pinned ==> !earlier(
            notes[ordered_positions(notes, q, tag)[a]].last_modified,
            notes[ordered_positions(notes, q, tag)[b]].last_modified,
        ),
        notes[ordered_positions(notes, q, tag)[a]].is_pinned == notes[ordered_positions(
            notes,
            q,
            tag,
        )[b]].is_pinned && !earlier(
            notes[ordered_positions(notes, q, tag)[b]].last_modified,
            notes[ordered_positions(notes, q, tag)[a]].last_modified,
        ) ==> ordered_positions(notes, q, tag)[a] <= ordered_positions(notes, q, tag)[b],
{
    let leq = list_order(notes);
    let listed = listed_positions(notes, q, tag);
    let s = ordered_positions(notes, q, tag);
    lemma_list_order_total(notes);
    listed.lemma_sort_by_ensures(leq);
    lemma_listed_positions_in_range(notes, q, tag);
    assert(leq(s[a], s[b]));
    assert(s.contains(s[a]));
    assert(s.contains(s[b]));
    assert(listed.contains(s[a]));
    assert(listed.contains(s[b]));
    let wa = choose|w: int| 0 <= w < listed.len() && listed[w] == s[a];
    let wb = choose|w: int| 0 <= w < listed.len() && listed[w] == s[b];
    assert(0 <= listed[wa] < notes.len());
    assert(0 <= listed[wb] < notes.len());
}


/// Each position is listed once when its note satisfies the search and the
/// active tag, and not at all otherwise.
proof fn lemma_listed_positions_count(notes: Seq<NoteView>, q: Seq<TermSpec>, tag: Option<Seq<char>>)
    ensures
        forall|p: int|
            #[trigger] listed_positions(notes, q, tag).to_multiset().count(p) == if 0 <= p
                < notes.len() && note_listed(notes[p], q, tag) {
                1nat
            } else {
                0nat
            },
    decreases notes.len(),
{
    broadcast use vstd::seq_lib::group_to_multiset_ensures;

    if notes.len() > 0 {
        let rest = notes.drop_last();
        lemma_listed_positions_count(rest, q, tag);
        let v = listed_positions(rest, q, tag);
        assert forall|p: int| 0 <= p < rest.len() implies notes[p] == rest[p] by {}
        if note_listed(notes.last(), q, tag) {
            assert(listed_positions(notes, q, tag).to_multiset() =~= v.to_multiset().insert(
                notes.len() - 1,
            ));
        }
    } else {
        assert(listed_positions(notes, q, tag).to_multiset() =~= vstd::multiset::Multiset::empty());
    }
}

/// The list holds exactly the notes that satisfy every term of the search
/// and, when a tag is active, hold that tag (by trimmed, case-folded text),
/// each once.
pub proof fn lemma_list_holds_matching_notes(
    notes: Seq<NoteView>,
    q: Seq<TermSpec>,
    tag: Option<Seq<char>>,
    p: int,
)
    ensures
        ordered_positions(notes, q, tag).to_multiset().count(p) == if 0 <= p < notes.len()
            && all_terms_match(q, notes[p]) && match tag {
            Some(t) => exists|j: int|
                0 <= j < notes[p].tags.len() && tag_key(#[trigger] notes[p].tags[j])
                    == tag_key(t),
            None => true,
        } {
            1nat
        } else {
            0nat
        },
{
    lemma_list_order_total(notes);
    listed_positions(notes, q, tag).lemma_sort_by_ensures(list_order(notes));
    lemma_listed_positions_count(notes, q, tag);
}

} // verus!
