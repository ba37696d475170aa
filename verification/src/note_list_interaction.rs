//! The note list's own state: the search being typed, the committed search
//! and the active tag; and the commands its rows offer.
use vstd::prelude::*;
use crate::model::{Note, notes_view};
use crate::note_discovery::{
    NoteListItem, NoteListProjection, opt_str_view, project_note_list, projection, rows_view,
};
use crate::text::{trim, trim_seq};

verus! {

broadcast use vstd::string::group_string_axioms;

/// How long typing pauses before the search is committed, in milliseconds.
pub const SEARCH_DEBOUNCE_MS: i32 = 200;

/// The search input, the committed search and the active tag.
#[derive(Debug, Clone, PartialEq, Eq)]
pub struct NoteListInteraction {
    search_input: String,
    committed_search: String,
    active_tag: Option<String>,
}

/// The state as mathematical values.
pub struct InteractionView {
    pub search_input: Seq<char>,
    pub committed_search: Seq<char>,
    pub active_tag: Option<Seq<char>>,
}

impl View for NoteListInteraction {
    type V = InteractionView;

    closed spec fn view(&self) -> InteractionView {
        InteractionView {
            search_input: self.search_input@,
            committed_search: self.committed_search@,
            active_tag: match self.active_tag {
                Some(t) => Some(t@),
                None => None,
            },
        }
    }
}

/// What the note list area shows.
#[derive(Debug, Clone, Copy, PartialEq, Eq, Structural)]
pub enum NoteListDisplayState {
    EmptyCollection,
    FilteredEmpty,
    Rows,
}

/// A command a row of the list sends.
#[derive(Debug, Clone, Copy, PartialEq, Eq, Structural)]
pub enum NoteListCommand {
    SelectNote(u128),
    TogglePin(u128),
    RequestDelete(u128),
}

/// The actions offered for a row.
#[derive(Debug, Clone, PartialEq, Eq)]
pub struct NoteActionControls {
    pub pin_label: &'static str,
    pub pin_command: NoteListCommand,
    pub delete_command: NoteListCommand,
}

/// One call of the note list's state methods, as values.
pub enum InteractionCall {
    EditSearch(Seq<char>),
    CommitSearch,
    SelectTag(Seq<char>),
    ClearTag,
}

/// The state after one call, as each method's contract says.
pub open spec fn interaction_step(v: InteractionView, call: InteractionCall) -> InteractionView {
    match call {
        InteractionCall::EditSearch(input) => InteractionView { search_input: input, ..v },
        InteractionCall::CommitSearch => InteractionView { committed_search: v.search_input, ..v },
        InteractionCall::SelectTag(tag) => InteractionView { active_tag: selected_tag(tag), ..v },
        InteractionCall::ClearTag => InteractionView { active_tag: None, ..v },
    }
}

/// The state the default starts in.
pub open spec fn initial_interaction() -> InteractionView {
    InteractionView {
        search_input: Seq::empty(),
        committed_search: Seq::empty(),
        active_tag: None,
    }
}

/// The state after a sequence of calls from the default.
pub open spec fn replay_interaction(calls: Seq<InteractionCall>) -> InteractionView
    decreases calls.len(),
{
    if calls.len() == 0 {
        initial_interaction()
    } else {
        interaction_step(replay_interaction(calls.drop_last()), calls.last())
    }
}

/// The argument of the last `edit_search` call, or empty when there was none.
pub open spec fn last_edit(calls: Seq<InteractionCall>) -> Seq<char>
    decreases calls.len(),
{
    if calls.len() == 0 {
        Seq::empty()
    } else {
        match calls.last() {
            InteractionCall::EditSearch(input) => input,
            _ => last_edit(calls.drop_last()),
        }
    }
}

/// The typed search at the last `commit_search` call, or empty when there
/// was none.
pub open spec fn last_commit(calls: Seq<InteractionCall>) -> Seq<char>
    decreases calls.len(),
{
    if calls.len() == 0 {
        Seq::empty()
    } else {
        match calls.last() {
            InteractionCall::CommitSearch => last_edit(calls.drop_last()),
            _ => last_commit(calls.drop_last()),
        }
    }
}

/// Over any sequence of calls from the default: the typed search is the
/// last one typed, the committed search is what was typed at the last
/// commit, and the active tag is none or a trimmed, non-blank tag.
pub proof fn lemma_interaction_replay(calls: Seq<InteractionCall>)
    ensures
        replay_interaction(calls).search_input == last_edit(calls),
        replay_interaction(calls).committed_search == last_commit(calls),
        replay_interaction(calls).active_tag matches Some(t) ==> t == trim_seq(t) && t.len() > 0,
    decreases calls.len(),
{
    if calls.len() > 0 {
        lemma_interaction_replay(calls.drop_last());
        if let InteractionCall::SelectTag(tag) = calls.last() {
            crate::text::lemma_trim_idempotent(tag);
        }
    }
}

/// The tag that selecting `tag` makes active: the trimmed tag, or none when
/// it is blank.
pub open spec fn selected_tag(tag: Seq<char>) -> Option<Seq<char>> {
    if trim_seq(tag).len() > 0 {
        Some(trim_seq(tag))
    } else {
        None
    }
}

/// The area's state: an empty collection, a filter that leaves nothing, or rows.
pub open spec fn display_state_of(total_notes: int, rows: int, has_active_filter: bool) -> NoteListDisplayState {
    if total_notes == 0 {
        NoteListDisplayState::EmptyCollection
    } else if rows == 0 && has_active_filter {
        NoteListDisplayState::FilteredEmpty
    } else {
        NoteListDisplayState::Rows
    }
}

impl NoteListInteraction {
    pub fn search_input(&self) -> (r: &str)
        ensures
            r@ == self@.search_input,
    {
        self.search_input.as_str()
    }

    pub fn committed_search(&self) -> (r: &str)
        ensures
            r@ == self@.committed_search,
    {
        self.committed_search.as_str()
    }

    pub fn active_tag(&self) -> (r: Option<&str>)
        ensures
            opt_str_view(r) == self@.active_tag,
    {
        match &self.active_tag {
            Some(t) => Some(t.as_str()),
            None => None,
        }
    }

    /// The search being typed changes; the list still shows the committed one.
    pub fn edit_search(&mut self, input: String)
        ensures
            final(self)@ == interaction_step(old(self)@, InteractionCall::EditSearch(input@)),
            final(self)@.search_input == input@,
            final(self)@.committed_search == old(self)@.committed_search,
            final(self)@.active_tag == old(self)@.active_tag,
    {
        self.search_input = input;
    }

    /// The typed search becomes the committed one.
    pub fn commit_search(&mut self)
        ensures
            final(self)@ == interaction_step(old(self)@, InteractionCall::CommitSearch),
            final(self)@.search_input == old(self)@.search_input,
            final(self)@.committed_search == old(self)@.search_input,
            final(self)@.active_tag == old(self)@.active_tag,
    {
        self.committed_search = self.search_input.clone();
    }

    /// Makes the trimmed tag active, or clears it when blank.
    pub fn select_tag(&mut self, tag: String)
        ensures
            final(self)@ == interaction_step(old(self)@, InteractionCall::SelectTag(tag@)),
            final(self)@.search_input == old(self)@.search_input,
            final(self)@.committed_search == old(self)@.committed_search,
            final(self)@.active_tag == selected_tag(tag@),
    {
        let t = trim(tag.as_str());
        if t.as_str().unicode_len() == 0 {
            self.active_tag = None;
        } else {
            self.active_tag = Some(t);
        }
    }

    pub fn clear_tag(&mut self)
        ensures
            final(self)@ == interaction_step(old(self)@, InteractionCall::ClearTag),
            final(self)@.search_input == old(self)@.search_input,
            final(self)@.committed_search == old(self)@.committed_search,
            final(self)@.active_tag is None,
    {
        self.active_tag = None;
    }

    /// The note list for the committed search and the active tag.
    pub fn project_notes(&self, notes: &[Note], selected_id: Option<u128>) -> (r:
        NoteListProjection)
        ensures
            r@ == projection(
                notes_view(notes@),
                selected_id,
                self@.committed_search,
                self@.active_tag,
            ),
    {
        project_note_list(notes, selected_id, self.committed_search.as_str(), self.active_tag())
    }

    /// Whether to show the empty-collection state, the filtered-empty state
    /// or the rows.
    pub fn display_state(&self, total_notes: usize, projection: &NoteListProjection) -> (r:
        NoteListDisplayState)
        ensures
            r == display_state_of(
                total_notes as int,
                projection.rows@.len() as int,
                projection.has_active_filter,
            ),
    {
        if total_notes == 0 {
            NoteListDisplayState::EmptyCollection
        } else if projection.rows.len() == 0 && projection.has_active_filter {
            NoteListDisplayState::FilteredEmpty
        } else {
            NoteListDisplayState::Rows
        }
    }

    /// Clicking a row selects its note.
    pub fn select_row(&self, id: u128) -> (r: NoteListCommand)
        ensures
            r == NoteListCommand::SelectNote(id),
    {
        NoteListCommand::SelectNote(id)
    }

    /// The pin and delete actions of a row.
    pub fn note_actions(&self, row: &NoteListItem) -> (r: NoteActionControls)
        ensures
            r.pin_label@ == (if row.is_pinned {
                "Unpin"@
            } else {
                "Pin"@
            }),
            r.pin_command == NoteListCommand::TogglePin(row.id),
            r.delete_command == NoteListCommand::RequestDelete(row.id),
    {
        NoteActionControls {
            pin_label: if row.is_pinned {
                "Unpin"
            } else {
                "Pin"
            },
            pin_command: NoteListCommand::TogglePin(row.id),
            delete_command: NoteListCommand::RequestDelete(row.id),
        }
    }
}

impl Default for NoteListInteraction {
    /// Nothing typed, nothing committed, no active tag.
    fn default() -> (r: Self)
        ensures
            r@.search_input == Seq::<char>::empty(),
            r@.committed_search == Seq::<char>::empty(),
            r@.active_tag is None,
            r@ == initial_interaction(),
    {
        NoteListInteraction {
            search_input: String::new(),
            committed_search: String::new(),
            active_tag: None,
        }
    }
}

/// Selecting a tag and selecting it again (its trimmed form) gives the same
/// active tag.
pub proof fn lemma_select_tag_idempotent(tag: Seq<char>)
    requires
        selected_tag(tag) is Some,
    ensures
        selected_tag(selected_tag(tag)->0) == selected_tag(tag),
{
    crate::text::lemma_trim_idempotent(tag);
}

} // verus!
