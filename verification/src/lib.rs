//! Domain core of a local-first Markdown note collection: notes, tags,
//! search, note-list projection, editing helpers, backups and UI recipes.

pub mod editor_view;
pub mod text;
pub mod model;
pub mod tag_rules;
pub mod search_query;
pub mod highlight;
pub mod note_discovery;
pub mod markdown_editing;
pub mod theme;
pub mod ui;
pub mod ui_recipes;
pub mod storage;
pub mod note_collection;
pub mod backup;
pub mod note_workspace;
pub mod note_list_interaction;
pub mod storage_recovery;
pub mod markdown_preview;
pub mod writing_surface;
pub mod sample_notes;
pub mod notifications;
pub mod editor_chrome;
pub mod sidebar_chrome;
pub mod dialog_copy;
pub mod shortcuts;
pub mod data_url;
pub mod tag_cleanup_proofs;
pub mod app_state;
