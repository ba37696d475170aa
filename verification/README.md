# nota_core

The domain core of Nota, a local-first Markdown note app, written in Verus:
its functions state their behaviour in `requires`/`ensures` and Verus proves
the code against them. What rests on outside code (the random note
identifier, date formatting, Markdown parsing and HTML writing) is
named or bounded by small trusted wrappers instead.

- `src/` is the verified library: notes and timestamps, tag rules and the
  collection-wide tag cleanup, the search language, match highlighting and
  snippets, the note list projection, the note workspace, Markdown formatting
  commands, the Markdown preview's event pipeline (raw HTML shown as text,
  unsafe destinations replaced and remote images blocked, the title heading
  suppressed, footnotes gathered; pulldown-cmark's parser and HTML writer
  around it are trusted, their results named rather than proved),
  backups (export, validation, merge import and its preview), storage
  recovery decisions, the save lifecycle, responsive navigation, the
  theme's class recipes, and `app_state.rs`: the whole app's state as one
  value, with Recently Deleted, notifications and the backup flow, and the
  decision each user action takes.
- Laws that span several functions are public proof functions next to the
  functions they speak of, for example `lemma_import_twice` and
  `lemma_export_import_roundtrip` in `backup.rs`, `lemma_normalize_idempotent`
  in `tag_rules.rs`, `lemma_cleanup_settles` in `tag_cleanup_proofs.rs` and
  `lemma_delete_then_restore` in `app_state.rs`.
- Calls into chrono (date formatting), uuid, pulldown-cmark and gloo-storage
  go through small trusted wrappers whose contracts say what those crates
  document; serde_json's error type is declared so that parse results can
  be handed in. The library never reads the clock: operations that stamp a
  time take it as an argument.
- `app/` is the browser app around the library: it holds one `AppState` in
  a signal and performs the local storage, JSON, file reading and download,
  timers, window and keyboard listeners, and the Leptos view around it.
- `tests/` exercises the library on concrete values.
