# bds-ui

The user-interface core of the bDS desktop blogging application, written in
Verus: Verus verifies every function in `src/` against its
`requires`/`ensures` contract (the one reading of the wall clock,
`now_millis`, promises nothing of the time it returns), and the laws that
span several functions stand as public proof functions (`law_*`).

## Layout

- `src/text.rs`, `src/sorting.rs` — strings modelled as `Seq<char>`: trimming,
  ASCII folding, search, decimal formatting, lexicographic order and sorting.
- `src/state/` — navigation, editor tabs, toasts, sidebar filters and the
  sidebar search state machine.
- `src/views/` — the state behind each view: post, media and menu editors,
  menu trees, settings, style catalogue, chat surfaces, documentation pages
  (link rewriting, tables, heading anchors), site validation and git tabs.
- `src/tasks.rs` — site generation and search index decisions, task URLs.
- `src/platform/`, `src/components/` — menu actions and the menu bar's
  layout, lifecycle events, the
  script host's calls and the web view configuration.
- `src/i18n/` — the form a relative date takes.
- `tests/` — tests of the library on concrete values.
- `app/` — the program around the library: window, file system, clock and
  locale.

Calls into `regex`, `chrono` and `uuid`, into the clock of `std`, and the
stable sort of the page list, go
through small wrappers marked `#[verifier::external_body]`; each one's doc
comment says what its contract assumes of the call.
