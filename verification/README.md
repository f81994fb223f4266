# gauge

Structured code review sessions: a session of themed sections is built with the
`gauge` command line, then a developer walks through it in a terminal UI (triage,
deep review where each written hypothesis gets an assessment, summary and export).

## Layout

- `src/` — the library, verified with Verus:
  - `models.rs`: tags, sections, sessions, review stages, screens, UI and app state,
    with the counting laws (tag and hypothesis counts partition the sections).
  - `screens/`: the keyboard handling of each screen as a specified step
    (`triage_step`, `deep_review_step`, `pseudocode_step`, ...), the markdown
    export, syntax highlighting of code blocks (through `syntect`), diff line
    classification and the height of wrapped text.
  - `app.rs`: dispatch of keys to the screen shown, and how AI outcomes are taken in.
  - `commands.rs`: the section commands, code content resolution, diff preview and
    the session messages of the command line.
  - `code_blocks.rs`: the code blocks of a section: adding with fresh ids, showing,
    listing, deleting, reordering and updating, with the section's files derived
    from its blocks.
  - `cli.rs`, `diff_parser.rs`, `git.rs`, `session.rs`, `ai/`, `text.rs`: line ranges,
    hunk parsing and selection (through `unidiff`), git output, session file names,
    the AI prompt and JSON extraction, and the string toolkit these are built on.
- `tests/` — tests of the library.
- `app/` — the program: argument parsing (clap), the session store (serde), running
  git and the assistant's command-line tool, and the terminal UI (ratatui).
