# diagramide

The verified core of DiagramIDE, a workspace of diagram editors whose
sources (Pikchr, Prolog, Tcl, Ruby, plain text) produce Pikchr diagrams.
The library's own functions in `src/` carry Verus contracts and are proved
against them. The few calls into other code (the Markdown parser, a random
number, a handful of standard-library conversions) stand behind small
`external_body` wrappers whose contracts are trusted, not proved; three
of them only convert parser events and state nothing.

## Layout

- `src/` — the library, verified by Verus:
  - `text`, `entities`, `html`: character-level text operations, HTML
    character references, HTML fragments as readable text;
  - `markdown`, `grammar`, `grammar_md`, `help`, `guide`: the in-app help —
    the bundled Pikchr grammar reference parsed into blocks, anchors and a
    table of contents, and the user guide page for each help topic;
  - `grammar_view`: how the grammar reference is laid out (visible
    contents entries, tables formed from runs of rows, link scrolling);
  - `editor`: automatic indentation on Enter, Tab and Shift-Tab over the
    selected lines;
  - `references`: `!!NAME!!` / `$$NAME$$` cross-window references and the
    dependency graph they build;
  - `handler`, `message_loop`: how each message changes the shared state and
    what follows it (including the dialogs it queues and the outside work it
    asks for: evaluating, rendering, redrawing, exporting, copying), the
    queue, and debouncing. Messages about colour themes, the diagram
    background and switching between several saved workspaces are not
    handled: the state they act on (the theme list, the workspace registry)
    is not part of this library;
  - `mruby`, `tcl`: the decisions around the script evaluators (the worker
    protocol, deadlines, outcomes);
  - `workspace`, `export`, `kinds`, `mini_window`, `plain_text_editor`:
    workspace ids and promotion on load, export file names, the window
    vocabulary and traits;
  - `laws`: properties that relate several functions.
- `tests/` — tests of the library on concrete values.
- `app/` — a command-line front end and the outside work: the mruby worker
  process, Tcl loaded at run time, the clock, and the message loop that
  drives the handler.
