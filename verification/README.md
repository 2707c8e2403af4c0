# ngal

A visual-novel engine for the terminal. Stories are written as scripts of
scenes (`[name]` headers, one command per line, `#` comments); the engine
shows dialogue, portraits and backgrounds, plays music and voices, offers
choices, keeps variables with arithmetic and conditions, and saves the game
to ten slots.

## Layout

- `src/` — the library, verified with Verus:
  - `text.rs`, `table.rs`: characters, trimming, splitting, replacing; an
    insertion-ordered table keyed by strings.
  - `script.rs`, `parser.rs`: the commands of a script and the script
    format.
  - `variables.rs`, `arith.rs`: variables, `{name}` placeholders,
    substitution into expressions, parsing of arithmetic and conditions.
  - `engine.rs`: the game as a state machine; whatever needs the outside
    world (sound, files, timers, shell commands, floating-point
    arithmetic) is handed to the caller as effects and requests.
  - `save.rs`, `dialogue.rs`, `scene.rs`, `args.rs`, `shell.rs`,
    `image.rs`, `screen.rs`: saves, the JSON dialogue form, the linear
    scene, the command line, `$(command)` parts, pictures as terminal
    cells, and the words on the screen.
  - `laws.rs`: properties across operations (a load gives back a save,
    volume steps undo each other, the history stays bounded, ...).
- `tests/`: tests of the library on concrete values.
- `app/`: the terminal program (crossterm, ratatui, mpv, files, serde and
  the floating-point arithmetic) around the library.
