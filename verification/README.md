# agy_statusline

Status line and window title for the Antigravity CLI, with its background
refresh and its configuration panel. The formatting, layout, caching and
menu decisions are a library verified with Verus; a thin program around it
does the terminal, file, process, credential and network work.

## Layout

- `src/` — the verified library.
  - `text.rs`: string helpers stated over the character view (trim, find,
    split, lines, number parsing and printing).
  - `theme.rs`, `widget.rs`: palettes, icons, visible width of text with
    ANSI escapes, progress bars.
  - `types.rs`: the input JSON, the cache and the user configuration.
  - `merge.rs`: carrying context-window figures over within a session.
  - `title.rs`: the window title.
  - `render.rs`: the widgets, the choice of a compact enough step for the
    terminal width, and the framed status lines.
  - `path.rs`: number formatting, RFC 3339 dates, path shortening,
    percent-encoding, git `HEAD` and `.git` file contents.
  - `refresh.rs`: when to ask for the quota, what an answer does to the
    cache, and how git's output becomes the cached repository state.
  - `cli.rs`: the command line and the foreground refresh decision.
  - `config.rs`: theme names, the menus and the alias line editor.
  - `crypto.rs`: SHA-256, used to remember which token a quota belongs to.
- `app/` — the program: reading standard input and files, the JSON forms of
  the library's types, the quota request, git commands, the Windows
  credential store and mutex, and the terminal menus.
- `tests/` — tests of the library on concrete values.

Numbers that arrive as floating point (percentages, quota fractions) stay
in `app/`; the library receives their bit patterns and the figures drawn
from them (rounded bar cells, one-decimal texts).
