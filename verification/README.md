# rnk

A declarative terminal UI toolkit in the style of React/Ink, whose core is
verified with Verus.

- `src/` is the verified library: the output grid with wide characters and
  clipping, the terminal's frame diffing, text measuring, wrapping,
  truncation and padding over grapheme clusters, focus management,
  scrolling, list and table selection, text editing, hyperlinks (OSC 8) and
  their detection, colors, the command algebra, and the runtime state that
  other threads talk to. Each public function states what it returns or
  changes; laws relating functions are proof functions named `law_*`.
- `app/` is the program around it: the element tree and its flexbox layout
  (taffy, in floating point), drawing elements into the verified grid, the
  hooks, the event loop and terminal I/O (crossterm), and the command
  executor (tokio, reqwest).
- `tests/` exercises the library on concrete values.
