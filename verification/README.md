# multiplexer

A terminal multiplexer: tabs of panes, each pane a shell in a pseudo-terminal
drawn through a virtual terminal. The decisions it makes are a library
verified with Verus; the program around it does the terminal, PTY and thread
work.

- `src/` — the verified library:
  - `keys` — key events and the bytes a terminal sends for them;
  - `command` — key bindings (Alt hotkeys, scroll keys, keys sent on);
  - `application` — tabs, the active tab and pane, and what each command
    does to them; outside work comes back as an `Action`;
  - `tabs` — tabs, layouts and the size of each pane's terminal;
  - `layout` — rectangles and the four layouts, with proofs that the
    horizontal, vertical, square and golden layouts divide the area exactly;
  - `pane` — window titles, replies to terminal queries, resizing,
    scrolling and cursor placement;
  - `render` — cell styles and the spans of a terminal row;
  - `logging` — the buffered logger;
  - `text` — UTF-8 and decimal encodings.
- `app/` — the program: event loop, PTYs, reader threads, drawing.
- `tests/` — tests of the library.
