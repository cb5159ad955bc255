# omafetch

A system fetch for Omarchy: it reads the machine (CPU, GPU, memory, disks,
displays, battery, kernel settings, shell, terminal, fonts, the Omarchy
install and its theme) and prints one labelled line per module beside a
sparkle column, laid out to the terminal's width. `omafetch public` prints a
variant fit for sharing; `omafetch list` names the modules. The library
also holds the edits to `hyprland.lua` that bind Omarchy's About menu item
to omafetch and unbind it; the command line has no command for them yet, so
the file-writing side in `app/bind.rs` is not called.

## Layout

- `src/` is the library, verified with Verus. Every function states its
  result in `requires` / `ensures` over mathematical models (`Seq<char>` for
  text), and the properties that span functions are stated and proved as
  `lemma_*` proof functions beside the code they are about.
  - `text` — the string toolkit the rest is written in (trimming, searching,
    splitting into lines and words, joining, decimal numbers), with its
    lemmas.
  - `cli` — the command line.
  - `modules` — the module registry (names, default order, resolution of a
    requested list) and one file per module with the rule that turns probed
    values into the line shown.
  - `probe` — parsers for `/proc`, `/sys`, mount tables, fontconfig, and the
    environment.
  - `omarchy` — where the install and its theme live, and how its version is
    found.
  - `render` — the document of rows, the sparkle column, colours and the
    final layout.
  - `app` — which lines a fetch shows, and the public variant.
  - `bind` — the edits to `hyprland.lua` that bind and unbind About.
- `app/` is the program around the library: argument reading, file and
  process I/O, system calls, threads, floating-point display scales.
- `tests/` runs the library on concrete inputs.
