# gredit

Search a file for a regular expression, browse the matching lines next to the
highlighted file, and open the file of a match in your editor.

- `src/` is the verified library (Verus): command-line arguments
  (`config`), the search and its results (`searcher`, on top of the `grep`
  crate), splitting and formatting text (`text`), syntax highlighting of a
  file's lines (`highlight`, on top of `syntect`), and the browser's state,
  navigation, drawn window and key handling (`app`).
- `app/` is the terminal program: it reads the arguments and files, draws
  with `tui`/`crossterm`, opens the editor with `edit` and logs with
  `simple-log`, and carries out the actions that the library decides.
- `tests/` runs the library on concrete inputs.
