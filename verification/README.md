# p7z

The rules of the Plus7z archive manager, as a library whose behaviour is
stated in contracts and proved with Verus, and a small command-line program
around it.

- `src/` — the library: reading the engine's technical listings, the rows of
  an archive folder, the engine's command lines and the reading of their
  results, the checks made before an extraction, the steps of creating an
  archive, of checking checksum files and of carrying out a request, how the
  window takes launches and keys, the history lists, the file list (order,
  selection, cursor, navigation), keyboard shortcuts, the command line, the
  Explorer menu and registration rules, themes and the texts the window
  shows.
- `app/` — the program: it runs the 7-Zip engine, looks at the file system
  where the library asks it to, reads and writes the settings folder, and
  prints what the library computes.
- `tests/` — tests on concrete values, for the examples that the contracts
  describe.
