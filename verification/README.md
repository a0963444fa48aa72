# XVI: hex editor core, verified

XVI is a hex editor for the Linux terminal. This crate holds its logic as a
library checked by Verus, and a thin terminal program around it.

- `src/`: the library. Change tracking with undo and redo (`changes`,
  `buffer`), cursor movement and page geometry (`cursor`, `view`), the
  editor's decisions (`editor`, `controller`), block by block search and the
  insert plan (`file`), configuration, history and ini files (`config`,
  `history`, `inifile`, `settings`), key decoding (`curses`), and the
  dialogs: their layout, their widgets and what they decide (`ui`, and the
  classic rule based dialogs in `dialog`, `goto`, `search`, `messagebox`,
  `widget`).
- `app/`: the program: terminal drawing and input with ncurses, file I/O
  (cutting a range out of a file among it), configuration and history
  files, and the event loops.
- `tests/`: tests of the library.
