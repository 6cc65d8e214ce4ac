# super_simple_ssh

A small terminal SSH client: saved connections in an encrypted store,
tabs of interactive shells, and file transfer with local and remote
pickers.

- `src/` is the library, verified with Verus: the encrypted store
  (`vault`), the connection list and its history (`catalog`), the forms
  (`forms`), what each key does (`commands`, `pickers`, `terminal`),
  transfers (`transfer`), the log (`logs`), and the numbers the screens
  need (`screens`, `layout`, `text`). Calls into the crypto, time and
  layout crates stand behind small trusted wrappers whose contracts name
  their results.
- `app/` is the program around it: the event loop, drawing, the SSH
  session, the terminal emulator, the clipboard and file access.
- `tests/` runs the library with the real outside crates linked.
