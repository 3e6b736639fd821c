# korrodium

The verified core of a small WebAssembly userland: a host ABI for
programs (console, keys, screen, files, clock, arguments, a bump
allocator) and a full-screen text editor.

`src/` is the library, verified with Verus:

- `text` — splitting bytes into lines and joining them back, with the
  laws that make the two inverse; decimal and ASCII helpers.
- `editor` — the editor as a state machine: `EditorState` is its model,
  each key a transition, `Editor` the executable implementation.
- `editor_laws` — what the editor's operations do to the file's text as a
  whole (typing inserts at the cursor, Backspace deletes before it, the
  arrows step through it, Backspace undoes typing and Enter) and what they
  keep.
- `keys`, `screen`, `time`, `abi` — decoding what the host functions
  return: key codes, screen cells and colours, the clock record, counts
  and the argument buffer.
- `bump` — the placement arithmetic of the bump allocator and the law that
  its allocations never overlap.
- `smoke` — the tally of the ABI smoke test.

`app/` holds the host bindings (`extern` imports of the host modules), the
global allocator, and the programs (`editor`, `echo`, `hello`,
`abi_test`). They perform the host calls and hand the library the values
those return; what to draw, in which colours, what a key does, where an
allocation goes and whether input is valid UTF-8 are the library's.

`tests/` runs the library on concrete values.
