# ducky_core

A verified DuckyScript toolchain library: the compiler that turns a
DuckyScript 3.0 payload into `inject.bin` bytes, its preprocessor, lexer and
encoder, the formatter and the linter, and the editor features a language
server offers (diagnostics, completion, hover, formatting, semantic tokens,
folding, symbols, references, rename, call hierarchy, code actions and more).

Every function in `src/` carries a contract checked by Verus. The contracts
speak of specifications written next to the code: `model.rs` describes the
compiler line by line, `text.rs` the character-level text operations the
rest builds on, and each editor feature states the exact list of edits,
ranges or items it returns. `laws.rs` proves properties that span several
functions, such as the formatter being idempotent and a hex dump reading back
as the bytes it came from.

Outside crates used by the library: `hex` (hex text of bytes) and `sha2`
(SHA-256 of a payload), each behind a small wrapper whose contract names what
it returns.

`app/` holds the `duck` command line program (build, fmt, lint, init,
version, update), which reads and writes files and turns configuration files
and keyboard layouts into the library's values.
