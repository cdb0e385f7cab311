# denocore

The verified core of a JavaScript runtime's Rust side: the data structures,
bookkeeping and formatting logic that do not need a JavaScript engine. Its
logic is verified by Verus; the calls it makes into outside crates (bytes,
url, percent-encoding, anyhow, futures) stand behind small trusted wrappers
whose contracts are stated, not proved.

Work that needs the JavaScript engine itself (compiling and evaluating
modules, serializing JavaScript values, reading properties of exception
objects, driving dynamic imports) is not part of the crate; what such work
decides from plain values (which modules a load still needs, how a
registration and a redirect are recorded, the message of an uncaught
exception) is.

Layout:

- `src/` — the library, its logic verified and its outside calls behind
  trusted wrappers:
  - `arena`, `io`, `buffer_channel`, `resource_table`, `resource_object`,
    `resource_io`: arenas, byte buffer views, a bounded channel of buffers,
    the table of resources and how reads and writes on resources end;
  - `error`, `js_error`, `core_error`: error classes and messages, stack
    frames and their formatting, errors that come back from JavaScript;
  - `modules`, `module_specifier`, `loaders`, `module_map_data`, `str_map`,
    `recursive_load`: module kinds, import attributes, in-memory loaders, the
    map of module names and aliases with its snapshot form, and the walk of
    the module graph that decides which modules a load still needs;
  - `inspector`: the inspector's sessions, its polling state machine and the
    routing of debugger messages;
  - `event_loop`, `ops`, `ops_builtin`, `extensions`, `extension_set`,
    `feature_checker`, `convert`, `external`, `text`: the rest of the
    runtime's logic and the text helpers it uses;
  - `laws`: properties that span several operations.
- `tests/` — tests that run the library with the real outside crates.
- `app/` — what cannot be verified: file and channel I/O, async plumbing,
  the loop that performs module loads, serde and thiserror copies of
  library types.
