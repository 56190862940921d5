# pyattrs

The attribute layer of a small Python interpreter, written in Verus: what
`obj.name` resolves to for each built-in value type, how `obj.name = v` and
`del obj.name` act on an object's namespace, and the value-level algorithms
behind many built-in methods.

## Layout

- `src/` — the verified library. Every function carries a contract that
  Verus proves.
  - `object.rs`, `attrmap.rs`, `method_tables.rs`, `exc_attrs.rs`,
    `func_attrs.rs`, `super_lookup.rs`, `arg_checks.rs` — attribute lookup,
    assignment and deletion, the method tables of each type, and the
    argument checks of the container methods.
  - `case.rs`, `strmethods.rs`, `strsearch.rs`, `strsplit.rs`, `strws.rs`,
    `strtable.rs`, `encode.rs`, `format_plan.rs`, `interp_error.rs` —
    `str` methods.
  - `list.rs`, `list_sort.rs`, `deque.rs`, `keyset.rs`, `keydict.rs`, `range.rs`,
    `slice_ops.rs`, `repeat.rs` — containers and sequences.
  - `bigint.rs`, `int_attrs.rs`, `float_ops.rs`, `float_repr.rs` — numbers.
    Big integers come from `num-bigint`, behind a small set of trusted
    wrappers; floats never enter the library, which reads their bits or
    facts about them instead.
  - `sync_state.rs`, `socket_state.rs`, `process_state.rs`,
    `pattern_ops.rs` — the decisions of locks, queues, threads, sockets,
    child processes and compiled patterns, taken from plain values.
  - `laws.rs` — properties that span several operations, stated and proved
    as proof functions.
- `tests/` — executable tests of the library.
- `app/` — ordinary Rust around the library: float arithmetic, conversions
  to and from the interpreter's big integers, and the system calls of
  sockets and child processes.
