# enum_handlers

Generation of an enum-dispatch method for an `impl` block whose methods are
marked `#[handle(Enum::Variant)]`, with its logic verified by Verus.

- `src/model.rs` — plain-value models of the syntax that is read: types,
  method inputs, attributes, methods and `impl` items.
- `src/handlers.rs` — selection of the handlers of one enum and the plan of
  the dispatch method (receiver, asyncness, return type, arms).
- `src/attr.rs` — the attribute arguments `Enum` / `Enum, dispatch = name`.
- `src/render.rs` — the source text of the dispatch method.
- `src/syntax.rs` — trusted access to `syn` and `proc_macro2`.
- `src/expand.rs` — `handle` and `with_enum_handlers` on token streams.
- `src/laws.rs` — properties that hold for every `impl` block.
- `app/lib.rs` — the compiler-facing entry points on `proc_macro` streams.
