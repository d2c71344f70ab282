# spirv_abi

Translation of the layouts of Rust types, and of the signatures of Rust functions, into
SPIR-V types, verified with [Verus](https://github.com/verus-lang/verus).

- `src/` is the library. Its contracts are stated over `state::State`: the module under
  construction, and what is known of the ids in it. `src/laws/` holds what follows from the
  contracts: a type has one id, translating a type without arrays twice gives the same id (the
  length of an array is a new constant each time), sizes and texts stay as they are when the
  module grows, and so on.
- `src/emit.rs` holds what the library relies on without proof: what the methods of
  `rspirv::dr::Builder` do. `src/text.rs` adds how the standard library quotes a string.
- `tests/` runs the library on concrete types and looks at the module that comes out.
- `app/` takes layouts and signatures from the Rust compiler and hands them to the library.

A layout is a finite tree. A type that translation would follow back to itself has none.
Ids are 32 bits wide. `src/check.rs` tells beforehand whether a translation is possible, and
`src/plan.rs` whether there are enough ids left for it.
