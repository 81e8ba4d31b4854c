# spv_writer

Writes shader modules as SPIR-V, with a proof of what is written.

- `src/ir.rs`, `src/arena.rs`: the shader module, and the arenas that hold its parts.
- `src/layouter.rs`: sizes and alignments of types.
- `src/headers.rs`: what is taken from the `spirv_headers` crate, and what is relied on.
- `src/spv/`: the writer.
  - `words`, `instruction`, `instructions`, `layout`: how instructions and modules become words.
  - `lookup`, `table`: what the writer remembers.
  - `model`: the state of the writer and its elementary steps, as mathematics. A step is done,
    refuses the module, or is stuck on a module that is malformed.
  - `writer`: the writer and its elementary steps.
  - `types`, `constants`, `globals`: declarations.
  - `operators`, `expressions`, `write_expressions`, `statements`, `function`, `module`: functions
    and whole modules.
  - `laws`, `module_laws`, `lookup_laws`, `label_laws`, `branch_laws`, `depth_laws`, `type_laws`:
    laws of the writer as a whole. A law that belongs to one of the files above stands in that file. `remembering`,
    `open_types` and the `growth` files hold the proofs that nothing written or remembered is
    lost and no identifier is defined twice, the `typing` files those that types are declared
    before their values.
- `app/`: errors and numbers in the form in which other code holds them.

Each method that writes something requires that its description is not stuck, and ensures that
the state that it leaves behind and what it returns are those of the description.
