# mako

The decision logic of the mako bundler's build plugins, written in Verus with
its behaviour stated in `requires` / `ensures` contracts and proved.

- `src/` is the verified library:
  - `tree_shaking`: used exports, side-effect flags, skipping re-export
    modules, explicit property reads, export names;
  - `concatenate`: grouping modules for concatenation, their order, names and
    runtime interop helpers, the links of imports and exports;
  - `federation`: module federation runtime code, manifest assets, remotes;
  - `resolve`: externals and resolver options;
  - `require_context`, `stats`, `ssu`, `wasm_runtime`, `plugins` and smaller
    modules for the other plugins.
  Calls into outside crates (`regex`, `glob`, `pathdiff`, `serde_json`,
  `wasmparser`, …) go through small trusted wrappers in `src/paths.rs` and
  beside their callers.
- `tests/` runs the library on concrete inputs, with swc parsing source code
  where a test starts from JavaScript.
- `app/` holds what cannot be verified: file reading and writing, the clock,
  coloured printing, floating-point sizes and serde conversions.
