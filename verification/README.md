# pax_manifest

A verified library for the expression-compilation pass of the Pax compiler
manifest, plus the property patching helper of the standard primitives.

- `src/manifest.rs` — the manifest data types and their mathematical views.
- `src/node_map.rs` — the map of template node definitions keyed by id.
- `src/traversal.rs` — the model of the template walk (`visit`), the walk
  itself (`recurse_template_and_compile_expressions`) and its laws.
- `src/compile.rs` — `PaxManifest::compile_all_expressions`, its model
  (`compile_components`), a check of its precondition, and its laws.
- `src/patch.rs` — `patch_if_needed`.
- `app/lib.rs` — the serde form of the manifest and the entry point that
  compiles and prints it as JSON.

Out of scope: the generated cartridge code (`instantiate_expression_table`,
`instantiate_root_component`), the `CheckboxStyle` type with its `Default`,
`PartialEq<CheckboxStyleMessage>` and `From` impls, and the `pax_struct!`
macro. They are built on the Pax runtime crates (`pax_core`,
`pax_runtime_api`, `pax_lang`, `pax_message`), which are not available here,
and on floating-point transform and colour values.
