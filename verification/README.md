# cot_macros

The logic behind the `cot` derive macros, verified with Verus.

- `src/shape.rs`: the derive input as plain values (item name, enum variants and
  their fields).
- `src/as_form_field.rs`: when `AsFormField` may be derived (the
  `supports(enum_unit)` shape rule and a non-empty enum), the refusal
  otherwise, and the source text of the generated impl.
- `src/crate_path.rs`: the path by which generated code names `cot`.
- `src/crate_path.rs` also holds the identifier rule that a dependency name of
  `cot` must meet, as a type invariant of `CotCrate`.
- `src/select_choice.rs`: a model, by plain values, of what an enum deriving
  `SelectChoice` and `AsFormField` answers at run time (ids, display names,
  parsing and cleaning of field values), with its laws. It is not generated
  code and nothing in this crate generates `SelectChoice` impls; it states
  the behaviour that the generated `AsFormField` impl relies on.
- `app/lib.rs`: the token-level entry points: parsing with `syn`, the `darling`
  shape check, locating `cot` with `proc-macro-crate`, and turning the library's
  answers into tokens or compile errors.
