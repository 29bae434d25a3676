//! Verified core of the `cot` derive macros: the checks that decide whether
//! an item may derive `AsFormField`, the source text of the generated impl,
//! the path under which generated code reaches `cot`, and the behaviour of
//! enums that derive `SelectChoice` and `AsFormField` together.

pub mod as_form_field;
pub mod crate_path;
pub mod select_choice;
pub mod shape;
