use vstd::prelude::*;

use crate::crate_path::{cot_ident, spec_cot_path, CotCrate};
use crate::shape::{
    lemma_no_positions_iff_all_unit, lemma_non_unit_positions_exact, non_unit_positions,
    non_unit_variants, spec_supports_enum_unit, DataShape, DeriveShape, FieldsShape, VariantShape,
};

verus! {

/// Why `AsFormField` cannot be derived for an item.
#[derive(Debug, Clone, PartialEq, Eq)]
pub enum AsFormFieldError {
    /// Refused by `darling`'s `supports(enum_unit)` shape rule: the item is
    /// not an enum (no positions), or these variants, in declaration order,
    /// are written with braces or parentheses. `darling` reports the refusal
    /// with its own messages, one per listed variant.
    UnsupportedShape(Vec<usize>),
    /// The enum has no variants.
    EmptyEnum,
}

/// An [`AsFormFieldError`] with its positions taken by value.
pub enum Refusal {
    UnsupportedShape(Seq<usize>),
    EmptyEnum,
}

impl View for AsFormFieldError {
    type V = Refusal;

    open spec fn view(&self) -> Refusal {
        match self {
            AsFormFieldError::UnsupportedShape(ps) => Refusal::UnsupportedShape(ps@),
            AsFormFieldError::EmptyEnum => Refusal::EmptyEnum,
        }
    }
}

impl AsFormFieldError {
    /// The compile error message written for this refusal by the derive
    /// itself: only an empty enum gets one, as shape refusals are reported
    /// by `darling`.
    pub fn message(&self) -> (m: Option<String>)
        ensures
            match self {
                AsFormFieldError::EmptyEnum => m matches Some(s) && s@
                    == "`AsFormField` cannot be derived for empty enums"@,
                AsFormFieldError::UnsupportedShape(_) => m is None,
            },
    {
        match self {
            AsFormFieldError::UnsupportedShape(_) => None,
            AsFormFieldError::EmptyEnum => Some(
                String::from_str("`AsFormField` cannot be derived for empty enums"),
            ),
        }
    }
}

/// Whether `AsFormField` may be derived for an item with this body, and if
/// not, why: it must pass the `supports(enum_unit)` shape rule (an enum whose
/// variants all have neither braces nor parentheses; else the offending
/// variants are named) and have a variant.
pub open spec fn spec_check_as_form_field(data: DataShape) -> Result<(), Refusal> {
    match data {
        DataShape::Enum(vs) => {
            if non_unit_positions(vs@).len() > 0 {
                Err(Refusal::UnsupportedShape(non_unit_positions(vs@)))
            } else if vs@.len() == 0 {
                Err(Refusal::EmptyEnum)
            } else {
                Ok(())
            }
        },
        _ => Err(Refusal::UnsupportedShape(Seq::empty())),
    }
}

/// Decides whether `AsFormField` may be derived for an item with this body.
pub fn check_as_form_field(data: &DataShape) -> (r: Result<(), AsFormFieldError>)
    ensures
        match r {
            Ok(()) => spec_check_as_form_field(*data) == Ok::<(), Refusal>(()),
            Err(e) => spec_check_as_form_field(*data) == Err::<(), Refusal>(e@),
        },
{
    match data {
        DataShape::Enum(vs) => {
            let ps = non_unit_variants(vs);
            if ps.len() > 0 {
                Err(AsFormFieldError::UnsupportedShape(ps))
            } else if vs.len() == 0 {
                Err(AsFormFieldError::EmptyEnum)
            } else {
                Ok(())
            }
        },
        _ => Err(AsFormFieldError::UnsupportedShape(Vec::new())),
    }
}

/// `AsFormField` is derived exactly for items that pass the shape rule and
/// have a variant: enums with at least one variant, all written without
/// braces or parentheses (`A {}` and `A()` are refused too).
pub proof fn lemma_derivable_iff_unit_enum(data: DataShape)
    ensures
        spec_check_as_form_field(data) is Ok <==> spec_supports_enum_unit(data) && data->Enum_0@.len()
            > 0,
        spec_check_as_form_field(data) is Ok <==> (data matches DataShape::Enum(vs) && vs@.len()
            > 0 && forall|i: int|
            0 <= i < vs@.len() ==> (#[trigger] vs@[i]).fields == FieldsShape::Unit),
{
    if let DataShape::Enum(vs) = data {
        lemma_no_positions_iff_all_unit(vs@);
    }
}

/// A refused enum is refused with exactly its variants that have braces or
/// parentheses, each once, in declaration order.
pub proof fn lemma_refusal_names_offending_variants(vs: Vec<VariantShape>)
    requires
        vs@.len() <= usize::MAX,
        exists|i: int| 0 <= i < vs@.len() && (#[trigger] vs@[i]).fields != FieldsShape::Unit,
    ensures
        spec_check_as_form_field(DataShape::Enum(vs)) matches Err(Refusal::UnsupportedShape(ps)) && {
            &&& forall|k: int|
                0 <= k < ps.len() ==> (#[trigger] ps[k]) < vs@.len() && vs@[ps[k] as int].fields
                    != FieldsShape::Unit
            &&& forall|k: int, l: int| 0 <= k < l < ps.len() ==> #[trigger] ps[k] < #[trigger] ps[l]
            &&& forall|i: int|
                0 <= i < vs@.len() && (#[trigger] vs@[i]).fields != FieldsShape::Unit ==> ps.contains(
                    i as usize,
                )
        },
{
    lemma_no_positions_iff_all_unit(vs@);
    lemma_non_unit_positions_exact(vs@);
}

/// Every enum that may derive `AsFormField` gets the same impl, up to its
/// name and the path of `cot`: what its variants are called plays no part.
pub proof fn lemma_impl_depends_on_name_only(a: DeriveShape, b: DeriveShape, cot: Option<Seq<char>>)
    requires
        spec_check_as_form_field(a.data) is Ok,
        spec_check_as_form_field(b.data) is Ok,
        a.ident@ == b.ident@,
    ensures
        spec_derive_as_form_field(a, cot) == spec_derive_as_form_field(b, cot),
        spec_derive_as_form_field(a, cot) == Ok::<Seq<char>, Refusal>(
            spec_as_form_field_impl(spec_cot_path(cot), a.ident@),
        ),
{
}

/// The source text of the `AsFormField` impl generated for the enum `name`,
/// where `cot` is the path of the `cot` crate.
///
/// The field type is `SelectField<Self>`; `clean_value` answers `Required` when
/// the field has no value or an empty one, and otherwise whatever
/// `SelectChoice::from_str` answers for the value; `to_field_value` is
/// `SelectChoice::id`.
pub open spec fn spec_as_form_field_impl(cot: Seq<char>, name: Seq<char>) -> Seq<char> {
    "#[automatically_derived]\nimpl "@ + cot + "::form::AsFormField for "@ + name
        + " {\n    type Type = "@ + cot + "::form::fields::SelectField<Self>;\n\n"@
        + "    fn clean_value(\n        field: &Self::Type\n    ) -> ::core::result::Result<Self, "@
        + cot + "::form::FormFieldValidationError> {\n"@
        + "        if let ::core::option::Option::Some(value) = field.value() {\n"@
        + "            if value.is_empty() {\n                return ::core::result::Result::Err(\n                    "@
        + cot + "::form::FormFieldValidationError::Required\n                );\n            }\n"@
        + "            <Self as "@ + cot + "::form::fields::SelectChoice>::from_str(value)\n"@
        + "        } else {\n            ::core::result::Result::Err("@ + cot
        + "::form::FormFieldValidationError::Required)\n        }\n    }\n\n"@
        + "    fn to_field_value(&self) -> ::std::string::String {\n        <Self as "@ + cot
        + "::form::fields::SelectChoice>::id(self)\n    }\n}\n"@
}

/// Writes the source text of the `AsFormField` impl for the enum `name`.
pub fn as_form_field_impl_source(cot: &str, name: &str) -> (src: String)
    ensures
        src@ == spec_as_form_field_impl(cot@, name@),
{
    let mut s = String::from_str("#[automatically_derived]\nimpl ");
    s.append(cot);
    s.append("::form::AsFormField for ");
    s.append(name);
    s.append(" {\n    type Type = ");
    s.append(cot);
    s.append("::form::fields::SelectField<Self>;\n\n");
    s.append("    fn clean_value(\n        field: &Self::Type\n    ) -> ::core::result::Result<Self, ");
    s.append(cot);
    s.append("::form::FormFieldValidationError> {\n");
    s.append("        if let ::core::option::Option::Some(value) = field.value() {\n");
    s.append(
        "            if value.is_empty() {\n                return ::core::result::Result::Err(\n                    ",
    );
    s.append(cot);
    s.append("::form::FormFieldValidationError::Required\n                );\n            }\n");
    s.append("            <Self as ");
    s.append(cot);
    s.append("::form::fields::SelectChoice>::from_str(value)\n");
    s.append("        } else {\n            ::core::result::Result::Err(");
    s.append(cot);
    s.append("::form::FormFieldValidationError::Required)\n        }\n    }\n\n");
    s.append("    fn to_field_value(&self) -> ::std::string::String {\n        <Self as ");
    s.append(cot);
    s.append("::form::fields::SelectChoice>::id(self)\n    }\n}\n");
    s
}

/// What deriving `AsFormField` on `input` yields, where `cot` says how `cot`
/// is reached (`None`: from inside `cot`): the source text of the impl, or the
/// reason for refusing.
pub open spec fn spec_derive_as_form_field(input: DeriveShape, cot: Option<Seq<char>>) -> Result<
    Seq<char>,
    Refusal,
> {
    match spec_check_as_form_field(input.data) {
        Ok(_) => Ok(spec_as_form_field_impl(spec_cot_path(cot), input.ident@)),
        Err(e) => Err(e),
    }
}

/// Derives `AsFormField` for `input`: checks that it is a non-empty enum of
/// unit variants and writes the impl's source text.
pub fn impl_as_form_field_for_enum(input: &DeriveShape, cot: &CotCrate) -> (r: Result<
    String,
    AsFormFieldError,
>)
    ensures
        match r {
            Ok(src) => spec_derive_as_form_field(*input, cot@) == Ok::<Seq<char>, Refusal>(src@),
            Err(e) => spec_derive_as_form_field(*input, cot@) == Err::<Seq<char>, Refusal>(e@),
        },
{
    let cot_path = cot_ident(cot);
    match check_as_form_field(&input.data) {
        Ok(()) => Ok(as_form_field_impl_source(cot_path.as_str(), input.ident.as_str())),
        Err(e) => Err(e),
    }
}

/// What deriving `AsFormField` gives, in terms of the item alone: the impl
/// for the item's name exactly when the item is an enum with at least one
/// variant, every one written without braces or parentheses; otherwise a
/// struct or union is refused with no positions, an enum with variants that
/// have braces or parentheses is refused with exactly those positions, in
/// increasing order, and an enum with no variants is refused as empty.
pub proof fn lemma_derive_outcome(input: DeriveShape, cot: Option<Seq<char>>)
    requires
        input.data matches DataShape::Enum(vs) ==> vs@.len() <= usize::MAX,
    ensures
        spec_derive_as_form_field(input, cot) is Ok <==> (input.data matches DataShape::Enum(vs)
            && vs@.len() > 0 && forall|i: int|
            0 <= i < vs@.len() ==> (#[trigger] vs@[i]).fields == FieldsShape::Unit),
        spec_derive_as_form_field(input, cot) matches Ok(src) ==> src == spec_as_form_field_impl(
            spec_cot_path(cot),
            input.ident@,
        ),
        !(input.data is Enum) ==> spec_derive_as_form_field(input, cot) == Err::<Seq<char>, Refusal>(
            Refusal::UnsupportedShape(Seq::empty()),
        ),
        input.data matches DataShape::Enum(vs) && vs@.len() == 0 ==> spec_derive_as_form_field(
            input,
            cot,
        ) == Err::<Seq<char>, Refusal>(Refusal::EmptyEnum),
        input.data matches DataShape::Enum(vs) ==> ((exists|i: int|
            0 <= i < vs@.len() && (#[trigger] vs@[i]).fields != FieldsShape::Unit)
            ==> (spec_derive_as_form_field(input, cot) matches Err(Refusal::UnsupportedShape(ps)) && {
            &&& forall|k: int|
                0 <= k < ps.len() ==> (#[trigger] ps[k]) < vs@.len() && vs@[ps[k] as int].fields
                    != FieldsShape::Unit
            &&& forall|k: int, l: int| 0 <= k < l < ps.len() ==> #[trigger] ps[k] < #[trigger] ps[l]
            &&& forall|i: int|
                0 <= i < vs@.len() && (#[trigger] vs@[i]).fields != FieldsShape::Unit ==> ps.contains(
                    i as usize,
                )
        })),
{
    if let DataShape::Enum(vs) = input.data {
        lemma_no_positions_iff_all_unit(vs@);
        lemma_non_unit_positions_exact(vs@);
        if exists|i: int| 0 <= i < vs@.len() && (#[trigger] vs@[i]).fields != FieldsShape::Unit {
            lemma_refusal_names_offending_variants(vs);
        }
    }
}

/// The generated text opens with `#[automatically_derived]` and the header
/// `impl <cot>::form::AsFormField for <name> {`.
pub proof fn lemma_impl_header(cot: Seq<char>, name: Seq<char>)
    ensures
        ("#[automatically_derived]\nimpl "@ + cot + "::form::AsFormField for "@ + name + " {"@).is_prefix_of(
            spec_as_form_field_impl(cot, name),
        ),
{
    reveal_strlit(" {");
    reveal_strlit(" {\n    type Type = ");
    let head = "#[automatically_derived]\nimpl "@ + cot + "::form::AsFormField for "@ + name;
    let p = head + " {"@;
    let full = spec_as_form_field_impl(cot, name);
    let q = head + " {\n    type Type = "@;
    assert(q.is_prefix_of(full)) by {
        let rest = full.subrange(q.len() as int, full.len() as int);
        assert(full =~= q + cot + "::form::fields::SelectField<Self>;\n\n"@
            + "    fn clean_value(\n        field: &Self::Type\n    ) -> ::core::result::Result<Self, "@
            + cot + "::form::FormFieldValidationError> {\n"@
            + "        if let ::core::option::Option::Some(value) = field.value() {\n"@
            + "            if value.is_empty() {\n                return ::core::result::Result::Err(\n                    "@
            + cot + "::form::FormFieldValidationError::Required\n                );\n            }\n"@
            + "            <Self as "@ + cot + "::form::fields::SelectChoice>::from_str(value)\n"@
            + "        } else {\n            ::core::result::Result::Err("@ + cot
            + "::form::FormFieldValidationError::Required)\n        }\n    }\n\n"@
            + "    fn to_field_value(&self) -> ::std::string::String {\n        <Self as "@ + cot
            + "::form::fields::SelectChoice>::id(self)\n    }\n}\n"@);
        assert(full.len() >= q.len());
        assert forall|i: int| 0 <= i < q.len() implies q[i] == full[i] by {}
    }
    assert forall|i: int| 0 <= i < p.len() implies p[i] == full[i] by {
        assert(p[i] == q[i]);
    }
}

} // verus!
