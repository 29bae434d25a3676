use cot_macros::as_form_field::{
    as_form_field_impl_source, check_as_form_field, impl_as_form_field_for_enum, AsFormFieldError,
};
use cot_macros::crate_path::{cot_ident, CotCrate};
use cot_macros::crate_path::check_identifier;
use cot_macros::shape::{non_unit_variants, DataShape, DeriveShape, FieldsShape, VariantShape};

fn unit(name: &str) -> VariantShape {
    VariantShape { ident: name.to_string(), fields: FieldsShape::Unit }
}

fn enum_of(name: &str, variants: Vec<VariantShape>) -> DeriveShape {
    DeriveShape { ident: name.to_string(), data: DataShape::Enum(variants) }
}

fn expected_impl(cot: &str, name: &str) -> String {
    format!(
        "#[automatically_derived]
impl {cot}::form::AsFormField for {name} {{
    type Type = {cot}::form::fields::SelectField<Self>;

    fn clean_value(
        field: &Self::Type
    ) -> ::core::result::Result<Self, {cot}::form::FormFieldValidationError> {{
        if let ::core::option::Option::Some(value) = field.value() {{
            if value.is_empty() {{
                return ::core::result::Result::Err(
                    {cot}::form::FormFieldValidationError::Required
                );
            }}
            <Self as {cot}::form::fields::SelectChoice>::from_str(value)
        }} else {{
            ::core::result::Result::Err({cot}::form::FormFieldValidationError::Required)
        }}
    }}

    fn to_field_value(&self) -> ::std::string::String {{
        <Self as {cot}::form::fields::SelectChoice>::id(self)
    }}
}}
"
    )
}

#[test]
fn priority_gets_the_select_field_impl() {
    let input = enum_of("Priority", vec![unit("Low"), unit("Medium"), unit("High")]);
    let source = impl_as_form_field_for_enum(&input, &CotCrate::itself()).unwrap();
    assert_eq!(source, expected_impl("::cot", "Priority"));
}

#[test]
fn renamed_cot_dependency_is_used_in_paths() {
    let input = enum_of("Status", vec![unit("Active")]);
    let cot = CotCrate::named("web".to_string()).unwrap();
    let source = impl_as_form_field_for_enum(&input, &cot).unwrap();
    assert_eq!(source, expected_impl("::web", "Status"));
    assert!(!source.contains("::cot::"));
}

#[test]
fn impl_source_alone_matches_the_template() {
    assert_eq!(as_form_field_impl_source("::cot", "E"), expected_impl("::cot", "E"));
}

#[test]
fn structs_and_unions_are_refused() {
    for data in [DataShape::Struct, DataShape::Union] {
        let input = DeriveShape { ident: "S".to_string(), data };
        let err = impl_as_form_field_for_enum(&input, &CotCrate::itself()).unwrap_err();
        assert_eq!(err, AsFormFieldError::UnsupportedShape(vec![]));
        assert_eq!(err.message(), None);
    }
}

#[test]
fn empty_enum_is_refused() {
    let err = impl_as_form_field_for_enum(&enum_of("Never", vec![]), &CotCrate::itself()).unwrap_err();
    assert_eq!(err, AsFormFieldError::EmptyEnum);
    assert_eq!(
        err.message().as_deref(),
        Some("`AsFormField` cannot be derived for empty enums")
    );
}

#[test]
fn variants_with_fields_are_refused() {
    let input = enum_of(
        "E",
        vec![
            unit("A"),
            VariantShape { ident: "B".to_string(), fields: FieldsShape::Unnamed(1) },
            VariantShape { ident: "C".to_string(), fields: FieldsShape::Named(2) },
        ],
    );
    let err = impl_as_form_field_for_enum(&input, &CotCrate::itself()).unwrap_err();
    assert_eq!(err, AsFormFieldError::UnsupportedShape(vec![1, 2]));
    assert_eq!(err.message(), None);
}

#[test]
fn empty_brackets_are_refused() {
    for fields in [FieldsShape::Named(0), FieldsShape::Unnamed(0)] {
        let input = enum_of(
            "E",
            vec![unit("A"), VariantShape { ident: "B".to_string(), fields }],
        );
        assert_eq!(
            check_as_form_field(&input.data),
            Err(AsFormFieldError::UnsupportedShape(vec![1]))
        );
        assert_eq!(
            impl_as_form_field_for_enum(&input, &CotCrate::itself()),
            Err(AsFormFieldError::UnsupportedShape(vec![1]))
        );
    }
}

#[test]
fn impl_depends_on_the_name_only() {
    let a = enum_of("Level", vec![unit("One"), unit("Two")]);
    let b = enum_of("Level", vec![unit("X")]);
    let cot = CotCrate::named("cot".to_string()).unwrap();
    assert_eq!(
        impl_as_form_field_for_enum(&a, &cot).unwrap(),
        impl_as_form_field_for_enum(&b, &cot).unwrap()
    );
}

#[test]
fn shape_refusal_lists_every_offending_variant() {
    let v = vec![
        VariantShape { ident: "A".to_string(), fields: FieldsShape::Named(0) },
        unit("B"),
        VariantShape { ident: "C".to_string(), fields: FieldsShape::Unnamed(2) },
        unit("D"),
        VariantShape { ident: "E".to_string(), fields: FieldsShape::Unnamed(0) },
    ];
    assert_eq!(non_unit_variants(&v), vec![0, 2, 4]);
    assert_eq!(non_unit_variants(&vec![unit("A"), unit("B")]), Vec::<usize>::new());
    assert_eq!(non_unit_variants(&vec![]), Vec::<usize>::new());
    assert_eq!(
        check_as_form_field(&DataShape::Enum(v)),
        Err(AsFormFieldError::UnsupportedShape(vec![0, 2, 4]))
    );
    assert_eq!(
        check_as_form_field(&DataShape::Enum(vec![])),
        Err(AsFormFieldError::EmptyEnum)
    );
    assert!(FieldsShape::Unit.is_unit());
    assert!(!FieldsShape::Unnamed(0).is_unit());
}

#[test]
fn cot_path_inside_cot() {
    assert_eq!(cot_ident(&CotCrate::itself()), "::cot");
}

#[test]
fn cot_path_of_a_renamed_dependency() {
    assert_eq!(cot_ident(&CotCrate::named("my_cot".to_string()).unwrap()), "::my_cot");
}

#[test]
fn generated_impl_is_a_rust_impl_item() {
    let input = enum_of("Priority", vec![unit("Low"), unit("High")]);
    let source = impl_as_form_field_for_enum(&input, &CotCrate::named("cot".to_string()).unwrap()).unwrap();
    let tokens: proc_macro2::TokenStream = source.parse().unwrap();
    let item: syn::ItemImpl = syn::parse2(tokens).unwrap();
    assert_eq!(item.items.len(), 3);
    assert_eq!(item.attrs.len(), 1);
}

#[test]
fn cot_dependency_names_must_be_identifiers() {
    for bad in ["", "123", "1abc", "a-b", "r#cot", " cot", "co t", "::cot"] {
        assert!(!check_identifier(bad), "{bad:?}");
        assert!(CotCrate::named(bad.to_string()).is_none(), "{bad:?}");
    }
    for good in ["cot", "_", "_cot2", "my_cot", "caf\u{e9}", "Cot"] {
        assert!(check_identifier(good), "{good:?}");
        assert!(CotCrate::named(good.to_string()).is_some(), "{good:?}");
    }
}

#[test]
fn accepted_names_are_proc_macro2_identifiers() {
    for name in ["cot", "_", "caf\u{e9}", "x1", "\u{e9}t\u{e9}"] {
        assert!(check_identifier(name));
        let ident = proc_macro2::Ident::new(name, proc_macro2::Span::call_site());
        assert_eq!(ident.to_string(), name);
    }
}
