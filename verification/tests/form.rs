use cot_macros::select_choice::{ChoiceVariant, FieldValidationError, SelectChoices};

fn variant(ident: &str, id: Option<&str>, name: Option<&str>) -> ChoiceVariant {
    ChoiceVariant {
        ident: ident.to_string(),
        id: id.map(|s| s.to_string()),
        name: name.map(|s| s.to_string()),
    }
}

/// `Priority` with `#[select_choice(id = .., name = ..)]` on every variant.
fn priority() -> SelectChoices {
    SelectChoices::from_variants(&vec![
        variant("Low", Some("low"), Some("Low Priority")),
        variant("Medium", Some("medium"), Some("Medium Priority")),
        variant("High", Some("high"), Some("High Priority")),
    ])
}

/// `Status` with no attributes at all.
fn status() -> SelectChoices {
    SelectChoices::from_variants(&vec![
        variant("Active", None, None),
        variant("Inactive", None, None),
        variant("Pending", None, None),
    ])
}

const LOW: usize = 0;
const MEDIUM: usize = 1;
const HIGH: usize = 2;

/// A select field holding `high` is cleaned into `Priority::High` (variant 2).
/// Checked on the `SelectChoices` model of `Priority`; the form's other fields
/// belong to the `Form` derive, which this crate does not hold.
#[test]
fn select_field_form_integration() {
    let form = priority().clean_value(Some("high")).unwrap();
    assert_eq!(form, HIGH);
}

/// A select field holding no variant's id is refused with that value.
/// Checked on the `SelectChoices` model of `Priority`; the form-level errors
/// belong to the `Form` derive, which this crate does not hold.
#[test]
fn select_field_validation_error() {
    let form = priority().clean_value(Some("invalid_priority"));
    match form {
        Err(e) => {
            assert_eq!(
                e,
                FieldValidationError::InvalidValue("invalid_priority".to_string())
            );
        }
        _ => panic!("Expected a validation error"),
    }
}

/// Ids, display names, parsing, default choices and field values of
/// `Priority`, checked on its `SelectChoices` model rather than on derived code.
#[test]
fn derive_macro_comparison() {
    let p = priority();

    assert_eq!(p.id(LOW), "low");
    assert_eq!(p.id(MEDIUM), "medium");
    assert_eq!(p.id(HIGH), "high");

    assert_eq!(p.to_string(LOW), "Low Priority");
    assert_eq!(p.to_string(MEDIUM), "Medium Priority");
    assert_eq!(p.to_string(HIGH), "High Priority");

    assert_eq!(p.from_str("low").unwrap(), LOW);
    assert_eq!(p.from_str("medium").unwrap(), MEDIUM);
    assert_eq!(p.from_str("high").unwrap(), HIGH);
    assert!(p.from_str("invalid").is_err());

    let choices = p.default_choices();
    assert_eq!(choices.len(), 3);
    assert!(choices.contains(&LOW));
    assert!(choices.contains(&MEDIUM));
    assert!(choices.contains(&HIGH));

    assert_eq!(p.to_field_value(HIGH), "high");
}

/// Without attributes, ids and display names are the variant names; checked
/// on the `SelectChoices` model of `Status` rather than on derived code.
#[test]
fn simple_enum_with_defaults() {
    let s = status();

    assert_eq!(s.id(0), "Active");
    assert_eq!(s.id(1), "Inactive");
    assert_eq!(s.id(2), "Pending");

    assert_eq!(s.to_string(0), "Active");
    assert_eq!(s.to_string(1), "Inactive");
    assert_eq!(s.to_string(2), "Pending");

    assert_eq!(s.from_str("Active").unwrap(), 0);
    assert_eq!(s.from_str("Inactive").unwrap(), 1);
    assert_eq!(s.from_str("Pending").unwrap(), 2);
}

#[test]
fn clean_value_without_value_is_required() {
    assert_eq!(priority().clean_value(None), Err(FieldValidationError::Required));
}

#[test]
fn clean_value_of_empty_value_is_required() {
    assert_eq!(priority().clean_value(Some("")), Err(FieldValidationError::Required));
}

#[test]
fn from_str_is_case_sensitive_and_exact() {
    let p = priority();
    assert_eq!(
        p.from_str("High"),
        Err(FieldValidationError::InvalidValue("High".to_string()))
    );
    assert_eq!(
        p.from_str("high "),
        Err(FieldValidationError::InvalidValue("high ".to_string()))
    );
    assert_eq!(
        p.from_str("Low Priority"),
        Err(FieldValidationError::InvalidValue("Low Priority".to_string()))
    );
}

#[test]
fn field_value_round_trips_for_every_variant() {
    for choices in [priority(), status()] {
        for index in choices.default_choices() {
            let value = choices.to_field_value(index);
            assert_eq!(choices.clean_value(Some(&value)), Ok(index));
        }
    }
}

#[test]
fn duplicate_ids_resolve_to_the_first_variant() {
    let choices = SelectChoices::from_variants(&vec![
        variant("A", Some("x"), None),
        variant("B", Some("x"), None),
    ]);
    assert_eq!(choices.from_str("x"), Ok(0));
    assert_eq!(choices.clean_value(Some(&choices.to_field_value(1))), Ok(0));
}

#[test]
fn an_empty_id_cannot_be_selected() {
    let choices = SelectChoices::from_variants(&vec![
        variant("None", Some(""), Some("Nothing")),
        variant("Some", None, None),
    ]);
    assert_eq!(choices.to_field_value(0), "");
    assert_eq!(
        choices.clean_value(Some(&choices.to_field_value(0))),
        Err(FieldValidationError::Required)
    );
    assert_eq!(choices.from_str(""), Ok(0));
}

#[test]
fn name_alone_keeps_the_variant_name_as_id() {
    let choices = SelectChoices::from_variants(&vec![variant("Low", None, Some("Low Priority"))]);
    assert_eq!(choices.id(0), "Low");
    assert_eq!(choices.to_string(0), "Low Priority");
    assert_eq!(choices.len(), 1);
}

#[test]
fn no_variants_give_no_choices() {
    let choices = SelectChoices::from_variants(&vec![]);
    assert_eq!(choices.len(), 0);
    assert!(choices.default_choices().is_empty());
    assert_eq!(
        choices.clean_value(Some("a")),
        Err(FieldValidationError::InvalidValue("a".to_string()))
    );
}
