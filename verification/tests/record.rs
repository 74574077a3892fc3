use yew_form::error::FieldError;
use yew_form::field_state::{Edit, FieldState};
use yew_form::form_state::FormState;
use yew_form::model::Model;
use yew_form::record::{Record, Rule, Value};
use yew_form::validation::Violation;

fn text(value: &str) -> Value {
    Value::Text(value.to_string())
}

fn address(street: &str, city: &str) -> Record {
    let mut address = Record::new();
    assert!(address.add("street", text(street)));
    assert!(address.add("city", text(city)));
    assert!(address.add_rule(
        "street",
        Rule::MinLength { length: 1, message: "Street is required".to_string() }
    ));
    assert!(address.add_rule(
        "city",
        Rule::MinLength { length: 1, message: "City name is required".to_string() }
    ));
    address
}

fn registration(first_name: &str, street: &str, city: &str) -> Record {
    let mut record = Record::new();
    assert!(record.add("first_name", text(first_name)));
    assert!(record.add("last_name", text("Bilodeau")));
    assert!(record.add("quantity", Value::Integer(10)));
    assert!(record.add("address", Value::Nested(address(street, city))));
    assert!(record.add("accept_terms", Value::Boolean(false)));
    assert!(record.add_rule(
        "first_name",
        Rule::MinLength { length: 1, message: "First name is required".to_string() }
    ));
    assert!(record.add_rule(
        "quantity",
        Rule::Range { min: 1, max: 100, message: "Between 1 and 100".to_string() }
    ));
    assert!(record.add_rule(
        "accept_terms",
        Rule::MustEqual {
            expected: true,
            message: "Must accept terms before continuing".to_string()
        }
    ));
    record
}

#[test]
fn a_record_declares_its_leaves_by_dotted_path() {
    let record = registration("J-F", "1 Main", "Ottawa");
    assert_eq!(
        record.fields(),
        vec![
            "first_name".to_string(),
            "last_name".to_string(),
            "quantity".to_string(),
            "address.street".to_string(),
            "address.city".to_string(),
            "accept_terms".to_string(),
        ]
    );
    assert_eq!(record.paths(), record.fields());
    assert_eq!(Record::new().fields(), Vec::<String>::new());
}

#[test]
fn every_declared_path_reads() {
    let record = registration("J-F", "1 Main", "Ottawa");
    for path in record.fields() {
        assert!(record.get_string(&path).is_ok(), "{}", path);
    }
    assert_eq!(record.get_string("first_name").unwrap(), "J-F");
    assert_eq!(record.get_string("quantity").unwrap(), "10");
    assert_eq!(record.get_string("address.street").unwrap(), "1 Main");
    assert_eq!(record.get_string("accept_terms").unwrap(), "false");
    assert_eq!(record.leaf_text("address.city"), Some("Ottawa".to_string()));
}

#[test]
fn what_is_not_a_leaf_is_unknown() {
    let mut record = registration("J-F", "1 Main", "Ottawa");
    for path in ["", "address", "address.", "address.zip", "first_name.x", "nickname", ".", "address.street.x"] {
        assert_eq!(record.get_string(path), Err(FieldError::unknown(path)), "{:?}", path);
        assert_eq!(record.set_from_string(path, "x"), Err(FieldError::unknown(path)), "{:?}", path);
        assert_eq!(record.leaf_text(path), None);
    }
    assert_eq!(record.fields(), registration("J-F", "1 Main", "Ottawa").fields());
}

#[test]
fn names_are_single_and_unique() {
    let mut record = Record::new();
    assert!(record.add("a", text("1")));
    assert!(!record.add("a", text("2")));
    assert!(!record.add("b.c", text("3")));
    assert!(record.add("", text("4")));
    assert!(!record.add_rule("zz", Rule::MinLength { length: 1, message: "m".to_string() }));
    assert_eq!(record.fields(), vec!["a".to_string(), "".to_string()]);
    assert_eq!(record.get_string("a").unwrap(), "1");
    assert_eq!(record.get_string("").unwrap(), "4");
}

#[test]
fn a_written_text_reads_back_as_the_value_it_parsed_to() {
    let mut record = registration("J-F", "1 Main", "Ottawa");
    assert_eq!(record.set_from_string("quantity", "+007"), Ok(()));
    assert_eq!(record.get_string("quantity").unwrap(), "7");
    assert_eq!(record.set_from_string("quantity", "7"), Ok(()));
    assert_eq!(record.get_string("quantity").unwrap(), "7");
    assert_eq!(record.set_from_string("quantity", "-12"), Ok(()));
    assert_eq!(record.get_string("quantity").unwrap(), "-12");
    assert_eq!(record.set_from_string("accept_terms", "true"), Ok(()));
    assert_eq!(record.get_string("accept_terms").unwrap(), "true");
    assert_eq!(record.set_from_string("address.city", "Hull"), Ok(()));
    assert_eq!(record.get_string("address.city").unwrap(), "Hull");
    assert_eq!(record.set_from_string("first_name", ""), Ok(()));
    assert_eq!(record.get_string("first_name").unwrap(), "");
    assert_eq!(record.get_string("address.street").unwrap(), "1 Main");
    assert_eq!(record.get_string("last_name").unwrap(), "Bilodeau");
}

#[test]
fn an_unparsable_text_changes_nothing() {
    let mut record = registration("J-F", "1 Main", "Ottawa");
    assert_eq!(
        record.set_from_string("quantity", "abc"),
        Err(FieldError::ParseFailure { path: "quantity".to_string(), raw_value: "abc".to_string() })
    );
    assert_eq!(record.get_string("quantity").unwrap(), "10");
    assert_eq!(
        record.set_from_string("accept_terms", "yes"),
        Err(FieldError::parse_failure("accept_terms", "yes"))
    );
    assert_eq!(record.get_string("accept_terms").unwrap(), "false");
    assert_eq!(
        record.set_from_string("quantity", "9223372036854775808"),
        Err(FieldError::parse_failure("quantity", "9223372036854775808"))
    );
}

#[test]
fn violations_come_in_field_order_under_full_paths() {
    let record = registration("", "", "");
    assert_eq!(
        record.validate(),
        vec![
            Violation::new("first_name", "First name is required"),
            Violation::new("address.street", "Street is required"),
            Violation::new("address.city", "City name is required"),
            Violation::new("accept_terms", "Must accept terms before continuing"),
        ]
    );
    assert_eq!(record.violations(), record.validate());
    let mut fine = registration("J-F", "1 Main", "Ottawa");
    assert_eq!(fine.set_from_string("accept_terms", "true"), Ok(()));
    assert_eq!(fine.validate(), Vec::new());
    assert_eq!(fine.set_from_string("quantity", "101"), Ok(()));
    assert_eq!(fine.validate(), vec![Violation::new("quantity", "Between 1 and 100")]);
    assert_eq!(fine.set_from_string("quantity", "0"), Ok(()));
    assert_eq!(fine.validate(), vec![Violation::new("quantity", "Between 1 and 100")]);
    assert_eq!(fine.set_from_string("quantity", "100"), Ok(()));
    assert_eq!(fine.validate(), Vec::new());
}

#[test]
fn rules_say_nothing_of_other_types() {
    let length = Rule::MinLength { length: 2, message: "short".to_string() };
    assert!(length.broken_by(&text("é")));
    assert!(!length.broken_by(&text("éé")));
    assert!(!length.broken_by(&Value::Integer(1)));
    assert!(!length.broken_by(&Value::Boolean(false)));
    let accepted = Rule::MustEqual { expected: true, message: "accept".to_string() };
    assert!(accepted.broken_by(&Value::Boolean(false)));
    assert!(!accepted.broken_by(&Value::Boolean(true)));
    assert!(!accepted.broken_by(&text("false")));
    assert_eq!(accepted.message(), "accept");
    assert_eq!(Value::Integer(-3).text(), Some("-3".to_string()));
    assert_eq!(Value::Nested(Record::new()).text(), None);
}

#[test]
fn nested_street_is_validated_without_touching_city() {
    let mut state = FormState::new(registration("J-F", "", ""));
    assert_eq!(state.update_validation_field("address.street"), Ok(()));
    assert_eq!(
        state.field("address.street").unwrap(),
        &FieldState { dirty: false, valid: false, message: "Street is required".to_string() }
    );
    assert_eq!(state.field("address.city").unwrap(), &FieldState::new());
    assert_eq!(state.field("accept_terms").unwrap(), &FieldState::new());
}

#[test]
fn quantity_abc_fails_to_parse_in_a_record_form() {
    let mut state = FormState::new(registration("J-F", "1 Main", "Ottawa"));
    assert_eq!(state.set_field_value("quantity", "abc"), Ok(Edit::Refused));
    assert_eq!(state.field_valid("quantity"), Ok(false));
    assert_eq!(state.field_value("quantity").unwrap(), "10");
    assert_eq!(state.model().get_string("quantity").unwrap(), "10");
}

#[test]
fn accept_terms_must_equal_true() {
    let mut state = FormState::new(registration("J-F", "1 Main", "Ottawa"));
    assert!(!state.validate());
    assert_eq!(state.field_valid("accept_terms"), Ok(false));
    assert_eq!(state.set_field_value("accept_terms", "true"), Ok(Edit::Stored));
    assert_eq!(state.update_validation_field("accept_terms"), Ok(()));
    assert_eq!(state.field_valid("accept_terms"), Ok(true));
    assert!(state.validate());
}

#[test]
fn a_record_form_has_one_record_per_leaf() {
    let state = FormState::new(registration("", "Bilodeau", "Ottawa"));
    assert_eq!(state.field_paths().len(), 6);
    for path in state.field_paths() {
        assert_eq!(state.field(path).unwrap(), &FieldState::new());
    }
    assert_eq!(state.field("address"), Err(FieldError::unknown("address")));
}

#[test]
fn a_write_to_a_declared_path_is_stored_or_unparsable() {
    let mut record = registration("J-F", "1 Main", "Ottawa");
    for path in record.fields() {
        for raw in ["", "7", "true", "abc"] {
            let outcome = record.set_from_string(&path, raw);
            assert!(
                outcome == Ok(()) || outcome == Err(FieldError::parse_failure(&path, raw)),
                "{} {:?}",
                path,
                raw
            );
        }
    }
}
