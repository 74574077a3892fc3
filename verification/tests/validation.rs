use yew_form::error::FieldError;
use yew_form::field_state::{Edit, FieldState, FieldTable};
use yew_form::validation::{find_message, Violation};

fn report() -> Vec<Violation> {
    vec![
        Violation::new("first_name", "First name is required"),
        Violation::new("address.street", "Street is required"),
        Violation::new("first_name", "First name is too short"),
    ]
}

fn table() -> FieldTable {
    FieldTable::from_paths(&vec![
        "first_name".to_string(),
        "last_name".to_string(),
        "address.street".to_string(),
    ])
}

#[test]
fn the_earliest_violation_of_a_path_gives_its_message() {
    assert_eq!(find_message(&report(), "first_name"), Some("First name is required".to_string()));
    assert_eq!(find_message(&report(), "address.street"), Some("Street is required".to_string()));
    assert_eq!(find_message(&report(), "last_name"), None);
    assert_eq!(find_message(&Vec::new(), "first_name"), None);
}

#[test]
fn a_violation_holds_path_and_message() {
    let violation = Violation::new("quantity", "Too many");
    assert_eq!(violation.path, "quantity");
    assert_eq!(violation.message, "Too many");
    assert_eq!(violation.clone(), violation);
}

#[test]
fn error_messages_name_what_went_wrong() {
    assert_eq!(FieldError::unknown("nickname").message(), "Unknown field: nickname");
    assert_eq!(FieldError::parse_failure("quantity", "abc").message(), "Invalid value: abc");
    assert_eq!(
        FieldError::parse_failure("quantity", "abc"),
        FieldError::ParseFailure { path: "quantity".to_string(), raw_value: "abc".to_string() }
    );
}

#[test]
fn a_table_starts_pristine_and_knows_its_paths() {
    let table = table();
    assert!(table.contains("first_name"));
    assert!(table.contains("address.street"));
    assert!(!table.contains("address"));
    assert!(!table.contains(""));
    assert_eq!(table.state("last_name"), Some(&FieldState::new()));
    assert_eq!(table.state("nickname"), None);
    assert_eq!(FieldState::new(), FieldState { dirty: false, valid: true, message: String::new() });
    assert!(table.all_valid());
    assert_eq!(table.field_paths().len(), 3);
    assert!(FieldTable::from_paths(&Vec::new()).all_valid());
}

#[test]
fn judging_one_field_leaves_the_others() {
    let mut table = table();
    assert_eq!(table.judge_field("first_name", &report()), Ok(()));
    assert_eq!(
        table.state("first_name"),
        Some(&FieldState { dirty: false, valid: false, message: "First name is required".to_string() })
    );
    assert_eq!(table.state("address.street"), Some(&FieldState::new()));
    assert_eq!(table.judge_field("nickname", &report()), Err(FieldError::unknown("nickname")));
    assert!(!table.all_valid());
    assert_eq!(table.judge_field("first_name", &Vec::new()), Ok(()));
    assert_eq!(table.state("first_name"), Some(&FieldState::new()));
}

#[test]
fn judging_all_fields_sets_each_from_the_report() {
    let mut table = table();
    assert!(!table.judge_all(&report()));
    assert_eq!(table.state("first_name").unwrap().message, "First name is required");
    assert_eq!(table.state("address.street").unwrap().message, "Street is required");
    assert_eq!(table.state("last_name"), Some(&FieldState::new()));
    assert!(table.judge_all(&vec![Violation::new("elsewhere", "not of this form")]));
    assert_eq!(table.state("first_name"), Some(&FieldState::new()));
}

#[test]
fn recording_an_edit_follows_the_models_answer() {
    let mut table = table();
    assert_eq!(table.record_edit("first_name", &Ok(())), Ok(Edit::Stored));
    assert_eq!(
        table.state("first_name"),
        Some(&FieldState { dirty: true, valid: true, message: String::new() })
    );
    let refused = Err(FieldError::parse_failure("last_name", "x"));
    assert_eq!(table.record_edit("last_name", &refused), Ok(Edit::Refused));
    assert_eq!(
        table.state("last_name"),
        Some(&FieldState { dirty: true, valid: false, message: "Invalid value: x".to_string() })
    );
    assert_eq!(table.state("last_name").unwrap().shown_message(), "Invalid value: x");
    let unknown = Err(FieldError::unknown("address.street"));
    assert_eq!(
        table.record_edit("address.street", &unknown),
        Err(FieldError::unknown("address.street"))
    );
    assert_eq!(table.state("address.street"), Some(&FieldState::new()));
    assert_eq!(table.record_edit("nickname", &Ok(())), Err(FieldError::unknown("nickname")));
    assert_eq!(table.record_edit("last_name", &Ok(())), Ok(Edit::Stored));
    assert_eq!(
        table.state("last_name"),
        Some(&FieldState { dirty: true, valid: false, message: "Invalid value: x".to_string() })
    );
}
