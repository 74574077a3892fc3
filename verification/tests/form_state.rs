use yew_form::error::FieldError;
use yew_form::field_state::{Edit, FieldState};
use yew_form::form_state::FormState;
use yew_form::model::Model;
use yew_form::validation::Violation;

#[derive(Clone, Debug, PartialEq)]
struct Address {
    street: String,
    city: String,
}

#[derive(Clone, Debug, PartialEq)]
struct Person {
    first_name: String,
    last_name: String,
    quantity: u32,
    address: Address,
    accept_terms: bool,
}

impl Model for Address {
    fn fields(&self) -> Vec<String> {
        vec!["street".to_string(), "city".to_string()]
    }

    fn get_string(&self, path: &str) -> Result<String, FieldError> {
        match path {
            "street" => Ok(self.street.clone()),
            "city" => Ok(self.city.clone()),
            _ => Err(FieldError::unknown(path)),
        }
    }

    fn set_from_string(&mut self, path: &str, value: &str) -> Result<(), FieldError> {
        match path {
            "street" => self.street = value.to_string(),
            "city" => self.city = value.to_string(),
            _ => return Err(FieldError::unknown(path)),
        }
        Ok(())
    }

    fn validate(&self) -> Vec<Violation> {
        let mut report = Vec::new();
        if self.street.is_empty() {
            report.push(Violation::new("street", "Street is required"));
        }
        if self.city.is_empty() {
            report.push(Violation::new("city", "City name is required"));
        }
        report
    }
}

impl Model for Person {
    fn fields(&self) -> Vec<String> {
        let mut paths = vec![
            "first_name".to_string(),
            "last_name".to_string(),
            "quantity".to_string(),
        ];
        for inner in self.address.fields() {
            paths.push(format!("address.{}", inner));
        }
        paths.push("accept_terms".to_string());
        paths
    }

    fn get_string(&self, path: &str) -> Result<String, FieldError> {
        if let Some(inner) = path.strip_prefix("address.") {
            return self.address.get_string(inner).map_err(|_| FieldError::unknown(path));
        }
        match path {
            "first_name" => Ok(self.first_name.clone()),
            "last_name" => Ok(self.last_name.clone()),
            "quantity" => Ok(self.quantity.to_string()),
            "accept_terms" => Ok(self.accept_terms.to_string()),
            _ => Err(FieldError::unknown(path)),
        }
    }

    fn set_from_string(&mut self, path: &str, value: &str) -> Result<(), FieldError> {
        if let Some(inner) = path.strip_prefix("address.") {
            return self
                .address
                .set_from_string(inner, value)
                .map_err(|_| FieldError::unknown(path));
        }
        match path {
            "first_name" => self.first_name = value.to_string(),
            "last_name" => self.last_name = value.to_string(),
            "quantity" => match value.parse::<u32>() {
                Ok(number) => self.quantity = number,
                Err(_) => return Err(FieldError::parse_failure(path, value)),
            },
            "accept_terms" => match value.parse::<bool>() {
                Ok(flag) => self.accept_terms = flag,
                Err(_) => return Err(FieldError::parse_failure(path, value)),
            },
            _ => return Err(FieldError::unknown(path)),
        }
        Ok(())
    }

    fn validate(&self) -> Vec<Violation> {
        let mut report = Vec::new();
        if self.first_name.is_empty() {
            report.push(Violation::new("first_name", "First name is required"));
        }
        if self.last_name.is_empty() {
            report.push(Violation::new("last_name", "Last name is required"));
        }
        for inner in self.address.validate() {
            report.push(Violation::new(&format!("address.{}", inner.path), &inner.message));
        }
        if !self.accept_terms {
            report.push(Violation::new("accept_terms", "Must accept terms before continuing"));
        }
        report
    }
}

fn person(first_name: &str, last_name: &str) -> Person {
    Person {
        first_name: first_name.to_string(),
        last_name: last_name.to_string(),
        quantity: 10,
        address: Address { street: String::new(), city: "Ottawa".to_string() },
        accept_terms: false,
    }
}

fn pristine() -> FieldState {
    FieldState { dirty: false, valid: true, message: String::new() }
}

#[test]
fn new_state_has_one_pristine_record_per_declared_path() {
    let model = person("J-F", "Bilodeau");
    let declared = model.fields();
    let state = FormState::new(model);
    assert_eq!(state.field_paths(), &declared);
    assert_eq!(declared.len(), 6);
    for path in &declared {
        assert_eq!(state.field(path).unwrap(), &pristine());
    }
    assert!(state.valid());
}

#[test]
fn repeated_declaration_gives_one_record() {
    let declared = vec!["first_name".to_string(), "last_name".to_string(), "first_name".to_string()];
    let state = FormState::with_paths(person("a", "b"), &declared);
    assert_eq!(state.field_paths(), &vec!["first_name".to_string(), "last_name".to_string()]);
}

#[test]
fn unknown_path_is_an_error_everywhere() {
    let mut state = FormState::new(person("J-F", "Bilodeau"));
    let unknown = FieldError::UnknownField { path: "nickname".to_string() };
    assert_eq!(state.field("nickname"), Err(unknown.clone()));
    assert_eq!(state.field_value("nickname"), Err(unknown.clone()));
    assert_eq!(state.field_message("nickname"), Err(unknown.clone()));
    assert_eq!(state.field_valid("nickname"), Err(unknown.clone()));
    assert_eq!(state.set_field_value("nickname", "x"), Err(unknown.clone()));
    assert_eq!(state.update_validation_field("nickname"), Err(unknown.clone()));
    assert_eq!(state.input("nickname", "x"), Err(unknown));
    assert_eq!(state.model(), &person("J-F", "Bilodeau"));
}

#[test]
fn validate_reports_missing_first_name() {
    let mut state = FormState::new(person("", "Bilodeau"));
    assert!(!state.validate());
    let first = state.field("first_name").unwrap();
    assert!(!first.valid);
    assert_eq!(first.message, "First name is required");
    assert!(state.field("last_name").unwrap().valid);
    assert_eq!(state.field_message("last_name").unwrap(), "");
    assert_eq!(state.field_message("first_name").unwrap(), "First name is required");
    assert_eq!(state.field_valid("first_name"), Ok(false));
}

#[test]
fn validate_updates_every_record_and_tells_whether_all_are_valid() {
    let mut model = person("J-F", "Bilodeau");
    model.address.street = "1 Main".to_string();
    model.accept_terms = true;
    let mut state = FormState::new(model);
    assert!(state.validate());
    assert!(state.valid());
    state.model_mut().last_name = String::new();
    assert!(!state.validate());
    assert!(!state.valid());
    assert_eq!(state.field_valid("last_name"), Ok(false));
    state.model_mut().last_name = "B".to_string();
    assert!(state.validate());
    assert_eq!(state.field("last_name").unwrap(), &pristine());
}

#[test]
fn field_validation_touches_one_record_only() {
    let mut model = person("", "");
    model.address.city = String::new();
    let mut state = FormState::new(model);
    assert_eq!(state.update_validation_field("address.street"), Ok(()));
    let street = state.field("address.street").unwrap();
    assert!(!street.valid);
    assert_eq!(street.message, "Street is required");
    assert!(!street.dirty);
    assert_eq!(state.field("address.city").unwrap(), &pristine());
    assert_eq!(state.field("first_name").unwrap(), &pristine());
    assert_eq!(state.field("last_name").unwrap(), &pristine());
    assert_eq!(state.field("accept_terms").unwrap(), &pristine());
}

#[test]
fn unparsable_quantity_marks_field_invalid_and_keeps_model() {
    let mut state = FormState::new(person("J-F", "Bilodeau"));
    assert_eq!(
        state.model_mut().set_from_string("quantity", "abc"),
        Err(FieldError::ParseFailure { path: "quantity".to_string(), raw_value: "abc".to_string() })
    );
    assert_eq!(state.set_field_value("quantity", "abc"), Ok(Edit::Refused));
    let quantity = state.field("quantity").unwrap();
    assert!(!quantity.valid);
    assert!(quantity.dirty);
    assert_eq!(quantity.message, "Invalid value: abc");
    assert_eq!(state.model().quantity, 10);
    assert_eq!(state.field_value("quantity").unwrap(), "10");
    assert!(!state.valid());
}

#[test]
fn accepted_edit_marks_dirty_and_changes_the_model() {
    let mut state = FormState::new(person("J-F", "Bilodeau"));
    assert_eq!(state.set_field_value("quantity", "42"), Ok(Edit::Stored));
    assert_eq!(state.model().quantity, 42);
    assert_eq!(
        state.field("quantity").unwrap(),
        &FieldState { dirty: true, valid: true, message: String::new() }
    );
    assert_eq!(state.field("first_name").unwrap(), &pristine());
}

#[test]
fn dirty_survives_validation_and_later_edits() {
    let mut state = FormState::new(person("J-F", "Bilodeau"));
    assert_eq!(state.set_field_value("first_name", ""), Ok(Edit::Stored));
    assert!(state.field("first_name").unwrap().dirty);
    assert_eq!(state.update_validation_field("first_name"), Ok(()));
    assert!(state.field("first_name").unwrap().dirty);
    assert!(!state.validate());
    assert!(state.field("first_name").unwrap().dirty);
    assert_eq!(state.set_field_value("last_name", "B"), Ok(Edit::Stored));
    assert_eq!(state.set_field_value("quantity", "x"), Ok(Edit::Refused));
    assert_eq!(state.update_validation_field("quantity"), Ok(()));
    assert!(state.field("first_name").unwrap().dirty);
    assert!(state.field("quantity").unwrap().dirty);
    assert!(state.field("quantity").unwrap().valid);
}

#[test]
fn checkbox_becomes_valid_once_accepted() {
    let mut state = FormState::new(person("J-F", "Bilodeau"));
    assert_eq!(state.update_validation_field("accept_terms"), Ok(()));
    assert_eq!(state.field_valid("accept_terms"), Ok(false));
    assert_eq!(
        state.field_message("accept_terms").unwrap(),
        "Must accept terms before continuing"
    );
    assert_eq!(state.set_field_value("accept_terms", "true"), Ok(Edit::Stored));
    assert_eq!(state.update_validation_field("accept_terms"), Ok(()));
    assert_eq!(state.field_valid("accept_terms"), Ok(true));
    assert_eq!(state.field_message("accept_terms").unwrap(), "");
}

#[test]
fn input_writes_then_validates_the_same_field() {
    let mut state = FormState::new(person("J-F", "Bilodeau"));
    assert_eq!(state.input("first_name", ""), Ok(Edit::Stored));
    assert_eq!(
        state.field("first_name").unwrap(),
        &FieldState { dirty: true, valid: false, message: "First name is required".to_string() }
    );
    assert_eq!(state.input("first_name", "Jean"), Ok(Edit::Stored));
    assert_eq!(
        state.field("first_name").unwrap(),
        &FieldState { dirty: true, valid: true, message: String::new() }
    );
    assert_eq!(state.input("quantity", "many"), Ok(Edit::Refused));
    assert_eq!(
        state.field("quantity").unwrap(),
        &FieldState { dirty: true, valid: true, message: String::new() }
    );
    assert_eq!(state.model().quantity, 10);
    assert_eq!(state.field("address.street").unwrap(), &pristine());
}
