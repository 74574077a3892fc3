use yew_form::error::FieldError;
use yew_form::field_state::{Edit, FieldState};
use yew_form::form::{FormError, Slot};
use yew_form::form_state::FormState;
use yew_form::model::Model;
use yew_form::record::{Record, Rule, Value};

fn record() -> Record {
    let mut record = Record::new();
    assert!(record.add("street", Value::Text(String::new())));
    assert!(record.add("number", Value::Integer(1)));
    assert!(record.add_rule(
        "street",
        Rule::MinLength { length: 1, message: "Street is required".to_string() }
    ));
    record
}

#[derive(Clone, Debug, PartialEq)]
struct Word(String);

impl Model for Word {
    fn fields(&self) -> Vec<String> {
        vec!["word".to_string()]
    }

    fn get_string(&self, _path: &str) -> Result<String, FieldError> {
        Ok(self.0.clone())
    }

    fn set_from_string(&mut self, _path: &str, value: &str) -> Result<(), FieldError> {
        self.0 = value.to_string();
        Ok(())
    }

    fn validate(&self) -> Vec<yew_form::validation::Violation> {
        Vec::new()
    }
}

#[test]
fn an_empty_slot_answers_busy_and_stays_empty() {
    let mut slot: Slot<Record> = Slot { state: None };
    assert_eq!(slot.validate(), Err(FormError::Busy));
    assert_eq!(slot.valid(), Err(FormError::Busy));
    assert_eq!(slot.field_value("street"), Err(FormError::Busy));
    assert_eq!(slot.field_valid("street"), Err(FormError::Busy));
    assert_eq!(slot.field_message("street"), Err(FormError::Busy));
    assert_eq!(slot.field("street"), Err(FormError::Busy));
    assert_eq!(slot.set_field_value("street", "x"), Err(FormError::Busy));
    assert_eq!(slot.update_validation_field("street"), Err(FormError::Busy));
    assert_eq!(slot.input("street", "x"), Err(FormError::Busy));
    assert!(slot.state.is_none());
    let empty: Slot<Word> = Slot { state: None };
    assert_eq!(empty.model(), Err(FormError::Busy));
}

#[test]
fn a_filled_slot_answers_as_its_state() {
    let mut slot = Slot::new(record());
    assert_eq!(slot.valid(), Ok(true));
    assert_eq!(slot.validate(), Ok(false));
    assert_eq!(slot.field_valid("street"), Ok(false));
    assert_eq!(slot.field_message("street"), Ok("Street is required".to_string()));
    assert_eq!(slot.field_value("number"), Ok("1".to_string()));
    assert_eq!(slot.set_field_value("number", "2"), Ok(Edit::Stored));
    assert_eq!(slot.set_field_value("number", "two"), Ok(Edit::Refused));
    assert_eq!(
        slot.field("number"),
        Ok(FieldState { dirty: true, valid: false, message: "Invalid value: two".to_string() })
    );
    assert_eq!(slot.update_validation_field("number"), Ok(()));
    assert_eq!(slot.field_valid("number"), Ok(true));
    assert_eq!(slot.input("street", "1 Main"), Ok(Edit::Stored));
    assert_eq!(slot.validate(), Ok(true));
    assert_eq!(slot.field_value("street"), Ok("1 Main".to_string()));
    let unknown = FormError::Field(FieldError::unknown("city"));
    assert_eq!(slot.field_value("city"), Err(FormError::Field(FieldError::unknown("city"))));
    assert_eq!(slot.field("city"), Err(FormError::Field(FieldError::unknown("city"))));
    assert_eq!(slot.input("city", "x"), Err(unknown));
    assert!(slot.state.is_some());
}

#[test]
fn the_model_of_a_slot_is_copied_out() {
    let mut slot = Slot { state: Some(FormState::new(Word("one".to_string()))) };
    assert_eq!(slot.model(), Ok(Word("one".to_string())));
    assert_eq!(slot.set_field_value("word", "two"), Ok(Edit::Stored));
    assert_eq!(slot.model(), Ok(Word("two".to_string())));
}
