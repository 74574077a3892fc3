//! The form field component: what one rendered input needs of the form, and
//! what an input event does to it.

use vstd::prelude::*;
use vstd::string::StringExecFns;
use crate::codec::{format_bool, format_bool_spec};
use crate::field_state::{Edit, FieldState, FieldStateView};
use crate::form::{Form, FormError, Slot};
use crate::model::Model;

verus! {

/// The payload of an input event: the text now in the input element.
#[derive(Debug, PartialEq, Eq)]
pub struct InputData {
    pub value: String,
}

/// The messages a field component reacts to.
#[derive(Debug, PartialEq, Eq)]
pub enum FieldMessage {
    /// The user changed the text of the input element.
    OnInput(InputData),
}

impl FieldMessage {
    /// The text that the message carries.
    pub open spec fn text(&self) -> Seq<char> {
        match self {
            FieldMessage::OnInput(input_data) => input_data.value@,
        }
    }
}

/// The input type a field falls back to when none is given.
pub fn default_text() -> (text: String)
    ensures
        text@ == "text"@,
{
    "text".to_owned()
}

/// What the enclosing view hands to a field component.
#[verifier::reject_recursive_types(T)]
pub struct FieldProperties<T: Model> {
    pub autocomplete: String,
    pub input_type: String,
    pub field_name: String,
    pub form: Form<T>,
    pub placeholder: String,
    pub class: String,
    pub class_invalid: String,
    pub class_valid: String,
    pub accept: String,
}

impl<T: Model> FieldProperties<T> {
    /// The properties of a field of `form` bound to the path `field_name`,
    /// with every optional property at its default.
    pub fn new(field_name: String, form: Form<T>) -> (props: FieldProperties<T>)
        ensures
            props.field_name == field_name,
            props.form == form,
            props.autocomplete@ == "off"@,
            props.input_type@ == "text"@,
            props.placeholder@ == Seq::<char>::empty(),
            props.class@ == "form-control"@,
            props.class_invalid@ == "is-invalid"@,
            props.class_valid@ == "is-valid"@,
            props.accept@ == Seq::<char>::empty(),
    {
        FieldProperties {
            autocomplete: "off".to_owned(),
            input_type: default_text(),
            field_name,
            form,
            placeholder: String::new(),
            class: "form-control".to_owned(),
            class_invalid: "is-invalid".to_owned(),
            class_valid: "is-valid".to_owned(),
            accept: String::new(),
        }
    }
}

/// The attributes of the input element that a field renders.
#[derive(Debug, PartialEq, Eq)]
pub struct InputElement {
    pub class: String,
    pub id: String,
    pub input_type: String,
    pub placeholder: String,
    pub autocomplete: String,
    pub value: String,
    pub accept: String,
}

/// The class attribute of a field: the base class, followed by a space and
/// the valid or the invalid class once the field has been edited.
pub open spec fn decorated_class(
    class: Seq<char>,
    class_valid: Seq<char>,
    class_invalid: Seq<char>,
    state: FieldStateView,
) -> Seq<char> {
    if state.dirty && state.valid {
        class + " "@ + class_valid
    } else if state.dirty {
        class + " "@ + class_invalid
    } else {
        class
    }
}

/// Computes the class attribute of a field from its classes and its record.
pub fn decorate_class(class: &str, class_valid: &str, class_invalid: &str, state: &FieldState) -> (text:
    String)
    ensures
        text@ == decorated_class(class@, class_valid@, class_invalid@, state@),
{
    if state.dirty && state.valid {
        String::from_str(class).concat(" ").concat(class_valid)
    } else if state.dirty {
        String::from_str(class).concat(" ").concat(class_invalid)
    } else {
        String::from_str(class)
    }
}

/// One field of a form as a component: its rendering properties and the
/// handle of the form it belongs to.
#[verifier::reject_recursive_types(T)]
pub struct Field<T: Model> {
    pub autocomplete: String,
    pub input_type: String,
    pub field_name: String,
    pub form: Form<T>,
    pub placeholder: String,
    pub class: String,
    pub class_invalid: String,
    pub class_valid: String,
    pub accept: String,
}

impl<T: Model> Field<T> {
    /// The path of the model field that this component is bound to.
    pub fn field_name(&self) -> (name: &str)
        ensures
            name@ == self.field_name@,
    {
        self.field_name.as_str()
    }

    /// The class attribute for the field's current record: the form is
    /// asked for the record of the bound field, and the classes are put
    /// together from what it answers; if it fails, so does this.
    pub fn class(&self) -> (result: Result<String, FormError>)
        ensures
            exists|slot: Slot<T>, name: &str, answer: Result<FieldState, FormError>|
                {
                    &&& name@ == self.field_name@
                    &&& #[trigger] call_ensures(Slot::<T>::field, (&slot, name), answer)
                    &&& match answer {
                        Ok(state) => result matches Ok(text) && text@ == decorated_class(
                            self.class@,
                            self.class_valid@,
                            self.class_invalid@,
                            state@,
                        ),
                        Err(error) => result == Err::<String, FormError>(error),
                    }
                },
    {
        match self.form.field(self.field_name.as_str()) {
            Ok(state) => {
                let text = decorate_class(
                    self.class.as_str(),
                    self.class_valid.as_str(),
                    self.class_invalid.as_str(),
                    &state,
                );
                Ok(text)
            },
            Err(error) => Err(error),
        }
    }

    /// The message to show for the field: empty while it is valid. It is
    /// what the form answers for the bound field.
    pub fn message(&self) -> (result: Result<String, FormError>)
        ensures
            exists|slot: Slot<T>, name: &str|
                {
                    &&& name@ == self.field_name@
                    &&& #[trigger] call_ensures(Slot::<T>::field_message, (&slot, name), result)
                },
    {
        self.form.field_message(self.field_name())
    }

    /// Whether the field is currently valid. It is what the form answers for
    /// the bound field.
    pub fn valid(&self) -> (result: Result<bool, FormError>)
        ensures
            exists|slot: Slot<T>, name: &str|
                {
                    &&& name@ == self.field_name@
                    &&& #[trigger] call_ensures(Slot::<T>::field_valid, (&slot, name), result)
                },
    {
        self.form.field_valid(self.field_name())
    }

    /// Whether the field has received a user edit: the dirty flag of the
    /// record that the form answers for the bound field.
    pub fn dirty(&self) -> (result: Result<bool, FormError>)
        ensures
            exists|slot: Slot<T>, name: &str, answer: Result<FieldState, FormError>|
                {
                    &&& name@ == self.field_name@
                    &&& #[trigger] call_ensures(Slot::<T>::field, (&slot, name), answer)
                    &&& result == match answer {
                        Ok(state) => Ok::<bool, FormError>(state.dirty),
                        Err(error) => Err::<bool, FormError>(error),
                    }
                },
    {
        match self.form.field(self.field_name.as_str()) {
            Ok(state) => Ok(state.dirty),
            Err(error) => Err(error),
        }
    }

    /// Writes `value` into the field of the form at `field_name`: the form
    /// is asked to set that field to that text, and its answer is handed on.
    /// The component itself stays as it is.
    pub fn set_field(&mut self, field_name: &str, value: &str) -> (result: Result<Edit, FormError>)
        ensures
            *final(self) == *old(self),
            exists|slot: &mut Slot<T>| #[trigger]
                call_ensures(Slot::<T>::set_field_value, (slot, field_name, value), result),
    {
        self.form.set_field_value(field_name, value)
    }

    /// Builds the component from its properties. An empty input type falls
    /// back to the default.
    pub fn create(props: FieldProperties<T>) -> (field: Field<T>)
        ensures
            field.autocomplete == props.autocomplete,
            field.input_type@ == if props.input_type@.len() == 0 {
                "text"@
            } else {
                props.input_type@
            },
            field.field_name == props.field_name,
            field.form == props.form,
            field.placeholder == props.placeholder,
            field.class == props.class,
            field.class_invalid == props.class_invalid,
            field.class_valid == props.class_valid,
            field.accept == props.accept,
    {
        let mut field = Field {
            autocomplete: props.autocomplete,
            input_type: props.input_type,
            field_name: props.field_name,
            form: props.form,
            placeholder: props.placeholder,
            class: props.class,
            class_invalid: props.class_invalid,
            class_valid: props.class_valid,
            accept: props.accept,
        };
        if field.input_type.as_str().is_empty() {
            field.input_type = default_text();
        }
        field
    }

    /// Reacts to a message. An input event writes the new text into the
    /// bound field and re-validates that field; the component is to be
    /// rendered again. What the caller was asked to be told of the event, it
    /// is told after this returns.
    pub fn update(&mut self, msg: &FieldMessage) -> (result: Result<bool, FormError>)
        ensures
            *final(self) == *old(self),
            exists|slot: &mut Slot<T>, name: &str, raw: &str, answer: Result<Edit, FormError>|
                {
                    &&& name@ == old(self).field_name@
                    &&& raw@ == msg.text()
                    &&& #[trigger] call_ensures(Slot::<T>::input, (slot, name, raw), answer)
                    &&& result == match answer {
                        Ok(_) => Ok::<bool, FormError>(true),
                        Err(error) => Err::<bool, FormError>(error),
                    }
                },
    {
        match msg {
            FieldMessage::OnInput(input_data) => {
                match self.form.input(self.field_name.as_str(), input_data.value.as_str()) {
                    Ok(_) => Ok(true),
                    Err(error) => Err(error),
                }
            },
        }
    }

    /// What a checkbox does when it is toggled: its state goes to the bound
    /// field as the canonical text of the boolean, and the field is
    /// re-validated, as for an input event.
    pub fn toggle(&mut self, checked: bool) -> (result: Result<bool, FormError>)
        ensures
            *final(self) == *old(self),
            exists|slot: &mut Slot<T>, name: &str, raw: &str, answer: Result<Edit, FormError>|
                {
                    &&& name@ == old(self).field_name@
                    &&& raw@ == format_bool_spec(checked)
                    &&& #[trigger] call_ensures(Slot::<T>::input, (slot, name, raw), answer)
                    &&& result == match answer {
                        Ok(_) => Ok::<bool, FormError>(true),
                        Err(error) => Err::<bool, FormError>(error),
                    }
                },
    {
        let raw = format_bool(checked);
        match self.form.input(self.field_name.as_str(), raw.as_str()) {
            Ok(_) => Ok(true),
            Err(error) => Err(error),
        }
    }

    /// Reacts to new properties: the component keeps what it was created
    /// with and is rendered again.
    pub fn change(&mut self, props: FieldProperties<T>) -> (render: bool)
        ensures
            *final(self) == *old(self),
            render,
    {
        true
    }

    /// The input element for the given class attribute and field text.
    pub fn element(&self, class: String, value: String) -> (element: InputElement)
        ensures
            element.class == class,
            element.value == value,
            element.id@ == self.field_name@,
            element.input_type@ == self.input_type@,
            element.placeholder@ == self.placeholder@,
            element.autocomplete@ == self.autocomplete@,
            element.accept@ == self.accept@,
    {
        InputElement {
            class,
            id: self.field_name.clone(),
            input_type: self.input_type.clone(),
            placeholder: self.placeholder.clone(),
            autocomplete: self.autocomplete.clone(),
            value,
            accept: self.accept.clone(),
        }
    }

    /// Renders the field: the input element with its current class and the
    /// model's current text for the field.
    pub fn view(&self) -> (result: Result<InputElement, FormError>)
        ensures
            result matches Ok(element) ==> {
                &&& element.id@ == self.field_name@
                &&& element.input_type@ == self.input_type@
                &&& element.placeholder@ == self.placeholder@
                &&& element.autocomplete@ == self.autocomplete@
                &&& element.accept@ == self.accept@
            },
            exists|class: Result<String, FormError>|
                {
                    &&& #[trigger] call_ensures(Field::<T>::class, (self,), class)
                    &&& match class {
                        Err(error) => result == Err::<InputElement, FormError>(error),
                        Ok(class) => exists|
                            slot: Slot<T>,
                            name: &str,
                            value: Result<String, FormError>,
                        |
                            {
                                &&& name@ == self.field_name@
                                &&& #[trigger] call_ensures(
                                    Slot::<T>::field_value,
                                    (&slot, name),
                                    value,
                                )
                                &&& match value {
                                    Ok(value) => result matches Ok(element) && element.class
                                        == class && element.value == value,
                                    Err(error) => result == Err::<InputElement, FormError>(
                                        error,
                                    ),
                                }
                            },
                    }
                },
    {
        let class = match self.class() {
            Ok(class) => class,
            Err(error) => {
                return Err(error);
            },
        };
        match self.form.field_value(self.field_name.as_str()) {
            Ok(value) => Ok(self.element(class, value)),
            Err(error) => Err(error),
        }
    }
}

} // verus!
