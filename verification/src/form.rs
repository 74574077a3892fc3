//! The form handle: one form state shared by every field component that
//! renders the same form.

use std::cell::Cell;
use std::rc::Rc;
use vstd::prelude::*;
use crate::error::FieldError;
use crate::field_state::{all_valid, Edit, FieldState};
use crate::form_state::FormState;
use crate::model::Model;

verus! {

/// `std::cell::Cell`, carried as an opaque value. What it holds is not
/// visible to proofs.
#[verifier::external_type_specification]
#[verifier::external_body]
#[verifier::reject_recursive_types(T)]
pub struct ExCell<T: ?Sized>(Cell<T>);

/// Why an operation on a form handle did not take place.
#[derive(Debug, PartialEq, Eq)]
pub enum FormError {
    /// The form state is in use: the call was made from inside another
    /// operation on the same form.
    Busy,
    /// The form state was reached, and the path resolver failed.
    Field(FieldError),
}

/// `std::cell::Cell::new`: a cell that holds `value`. What a cell holds can
/// change through any reference to it, so nothing is stated of it.
#[verifier::external_body]
fn new_cell<S>(value: Option<S>) -> (cell: Cell<Option<S>>) {
    Cell::new(value)
}

/// `std::cell::Cell::replace`: puts `value` into the cell and hands out what
/// the cell held before. It cannot fail and does not panic. What comes back
/// depends on what else was done to the cell, so nothing is stated of the
/// result.
#[verifier::external_body]
fn exchange<S>(cell: &Cell<Option<S>>, value: Option<S>) -> (previous: Option<S>) {
    cell.replace(value)
}

/// `std::rc::Rc::clone`: another reference to the same allocation, so what
/// comes back is the cell that was given.
#[verifier::external_body]
fn share<S>(shared: &Rc<Cell<Option<S>>>) -> (other: Rc<Cell<Option<S>>>)
    ensures
        other == *shared,
{
    Rc::clone(shared)
}

/// `std::rc::Rc::ptr_eq`: whether two references point to one allocation.
/// Where they do, they are the same cell. Two references to different
/// allocations are told apart by their addresses alone, so of the answer
/// `false` nothing is stated.
#[verifier::external_body]
fn same_allocation<S>(a: &Rc<Cell<Option<S>>>, b: &Rc<Cell<Option<S>>>) -> (same: bool)
    ensures
        same ==> *a == *b,
{
    Rc::ptr_eq(a, b)
}

/// A resolver result as a result of the handle.
pub open spec fn lifted<V>(result: Result<V, FieldError>) -> Result<V, FormError> {
    match result {
        Ok(value) => Ok(value),
        Err(error) => Err(FormError::Field(error)),
    }
}

/// Lifts a resolver result to a result of the handle.
pub fn reached<V>(result: Result<V, FieldError>) -> (answer: Result<V, FormError>)
    ensures
        answer == lifted(result),
{
    match result {
        Ok(value) => Ok(value),
        Err(error) => Err(FormError::Field(error)),
    }
}

/// The place where a handle keeps its form state. It is empty while an
/// operation is at work on the state; an operation that finds it empty fails
/// with `Busy` and leaves it empty. On a filled slot every operation is the
/// operation of the same name on the form state inside.
pub struct Slot<T: Model> {
    pub state: Option<FormState<T>>,
}

impl<T: Model> Slot<T> {
    /// Builds the form state for `model` in a filled slot.
    pub fn new(model: T) -> (slot: Slot<T>)
        ensures
            slot.state is Some,
            exists|state: FormState<T>|
                #[trigger] call_ensures(FormState::<T>::new, (model,), state) && slot.state
                    == Some(state),
    {
        Slot { state: Some(FormState::new(model)) }
    }

    /// Validates the whole model and updates every field's record. Returns
    /// whether no field is invalid.
    pub fn validate(&mut self) -> (result: Result<bool, FormError>)
        ensures
            match old(self).state {
                None => result == Err::<bool, FormError>(FormError::Busy) && final(self).state
                    is None,
                Some(before) => final(self).state is Some && exists|
                    state: &mut FormState<T>,
                    valid: bool,
                |
                    {
                        &&& *state == before
                        &&& *final(state) == final(self).state->0
                        &&& #[trigger] call_ensures(FormState::<T>::validate, (state,), valid)
                        &&& result == Ok::<bool, FormError>(valid)
                    },
            },
    {
        match &mut self.state {
            None => Err(FormError::Busy),
            Some(state) => Ok(state.validate()),
        }
    }

    /// Whether no field is invalid, as of the latest edits and validations.
    pub fn valid(&self) -> (result: Result<bool, FormError>)
        ensures
            match self.state {
                None => result == Err::<bool, FormError>(FormError::Busy),
                Some(state) => result == Ok::<bool, FormError>(all_valid(state@.fields)),
            },
    {
        match &self.state {
            None => Err(FormError::Busy),
            Some(state) => Ok(state.valid()),
        }
    }

    /// The model's text for the field at `path`.
    pub fn field_value(&self, path: &str) -> (result: Result<String, FormError>)
        ensures
            match self.state {
                None => result == Err::<String, FormError>(FormError::Busy),
                Some(state) => exists|answer: Result<String, FieldError>|
                    #[trigger] call_ensures(FormState::<T>::field_value, (&state, path), answer)
                        && result == lifted(answer),
            },
    {
        match &self.state {
            None => Err(FormError::Busy),
            Some(state) => reached(state.field_value(path)),
        }
    }

    /// Whether the field at `path` is currently valid.
    pub fn field_valid(&self, path: &str) -> (result: Result<bool, FormError>)
        ensures
            match self.state {
                None => result == Err::<bool, FormError>(FormError::Busy),
                Some(state) => match result {
                    Ok(valid) => state@.fields.dom().contains(path@) && valid
                        == state@.fields[path@].valid,
                    Err(FormError::Field(error)) => !state@.fields.dom().contains(path@)
                        && error.is_unknown(path@),
                    Err(FormError::Busy) => false,
                },
            },
    {
        match &self.state {
            None => Err(FormError::Busy),
            Some(state) => reached(state.field_valid(path)),
        }
    }

    /// The message to show for the field at `path`: empty while it is valid.
    pub fn field_message(&self, path: &str) -> (result: Result<String, FormError>)
        ensures
            match self.state {
                None => result == Err::<String, FormError>(FormError::Busy),
                Some(state) => match result {
                    Ok(text) => state@.fields.dom().contains(path@) && text@
                        == state@.fields[path@].shown_message(),
                    Err(FormError::Field(error)) => !state@.fields.dom().contains(path@)
                        && error.is_unknown(path@),
                    Err(FormError::Busy) => false,
                },
            },
    {
        match &self.state {
            None => Err(FormError::Busy),
            Some(state) => reached(state.field_message(path)),
        }
    }

    /// A copy of the tracking record of the field at `path`.
    pub fn field(&self, path: &str) -> (result: Result<FieldState, FormError>)
        ensures
            match self.state {
                None => result == Err::<FieldState, FormError>(FormError::Busy),
                Some(state) => match result {
                    Ok(record) => state@.fields.dom().contains(path@) && record@
                        == state@.fields[path@],
                    Err(FormError::Field(error)) => !state@.fields.dom().contains(path@)
                        && error.is_unknown(path@),
                    Err(FormError::Busy) => false,
                },
            },
    {
        match &self.state {
            None => Err(FormError::Busy),
            Some(state) => match state.field(path) {
                Ok(record) => Ok(record.clone()),
                Err(error) => Err(FormError::Field(error)),
            },
        }
    }

    /// A copy of the model as it currently is, made by the model's own
    /// `clone`.
    pub fn model(&self) -> (result: Result<T, FormError>) where T: Clone
        ensures
            match self.state {
                None => result == Err::<T, FormError>(FormError::Busy),
                Some(state) => result matches Ok(copy) && cloned(state@.model, copy),
            },
    {
        match &self.state {
            None => Err(FormError::Busy),
            Some(state) => Ok(state.model().clone()),
        }
    }

    /// Writes `raw` into the model's field at `path` and records the edit.
    pub fn set_field_value(&mut self, path: &str, raw: &str) -> (result: Result<Edit, FormError>)
        ensures
            match old(self).state {
                None => result == Err::<Edit, FormError>(FormError::Busy) && final(self).state
                    is None,
                Some(before) => final(self).state is Some && exists|
                    state: &mut FormState<T>,
                    answer: Result<Edit, FieldError>,
                |
                    {
                        &&& *state == before
                        &&& *final(state) == final(self).state->0
                        &&& #[trigger] call_ensures(
                            FormState::<T>::set_field_value,
                            (state, path, raw),
                            answer,
                        )
                        &&& result == lifted(answer)
                    },
            },
    {
        match &mut self.state {
            None => Err(FormError::Busy),
            Some(state) => reached(state.set_field_value(path, raw)),
        }
    }

    /// Validates the whole model and updates the record of `path` alone.
    pub fn update_validation_field(&mut self, path: &str) -> (result: Result<(), FormError>)
        ensures
            match old(self).state {
                None => result == Err::<(), FormError>(FormError::Busy) && final(self).state
                    is None,
                Some(before) => final(self).state is Some && exists|
                    state: &mut FormState<T>,
                    answer: Result<(), FieldError>,
                |
                    {
                        &&& *state == before
                        &&& *final(state) == final(self).state->0
                        &&& #[trigger] call_ensures(
                            FormState::<T>::update_validation_field,
                            (state, path),
                            answer,
                        )
                        &&& result == lifted(answer)
                    },
            },
    {
        match &mut self.state {
            None => Err(FormError::Busy),
            Some(state) => reached(state.update_validation_field(path)),
        }
    }

    /// What an input event does: writes `raw` into the field at `path`, then
    /// validates and updates the record of that field.
    pub fn input(&mut self, path: &str, raw: &str) -> (result: Result<Edit, FormError>)
        ensures
            match old(self).state {
                None => result == Err::<Edit, FormError>(FormError::Busy) && final(self).state
                    is None,
                Some(before) => final(self).state is Some && exists|
                    state: &mut FormState<T>,
                    answer: Result<Edit, FieldError>,
                |
                    {
                        &&& *state == before
                        &&& *final(state) == final(self).state->0
                        &&& #[trigger] call_ensures(
                            FormState::<T>::input,
                            (state, path, raw),
                            answer,
                        )
                        &&& result == lifted(answer)
                    },
            },
    {
        match &mut self.state {
            None => Err(FormError::Busy),
            Some(state) => reached(state.input(path, raw)),
        }
    }
}

/// A shared reference to one form state. Cloning a handle shares the state;
/// it never copies it.
///
/// Every operation takes the slot with the state out of the shared cell and
/// leaves an empty one behind, works on the slot, and puts it back. While one
/// operation holds the state, any other operation on the same form finds the
/// empty slot and fails at once with `Busy`, instead of seeing or changing a
/// state that is being worked on. What the cell holds can change through
/// every clone of the handle, so no contract here names it. Each operation
/// states instead that its answer is the one that the operation of the same
/// name on `Slot` gives, for the same arguments, on the slot it found; what
/// that operation does to a slot is stated there.
#[verifier::reject_recursive_types(T)]
pub struct Form<T: Model> {
    state: Rc<Cell<Option<FormState<T>>>>,
}

impl<T: Model> Clone for Form<T> {
    /// Another handle of the same form state: nothing is copied.
    fn clone(&self) -> (other: Form<T>)
        ensures
            other == *self,
    {
        Form { state: share(&self.state) }
    }
}

impl<T: Model> Form<T> {
    /// Builds the form state for `model` and wraps it in a handle.
    pub fn new(model: T) -> (form: Form<T>) {
        Form { state: Rc::new(new_cell(Slot::new(model).state)) }
    }

    /// Takes the slot out of the shared cell and leaves an empty one.
    fn take(&self) -> (slot: Slot<T>) {
        Slot { state: exchange(&self.state, None) }
    }

    /// Puts the slot back into the shared cell.
    fn put(&self, slot: Slot<T>) {
        let _ = exchange(&self.state, slot.state);
    }

    /// Whether the two handles share one form state. Handles that do are
    /// the same handle.
    pub fn same_form(&self, other: &Form<T>) -> (same: bool)
        ensures
            same ==> *self == *other,
    {
        same_allocation(&self.state, &other.state)
    }

    /// Validates the whole model and updates every field's record. Returns
    /// whether no field is invalid.
    pub fn validate(&self) -> (result: Result<bool, FormError>)
        ensures
            exists|slot: &mut Slot<T>| #[trigger] call_ensures(Slot::<T>::validate, (slot,), result),
    {
        let mut slot = self.take();
        let result = slot.validate();
        self.put(slot);
        result
    }

    /// Whether no field is invalid, as of the latest edits and validations.
    pub fn valid(&self) -> (result: Result<bool, FormError>)
        ensures
            exists|slot: Slot<T>| #[trigger] call_ensures(Slot::<T>::valid, (&slot,), result),
    {
        let slot = self.take();
        let result = slot.valid();
        self.put(slot);
        result
    }

    /// The model's text for the field at `path`.
    pub fn field_value(&self, path: &str) -> (result: Result<String, FormError>)
        ensures
            exists|slot: Slot<T>| #[trigger]
                call_ensures(Slot::<T>::field_value, (&slot, path), result),
    {
        let slot = self.take();
        let result = slot.field_value(path);
        self.put(slot);
        result
    }

    /// Whether the field at `path` is currently valid.
    pub fn field_valid(&self, path: &str) -> (result: Result<bool, FormError>)
        ensures
            exists|slot: Slot<T>| #[trigger]
                call_ensures(Slot::<T>::field_valid, (&slot, path), result),
    {
        let slot = self.take();
        let result = slot.field_valid(path);
        self.put(slot);
        result
    }

    /// The message to show for the field at `path`: empty while it is valid.
    pub fn field_message(&self, path: &str) -> (result: Result<String, FormError>)
        ensures
            exists|slot: Slot<T>| #[trigger]
                call_ensures(Slot::<T>::field_message, (&slot, path), result),
    {
        let slot = self.take();
        let result = slot.field_message(path);
        self.put(slot);
        result
    }

    /// A copy of the tracking record of the field at `path`.
    pub fn field(&self, path: &str) -> (result: Result<FieldState, FormError>)
        ensures
            exists|slot: Slot<T>| #[trigger] call_ensures(Slot::<T>::field, (&slot, path), result),
    {
        let slot = self.take();
        let result = slot.field(path);
        self.put(slot);
        result
    }

    /// A copy of the model as it currently is.
    pub fn model(&self) -> (result: Result<T, FormError>) where T: Clone
        ensures
            exists|slot: Slot<T>| #[trigger] call_ensures(Slot::<T>::model, (&slot,), result),
    {
        let slot = self.take();
        let result = slot.model();
        self.put(slot);
        result
    }

    /// Writes `raw` into the model's field at `path` and records the edit.
    pub fn set_field_value(&self, path: &str, raw: &str) -> (result: Result<Edit, FormError>)
        ensures
            exists|slot: &mut Slot<T>| #[trigger]
                call_ensures(Slot::<T>::set_field_value, (slot, path, raw), result),
    {
        let mut slot = self.take();
        let result = slot.set_field_value(path, raw);
        self.put(slot);
        result
    }

    /// Validates the whole model and updates the record of `path` alone.
    pub fn update_validation_field(&self, path: &str) -> (result: Result<(), FormError>)
        ensures
            exists|slot: &mut Slot<T>| #[trigger]
                call_ensures(Slot::<T>::update_validation_field, (slot, path), result),
    {
        let mut slot = self.take();
        let result = slot.update_validation_field(path);
        self.put(slot);
        result
    }

    /// What an input event does: writes `raw` into the field at `path`, then
    /// validates and updates the record of that field, both while holding the
    /// state.
    pub fn input(&self, path: &str, raw: &str) -> (result: Result<Edit, FormError>)
        ensures
            exists|slot: &mut Slot<T>| #[trigger]
                call_ensures(Slot::<T>::input, (slot, path, raw), result),
    {
        let mut slot = self.take();
        let result = slot.input(path, raw);
        self.put(slot);
        result
    }
}

} // verus!
