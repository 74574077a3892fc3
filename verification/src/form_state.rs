//! The state of one form: the model being edited and the tracking record of
//! each of its fields.

use vstd::prelude::*;
use crate::error::{refusal_message, FieldError};
use crate::field_state::{
    after_edit,
    after_field_validation,
    after_validation,
    all_valid,
    Edit,
    FieldState,
    FieldStateView,
    FieldTable,
    TableView,
    without_repeats,
};
use crate::model::Model;
use crate::text::texts;
use crate::validation::{report_view, Violation};

verus! {

/// Owns one model and one tracking record for each field path that the model
/// declared when the form was built.
pub struct FormState<T: Model> {
    model: T,
    fields: FieldTable,
}

/// A form state as a mathematical value.
pub struct FormStateView<T> {
    /// The model as it currently is.
    pub model: T,
    /// The declared paths, in the order of their declaration.
    pub paths: Seq<Seq<char>>,
    /// The tracking record of each declared path.
    pub fields: TableView,
}

impl<T> FormStateView<T> {
    /// The paths are distinct and are exactly the paths that have a record.
    pub open spec fn well_formed(self) -> bool {
        &&& self.paths.no_duplicates()
        &&& self.fields.dom() =~= self.paths.to_set()
    }
}

impl<T: Model> View for FormState<T> {
    type V = FormStateView<T>;

    closed spec fn view(&self) -> FormStateView<T> {
        FormStateView { model: self.model, paths: self.fields.paths(), fields: self.fields@ }
    }
}

impl<T: Model> FormState<T> {
    /// Builds the state for `model`, with one pristine record for each path
    /// that the model declares.
    pub fn new(model: T) -> (state: FormState<T>)
        ensures
            state@.model == model,
            state@.well_formed(),
            exists|declared: Vec<String>|
                {
                    &&& #[trigger] call_ensures(T::fields, (&model,), declared)
                    &&& state@.paths == without_repeats(texts(declared@))
                    &&& state@.fields.dom() =~= texts(declared@).to_set()
                },
            forall|path: Seq<char>| #[trigger]
                state@.fields.dom().contains(path) ==> state@.fields[path]
                    == FieldStateView::pristine(),
    {
        let declared = model.fields();
        FormState::with_paths(model, &declared)
    }

    /// Builds the state for `model` from the paths it declared: one pristine
    /// record for each, a repeated path counted once.
    pub fn with_paths(model: T, declared: &Vec<String>) -> (state: FormState<T>)
        ensures
            state@.model == model,
            state@.well_formed(),
            state@.paths == without_repeats(texts(declared@)),
            state@.fields.dom() =~= texts(declared@).to_set(),
            forall|path: Seq<char>| #[trigger]
                state@.fields.dom().contains(path) ==> state@.fields[path]
                    == FieldStateView::pristine(),
    {
        let fields = FieldTable::from_paths(declared);
        proof {
            fields.lemma_well_formed();
        }
        FormState { model, fields }
    }

    /// The model's text for the field at `path`. Fails with `UnknownField`
    /// for a path that the form has no record of, or that the model rejects.
    pub fn field_value(&self, path: &str) -> (result: Result<String, FieldError>)
        ensures
            !self@.fields.dom().contains(path@) ==> result is Err,
            result matches Err(error) ==> error.is_unknown(path@),
            self@.fields.dom().contains(path@) ==> exists|answer: Result<String, FieldError>|
                {
                    &&& #[trigger] call_ensures(T::get_string, (&self@.model, path), answer)
                    &&& match answer {
                        Ok(text) => result == Ok::<String, FieldError>(text),
                        Err(_) => result is Err,
                    }
                },
    {
        if !self.fields.contains(path) {
            return Err(FieldError::unknown(path));
        }
        match self.model.get_string(path) {
            Ok(text) => Ok(text),
            Err(_) => Err(FieldError::unknown(path)),
        }
    }

    /// Writes `raw` into the model's field at `path` and records the edit.
    /// The model is asked once, with this path and text, and what it answers
    /// decides the result. An accepted write marks the field dirty. Text that does not parse
    /// leaves the model as it was and marks the field dirty and invalid, with
    /// a message that quotes the text; the error itself is not passed on. An
    /// unknown path changes nothing and fails.
    pub fn set_field_value(&mut self, path: &str, raw: &str) -> (result: Result<Edit, FieldError>)
        ensures
            final(self)@.paths == old(self)@.paths,
            final(self)@.well_formed(),
            final(self)@.fields.dom() == old(self)@.fields.dom(),
            match result {
                Ok(Edit::Stored) => {
                    &&& old(self)@.fields.dom().contains(path@)
                    &&& final(self)@.fields == after_edit(
                        old(self)@.fields,
                        path@,
                        true,
                        Seq::empty(),
                    )
                },
                Ok(Edit::Refused) => {
                    &&& old(self)@.fields.dom().contains(path@)
                    &&& final(self)@.model == old(self)@.model
                    &&& final(self)@.fields == after_edit(
                        old(self)@.fields,
                        path@,
                        false,
                        refusal_message(raw@),
                    )
                },
                Err(error) => {
                    &&& error.is_unknown(path@)
                    &&& final(self)@ == old(self)@
                },
            },
            !old(self)@.fields.dom().contains(path@) ==> result is Err,
            old(self)@.fields.dom().contains(path@) ==> exists|
                model: &mut T,
                outcome: Result<(), FieldError>,
            |
                {
                    &&& *model == old(self)@.model
                    &&& *final(model) == final(self)@.model
                    &&& #[trigger] call_ensures(T::set_from_string, (model, path, raw), outcome)
                    &&& match outcome {
                        Ok(()) => result == Ok::<Edit, FieldError>(Edit::Stored),
                        Err(FieldError::ParseFailure { .. }) => result == Ok::<Edit, FieldError>(
                            Edit::Refused,
                        ),
                        Err(FieldError::UnknownField { .. }) => result is Err,
                    }
                },
            forall|other: Seq<char>|
                old(self)@.fields.dom().contains(other) && old(self)@.fields[other].dirty ==> (
                #[trigger] final(self)@.fields[other]).dirty,
    {
        proof {
            use_type_invariant(&self.fields);
            self.fields.lemma_well_formed();
        }
        if !self.fields.contains(path) {
            return Err(FieldError::unknown(path));
        }
        let outcome = match self.model.set_from_string(path, raw) {
            Ok(()) => Ok(()),
            Err(FieldError::ParseFailure { .. }) => Err(FieldError::parse_failure(path, raw)),
            Err(FieldError::UnknownField { .. }) => Err(FieldError::unknown(path)),
        };
        self.fields.record_edit(path, &outcome)
    }

    /// Validates the whole model and applies the outcome to the record of
    /// `path` alone: the records of all other fields stay as they were, also
    /// where the same run found violations for them.
    pub fn update_validation_field(&mut self, path: &str) -> (result: Result<(), FieldError>)
        ensures
            final(self)@.model == old(self)@.model,
            final(self)@.paths == old(self)@.paths,
            final(self)@.well_formed(),
            final(self)@.fields.dom() == old(self)@.fields.dom(),
            exists|report: Vec<Violation>|
                {
                    &&& #[trigger] call_ensures(T::validate, (&old(self)@.model,), report)
                    &&& final(self)@.fields == after_field_validation(
                        old(self)@.fields,
                        path@,
                        report_view(report@),
                    )
                },
            forall|other: Seq<char>|
                other != path@ && old(self)@.fields.dom().contains(other)
                    ==> #[trigger] final(self)@.fields[other] == old(self)@.fields[other],
            match result {
                Ok(()) => old(self)@.fields.dom().contains(path@),
                Err(error) => !old(self)@.fields.dom().contains(path@) && error.is_unknown(path@),
            },
            forall|other: Seq<char>|
                old(self)@.fields.dom().contains(other) && old(self)@.fields[other].dirty ==> (
                #[trigger] final(self)@.fields[other]).dirty,
    {
        proof {
            use_type_invariant(&self.fields);
            self.fields.lemma_well_formed();
        }
        let report = self.model.validate();
        self.fields.judge_field(path, &report)
    }

    /// What an input event does: writes `raw` into the field at `path`, then
    /// validates the model and updates the record of that field. On a
    /// declared path the model is asked once to take the text, and its answer
    /// decides the result: the edit is stored or refused, and only a model
    /// that disowns the path makes the call fail. Where the text did not
    /// parse, the validation that follows still decides what the record says,
    /// since the model is as it was before.
    pub fn input(&mut self, path: &str, raw: &str) -> (result: Result<Edit, FieldError>)
        ensures
            final(self)@.paths == old(self)@.paths,
            final(self)@.well_formed(),
            final(self)@.fields.dom() == old(self)@.fields.dom(),
            match result {
                Ok(edit) => {
                    &&& old(self)@.fields.dom().contains(path@)
                    &&& edit == Edit::Refused ==> final(self)@.model == old(self)@.model
                    &&& exists|report: Vec<Violation>|
                        {
                            &&& #[trigger] call_ensures(T::validate, (&final(self)@.model,), report)
                            &&& final(self)@.fields == after_field_validation(
                                after_edit(old(self)@.fields, path@, true, Seq::empty()),
                                path@,
                                report_view(report@),
                            )
                        }
                },
                Err(error) => {
                    &&& error.is_unknown(path@)
                    &&& final(self)@ == old(self)@
                },
            },
            !old(self)@.fields.dom().contains(path@) ==> result is Err,
            old(self)@.fields.dom().contains(path@) ==> exists|
                model: &mut T,
                outcome: Result<(), FieldError>,
            |
                {
                    &&& *model == old(self)@.model
                    &&& *final(model) == final(self)@.model
                    &&& #[trigger] call_ensures(T::set_from_string, (model, path, raw), outcome)
                    &&& match outcome {
                        Ok(()) => result == Ok::<Edit, FieldError>(Edit::Stored),
                        Err(FieldError::ParseFailure { .. }) => result == Ok::<Edit, FieldError>(
                            Edit::Refused,
                        ),
                        Err(FieldError::UnknownField { .. }) => result is Err,
                    }
                },
            forall|other: Seq<char>|
                other != path@ && old(self)@.fields.dom().contains(other)
                    ==> #[trigger] final(self)@.fields[other] == old(self)@.fields[other],
            forall|other: Seq<char>|
                old(self)@.fields.dom().contains(other) && old(self)@.fields[other].dirty ==> (
                #[trigger] final(self)@.fields[other]).dirty,
    {
        proof {
            use_type_invariant(&self.fields);
            self.fields.lemma_well_formed();
        }
        let ghost before = self@;
        match self.set_field_value(path, raw) {
            Err(error) => Err(error),
            Ok(edit) => {
                let ghost written = self@;
                let report = self.model.validate();
                let judged = self.fields.judge_field(path, &report);
                proof {
                    assert(self@.model == written.model);
                    assert(call_ensures(T::validate, (&self@.model,), report));
                    assert(self@.fields =~= after_field_validation(
                        after_edit(before.fields, path@, true, Seq::empty()),
                        path@,
                        report_view(report@),
                    ));
                }
                Ok(edit)
            },
        }
    }

    /// Validates the whole model and applies the outcome to every record: a
    /// field without a violation becomes valid with an empty message. Returns
    /// whether no field is invalid.
    pub fn validate(&mut self) -> (valid: bool)
        ensures
            final(self)@.model == old(self)@.model,
            final(self)@.paths == old(self)@.paths,
            final(self)@.well_formed(),
            final(self)@.fields.dom() == old(self)@.fields.dom(),
            exists|report: Vec<Violation>|
                #[trigger] call_ensures(T::validate, (&old(self)@.model,), report)
                    && final(self)@.fields == after_validation(
                    old(self)@.fields,
                    report_view(report@),
                ),
            valid == all_valid(final(self)@.fields),
            forall|other: Seq<char>|
                old(self)@.fields.dom().contains(other) && old(self)@.fields[other].dirty ==> (
                #[trigger] final(self)@.fields[other]).dirty,
    {
        proof {
            use_type_invariant(&self.fields);
            self.fields.lemma_well_formed();
        }
        let report = self.model.validate();
        self.fields.judge_all(&report)
    }

    /// Whether no field is invalid, as of the latest edits and validations.
    pub fn valid(&self) -> (valid: bool)
        ensures
            valid == all_valid(self@.fields),
    {
        self.fields.all_valid()
    }

    /// The tracking record of the field at `path`.
    pub fn field(&self, path: &str) -> (result: Result<&FieldState, FieldError>)
        ensures
            match result {
                Ok(state) => self@.fields.dom().contains(path@) && state@ == self@.fields[path@],
                Err(error) => !self@.fields.dom().contains(path@) && error.is_unknown(path@),
            },
    {
        match self.fields.state(path) {
            Some(state) => Ok(state),
            None => Err(FieldError::unknown(path)),
        }
    }

    /// The message to show for the field at `path`: empty while it is valid.
    pub fn field_message(&self, path: &str) -> (result: Result<String, FieldError>)
        ensures
            match result {
                Ok(text) => self@.fields.dom().contains(path@) && text@
                    == self@.fields[path@].shown_message(),
                Err(error) => !self@.fields.dom().contains(path@) && error.is_unknown(path@),
            },
    {
        match self.fields.state(path) {
            Some(state) => Ok(state.shown_message()),
            None => Err(FieldError::unknown(path)),
        }
    }

    /// Whether the field at `path` is currently valid.
    pub fn field_valid(&self, path: &str) -> (result: Result<bool, FieldError>)
        ensures
            match result {
                Ok(valid) => self@.fields.dom().contains(path@) && valid
                    == self@.fields[path@].valid,
                Err(error) => !self@.fields.dom().contains(path@) && error.is_unknown(path@),
            },
    {
        match self.fields.state(path) {
            Some(state) => Ok(state.valid),
            None => Err(FieldError::unknown(path)),
        }
    }

    /// The declared paths, in the order of their declaration.
    pub fn field_paths(&self) -> (paths: &Vec<String>)
        ensures
            texts(paths@) == self@.paths,
    {
        self.fields.field_paths()
    }

    /// The model, for reading it as a whole.
    pub fn model(&self) -> (model: &T)
        ensures
            *model == self@.model,
    {
        &self.model
    }

    /// The model, for changing it directly. The tracking records are not
    /// touched by what the caller does to it.
    pub fn model_mut(&mut self) -> (model: &mut T)
        ensures
            *model == old(self)@.model,
            final(self)@.model == *final(model),
            final(self)@.paths == old(self)@.paths,
            final(self)@.well_formed(),
            final(self)@.fields == old(self)@.fields,
    {
        proof {
            use_type_invariant(&self.fields);
            self.fields.lemma_well_formed();
        }
        &mut self.model
    }
}

} // verus!
