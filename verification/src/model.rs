//! The interface between a form and the typed record it edits.

use vstd::prelude::*;
use crate::error::FieldError;
use crate::validation::Violation;

verus! {

/// A typed record that a form can edit: it declares its field paths, reads
/// and writes each field as text, and validates itself.
///
/// A path is a dot-separated sequence of field names; a model that contains
/// another model declares the inner fields under the outer field's name.
pub trait Model: Sized {
    /// The field paths that this model supports, nested ones included.
    fn fields(&self) -> Vec<String>;

    /// The canonical text of the field at `path`, or `UnknownField` for a
    /// path that the model does not declare.
    fn get_string(&self, path: &str) -> Result<String, FieldError>;

    /// Parses `value` into the native type of the field at `path` and stores
    /// it. Fails with `ParseFailure` if the text does not parse and with
    /// `UnknownField` if the model does not declare the path. A failed write
    /// leaves the model as it was.
    fn set_from_string(&mut self, path: &str, value: &str) -> (outcome: Result<(), FieldError>)
        ensures
            outcome is Err ==> *final(self) == *old(self),
    ;

    /// Runs every rule of the model, those of nested models included, and
    /// reports one violation for each rule that does not hold, under the full
    /// dotted path of its field. A field that the report does not name is
    /// currently valid.
    fn validate(&self) -> Vec<Violation>;
}

} // verus!
