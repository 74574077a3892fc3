//! Errors of the field path resolver.

use vstd::prelude::*;
use vstd::string::StringExecFns;

verus! {

/// Why a field could not be read or written through its path.
#[derive(Debug, PartialEq, Eq)]
pub enum FieldError {
    /// The model declares no field under this path: a defect in the calling
    /// code, not in what the user typed.
    UnknownField { path: String },
    /// The raw text does not convert to the field's native type.
    ParseFailure { path: String, raw_value: String },
}

/// The message of a parse failure: it quotes the text that was refused.
pub open spec fn refusal_message(raw: Seq<char>) -> Seq<char> {
    "Invalid value: "@ + raw
}

impl Clone for FieldError {
    fn clone(&self) -> (copy: FieldError)
        ensures
            copy == *self,
    {
        match self {
            FieldError::UnknownField { path } => FieldError::UnknownField { path: path.clone() },
            FieldError::ParseFailure { path, raw_value } => FieldError::ParseFailure {
                path: path.clone(),
                raw_value: raw_value.clone(),
            },
        }
    }
}

impl FieldError {
    /// The text shown to the user for this error.
    pub open spec fn spec_message(&self) -> Seq<char> {
        match self {
            FieldError::UnknownField { path } => "Unknown field: "@ + path@,
            FieldError::ParseFailure { path, raw_value } => refusal_message(raw_value@),
        }
    }

    /// Whether this error reports an unknown path.
    pub open spec fn is_unknown(&self, queried: Seq<char>) -> bool {
        match self {
            FieldError::UnknownField { path } => path@ == queried,
            FieldError::ParseFailure { .. } => false,
        }
    }

    /// Whether this error reports that `raw` was refused for `queried`.
    pub open spec fn is_parse_failure(&self, queried: Seq<char>, raw: Seq<char>) -> bool {
        match self {
            FieldError::UnknownField { .. } => false,
            FieldError::ParseFailure { path, raw_value } => path@ == queried && raw_value@ == raw,
        }
    }

    /// Builds the error for a path that the model does not declare.
    pub fn unknown(path: &str) -> (error: FieldError)
        ensures
            error.is_unknown(path@),
    {
        FieldError::UnknownField { path: path.to_owned() }
    }

    /// Builds the error for raw text that a field refused.
    pub fn parse_failure(path: &str, raw: &str) -> (error: FieldError)
        ensures
            error.is_parse_failure(path@, raw@),
    {
        FieldError::ParseFailure { path: path.to_owned(), raw_value: raw.to_owned() }
    }

    /// The text shown to the user for this error.
    pub fn message(&self) -> (text: String)
        ensures
            text@ == self.spec_message(),
    {
        match self {
            FieldError::UnknownField { path } => {
                String::from_str("Unknown field: ").concat(path.as_str())
            },
            FieldError::ParseFailure { path: _, raw_value } => {
                String::from_str("Invalid value: ").concat(raw_value.as_str())
            },
        }
    }
}

} // verus!
