//! Form state engine: binds a typed data model to a form, tracks the
//! edit and validity state of every field, and re-runs validation as the
//! fields change.
//!
//! The pieces, leaves first:
//!
//! - [`text`], [`path`], [`codec`]: text comparison, dotted field paths, and
//!   the conversion between leaf values and their text.
//! - [`error`], [`validation`]: the resolver's errors, and validation
//!   reports read back by field path.
//! - [`model`]: what a typed record offers to be edited by a form.
//! - [`record`]: a model whose fields and rules are declared at run time.
//! - [`field_state`]: the tracking record of a field and the table of all
//!   records of a form.
//! - [`form_state`]: one model together with its table, and the operations
//!   that keep the two consistent.
//! - [`form`]: the handle through which many field components share one
//!   form state.
//! - [`field`]: the field component itself.

pub mod codec;
pub mod error;
pub mod field;
pub mod field_state;
pub mod form;
pub mod form_state;
pub mod model;
pub mod path;
pub mod record;
pub mod text;
pub mod validation;
