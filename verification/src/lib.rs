//! Verified core of a Jupyter-notebook code formatter.
//!
//! A notebook is a JSON document with an array of cells, each carrying its
//! source text as a JSON string or an array of line strings.  The library
//! locates each cell's source bytes, hands the plain text to a caller-supplied
//! formatter callback, re-encodes the formatted text in the notebook's
//! array-of-line-strings shape, and splices the results back into the original
//! document while leaving every untouched byte identical.
pub mod byte_ops;
pub mod configuration;
pub mod format_text;
pub mod indent;
pub mod json_model;
pub mod json_text;
pub mod language;
pub mod text_changes;

pub use crate::configuration::Configuration;
pub use crate::format_text::FormatError;
pub use crate::format_text::format_text;
pub use crate::text_changes::ConsistencyError;
pub use crate::text_changes::TextChange;
pub use crate::text_changes::apply_text_changes;
