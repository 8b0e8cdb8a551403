//! Plugin configuration.
//!
//! The formatter currently exposes no options: the struct exists so that a
//! resolved configuration can be carried around and compared by callers.
use vstd::prelude::*;

verus! {

/// Resolved configuration of the formatter.
#[derive(Clone, Copy, Debug, PartialEq, Eq, Structural)]
pub struct Configuration {}

impl Default for Configuration {
    fn default() -> (c: Configuration)
        ensures
            c == (Configuration {  }),
    {
        Configuration {  }
    }
}

} // verus!
