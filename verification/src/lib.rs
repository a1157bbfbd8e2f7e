//! Device bring-up for a real-time renderer: selection of a capable physical
//! accelerator, planning of the logical execution context, and an
//! ownership-counted chain of contexts whose native resources must be
//! released in reverse creation order.

use vstd::prelude::*;

pub mod chain;
pub mod device;
pub mod render_pass;

verus! {

/// Errors that can end the bring-up sequence.
#[derive(Clone, Copy, PartialEq, Eq, Structural, Debug)]
pub enum ContextError {
    /// Enumeration was empty, or no candidate passed all adequacy checks.
    NoSuitableDevice,
    /// An underlying capability query itself failed.
    QueryFailure,
    /// The driver rejected creation of the logical context or a dependent resource.
    ContextCreationFailure,
}

impl ContextError {
    /// The wording a startup-failure report uses for this error.
    pub fn describe(&self) -> (r: String)
        ensures
            r@ == (match *self {
                ContextError::NoSuitableDevice => "no suitable physical device"@,
                ContextError::QueryFailure => "capability query failed"@,
                ContextError::ContextCreationFailure => "logical context creation failed"@,
            }),
    {
        broadcast use vstd::string::to_string_from_display_ensures_for_str;

        match self {
            ContextError::NoSuitableDevice => "no suitable physical device".to_string(),
            ContextError::QueryFailure => "capability query failed".to_string(),
            ContextError::ContextCreationFailure => "logical context creation failed".to_string(),
        }
    }
}

} // verus!
