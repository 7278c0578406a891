//! What admin commands share: the refusal of a caller without the admin role.
use vstd::prelude::*;

verus! {

/// Why an admin command was refused.
#[derive(Clone, Copy, Debug, PartialEq, Eq, Structural)]
pub enum AdminError {
    Unauthorized,
}

impl AdminError {
    /// The message describing the error.
    pub fn message(&self) -> (text: &'static str)
        ensures
            text == match *self {
                AdminError::Unauthorized => "Unauthorized",
            },
    {
        match self {
            AdminError::Unauthorized => "Unauthorized",
        }
    }
}

} // verus!
