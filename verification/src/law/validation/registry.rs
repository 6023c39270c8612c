//! The registry's view of validators.
use vstd::prelude::*;

verus! {

/// Which validator checks which property of which subject type.
#[derive(Debug, Clone, Copy, PartialEq, Eq)]
pub struct ValidatorDescriptor {
    pub validator_id: &'static str,
    pub subject_type_name: &'static str,
    pub property: &'static str,
}

/// What a registry lookup can fail with.
#[derive(Debug, Clone, Copy, PartialEq, Eq, Structural)]
pub enum ValidationRegistryError {
    ValidatorNotFound,
}

impl ValidationRegistryError {
    /// The error's message.
    pub fn message(&self) -> (r: &'static str)
        ensures
            match *self {
                ValidationRegistryError::ValidatorNotFound => r@ == "validator not found"@,
            },
    {
        match self {
            ValidationRegistryError::ValidatorNotFound => "validator not found",
        }
    }
}

} // verus!
