//! Validation artifacts and validators.
pub mod artifact;
pub mod assertions;
pub mod file_audit;
pub mod registry;
pub mod validator;
pub mod violation;
