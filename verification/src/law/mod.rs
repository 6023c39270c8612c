//! The law layer: contract kinds, law axes, descriptors and their audits,
//! validation artifacts and witnesses.
pub mod law_enforcement;
pub mod validation;
pub mod witness;
