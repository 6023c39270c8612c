//! Which witnesses a contract asks to be generated.
use vstd::prelude::*;
use crate::law::law_enforcement::sealed::Sealed;

verus! {

/// Witness generation switches of a generated contract; all off unless the
/// contract turns them on.
pub trait WitnessDirective: Sealed {
    const GENERATE_LAMBDA_WITNESSES: bool = false;
    const GENERATE_REDUCER_WITNESSES: bool = false;
    const GENERATE_TRANSFORM_WITNESSES: bool = false;
    const REQUIRE_TOTAL: bool = false;
    const REQUIRE_DETERMINISTIC: bool = false;
}

} // verus!
