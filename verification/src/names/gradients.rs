//! Named gradient constants of the standard theme contract.

use vstd::prelude::*;

verus! {

pub const PRIMARY: &'static str = "primary";

pub const WARM: &'static str = "warm";

pub const SUCCESS_GRADIENT: &'static str = "success_gradient";

pub const ERROR_GRADIENT: &'static str = "error_gradient";

pub const AURORA: &'static str = "aurora";

} // verus!
