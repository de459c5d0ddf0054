//! String constants for the standard theme contract.
//!
//! Every built-in theme defines these tokens, styles, and gradients. Use
//! them instead of raw strings for autocomplete and typo prevention.

pub mod gradients;
pub mod styles;
pub mod tokens;
