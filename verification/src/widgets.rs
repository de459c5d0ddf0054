//! Interactive widget state machines.
//!
//! The state and decision logic lives here, verified; drawing to a
//! terminal backend is left to thin adapters around the library.

pub mod theme_selector;
