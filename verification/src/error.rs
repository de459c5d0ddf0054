//! The error taxonomy of the resolution pipeline.

use crate::color::{ColorParseError, ColorParseErrorView};
use vstd::prelude::*;

verus! {

/// All errors that resolution can report.
///
/// Resolution is fail-fast: the first error encountered anywhere in the
/// palette, token, style, or gradient stage aborts the whole resolution,
/// and no partial theme is produced.
#[derive(Debug, Clone, PartialEq, Eq)]
pub enum OpalineError {
    /// A color definition is not a valid hex literal.
    InvalidColor { token: String, source: ColorParseError },
    /// A chain of token references loops back on itself. The chain is
    /// reported in traversal order, with the offending token appended to
    /// close the loop.
    CircularReference { token: String, chain: Vec<String> },
    /// A reference names neither a hex literal, a palette entry, nor a
    /// token.
    UnresolvedToken { token: String, reference: String },
    /// A structurally required part of the input is absent.
    MissingSection { section: String },
    /// No theme exists under the requested name.
    ThemeNotFound { name: String },
    /// A gradient has no color stops at all.
    EmptyGradient,
}

/// Mathematical image of an [`OpalineError`].
pub enum OpalineErrorView {
    InvalidColor { token: Seq<char>, source: ColorParseErrorView },
    CircularReference { token: Seq<char>, chain: Seq<Seq<char>> },
    UnresolvedToken { token: Seq<char>, reference: Seq<char> },
    MissingSection { section: Seq<char> },
    ThemeNotFound { name: Seq<char> },
    EmptyGradient,
}

impl View for OpalineError {
    type V = OpalineErrorView;

    open spec fn view(&self) -> OpalineErrorView {
        match self {
            OpalineError::InvalidColor { token, source } => OpalineErrorView::InvalidColor {
                token: token@,
                source: source@,
            },
            OpalineError::CircularReference { token, chain } => OpalineErrorView::CircularReference {
                token: token@,
                chain: chain@.map_values(|s: String| s@),
            },
            OpalineError::UnresolvedToken { token, reference } => OpalineErrorView::UnresolvedToken {
                token: token@,
                reference: reference@,
            },
            OpalineError::MissingSection { section } => OpalineErrorView::MissingSection {
                section: section@,
            },
            OpalineError::ThemeNotFound { name } => OpalineErrorView::ThemeNotFound { name: name@ },
            OpalineError::EmptyGradient => OpalineErrorView::EmptyGradient,
        }
    }
}

} // verus!
