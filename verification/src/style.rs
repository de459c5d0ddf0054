//! Composed styles: optional foreground/background colors plus the nine
//! boolean text modifiers.

use crate::color::OpalineColor;
use vstd::prelude::*;

verus! {

/// A composed style with optional foreground/background colors and text
/// modifiers.
///
/// Styles are the output of the resolution pipeline: they hold resolved
/// colors, never token names. All nine modifiers are supported: `bold`,
/// `dim`, `italic`, `underline`, `slow_blink`, `rapid_blink`, `reversed`,
/// `hidden`, and `crossed_out`.
#[derive(Debug, Clone, Copy, PartialEq, Eq)]
pub struct OpalineStyle {
    pub fg: Option<OpalineColor>,
    pub bg: Option<OpalineColor>,
    pub bold: bool,
    pub dim: bool,
    pub italic: bool,
    pub underline: bool,
    pub slow_blink: bool,
    pub rapid_blink: bool,
    pub reversed: bool,
    pub hidden: bool,
    pub crossed_out: bool,
}

impl View for OpalineStyle {
    type V = OpalineStyle;

    open spec fn view(&self) -> OpalineStyle {
        *self
    }
}

/// The style with no colors and no modifiers.
pub open spec fn spec_empty_style() -> OpalineStyle {
    OpalineStyle {
        fg: None,
        bg: None,
        bold: false,
        dim: false,
        italic: false,
        underline: false,
        slow_blink: false,
        rapid_blink: false,
        reversed: false,
        hidden: false,
        crossed_out: false,
    }
}

/// Overlaying `other` on `base`: `other` wins for colors where set, and
/// the boolean modifiers are or-ed together.
pub open spec fn spec_merge(base: OpalineStyle, other: OpalineStyle) -> OpalineStyle {
    OpalineStyle {
        fg: if other.fg is Some {
            other.fg
        } else {
            base.fg
        },
        bg: if other.bg is Some {
            other.bg
        } else {
            base.bg
        },
        bold: base.bold || other.bold,
        dim: base.dim || other.dim,
        italic: base.italic || other.italic,
        underline: base.underline || other.underline,
        slow_blink: base.slow_blink || other.slow_blink,
        rapid_blink: base.rapid_blink || other.rapid_blink,
        reversed: base.reversed || other.reversed,
        hidden: base.hidden || other.hidden,
        crossed_out: base.crossed_out || other.crossed_out,
    }
}

/// The bitfield of active modifiers: one distinct bit per modifier, in the
/// order bold, dim, italic, underline, slow blink, rapid blink, reversed,
/// hidden, crossed out.
pub open spec fn spec_modifier_bits(s: OpalineStyle) -> u16 {
    ((if s.bold {
        1int
    } else {
        0int
    }) + (if s.dim {
        2int
    } else {
        0int
    }) + (if s.italic {
        4int
    } else {
        0int
    }) + (if s.underline {
        8int
    } else {
        0int
    }) + (if s.slow_blink {
        16int
    } else {
        0int
    }) + (if s.rapid_blink {
        32int
    } else {
        0int
    }) + (if s.reversed {
        64int
    } else {
        0int
    }) + (if s.hidden {
        128int
    } else {
        0int
    }) + (if s.crossed_out {
        256int
    } else {
        0int
    })) as u16
}

impl OpalineStyle {
    /// Create an empty style with no colors or modifiers.
    pub fn new() -> (s: Self)
        ensures
            s == spec_empty_style(),
    {
        OpalineStyle {
            fg: None,
            bg: None,
            bold: false,
            dim: false,
            italic: false,
            underline: false,
            slow_blink: false,
            rapid_blink: false,
            reversed: false,
            hidden: false,
            crossed_out: false,
        }
    }

    /// Create a style with only a foreground color.
    pub fn fg(color: OpalineColor) -> (s: Self)
        ensures
            s == (OpalineStyle { fg: Some(color), ..spec_empty_style() }),
    {
        OpalineStyle { fg: Some(color), ..OpalineStyle::new() }
    }

    /// Create a style with only a background color.
    pub fn bg(color: OpalineColor) -> (s: Self)
        ensures
            s == (OpalineStyle { bg: Some(color), ..spec_empty_style() }),
    {
        OpalineStyle { bg: Some(color), ..OpalineStyle::new() }
    }

    /// Set the foreground color.
    pub fn with_fg(self, color: OpalineColor) -> (s: Self)
        ensures
            s == (OpalineStyle { fg: Some(color), ..self }),
    {
        OpalineStyle { fg: Some(color), ..self }
    }

    /// Set the background color.
    pub fn with_bg(self, color: OpalineColor) -> (s: Self)
        ensures
            s == (OpalineStyle { bg: Some(color), ..self }),
    {
        OpalineStyle { bg: Some(color), ..self }
    }

    /// Enable bold.
    pub fn bold(self) -> (s: Self)
        ensures
            s == (OpalineStyle { bold: true, ..self }),
    {
        OpalineStyle { bold: true, ..self }
    }

    /// Enable dim.
    pub fn dim(self) -> (s: Self)
        ensures
            s == (OpalineStyle { dim: true, ..self }),
    {
        OpalineStyle { dim: true, ..self }
    }

    /// Enable italic.
    pub fn italic(self) -> (s: Self)
        ensures
            s == (OpalineStyle { italic: true, ..self }),
    {
        OpalineStyle { italic: true, ..self }
    }

    /// Enable underline.
    pub fn underline(self) -> (s: Self)
        ensures
            s == (OpalineStyle { underline: true, ..self }),
    {
        OpalineStyle { underline: true, ..self }
    }

    /// Enable slow blink.
    pub fn slow_blink(self) -> (s: Self)
        ensures
            s == (OpalineStyle { slow_blink: true, ..self }),
    {
        OpalineStyle { slow_blink: true, ..self }
    }

    /// Enable rapid blink.
    pub fn rapid_blink(self) -> (s: Self)
        ensures
            s == (OpalineStyle { rapid_blink: true, ..self }),
    {
        OpalineStyle { rapid_blink: true, ..self }
    }

    /// Enable reversed (inverted fg/bg).
    pub fn reversed(self) -> (s: Self)
        ensures
            s == (OpalineStyle { reversed: true, ..self }),
    {
        OpalineStyle { reversed: true, ..self }
    }

    /// Enable hidden.
    pub fn hidden(self) -> (s: Self)
        ensures
            s == (OpalineStyle { hidden: true, ..self }),
    {
        OpalineStyle { hidden: true, ..self }
    }

    /// Enable crossed out (strikethrough).
    pub fn crossed_out(self) -> (s: Self)
        ensures
            s == (OpalineStyle { crossed_out: true, ..self }),
    {
        OpalineStyle { crossed_out: true, ..self }
    }

    /// Merge another style on top of this one.
    ///
    /// The `other` style takes precedence for colors where set; boolean
    /// modifiers are or-ed together.
    pub fn merge(&self, other: &Self) -> (s: Self)
        ensures
            s == spec_merge(*self, *other),
    {
        OpalineStyle {
            fg: if other.fg.is_some() {
                other.fg
            } else {
                self.fg
            },
            bg: if other.bg.is_some() {
                other.bg
            } else {
                self.bg
            },
            bold: self.bold || other.bold,
            dim: self.dim || other.dim,
            italic: self.italic || other.italic,
            underline: self.underline || other.underline,
            slow_blink: self.slow_blink || other.slow_blink,
            rapid_blink: self.rapid_blink || other.rapid_blink,
            reversed: self.reversed || other.reversed,
            hidden: self.hidden || other.hidden,
            crossed_out: self.crossed_out || other.crossed_out,
        }
    }

    /// The bitfield of all active modifiers, for adapter conversions.
    pub fn modifier_bits(&self) -> (bits: u16)
        ensures
            bits == spec_modifier_bits(*self),
    {
        let mut bits: u16 = 0;
        if self.bold {
            bits += 1;
        }
        if self.dim {
            bits += 2;
        }
        if self.italic {
            bits += 4;
        }
        if self.underline {
            bits += 8;
        }
        if self.slow_blink {
            bits += 16;
        }
        if self.rapid_blink {
            bits += 32;
        }
        if self.reversed {
            bits += 64;
        }
        if self.hidden {
            bits += 128;
        }
        if self.crossed_out {
            bits += 256;
        }
        bits
    }
}

impl Default for OpalineStyle {
    /// The default style is the empty style.
    fn default() -> (s: Self)
        ensures
            s == spec_empty_style(),
    {
        OpalineStyle::new()
    }
}

/// Merging is idempotent on an empty overlay: merging the empty style on
/// top of any style leaves it unchanged.
pub proof fn lemma_merge_empty_preserves(base: OpalineStyle)
    ensures
        spec_merge(base, spec_empty_style()) == base,
{
}

/// Merging any style onto the empty style yields the overlay itself.
pub proof fn lemma_merge_onto_empty(other: OpalineStyle)
    ensures
        spec_merge(spec_empty_style(), other) == other,
{
}

} // verus!
