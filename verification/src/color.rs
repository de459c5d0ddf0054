//! The RGB color primitive: 8-bit channels, `#rrggbb` (de)serialization,
//! and exact linear interpolation.
//!
//! Interpolation positions are exact rationals `num / den` rather than
//! floating-point numbers, so every sampling result is fully determined
//! by the contract: each channel is the correctly rounded value of
//! `a * (1 - t) + b * t` with `t = num / den` clamped to `[0, 1]`.

use vstd::arithmetic::div_mod::{lemma_fundamental_div_mod, lemma_fundamental_div_mod_converse};
use vstd::prelude::*;
use vstd::string::StrSliceExecFns;
use vstd::string::StringExecFns;

verus! {

/// Error returned when parsing a hex color string fails.
#[derive(Debug, Clone, PartialEq, Eq)]
pub enum ColorParseError {
    /// The trimmed input is not exactly 7 characters starting with `#`.
    InvalidLength(usize),
    /// One of the three 2-character groups is not valid hexadecimal.
    InvalidHex(String),
}

/// Mathematical image of a [`ColorParseError`].
pub enum ColorParseErrorView {
    InvalidLength(int),
    InvalidHex(Seq<char>),
}

impl View for ColorParseError {
    type V = ColorParseErrorView;

    open spec fn view(&self) -> ColorParseErrorView {
        match self {
            ColorParseError::InvalidLength(n) => ColorParseErrorView::InvalidLength(*n as int),
            ColorParseError::InvalidHex(s) => ColorParseErrorView::InvalidHex(s@),
        }
    }
}

/// An RGB color with 8-bit channels.
///
/// The fundamental color primitive: every value of this type is a valid,
/// fully concrete color. Constructed from hex strings (`#rrggbb`), direct
/// RGB values, or resolved from theme tokens.
#[derive(Debug, Clone, Copy, PartialEq, Eq, Hash, Structural)]
pub struct OpalineColor {
    pub r: u8,
    pub g: u8,
    pub b: u8,
}

impl View for OpalineColor {
    type V = OpalineColor;

    open spec fn view(&self) -> OpalineColor {
        *self
    }
}

/// The neutral mid-gray returned when a lookup cannot be satisfied.
pub open spec fn spec_fallback_color() -> OpalineColor {
    OpalineColor { r: 128, g: 128, b: 128 }
}

// ── Character-level specifications ──────────────────────────────────────

/// The whitespace characters removed from both ends of a hex string.
pub open spec fn is_space_char(c: char) -> bool {
    c == ' ' || c == '\t' || c == '\n' || c == '\r'
}

/// Whitespace trimming on character sequences.
pub open spec fn spec_trim(s: Seq<char>) -> Seq<char>
    decreases s.len(),
{
    if s.len() > 0 && is_space_char(s[0]) {
        spec_trim(s.drop_first())
    } else if s.len() > 0 && is_space_char(s[s.len() - 1]) {
        spec_trim(s.drop_last())
    } else {
        s
    }
}

/// The numeric value of a hexadecimal digit, case-insensitive.
pub open spec fn spec_hex_val(c: char) -> Option<u8> {
    match c {
        '0' => Some(0u8),
        '1' => Some(1u8),
        '2' => Some(2u8),
        '3' => Some(3u8),
        '4' => Some(4u8),
        '5' => Some(5u8),
        '6' => Some(6u8),
        '7' => Some(7u8),
        '8' => Some(8u8),
        '9' => Some(9u8),
        'a' => Some(10u8),
        'b' => Some(11u8),
        'c' => Some(12u8),
        'd' => Some(13u8),
        'e' => Some(14u8),
        'f' => Some(15u8),
        'A' => Some(10u8),
        'B' => Some(11u8),
        'C' => Some(12u8),
        'D' => Some(13u8),
        'E' => Some(14u8),
        'F' => Some(15u8),
        _ => None,
    }
}

/// The channel value of a 2-digit hexadecimal group, if both digits are valid.
pub open spec fn spec_hex_pair(hi: char, lo: char) -> Option<u8> {
    match (spec_hex_val(hi), spec_hex_val(lo)) {
        (Some(h), Some(l)) => Some((h * 16 + l) as u8),
        _ => None,
    }
}

/// The lowercase hexadecimal digit for a value below 16.
pub open spec fn spec_hex_digit_char(d: int) -> char {
    if d == 0 {
        '0'
    } else if d == 1 {
        '1'
    } else if d == 2 {
        '2'
    } else if d == 3 {
        '3'
    } else if d == 4 {
        '4'
    } else if d == 5 {
        '5'
    } else if d == 6 {
        '6'
    } else if d == 7 {
        '7'
    } else if d == 8 {
        '8'
    } else if d == 9 {
        '9'
    } else if d == 10 {
        'a'
    } else if d == 11 {
        'b'
    } else if d == 12 {
        'c'
    } else if d == 13 {
        'd'
    } else if d == 14 {
        'e'
    } else {
        'f'
    }
}

/// What parsing a hex color string yields: trim, check the `#rrggbb` shape,
/// then decode the three channel groups.
pub open spec fn spec_from_hex(s: Seq<char>) -> Result<OpalineColor, ColorParseErrorView> {
    let t = spec_trim(s);
    if t.len() != 7 || t[0] != '#' {
        Err(ColorParseErrorView::InvalidLength(t.len() as int))
    } else {
        match (spec_hex_pair(t[1], t[2]), spec_hex_pair(t[3], t[4]), spec_hex_pair(t[5], t[6])) {
            (Some(r), Some(g), Some(b)) => Ok(OpalineColor { r, g, b }),
            _ => Err(ColorParseErrorView::InvalidHex(t)),
        }
    }
}

/// The canonical `#rrggbb` rendering of a color: lowercase, 7 characters.
pub open spec fn spec_to_hex(c: OpalineColor) -> Seq<char> {
    seq![
        '#',
        spec_hex_digit_char(c.r as int / 16),
        spec_hex_digit_char(c.r as int % 16),
        spec_hex_digit_char(c.g as int / 16),
        spec_hex_digit_char(c.g as int % 16),
        spec_hex_digit_char(c.b as int / 16),
        spec_hex_digit_char(c.b as int % 16),
    ]
}

// ── Interpolation specification ─────────────────────────────────────────

/// Clamp the numerator of the rational position `num / den` to `[0, den]`.
pub open spec fn spec_clamp_num(num: int, den: int) -> int {
    if num < 0 {
        0
    } else if num > den {
        den
    } else {
        num
    }
}

/// One channel of a linear interpolation at position `num / den`, with
/// `0 <= num <= den`: the correctly rounded value of
/// `(a * (den - num) + b * num) / den`, rounding halves up.
pub open spec fn spec_lerp_channel(a: u8, b: u8, num: int, den: int) -> u8 {
    (((a * (den - num) + b * num) * 2 + den) / (2 * den)) as u8
}

/// Linear interpolation between two colors at the rational position
/// `num / den`, clamped to `[0, 1]`, each channel rounded independently.
pub open spec fn spec_lerp(a: OpalineColor, b: OpalineColor, num: int, den: int) -> OpalineColor {
    let n = spec_clamp_num(num, den);
    OpalineColor {
        r: spec_lerp_channel(a.r, b.r, n, den),
        g: spec_lerp_channel(a.g, b.g, n, den),
        b: spec_lerp_channel(a.b, b.b, n, den),
    }
}

// ── Executable helpers ──────────────────────────────────────────────────

fn is_space(c: char) -> (r: bool)
    ensures
        r == is_space_char(c),
{
    c == ' ' || c == '\t' || c == '\n' || c == '\r'
}

fn hex_val(c: char) -> (r: Option<u8>)
    ensures
        r == spec_hex_val(c),
{
    match c {
        '0' => Some(0),
        '1' => Some(1),
        '2' => Some(2),
        '3' => Some(3),
        '4' => Some(4),
        '5' => Some(5),
        '6' => Some(6),
        '7' => Some(7),
        '8' => Some(8),
        '9' => Some(9),
        'a' => Some(10),
        'b' => Some(11),
        'c' => Some(12),
        'd' => Some(13),
        'e' => Some(14),
        'f' => Some(15),
        'A' => Some(10),
        'B' => Some(11),
        'C' => Some(12),
        'D' => Some(13),
        'E' => Some(14),
        'F' => Some(15),
        _ => None,
    }
}

pub(crate) fn hex_digit_str(d: u8) -> (s: &'static str)
    requires
        d < 16,
    ensures
        s@ == seq![spec_hex_digit_char(d as int)],
{
    if d == 0 {
        proof {
            reveal_strlit("0");
            assert("0"@ =~= seq![spec_hex_digit_char(0)]);
        }
        "0"
    } else if d == 1 {
        proof {
            reveal_strlit("1");
            assert("1"@ =~= seq![spec_hex_digit_char(1)]);
        }
        "1"
    } else if d == 2 {
        proof {
            reveal_strlit("2");
            assert("2"@ =~= seq![spec_hex_digit_char(2)]);
        }
        "2"
    } else if d == 3 {
        proof {
            reveal_strlit("3");
            assert("3"@ =~= seq![spec_hex_digit_char(3)]);
        }
        "3"
    } else if d == 4 {
        proof {
            reveal_strlit("4");
            assert("4"@ =~= seq![spec_hex_digit_char(4)]);
        }
        "4"
    } else if d == 5 {
        proof {
            reveal_strlit("5");
            assert("5"@ =~= seq![spec_hex_digit_char(5)]);
        }
        "5"
    } else if d == 6 {
        proof {
            reveal_strlit("6");
            assert("6"@ =~= seq![spec_hex_digit_char(6)]);
        }
        "6"
    } else if d == 7 {
        proof {
            reveal_strlit("7");
            assert("7"@ =~= seq![spec_hex_digit_char(7)]);
        }
        "7"
    } else if d == 8 {
        proof {
            reveal_strlit("8");
            assert("8"@ =~= seq![spec_hex_digit_char(8)]);
        }
        "8"
    } else if d == 9 {
        proof {
            reveal_strlit("9");
            assert("9"@ =~= seq![spec_hex_digit_char(9)]);
        }
        "9"
    } else if d == 10 {
        proof {
            reveal_strlit("a");
            assert("a"@ =~= seq![spec_hex_digit_char(10)]);
        }
        "a"
    } else if d == 11 {
        proof {
            reveal_strlit("b");
            assert("b"@ =~= seq![spec_hex_digit_char(11)]);
        }
        "b"
    } else if d == 12 {
        proof {
            reveal_strlit("c");
            assert("c"@ =~= seq![spec_hex_digit_char(12)]);
        }
        "c"
    } else if d == 13 {
        proof {
            reveal_strlit("d");
            assert("d"@ =~= seq![spec_hex_digit_char(13)]);
        }
        "d"
    } else if d == 14 {
        proof {
            reveal_strlit("e");
            assert("e"@ =~= seq![spec_hex_digit_char(14)]);
        }
        "e"
    } else {
        proof {
            reveal_strlit("f");
            assert("f"@ =~= seq![spec_hex_digit_char(15)]);
        }
        "f"
    }
}

// ── Trimming lemmas ─────────────────────────────────────────────────────

proof fn lemma_trim_drop_prefix(s: Seq<char>, lo: int)
    requires
        0 <= lo <= s.len(),
        forall|i: int| 0 <= i < lo ==> is_space_char(s[i]),
    ensures
        spec_trim(s) == spec_trim(s.subrange(lo, s.len() as int)),
    decreases lo,
{
    if lo > 0 {
        assert(is_space_char(s[0]));
        assert(s.drop_first() =~= s.subrange(1, s.len() as int));
        let s1 = s.subrange(1, s.len() as int);
        lemma_trim_drop_prefix(s1, lo - 1);
        assert(s1.subrange(lo - 1, s1.len() as int) =~= s.subrange(lo, s.len() as int));
    } else {
        assert(s.subrange(0, s.len() as int) =~= s);
    }
}

proof fn lemma_trim_drop_suffix(s: Seq<char>, hi: int)
    requires
        0 <= hi <= s.len(),
        forall|i: int| hi <= i < s.len() ==> is_space_char(s[i]),
        s.len() == 0 || !is_space_char(s[0]),
    ensures
        spec_trim(s) == spec_trim(s.subrange(0, hi)),
    decreases s.len() - hi,
{
    if hi < s.len() {
        assert(is_space_char(s[s.len() - 1]));
        assert(s.drop_last() =~= s.subrange(0, s.len() - 1));
        let s1 = s.subrange(0, s.len() - 1);
        lemma_trim_drop_suffix(s1, hi);
        assert(s1.subrange(0, hi) =~= s.subrange(0, hi));
    } else {
        assert(s.subrange(0, s.len() as int) =~= s);
    }
}

// ── Interpolation arithmetic ────────────────────────────────────────────

fn lerp_channel(a: u8, b: u8, num: u64, den: u64) -> (c: u8)
    requires
        1 <= den,
        num <= den,
    ensures
        c == spec_lerp_channel(a, b, num as int, den as int),
{
    let aa = a as u128;
    let bb = b as u128;
    let n = num as u128;
    let d = den as u128;
    proof {
        assert((aa as int) * ((d - n) as int) + (bb as int) * (n as int) <= 255 * (d as int))
            by (nonlinear_arith)
            requires
                aa <= 255,
                bb <= 255,
                n <= d,
        ;
    }
    let v = (aa * (d - n) + bb * n) * 2 + d;
    let q = v / (2 * d);
    proof {
        let vi = v as int;
        let di = d as int;
        let qi = q as int;
        lemma_fundamental_div_mod(vi, 2 * di);
        assert(vi <= 511 * di);
        assert(qi <= 255) by (nonlinear_arith)
            requires
                vi <= 511 * di,
                1 <= di,
                vi == (2 * di) * qi + vi % (2 * di),
                0 <= vi % (2 * di),
        ;
    }
    q as u8
}

impl OpalineColor {
    /// Create a color from RGB components.
    pub fn new(r: u8, g: u8, b: u8) -> (c: Self)
        ensures
            c == (OpalineColor { r, g, b }),
    {
        OpalineColor { r, g, b }
    }

    /// Neutral gray, used as a fallback when a token cannot be resolved.
    pub fn fallback() -> (c: Self)
        ensures
            c == spec_fallback_color(),
    {
        OpalineColor { r: 128, g: 128, b: 128 }
    }

    /// Parse a hex color string like `#rrggbb` (case-insensitive, trimmed).
    pub fn from_hex(hex: &str) -> (r: Result<Self, ColorParseError>)
        ensures
            result_view(&r) == spec_from_hex(hex@),
    {
        let ghost s = hex@;
        let n = hex.unicode_len();

        let mut lo: usize = 0;
        while lo < n && is_space(hex.get_char(lo))
            invariant
                0 <= lo <= n,
                n == s.len(),
                s == hex@,
                forall|i: int| 0 <= i < lo ==> is_space_char(s[i]),
            decreases n - lo,
        {
            lo += 1;
        }
        let mut hi: usize = n;
        while hi > lo && is_space(hex.get_char(hi - 1))
            invariant
                lo <= hi <= n,
                n == s.len(),
                s == hex@,
                forall|i: int| hi <= i < n ==> is_space_char(s[i]),
            decreases hi,
        {
            hi -= 1;
        }
        proof {
            lemma_trim_drop_prefix(s, lo as int);
            let s1 = s.subrange(lo as int, n as int);
            lemma_trim_drop_suffix(s1, hi - lo);
            assert(s1.subrange(0, hi - lo) =~= s.subrange(lo as int, hi as int));
            let t = s.subrange(lo as int, hi as int);
            assert(spec_trim(t) == t);
            assert(spec_trim(s) == t);
        }
        let ghost t = s.subrange(lo as int, hi as int);

        let m = hi - lo;
        if m != 7 || hex.get_char(lo) != '#' {
            return Err(ColorParseError::InvalidLength(m));
        }
        assert(t.len() == 7 && t[0] == '#');

        let c1 = hex_val(hex.get_char(lo + 1));
        let c2 = hex_val(hex.get_char(lo + 2));
        let c3 = hex_val(hex.get_char(lo + 3));
        let c4 = hex_val(hex.get_char(lo + 4));
        let c5 = hex_val(hex.get_char(lo + 5));
        let c6 = hex_val(hex.get_char(lo + 6));
        match (c1, c2, c3, c4, c5, c6) {
            (Some(h1), Some(l1), Some(h2), Some(l2), Some(h3), Some(l3)) => {
                Ok(OpalineColor { r: h1 * 16 + l1, g: h2 * 16 + l2, b: h3 * 16 + l3 })
            },
            _ => {
                let whole = hex.substring_char(lo, hi);
                Err(ColorParseError::InvalidHex(whole.to_owned()))
            },
        }
    }

    /// Format as a `#rrggbb` hex string: exactly 7 lowercase characters.
    pub fn to_hex(self) -> (s: String)
        ensures
            s@ == spec_to_hex(self),
    {
        proof {
            reveal_strlit("#");
            assert("#"@ =~= seq!['#']);
        }
        let mut out: String = "#".to_owned();
        out.append(hex_digit_str(self.r / 16));
        out.append(hex_digit_str(self.r % 16));
        out.append(hex_digit_str(self.g / 16));
        out.append(hex_digit_str(self.g % 16));
        out.append(hex_digit_str(self.b / 16));
        out.append(hex_digit_str(self.b % 16));
        proof {
            assert(out@ =~= spec_to_hex(self));
        }
        out
    }

    /// Return as an `(r, g, b)` tuple.
    pub fn to_rgb_tuple(self) -> (t: (u8, u8, u8))
        ensures
            t == (self.r, self.g, self.b),
    {
        (self.r, self.g, self.b)
    }

    /// Linearly interpolate between `self` and `other` at the rational
    /// position `t_num / t_den`, clamped to `[0, 1]`.
    pub fn lerp(self, other: Self, t_num: i64, t_den: i64) -> (c: Self)
        requires
            1 <= t_den,
        ensures
            c == spec_lerp(self, other, t_num as int, t_den as int),
    {
        let num: i64 = if t_num < 0 {
            0
        } else if t_num > t_den {
            t_den
        } else {
            t_num
        };
        OpalineColor {
            r: lerp_channel(self.r, other.r, num as u64, t_den as u64),
            g: lerp_channel(self.g, other.g, num as u64, t_den as u64),
            b: lerp_channel(self.b, other.b, num as u64, t_den as u64),
        }
    }
}

/// Maps an executable parse result to its mathematical image.
pub open spec fn result_view(r: &Result<OpalineColor, ColorParseError>) -> Result<
    OpalineColor,
    ColorParseErrorView,
> {
    match r {
        Ok(c) => Ok(*c),
        Err(e) => Err(e@),
    }
}

impl Default for OpalineColor {
    /// The default color is the fallback gray.
    fn default() -> (c: Self)
        ensures
            c == spec_fallback_color(),
    {
        OpalineColor::fallback()
    }
}

impl core::str::FromStr for OpalineColor {
    type Err = ColorParseError;

    fn from_str(s: &str) -> Result<Self, ColorParseError> {
        OpalineColor::from_hex(s)
    }
}

/// The color packed as `0xRRGGBB` (upper 8 bits ignored).
pub open spec fn spec_color_from_packed(packed: u32) -> OpalineColor {
    OpalineColor {
        r: ((packed >> 16) & 0xFF) as u8,
        g: ((packed >> 8) & 0xFF) as u8,
        b: (packed & 0xFF) as u8,
    }
}

impl From<u32> for OpalineColor {
    /// Construct from packed `0xRRGGBB` (upper 8 bits ignored).
    fn from(packed: u32) -> (c: Self)
        ensures
            c == spec_color_from_packed(packed),
    {
        proof {
            assert((packed >> 16) & 0xFF < 256 && (packed >> 8) & 0xFF < 256 && packed & 0xFF
                < 256) by (bit_vector);
        }
        OpalineColor {
            r: ((packed >> 16) & 0xFF) as u8,
            g: ((packed >> 8) & 0xFF) as u8,
            b: (packed & 0xFF) as u8,
        }
    }
}

impl vstd::std_specs::convert::FromSpecImpl<u32> for OpalineColor {
    open spec fn obeys_from_spec() -> bool {
        true
    }

    open spec fn from_spec(packed: u32) -> OpalineColor {
        spec_color_from_packed(packed)
    }
}

// ── Interpolation laws ──────────────────────────────────────────────────

proof fn lemma_lerp_channel_exact(a: u8, den: int)
    requires
        1 <= den,
    ensures
        ((a * den) * 2 + den) / (2 * den) == a,
{
    assert((a * den) * 2 + den == (a as int) * (2 * den) + den) by (nonlinear_arith);
    lemma_fundamental_div_mod_converse((a * den) * 2 + den, 2 * den, a as int, den);
}

/// At position 0 an interpolation returns its first endpoint.
pub proof fn lemma_lerp_at_zero(a: OpalineColor, b: OpalineColor, den: int)
    requires
        1 <= den,
    ensures
        spec_lerp(a, b, 0, den) == a,
{
    assert forall|x: u8, y: u8| #[trigger] spec_lerp_channel(x, y, 0, den) == x by {
        assert(x * (den - 0) + y * 0 == x * den) by (nonlinear_arith);
        lemma_lerp_channel_exact(x, den);
    }
}

/// At position 1 (numerator equal to the denominator) an interpolation
/// returns its second endpoint.
pub proof fn lemma_lerp_at_one(a: OpalineColor, b: OpalineColor, den: int)
    requires
        1 <= den,
    ensures
        spec_lerp(a, b, den, den) == b,
{
    assert forall|x: u8, y: u8| #[trigger] spec_lerp_channel(x, y, den, den) == y by {
        assert(x * (den - den) + y * den == y * den) by (nonlinear_arith);
        lemma_lerp_channel_exact(y, den);
    }
}

/// Interpolating a color with itself returns that color at every position.
pub proof fn lemma_lerp_same(a: OpalineColor, num: int, den: int)
    requires
        1 <= den,
    ensures
        spec_lerp(a, a, num, den) == a,
{
    let n = spec_clamp_num(num, den);
    assert forall|x: u8| #[trigger] spec_lerp_channel(x, x, n, den) == x by {
        assert(x * (den - n) + x * n == x * den) by (nonlinear_arith);
        lemma_lerp_channel_exact(x, den);
    }
}

/// Round-trip: parsing the canonical hex rendering of any color yields
/// that color back.
pub proof fn lemma_hex_round_trip(c: OpalineColor)
    ensures
        spec_from_hex(spec_to_hex(c)) == Ok::<OpalineColor, ColorParseErrorView>(c),
{
    let t = spec_to_hex(c);
    assert forall|i: int| 0 <= i < t.len() implies !is_space_char(t[i]) by {
        assert(forall|d: int| !is_space_char(#[trigger] spec_hex_digit_char(d)));
    }
    assert(spec_trim(t) == t);
    assert(forall|x: u8| x < 16 ==> spec_hex_val(#[trigger] spec_hex_digit_char(x as int))
        == Some(x));
    assert(c.r as int / 16 < 16 && c.g as int / 16 < 16 && c.b as int / 16 < 16);
    assert(spec_hex_pair(t[1], t[2]) == Some(c.r)) by {
        assert(c.r as int / 16 * 16 + c.r as int % 16 == c.r);
    }
    assert(spec_hex_pair(t[3], t[4]) == Some(c.g)) by {
        assert(c.g as int / 16 * 16 + c.g as int % 16 == c.g);
    }
    assert(spec_hex_pair(t[5], t[6]) == Some(c.b)) by {
        assert(c.b as int / 16 * 16 + c.b as int % 16 == c.b);
    }
}

} // verus!
