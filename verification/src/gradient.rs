//! Multi-stop color gradients with continuous and discrete sampling.
//!
//! A gradient holds at least one color stop. Sampling positions are exact
//! rationals `num / den` clamped to `[0, 1]`: with `k` stops there are
//! `k - 1` equal-width segments, and a position selects a segment and an
//! interpolation point inside it.

use crate::color::{
    spec_clamp_num, spec_fallback_color, spec_lerp, lemma_lerp_at_one, lemma_lerp_at_zero,
    OpalineColor,
};
use vstd::arithmetic::div_mod::{
    lemma_div_is_ordered, lemma_div_multiples_vanish, lemma_fundamental_div_mod,
};
use vstd::prelude::*;

verus! {

/// The sample of a stop sequence at the rational position `num / den`
/// (clamped to `[0, 1]`): the segment holding the position is selected,
/// and its two stops are interpolated at the position's offset within it.
pub open spec fn spec_gradient_at(stops: Seq<OpalineColor>, num: int, den: int) -> OpalineColor
    recommends
        stops.len() >= 1,
        den >= 1,
{
    let n = spec_clamp_num(num, den);
    if stops.len() == 1 {
        stops[0]
    } else {
        let segs = stops.len() - 1;
        let q = n * segs / den;
        let idx = if q > segs - 1 {
            segs - 1
        } else {
            q
        };
        let local = n * segs - idx * den;
        spec_lerp(stops[idx], stops[idx + 1], local, den)
    }
}

/// The `n` evenly spaced samples of a stop sequence: none for `n == 0`,
/// the midpoint sample for `n == 1`, and otherwise the samples at
/// `i / (n - 1)` for `i` in `0 .. n`.
pub open spec fn spec_generate(stops: Seq<OpalineColor>, n: int) -> Seq<OpalineColor>
    recommends
        stops.len() >= 1,
{
    if n <= 0 {
        Seq::empty()
    } else if n == 1 {
        seq![spec_gradient_at(stops, 1, 2)]
    } else {
        Seq::new(n as nat, |i: int| spec_gradient_at(stops, i, n - 1))
    }
}

/// A multi-stop color gradient for smooth transitions.
///
/// Use [`at`](Gradient::at) to sample a color at any rational position
/// along the gradient, or [`generate`](Gradient::generate) to produce a
/// sequence of evenly spaced colors.
#[derive(Debug, Clone, PartialEq)]
pub struct Gradient {
    stops: Vec<OpalineColor>,
}

impl View for Gradient {
    type V = Seq<OpalineColor>;

    closed spec fn view(&self) -> Seq<OpalineColor> {
        self.stops@
    }
}

impl Gradient {
    /// Well-formedness: a gradient has at least one stop.
    pub open spec fn wf(&self) -> bool {
        self@.len() >= 1
    }

    /// Create a gradient from a non-empty list of color stops.
    pub fn new(stops: Vec<OpalineColor>) -> (g: Self)
        requires
            stops@.len() >= 1,
        ensures
            g@ == stops@,
            g.wf(),
    {
        Gradient { stops }
    }

    /// Sample the gradient at the rational position `t_num / t_den`
    /// (clamped to `[0, 1]`).
    ///
    /// With a single stop, always returns that stop. With multiple stops,
    /// linearly interpolates within the segment holding the position.
    pub fn at(&self, t_num: i64, t_den: i64) -> (c: OpalineColor)
        requires
            self.wf(),
            1 <= t_den,
        ensures
            c == spec_gradient_at(self@, t_num as int, t_den as int),
    {
        let num: i64 = if t_num < 0 {
            0
        } else if t_num > t_den {
            t_den
        } else {
            t_num
        };
        let k = self.stops.len();
        if k == 1 {
            return self.stops[0];
        }
        let segs = (k - 1) as u128;
        let n = num as u128;
        let d = t_den as u128;
        proof {
            assert((n as int) * (segs as int) <= (d as int) * (segs as int) && (d as int) * (
            segs as int) < 0x80000000000000000000000000000000) by (nonlinear_arith)
                requires
                    n <= d,
                    0 <= segs < 0x10000000000000000,
                    d < 0x8000000000000000,
            ;
        }
        let scaled = n * segs;
        let q = scaled / d;
        proof {
            lemma_div_is_ordered(scaled as int, (d as int) * (segs as int), d as int);
            lemma_div_multiples_vanish(segs as int, d as int);
            assert((d as int) * (segs as int) / (d as int) == segs as int);
            assert(q <= segs);
        }
        let idx128 = if q > segs - 1 {
            segs - 1
        } else {
            q
        };
        let idx = idx128 as usize;
        proof {
            lemma_fundamental_div_mod(scaled as int, d as int);
            if q > segs - 1 {
                // Only reachable at the very end of the range: the position
                // numerator equals the denominator, so the local offset is
                // exactly the denominator.
                assert(scaled as int == (d as int) * (segs as int)) by (nonlinear_arith)
                    requires
                        scaled as int == (d as int) * (q as int) + (scaled as int) % (d as int),
                        0 <= (scaled as int) % (d as int) < d as int,
                        scaled as int <= (d as int) * (segs as int),
                        q as int == segs as int,
                        1 <= d,
                ;
                assert((d as int) * (segs as int) - ((segs as int) - 1) * (d as int) == d as int)
                    by (nonlinear_arith);
            } else {
                assert(scaled as int - (d as int) * (q as int) < d as int);
                assert((q as int) * (d as int) == (d as int) * (q as int)) by (nonlinear_arith);
            }
        }
        let local = scaled - idx128 * d;
        proof {
            assert((idx128 as int) * (d as int) == (idx as int) * (d as int));
            assert(local <= d);
        }
        self.stops[idx].lerp(self.stops[idx + 1], local as i64, t_den)
    }

    /// Generate `n` evenly spaced colors across the gradient.
    ///
    /// Returns the midpoint sample alone for `n == 1`, and an empty vector
    /// for `n == 0`.
    pub fn generate(&self, n: usize) -> (r: Vec<OpalineColor>)
        requires
            self.wf(),
            n < 0x8000_0000_0000_0000,
        ensures
            r@ == spec_generate(self@, n as int),
    {
        if n == 0 {
            let r: Vec<OpalineColor> = Vec::new();
            proof {
                assert(r@ =~= spec_generate(self@, n as int));
            }
            r
        } else if n == 1 {
            let mut r: Vec<OpalineColor> = Vec::new();
            r.push(self.at(1, 2));
            proof {
                assert(r@ =~= spec_generate(self@, n as int));
            }
            r
        } else {
            let mut r: Vec<OpalineColor> = Vec::new();
            let den = (n - 1) as i64;
            let mut i: usize = 0;
            while i < n
                invariant
                    i <= n,
                    2 <= n < 0x8000_0000_0000_0000,
                    den == n - 1,
                    self.wf(),
                    r@.len() == i,
                    forall|j: int| 0 <= j < i ==> r@[j] == spec_gradient_at(self@, j, n - 1),
                decreases n - i,
            {
                r.push(self.at(i as i64, den));
                i += 1;
            }
            proof {
                assert(r@ =~= spec_generate(self@, n as int));
            }
            r
        }
    }

    /// Number of color stops in this gradient.
    pub fn len(&self) -> (n: usize)
        ensures
            n == self@.len(),
    {
        self.stops.len()
    }

    /// Whether this gradient has no stops (always false for a well-formed
    /// gradient).
    pub fn is_empty(&self) -> (r: bool)
        ensures
            r == (self@.len() == 0),
    {
        self.stops.len() == 0
    }

    /// Access the underlying color stops.
    pub fn stops(&self) -> (s: &[OpalineColor])
        ensures
            s@ == self@,
    {
        self.stops.as_slice()
    }
}

impl Default for Gradient {
    /// The default gradient is a single fallback-gray stop.
    fn default() -> (g: Self)
        ensures
            g@ == seq![spec_fallback_color()],
            g.wf(),
    {
        let mut stops: Vec<OpalineColor> = Vec::new();
        stops.push(OpalineColor::fallback());
        proof {
            assert(stops@ =~= seq![spec_fallback_color()]);
        }
        Gradient { stops }
    }
}

// ── Sampling laws ───────────────────────────────────────────────────────

/// A single-stop gradient returns its stop at every position.
pub proof fn lemma_gradient_at_single(stops: Seq<OpalineColor>, num: int, den: int)
    requires
        stops.len() == 1,
        den >= 1,
    ensures
        spec_gradient_at(stops, num, den) == stops[0],
{
}

/// At position 0 a gradient returns its first stop.
pub proof fn lemma_gradient_at_zero(stops: Seq<OpalineColor>, den: int)
    requires
        stops.len() >= 1,
        den >= 1,
    ensures
        spec_gradient_at(stops, 0, den) == stops[0],
{
    if stops.len() > 1 {
        let segs = stops.len() - 1;
        assert(0 * segs == 0) by (nonlinear_arith);
        assert(0int / den == 0) by {
            vstd::arithmetic::div_mod::lemma_div_basics(den);
        }
        assert(0 - 0 * den == 0) by (nonlinear_arith);
        lemma_lerp_at_zero(stops[0], stops[1], den);
    }
}

/// At position 1 a gradient returns its last stop.
pub proof fn lemma_gradient_at_one(stops: Seq<OpalineColor>, den: int)
    requires
        stops.len() >= 1,
        den >= 1,
    ensures
        spec_gradient_at(stops, den, den) == stops[stops.len() - 1],
{
    if stops.len() > 1 {
        let segs = stops.len() - 1;
        assert(den * segs / den == segs) by {
            assert(den * segs == den * segs);
            lemma_div_multiples_vanish(segs, den);
        }
        assert(den * segs - (segs - 1) * den == den) by (nonlinear_arith);
        lemma_lerp_at_one(stops[segs - 1], stops[segs], den);
    }
}

/// Discrete sampling laws: `generate(0)` is empty; `generate(1)` is the
/// midpoint sample; for `n >= 2` the result has length `n` and its first
/// and last entries are the samples at positions 0 and 1, which are the
/// first and last stops.
pub proof fn lemma_generate_laws(stops: Seq<OpalineColor>, n: int)
    requires
        stops.len() >= 1,
    ensures
        spec_generate(stops, 0).len() == 0,
        spec_generate(stops, 1) == seq![spec_gradient_at(stops, 1, 2)],
        n >= 0 ==> spec_generate(stops, n).len() == n,
        n >= 2 ==> spec_generate(stops, n)[0] == spec_gradient_at(stops, 0, 1)
            && spec_generate(stops, n)[0] == stops[0],
        n >= 2 ==> spec_generate(stops, n)[n - 1] == spec_gradient_at(stops, 1, 1)
            && spec_generate(stops, n)[n - 1] == stops[stops.len() - 1],
{
    if n >= 2 {
        lemma_gradient_at_zero(stops, n - 1);
        lemma_gradient_at_zero(stops, 1);
        lemma_gradient_at_one(stops, n - 1);
        lemma_gradient_at_one(stops, 1);
    }
}

} // verus!
