//! How field magnitudes are colored.
use crate::axis::Dim;
use crate::exact::{
    at, exact, lemma_quotient, lemma_quotient_sign, lemma_shift, lemma_swap, lemma_times_divisor,
    lemma_unit, over, times,
};
use crate::scalar::Scalar;
use vstd::prelude::*;

verus! {

/// A color with an alpha channel.
#[derive(Copy, Clone, Debug, PartialEq)]
pub struct Color<S> {
    pub r: S,
    pub g: S,
    pub b: S,
    pub a: S,
}

impl<S: Scalar> Color<S> {
    pub fn dup(&self) -> (r: Self)
        ensures
            r == *self,
    {
        Color { r: self.r.dup(), g: self.g.dup(), b: self.b.dup(), a: self.a.dup() }
    }
}

/// What lies the part `t` of the way from `from` to `to`.
pub open spec fn lerp<S: Scalar>(t: S, from: S, to: S) -> S {
    from + (to - from) * t
}

/// The color that lies the part `t` of the way from `color1` to `color2`.
pub open spec fn lerp_colors_spec<S: Scalar>(t: S, color1: Color<S>, color2: Color<S>) -> Color<S> {
    Color {
        r: lerp(t, color1.r, color2.r),
        g: lerp(t, color1.g, color2.g),
        b: lerp(t, color1.b, color2.b),
        a: lerp(t, color1.a, color2.a),
    }
}

pub fn lerp_colors<S: Scalar>(t: &S, color1: &Color<S>, color2: &Color<S>) -> (r: Color<S>)
    ensures
        r == lerp_colors_spec(*t, *color1, *color2),
{
    Color {
        r: color1.r.plus(&color2.r.minus(&color1.r).times(t)),
        g: color1.g.plus(&color2.g.minus(&color1.g).times(t)),
        b: color1.b.plus(&color2.b.minus(&color1.b).times(t)),
        a: color1.a.plus(&color2.a.minus(&color1.a).times(t)),
    }
}

/// The colors that the default color modes are made of.
#[derive(Copy, Clone, Debug)]
pub struct Palette<S> {
    pub red: Color<S>,
    pub blue: Color<S>,
    pub transparent: Color<S>,
}

/// How vector field magnitudes are colored
#[derive(Copy, Clone, Debug)]
#[non_exhaustive]
pub enum ColorMode<S> {
    /// Automatically scale the maximum magnitude as the simulation progresses.
    AutoScale { color_min: Color<S>, color_max: Color<S>, v_max: S },
    /// Set a fixed range of magnitudes for interpolating between colors
    FixedRange {
        color_min: Color<S>,
        color_max: Color<S>,
        /// The minimum magnitude
        v_min: S,
        /// The maximum magnitude
        v_max: S,
    },
}

/// The highest ranking of the first `k` values, and the last one of those that rank the same.
pub open spec fn highest<S: Scalar>(vals: Seq<S>, k: nat) -> S
    decreases k,
{
    if k <= 1 {
        vals[0]
    } else {
        let before = highest(vals, (k - 1) as nat);
        if before.ranks_above_spec(vals[k - 1]) {
            before
        } else {
            vals[k - 1]
        }
    }
}

fn find_highest<S: Scalar>(vals: &Vec<S>) -> (r: Option<S>)
    ensures
        r == if vals.len() == 0 {
            None
        } else {
            Some(highest(vals@, vals.len() as nat))
        },
{
    if vals.len() == 0 {
        return None;
    }
    let mut max: S = vals[0].dup();
    let mut i: usize = 1;
    while i < vals.len()
        invariant
            1 <= i <= vals.len(),
            max == highest(vals@, i as nat),
        decreases vals.len() - i,
    {
        if !max.ranks_above(&vals[i]) {
            max = vals[i].dup();
        }
        i = i + 1;
    }
    Some(max)
}

impl<S: Scalar> ColorMode<S> {
    /// The mode with its maximum raised to the largest of `magnitudes`, where it scales by itself.
    pub open spec fn prepared(self, magnitudes: Seq<S>) -> Self {
        match self {
            ColorMode::AutoScale { color_min, color_max, v_max } if magnitudes.len() > 0
                => ColorMode::AutoScale {
                color_min,
                color_max,
                v_max: v_max.larger_spec(highest(magnitudes, magnitudes.len())),
            },
            _ => self,
        }
    }

    /// Updates the state of `self` before computing the colors of `magnitudes`.
    ///
    /// Call this before calling `compute_color` on the elements of `magnitudes`.
    pub fn prepare(&mut self, magnitudes: &Vec<S>)
        ensures
            *final(self) == old(self).prepared(magnitudes@),
    {
        if let ColorMode::AutoScale { v_max, .. } = self {
            if let Some(max_mag) = find_highest(magnitudes) {
                *v_max = v_max.larger(&max_mag);
            }
        }
    }

    /// The largest magnitude that the mode tells apart.
    pub open spec fn v_max_spec(self) -> S {
        match self {
            ColorMode::AutoScale { v_max, .. } => v_max,
            ColorMode::FixedRange { v_max, .. } => v_max,
        }
    }

    /// The largest magnitude that the mode tells apart.
    pub fn v_max(&self) -> (r: S)
        ensures
            r == self.v_max_spec(),
    {
        match self {
            ColorMode::AutoScale { v_max, .. } => v_max.dup(),
            ColorMode::FixedRange { v_max, .. } => v_max.dup(),
        }
    }

    /// How far `val` is from the smallest to the largest magnitude.
    pub open spec fn part(self, val: S) -> S {
        match self {
            ColorMode::AutoScale { v_max, .. } => val.over_spec(v_max),
            ColorMode::FixedRange { v_min, v_max, .. } => (val - v_min).over_spec(v_max - v_min),
        }.clamp_unit_spec()
    }

    /// The color of the magnitude `val`.
    pub open spec fn color_of(self, val: S) -> Color<S> {
        match self {
            ColorMode::AutoScale { color_min, color_max, .. } => lerp_colors_spec(
                self.part(val),
                color_min,
                color_max,
            ),
            ColorMode::FixedRange { color_min, color_max, .. } => lerp_colors_spec(
                self.part(val),
                color_min,
                color_max,
            ),
        }
    }

    pub fn compute_color(&self, val: &S) -> (r: Color<S>)
        ensures
            r == self.color_of(*val),
    {
        match self {
            ColorMode::AutoScale { color_min, color_max, v_max } => {
                lerp_colors(&val.over(v_max).clamp_unit(), color_min, color_max)
            },
            ColorMode::FixedRange { color_min, color_max, v_min, v_max } => {
                let t: S = val.minus(v_min).over(&v_max.minus(v_min)).clamp_unit();
                lerp_colors(&t, color_min, color_max)
            },
        }
    }

    /// The colors of a mode that scales by itself and has seen no magnitude yet.
    pub open spec fn default_spec(dim: Dim, palette: Palette<S>) -> Self {
        ColorMode::AutoScale {
            color_min: match dim {
                Dim::One => palette.red,
                Dim::Two => palette.blue,
                Dim::Three => palette.transparent,
            },
            color_max: match dim {
                Dim::Three => Color { a: S::one_spec(), ..palette.red },
                _ => palette.red,
            },
            v_max: -S::largest_value_spec(),
        }
    }

    /// The mode for a simulation where nothing else is chosen.
    pub fn default_for(dim: Dim, palette: &Palette<S>) -> (r: Self)
        ensures
            r == Self::default_spec(dim, *palette),
    {
        let color_min = match dim {
            Dim::One => palette.red.dup(),
            Dim::Two => palette.blue.dup(),
            Dim::Three => palette.transparent.dup(),
        };
        let mut color_max = palette.red.dup();
        if matches!(dim, Dim::Three) {
            color_max.a = S::one();
        }
        ColorMode::AutoScale { color_min, color_max, v_max: S::largest_value().negated() }
    }
}

/// A fixed range does not follow the magnitudes.
pub proof fn law_fixed_range_stays_fixed<S: Scalar>(mode: ColorMode<S>, magnitudes: Seq<S>)
    requires
        mode is FixedRange,
    ensures
        mode.prepared(magnitudes) == mode,
{
}

/// The numbers are ranked in one order.
pub open spec fn ranked_in_order<S: Scalar>() -> bool {
    &&& forall|a: S, b: S| #[trigger] a.ranks_above_spec(b) ==> !b.ranks_above_spec(a)
    &&& forall|a: S, b: S, c: S|
        !(#[trigger] a.ranks_above_spec(b)) && !(#[trigger] b.ranks_above_spec(c))
            ==> !a.ranks_above_spec(c)
}

/// None of the values ranks above the highest one, which is one of them.
pub proof fn law_nothing_ranks_above_the_highest<S: Scalar>(vals: Seq<S>, k: nat, i: int)
    requires
        ranked_in_order::<S>(),
        0 <= i < k <= vals.len(),
    ensures
        !vals[i].ranks_above_spec(highest(vals, k)),
        vals.contains(highest(vals, k)),
    decreases k,
{
    let max = highest(vals, k);
    if k == 1 {
        assert(!max.ranks_above_spec(max));
    } else {
        let before = highest(vals, (k - 1) as nat);
        law_nothing_ranks_above_the_highest(vals, (k - 1) as nat, 0);
        if i < k - 1 {
            law_nothing_ranks_above_the_highest(vals, (k - 1) as nat, i);
            assert(!vals[i].ranks_above_spec(before));
        }
        assert(!vals[k - 1].ranks_above_spec(vals[k - 1]));
    }
}

/// Each channel of a mixed color.
pub open spec fn channels<S: Scalar>(c: Color<S>) -> Seq<S> {
    seq![c.r, c.g, c.b, c.a]
}

/// A mixed color has gone the given part of the way in every channel: none at zero, all of it at
/// one.
pub proof fn law_colors_are_mixed_in_proportion<S: Scalar>(
    read: spec_fn(S) -> real,
    t: S,
    color1: Color<S>,
    color2: Color<S>,
    i: int,
)
    requires
        exact(read),
        0 <= i < 4,
    ensures
        ({
            let from = at(read, channels(color1)[i]);
            let to = at(read, channels(color2)[i]);
            let mixed = at(read, channels(lerp_colors_spec(t, color1, color2))[i]);
            &&& mixed - from == times(at(read, t), to - from)
            &&& at(read, t) == 0 as real ==> mixed == from
            &&& at(read, t) == 1 as real ==> mixed == to
        }),
{
    let from = at(read, channels(color1)[i]);
    let to = at(read, channels(color2)[i]);
    lemma_swap(to - from, at(read, t));
    lemma_unit(to - from);
}

/// The smallest magnitude that a mode tells apart.
pub open spec fn smallest_magnitude<S: Scalar>(mode: ColorMode<S>) -> S {
    match mode {
        ColorMode::AutoScale { .. } => S::zero_spec(),
        ColorMode::FixedRange { v_min, .. } => v_min,
    }
}

/// The colors of the smallest and of the largest magnitude.
pub open spec fn end_colors<S: Scalar>(mode: ColorMode<S>) -> (Color<S>, Color<S>) {
    match mode {
        ColorMode::AutoScale { color_min, color_max, .. } => (color_min, color_max),
        ColorMode::FixedRange { color_min, color_max, .. } => (color_min, color_max),
    }
}

/// A magnitude is colored in proportion to its place in the range: the smallest one and all below it
/// have the first color, the largest one and all above it the second, and between them each channel
/// changes as the magnitude does.
pub proof fn law_magnitudes_are_colored_in_proportion<S: Scalar>(
    read: spec_fn(S) -> real,
    mode: ColorMode<S>,
    val: S,
    i: int,
)
    requires
        exact(read),
        0 <= i < 4,
        at(read, smallest_magnitude(mode)) < at(read, mode.v_max_spec()),
    ensures
        ({
            let (lo, hi) = (at(read, smallest_magnitude(mode)), at(read, mode.v_max_spec()));
            let v = at(read, val);
            let first = at(read, channels(end_colors(mode).0)[i]);
            let second = at(read, channels(end_colors(mode).1)[i]);
            let color = at(read, channels(mode.color_of(val))[i]);
            &&& v <= lo ==> color == first
            &&& v >= hi ==> color == second
            &&& lo <= v <= hi ==> times(color - first, hi - lo) == times(second - first, v - lo)
        }),
{
    let (lo, hi) = (at(read, smallest_magnitude(mode)), at(read, mode.v_max_spec()));
    let v = at(read, val);
    let (c1, c2) = end_colors(mode);
    let part = mode.part(val);
    law_colors_are_mixed_in_proportion(read, part, c1, c2, i);
    let first = at(read, channels(c1)[i]);
    let second = at(read, channels(c2)[i]);
    let q = over(v - lo, hi - lo);
    lemma_times_divisor(v - lo, hi - lo);
    lemma_unit(hi - lo);
    lemma_unit(second - first);
    if v <= lo {
        lemma_quotient_sign(lo - v, hi - lo);
        lemma_negative_quotient(v - lo, hi - lo);
        assert(at(read, part) == 0 as real);
    }
    if v >= hi {
        lemma_quotient_sign(v - hi, hi - lo);
        lemma_one_more(v - hi, hi - lo);
        assert(v - lo == (v - hi) + (hi - lo));
        assert(at(read, part) == 1 as real);
    }
    if lo <= v <= hi {
        lemma_quotient_sign(v - lo, hi - lo);
        lemma_quotient_sign(hi - v, hi - lo);
        lemma_one_more(v - hi, hi - lo);
        lemma_negative_quotient(v - hi, hi - lo);
        assert(v - lo == (v - hi) + (hi - lo));
        assert(at(read, part) == q);
        lemma_swap(q, second - first);
        lemma_shift(second - first, q, hi - lo);
    }
}

/// The sign of a quotient.
proof fn lemma_negative_quotient(a: real, b: real)
    requires
        a <= 0 as real,
        b > 0 as real,
    ensures
        over(a, b) <= 0 as real,
        over(-a, b) == -over(a, b),
{
    lemma_quotient_sign(-a, b);
    lemma_times_divisor(a, b);
    crate::exact::lemma_negated(over(a, b), b);
    lemma_quotient(-a, -over(a, b), b);
}

/// A divisor on top of the dividend is one on top of the quotient.
proof fn lemma_one_more(a: real, b: real)
    requires
        b > 0 as real,
    ensures
        over(a + b, b) == over(a, b) + 1 as real,
{
    lemma_times_divisor(a, b);
    crate::exact::lemma_distribute(b, over(a, b), 1 as real);
    lemma_unit(b);
    lemma_quotient(a + b, over(a, b) + 1 as real, b);
}

/// A mode that scales by itself comes to tell apart everything that it has seen, and never less than
/// before.
pub proof fn law_auto_scale_reaches_the_largest<S: Scalar>(
    read: spec_fn(S) -> real,
    mode: ColorMode<S>,
    magnitudes: Seq<S>,
)
    requires
        exact(read),
        mode is AutoScale,
        magnitudes.len() > 0,
    ensures
        at(read, mode.prepared(magnitudes).v_max_spec()) >= at(read, mode.v_max_spec()),
        at(read, mode.prepared(magnitudes).v_max_spec()) >= at(
            read,
            highest(magnitudes, magnitudes.len()),
        ),
        end_colors(mode.prepared(magnitudes)) == end_colors(mode),
{
}

} // verus!
