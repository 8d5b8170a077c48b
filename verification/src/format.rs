//! Pixel layouts, and the formats that neighbouring stages offer: a layout
//! with ranges of sizes and frame rates.

use vstd::prelude::*;

verus! {

/// How the samples of one pixel are stored.
#[derive(Clone, Copy, Debug, PartialEq, Eq, Structural)]
pub enum Layout {
    /// Three colour samples per pixel, one byte each.
    ThreeChannelInterleaved,
    /// One brightness sample per pixel.
    SingleChannelLuma,
    /// Any layout that this stage does not process.
    Other,
}

impl Layout {
    /// Bytes that one pixel takes; `None` for a layout the stage does not know.
    pub open spec fn spec_pixel_bytes(&self) -> Option<usize> {
        match *self {
            Layout::ThreeChannelInterleaved => Some(3usize),
            Layout::SingleChannelLuma => Some(1usize),
            Layout::Other => None,
        }
    }

    /// Bytes that one pixel takes; `None` for a layout the stage does not know.
    #[verifier::when_used_as_spec(spec_pixel_bytes)]
    pub fn pixel_bytes(&self) -> (bytes: Option<usize>)
        ensures
            bytes == self.spec_pixel_bytes(),
    {
        match *self {
            Layout::ThreeChannelInterleaved => Some(3),
            Layout::SingleChannelLuma => Some(1),
            Layout::Other => None,
        }
    }

    /// Whether the stage can write frames of this layout.
    pub open spec fn spec_is_supported(&self) -> bool {
        *self != Layout::Other
    }

    /// Whether the stage can write frames of this layout.
    #[verifier::when_used_as_spec(spec_is_supported)]
    pub fn is_supported(&self) -> (yes: bool)
        ensures
            yes == self.spec_is_supported(),
    {
        match *self {
            Layout::Other => false,
            _ => true,
        }
    }
}

/// A rational number, used for frame rates.
#[derive(Clone, Copy, Debug, PartialEq, Eq, Structural)]
pub struct Fraction {
    pub numer: i32,
    pub denom: i32,
}

impl Fraction {
    /// Whether the denominator is positive, as it is in every frame rate.
    pub open spec fn is_positive(&self) -> bool {
        self.denom > 0
    }

    /// `self <= other`, by cross-multiplication. This is the order of the
    /// rationals where both denominators are positive.
    pub open spec fn spec_at_most(&self, other: &Fraction) -> bool {
        self.numer * other.denom <= other.numer * self.denom
    }

    /// `self <= other`, by cross-multiplication.
    #[verifier::when_used_as_spec(spec_at_most)]
    pub fn at_most(&self, other: &Fraction) -> (yes: bool)
        ensures
            yes == self.spec_at_most(other),
    {
        let a: i64 = self.numer as i64;
        let b: i64 = other.denom as i64;
        let c: i64 = other.numer as i64;
        let d: i64 = self.denom as i64;
        assert(-0x4000_0000_0000_0000 <= a * b <= 0x4000_0000_0000_0000) by (nonlinear_arith)
            requires
                -0x8000_0000 <= a <= 0x7fff_ffff,
                -0x8000_0000 <= b <= 0x7fff_ffff,
        ;
        assert(-0x4000_0000_0000_0000 <= c * d <= 0x4000_0000_0000_0000) by (nonlinear_arith)
            requires
                -0x8000_0000 <= c <= 0x7fff_ffff,
                -0x8000_0000 <= d <= 0x7fff_ffff,
        ;
        a * b <= c * d
    }
}

/// A closed range of integers, `min..=max`. It is empty where `min > max`.
#[derive(Clone, Copy, Debug, PartialEq, Eq, Structural)]
pub struct IntRange {
    pub min: i32,
    pub max: i32,
}

impl IntRange {
    /// Every size from nothing up to the largest that a format can state.
    pub open spec fn spec_any() -> IntRange {
        IntRange { min: 0, max: i32::MAX }
    }

    /// Every size from nothing up to the largest that a format can state.
    #[verifier::when_used_as_spec(spec_any)]
    pub fn any() -> (range: IntRange)
        ensures
            range == IntRange::spec_any(),
    {
        IntRange { min: 0, max: i32::MAX }
    }

    /// The range that holds `value` and nothing else.
    pub open spec fn spec_exactly(value: i32) -> IntRange {
        IntRange { min: value, max: value }
    }

    /// The range that holds `value` and nothing else.
    #[verifier::when_used_as_spec(spec_exactly)]
    pub fn exactly(value: i32) -> (range: IntRange)
        ensures
            range == IntRange::spec_exactly(value),
    {
        IntRange { min: value, max: value }
    }

    /// Whether `value` lies in the range.
    pub open spec fn contains(&self, value: int) -> bool {
        self.min <= value <= self.max
    }

    /// The values that lie in both ranges, if there are any.
    pub open spec fn spec_intersect(&self, other: &IntRange) -> Option<IntRange> {
        let lo = if self.min >= other.min { self.min } else { other.min };
        let hi = if self.max <= other.max { self.max } else { other.max };
        if lo <= hi {
            Some(IntRange { min: lo, max: hi })
        } else {
            None
        }
    }

    /// The values that lie in both ranges, if there are any.
    #[verifier::when_used_as_spec(spec_intersect)]
    pub fn intersect(&self, other: &IntRange) -> (common: Option<IntRange>)
        ensures
            common == self.spec_intersect(other),
    {
        let lo: i32 = if self.min >= other.min { self.min } else { other.min };
        let hi: i32 = if self.max <= other.max { self.max } else { other.max };
        if lo <= hi {
            Some(IntRange { min: lo, max: hi })
        } else {
            None
        }
    }
}

/// A closed range of rationals, `min..=max`, ordered by [`Fraction::at_most`].
#[derive(Clone, Copy, Debug, PartialEq, Eq, Structural)]
pub struct FractionRange {
    pub min: Fraction,
    pub max: Fraction,
}

impl FractionRange {
    /// Every frame rate from none up to the largest that a format can state.
    pub open spec fn spec_any() -> FractionRange {
        FractionRange {
            min: Fraction { numer: 0, denom: 1 },
            max: Fraction { numer: i32::MAX, denom: 1 },
        }
    }

    /// Every frame rate from none up to the largest that a format can state.
    #[verifier::when_used_as_spec(spec_any)]
    pub fn any() -> (range: FractionRange)
        ensures
            range == FractionRange::spec_any(),
    {
        FractionRange {
            min: Fraction { numer: 0, denom: 1 },
            max: Fraction { numer: i32::MAX, denom: 1 },
        }
    }

    /// The range that holds `rate` and nothing else.
    pub open spec fn spec_exactly(rate: Fraction) -> FractionRange {
        FractionRange { min: rate, max: rate }
    }

    /// The range that holds `rate` and nothing else.
    #[verifier::when_used_as_spec(spec_exactly)]
    pub fn exactly(rate: Fraction) -> (range: FractionRange)
        ensures
            range == FractionRange::spec_exactly(rate),
    {
        FractionRange { min: rate, max: rate }
    }

    /// Whether `rate` lies in the range.
    pub open spec fn contains(&self, rate: Fraction) -> bool {
        self.min.spec_at_most(&rate) && rate.spec_at_most(&self.max)
    }

    /// Whether the denominators of both bounds are positive.
    pub open spec fn is_positive(&self) -> bool {
        self.min.is_positive() && self.max.is_positive()
    }

    /// The rates that lie in both ranges, if there are any. Of two bounds of
    /// equal value the one of `self` is kept.
    pub open spec fn spec_intersect(&self, other: &FractionRange) -> Option<FractionRange> {
        let lo = if other.min.spec_at_most(&self.min) { self.min } else { other.min };
        let hi = if self.max.spec_at_most(&other.max) { self.max } else { other.max };
        if lo.spec_at_most(&hi) {
            Some(FractionRange { min: lo, max: hi })
        } else {
            None
        }
    }

    /// The rates that lie in both ranges, if there are any.
    #[verifier::when_used_as_spec(spec_intersect)]
    pub fn intersect(&self, other: &FractionRange) -> (common: Option<FractionRange>)
        ensures
            common == self.spec_intersect(other),
    {
        let lo: Fraction = if other.min.at_most(&self.min) { self.min } else { other.min };
        let hi: Fraction = if self.max.at_most(&other.max) { self.max } else { other.max };
        if lo.at_most(&hi) {
            Some(FractionRange { min: lo, max: hi })
        } else {
            None
        }
    }
}

/// One format that a neighbouring stage offers: a layout, and the sizes and
/// frame rates it can have.
#[derive(Clone, Copy, Debug, PartialEq, Eq, Structural)]
pub struct Candidate {
    pub layout: Layout,
    pub width: IntRange,
    pub height: IntRange,
    pub frame_rate: FractionRange,
}

impl Candidate {
    /// A format of the given layout, of any size and any frame rate.
    pub open spec fn spec_any_of(layout: Layout) -> Candidate {
        Candidate {
            layout,
            width: IntRange::spec_any(),
            height: IntRange::spec_any(),
            frame_rate: FractionRange::spec_any(),
        }
    }

    /// A format of the given layout, of any size and any frame rate.
    #[verifier::when_used_as_spec(spec_any_of)]
    pub fn any_of(layout: Layout) -> (candidate: Candidate)
        ensures
            candidate == Candidate::spec_any_of(layout),
    {
        Candidate {
            layout,
            width: IntRange::any(),
            height: IntRange::any(),
            frame_rate: FractionRange::any(),
        }
    }

    /// The same sizes and rates under another layout.
    pub open spec fn spec_with_layout(&self, layout: Layout) -> Candidate {
        Candidate { layout, ..*self }
    }

    /// The same sizes and rates under another layout.
    #[verifier::when_used_as_spec(spec_with_layout)]
    pub fn with_layout(&self, layout: Layout) -> (changed: Candidate)
        ensures
            changed == self.spec_with_layout(layout),
    {
        Candidate { layout, width: self.width, height: self.height, frame_rate: self.frame_rate }
    }

    /// Whether the candidate allows frames of this layout, size and rate.
    pub open spec fn admits(&self, layout: Layout, width: int, height: int, rate: Fraction) -> bool {
        &&& self.layout == layout
        &&& self.width.contains(width)
        &&& self.height.contains(height)
        &&& self.frame_rate.contains(rate)
    }

    /// Whether both offer the same widths, heights and frame rates.
    pub open spec fn same_geometry(&self, other: &Candidate) -> bool {
        &&& self.width == other.width
        &&& self.height == other.height
        &&& self.frame_rate == other.frame_rate
    }

    /// What both candidates allow: the layout they share, and the sizes and
    /// rates that lie in the ranges of both. `None` where the layouts differ
    /// or one of the ranges has nothing in common. Two candidates of layouts
    /// that the stage does not know have nothing in common either: nothing
    /// says that they are of one layout.
    pub open spec fn spec_intersect(&self, other: &Candidate) -> Option<Candidate> {
        if self.layout != other.layout || !self.layout.spec_is_supported() {
            None
        } else {
            match (
                self.width.spec_intersect(&other.width),
                self.height.spec_intersect(&other.height),
                self.frame_rate.spec_intersect(&other.frame_rate),
            ) {
                (Some(width), Some(height), Some(frame_rate)) => Some(
                    Candidate { layout: self.layout, width, height, frame_rate },
                ),
                _ => None,
            }
        }
    }

    /// What both candidates allow, if anything.
    #[verifier::when_used_as_spec(spec_intersect)]
    pub fn intersect(&self, other: &Candidate) -> (common: Option<Candidate>)
        ensures
            common == self.spec_intersect(other),
    {
        if self.layout != other.layout || !self.layout.is_supported() {
            return None;
        }
        match (
            self.width.intersect(&other.width),
            self.height.intersect(&other.height),
            self.frame_rate.intersect(&other.frame_rate),
        ) {
            (Some(width), Some(height), Some(frame_rate)) => Some(
                Candidate { layout: self.layout, width, height, frame_rate },
            ),
            _ => None,
        }
    }
}

/// A value lies in both of two ranges exactly if it lies in what they have
/// in common.
pub proof fn law_common_sizes(a: IntRange, b: IntRange, value: int)
    ensures
        a.contains(value) && b.contains(value) <==> (a.spec_intersect(&b) matches Some(common)
            && common.contains(value)),
{
}

/// Among fractions of positive denominator, [`Fraction::at_most`] is a
/// total order of their values: of two fractions one is at most the other,
/// and what is at most a second that is at most a third is at most the
/// third.
pub proof fn law_fractions_are_ordered(a: Fraction, b: Fraction, c: Fraction)
    requires
        a.is_positive(),
        b.is_positive(),
        c.is_positive(),
    ensures
        a.spec_at_most(&a),
        a.spec_at_most(&b) || b.spec_at_most(&a),
        a.spec_at_most(&b) && b.spec_at_most(&c) ==> a.spec_at_most(&c),
{
    let (an, ad) = (a.numer as int, a.denom as int);
    let (bn, bd) = (b.numer as int, b.denom as int);
    let (cn, cd) = (c.numer as int, c.denom as int);
    if an * bd <= bn * ad && bn * cd <= cn * bd {
        assert(an * bd * cd <= bn * ad * cd) by (nonlinear_arith)
            requires
                an * bd <= bn * ad,
                cd > 0,
        ;
        assert(bn * cd * ad <= cn * bd * ad) by (nonlinear_arith)
            requires
                bn * cd <= cn * bd,
                ad > 0,
        ;
        assert(bn * ad * cd == bn * cd * ad) by (nonlinear_arith);
        assert(an * bd * cd == (an * cd) * bd) by (nonlinear_arith);
        assert(cn * bd * ad == (cn * ad) * bd) by (nonlinear_arith);
        assert(an * cd <= cn * ad) by (nonlinear_arith)
            requires
                (an * cd) * bd <= (cn * ad) * bd,
                bd > 0,
        ;
    }
}

/// A rate lies in both of two ranges exactly if it lies in what they have in
/// common, where all denominators are positive.
pub proof fn law_common_rates(a: FractionRange, b: FractionRange, rate: Fraction)
    requires
        a.is_positive(),
        b.is_positive(),
        rate.is_positive(),
    ensures
        a.contains(rate) && b.contains(rate) <==> (a.spec_intersect(&b) matches Some(common)
            && common.contains(rate)),
{
    law_fractions_are_ordered(a.min, b.min, rate);
    law_fractions_are_ordered(b.min, a.min, rate);
    law_fractions_are_ordered(rate, a.max, b.max);
    law_fractions_are_ordered(rate, b.max, a.max);
    let lo = if b.min.spec_at_most(&a.min) { a.min } else { b.min };
    let hi = if a.max.spec_at_most(&b.max) { a.max } else { b.max };
    law_fractions_are_ordered(lo, rate, hi);
}

/// What two candidates have in common allows exactly the frames that both
/// allow: a frame of a layout that the stage knows, of some size and some
/// rate of positive denominator, is allowed by both candidates exactly if it
/// is allowed by their intersection.
pub proof fn law_intersection_allows_what_both_allow(
    a: Candidate,
    b: Candidate,
    layout: Layout,
    width: int,
    height: int,
    rate: Fraction,
)
    requires
        layout.spec_is_supported(),
        a.frame_rate.is_positive(),
        b.frame_rate.is_positive(),
        rate.is_positive(),
    ensures
        a.admits(layout, width, height, rate) && b.admits(layout, width, height, rate) <==> (
        a.spec_intersect(&b) matches Some(common) && common.admits(layout, width, height, rate)),
{
    law_common_sizes(a.width, b.width, width);
    law_common_sizes(a.height, b.height, height);
    law_common_rates(a.frame_rate, b.frame_rate, rate);
}

} // verus!
