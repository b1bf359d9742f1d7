//! The capability model: pixel-format tokens, value ranges, capability
//! alternatives and capability sets, and the filter's static capability
//! catalog for its two connection points.

use vstd::prelude::*;

verus! {

/// A pixel-format token naming one of the two buffer layouts the filter
/// understands.
#[derive(Clone, Copy, Debug, PartialEq, Eq, Structural)]
pub enum PixelFormat {
    /// Packed color: four interleaved bytes per pixel, in (B, G, R, X) order.
    Bgrx,
    /// Grayscale: one byte per pixel.
    Gray8,
}

impl PixelFormat {
    /// How many bytes one pixel occupies under this format.
    pub open spec fn spec_bytes_per_pixel(self) -> int {
        match self {
            PixelFormat::Bgrx => 4,
            PixelFormat::Gray8 => 1,
        }
    }

    /// How many bytes one pixel occupies under this format.
    pub fn bytes_per_pixel(self) -> (r: usize)
        ensures
            r == self.spec_bytes_per_pixel(),
    {
        match self {
            PixelFormat::Bgrx => 4,
            PixelFormat::Gray8 => 1,
        }
    }

    /// How many planes a frame of this format has. Both supported formats
    /// keep all their bytes in a single plane.
    pub open spec fn spec_plane_count(self) -> int {
        1
    }

    /// How many planes a frame of this format has.
    pub fn plane_count(self) -> (r: usize)
        ensures
            r == self.spec_plane_count(),
    {
        1
    }
}

/// A non-negative rational, used for frame rates.
#[derive(Clone, Copy, Debug, PartialEq, Eq, Structural)]
pub struct Fraction {
    pub num: i32,
    pub den: i32,
}

impl Fraction {
    /// A fraction is well formed when its denominator is positive and its
    /// numerator non-negative.
    pub open spec fn wf(self) -> bool {
        self.den >= 1 && self.num >= 0
    }
}

/// `a <= b` as rationals, assuming positive denominators.
pub open spec fn frac_le(a: Fraction, b: Fraction) -> bool {
    a.num * b.den <= b.num * a.den
}

/// The product of two values in `i32`'s range stays far inside `i64`'s.
proof fn lemma_i32_mul_fits_i64(x: int, y: int)
    requires
        -0x8000_0000 <= x <= 0x7fff_ffff,
        -0x8000_0000 <= y <= 0x7fff_ffff,
    ensures
        -0x4000_0000_0000_0000 <= x * y <= 0x4000_0000_0000_0000,
{
    assert(-0x4000_0000_0000_0000 <= x * y <= 0x4000_0000_0000_0000) by (nonlinear_arith)
        requires
            -0x8000_0000 <= x <= 0x7fff_ffff,
            -0x8000_0000 <= y <= 0x7fff_ffff,
    ;
}

/// `a <= b` as rationals.
pub fn fraction_le(a: Fraction, b: Fraction) -> (r: bool)
    ensures
        r == frac_le(a, b),
{
    proof {
        lemma_i32_mul_fits_i64(a.num as int, b.den as int);
        lemma_i32_mul_fits_i64(b.num as int, a.den as int);
    }
    (a.num as i64) * (b.den as i64) <= (b.num as i64) * (a.den as i64)
}

/// An inclusive range of integer values (widths or heights, in pixels).
#[derive(Clone, Copy, Debug, PartialEq, Eq, Structural)]
pub struct IntRange {
    pub lo: i32,
    pub hi: i32,
}

impl IntRange {
    /// A dimension range is well formed when it is non-empty and
    /// non-negative.
    pub open spec fn wf(self) -> bool {
        0 <= self.lo <= self.hi
    }

    /// Whether the range pins a single value.
    pub open spec fn is_fixed(self) -> bool {
        self.lo == self.hi
    }
}

/// An inclusive range of frame rates.
#[derive(Clone, Copy, Debug, PartialEq, Eq, Structural)]
pub struct FractionRange {
    pub lo: Fraction,
    pub hi: Fraction,
}

impl FractionRange {
    /// A frame-rate range is well formed when both bounds are well formed
    /// and the range is non-empty.
    pub open spec fn wf(self) -> bool {
        self.lo.wf() && self.hi.wf() && frac_le(self.lo, self.hi)
    }

    /// Whether the range pins a single value. Bounds are compared field by
    /// field: a fixed frame rate is stored as the same fraction twice.
    pub open spec fn is_fixed(self) -> bool {
        self.lo == self.hi
    }
}

/// One capability alternative: a set of acceptable pixel-format tokens plus
/// ranges for width, height and frame rate.
#[derive(Clone, Debug)]
pub struct CapsAlternative {
    pub formats: Vec<PixelFormat>,
    pub width: IntRange,
    pub height: IntRange,
    pub framerate: FractionRange,
}

/// The mathematical value of a [`CapsAlternative`].
#[verifier::ext_equal]
pub struct CapsAlternativeView {
    pub formats: Seq<PixelFormat>,
    pub width: IntRange,
    pub height: IntRange,
    pub framerate: FractionRange,
}

impl View for CapsAlternative {
    type V = CapsAlternativeView;

    open spec fn view(&self) -> CapsAlternativeView {
        CapsAlternativeView {
            formats: self.formats@,
            width: self.width,
            height: self.height,
            framerate: self.framerate,
        }
    }
}

impl CapsAlternativeView {
    /// An alternative is well formed when it names at least one format and
    /// its ranges are well formed.
    pub open spec fn wf(self) -> bool {
        &&& self.formats.len() >= 1
        &&& self.width.wf()
        &&& self.height.wf()
        &&& self.framerate.wf()
    }
}

/// An ordered list of capability alternatives. The empty set means "no
/// usable format".
#[derive(Clone, Debug)]
pub struct CapsSet {
    pub alternatives: Vec<CapsAlternative>,
}

/// The mathematical values of a list of alternatives.
pub open spec fn alts_view(v: Seq<CapsAlternative>) -> Seq<CapsAlternativeView> {
    v.map_values(|a: CapsAlternative| a@)
}

impl View for CapsSet {
    type V = Seq<CapsAlternativeView>;

    open spec fn view(&self) -> Seq<CapsAlternativeView> {
        alts_view(self.alternatives@)
    }
}

/// Every alternative of the set is well formed.
pub open spec fn caps_wf(s: Seq<CapsAlternativeView>) -> bool {
    forall|i: int| 0 <= i < s.len() ==> (#[trigger] s[i]).wf()
}

/// The full practical range of widths and heights.
pub open spec fn spec_full_dimension_range() -> IntRange {
    IntRange { lo: 0, hi: i32::MAX }
}

/// The full practical range of frame rates.
pub open spec fn spec_full_framerate_range() -> FractionRange {
    FractionRange {
        lo: Fraction { num: 0, den: 1 },
        hi: Fraction { num: i32::MAX, den: 1 },
    }
}

/// The capability set the filter declares on its output-facing connection
/// point: packed color or grayscale, over the full dimension and frame-rate
/// ranges.
pub open spec fn spec_output_capabilities() -> Seq<CapsAlternativeView> {
    seq![
        CapsAlternativeView {
            formats: seq![PixelFormat::Bgrx, PixelFormat::Gray8],
            width: spec_full_dimension_range(),
            height: spec_full_dimension_range(),
            framerate: spec_full_framerate_range(),
        },
    ]
}

/// The capability set the filter declares on its input-facing connection
/// point: packed color only, over the same ranges.
pub open spec fn spec_input_capabilities() -> Seq<CapsAlternativeView> {
    seq![
        CapsAlternativeView {
            formats: seq![PixelFormat::Bgrx],
            width: spec_full_dimension_range(),
            height: spec_full_dimension_range(),
            framerate: spec_full_framerate_range(),
        },
    ]
}

fn full_dimension_range() -> (r: IntRange)
    ensures
        r == spec_full_dimension_range(),
{
    IntRange { lo: 0, hi: i32::MAX }
}

fn full_framerate_range() -> (r: FractionRange)
    ensures
        r == spec_full_framerate_range(),
{
    FractionRange {
        lo: Fraction { num: 0, den: 1 },
        hi: Fraction { num: i32::MAX, den: 1 },
    }
}

/// Build the catalog's output-facing capability set.
pub fn output_capabilities() -> (r: CapsSet)
    ensures
        r@ == spec_output_capabilities(),
        caps_wf(r@),
{
    let mut formats: Vec<PixelFormat> = Vec::new();
    formats.push(PixelFormat::Bgrx);
    formats.push(PixelFormat::Gray8);
    let alt = CapsAlternative {
        formats,
        width: full_dimension_range(),
        height: full_dimension_range(),
        framerate: full_framerate_range(),
    };
    let mut alternatives: Vec<CapsAlternative> = Vec::new();
    alternatives.push(alt);
    let r = CapsSet { alternatives };
    proof {
        assert(r@ =~~= spec_output_capabilities());
    }
    r
}

/// Build the catalog's input-facing capability set.
pub fn input_capabilities() -> (r: CapsSet)
    ensures
        r@ == spec_input_capabilities(),
        caps_wf(r@),
{
    let mut formats: Vec<PixelFormat> = Vec::new();
    formats.push(PixelFormat::Bgrx);
    let alt = CapsAlternative {
        formats,
        width: full_dimension_range(),
        height: full_dimension_range(),
        framerate: full_framerate_range(),
    };
    let mut alternatives: Vec<CapsAlternative> = Vec::new();
    alternatives.push(alt);
    let r = CapsSet { alternatives };
    proof {
        assert(r@ =~~= spec_input_capabilities());
    }
    r
}

} // verus!
