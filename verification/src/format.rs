//! Resolution of a capability description into a concrete frame layout:
//! pixel format, fixed dimensions, and the derived per-plane byte layout.

use vstd::arithmetic::div_mod::lemma_fundamental_div_mod;
use vstd::prelude::*;

use crate::caps::CapsAlternativeView;
use crate::caps::CapsSet;
use crate::caps::PixelFormat;

verus! {

/// A concrete negotiated format: a pixel-format token, fixed dimensions, and
/// the plane layout they imply (byte stride, plane count, total frame size).
#[derive(Clone, Copy, Debug, PartialEq, Eq, Structural)]
pub struct ConcreteFormat {
    pub format: PixelFormat,
    /// Frame width in pixels.
    pub width: u32,
    /// Frame height in rows.
    pub height: u32,
    /// Byte distance between consecutive rows of the plane.
    pub stride: usize,
    /// Number of planes; both supported formats keep all bytes in one plane.
    pub planes: usize,
    /// Total frame size in bytes.
    pub size: usize,
}

/// `w` rounded up to the next multiple of four.
pub open spec fn round_up_4(w: int) -> int {
    ((w + 3) / 4) * 4
}

/// The derived stride of a row of `w` pixels: packed color rows take four
/// bytes per pixel; grayscale rows take one byte per pixel, padded to a
/// four-byte boundary.
pub open spec fn spec_stride(f: PixelFormat, w: int) -> int {
    match f {
        PixelFormat::Bgrx => 4 * w,
        PixelFormat::Gray8 => round_up_4(w),
    }
}

/// Whether a capability description pins a single concrete pixel layout: one
/// alternative naming one format token, fixed non-negative dimensions, a
/// fixed well-formed frame rate, and a layout whose byte counts fit in
/// `usize`.
pub open spec fn spec_resolvable(s: Seq<CapsAlternativeView>) -> bool {
    &&& s.len() == 1
    &&& s[0].formats.len() == 1
    &&& s[0].width.is_fixed()
    &&& s[0].width.lo >= 0
    &&& s[0].height.is_fixed()
    &&& s[0].height.lo >= 0
    &&& s[0].framerate.is_fixed()
    &&& s[0].framerate.lo.wf()
    &&& spec_stride(s[0].formats[0], s[0].width.lo as int) <= usize::MAX
    &&& spec_stride(s[0].formats[0], s[0].width.lo as int) * s[0].height.lo <= usize::MAX
}

/// The concrete format a capability description resolves to, `None` when it
/// cannot be reduced to a single concrete pixel layout.
pub open spec fn spec_from_caps(s: Seq<CapsAlternativeView>) -> Option<ConcreteFormat> {
    if spec_resolvable(s) {
        let f = s[0].formats[0];
        let w = s[0].width.lo as int;
        let h = s[0].height.lo as int;
        Some(
            ConcreteFormat {
                format: f,
                width: w as u32,
                height: h as u32,
                stride: spec_stride(f, w) as usize,
                planes: 1,
                size: (spec_stride(f, w) * h) as usize,
            },
        )
    } else {
        None
    }
}

/// The per-buffer byte size a capability description implies.
pub open spec fn spec_unit_size(s: Seq<CapsAlternativeView>) -> Option<usize> {
    match spec_from_caps(s) {
        Some(f) => Some(f.size),
        None => None,
    }
}

/// Rounding up to a multiple of four moves a non-negative value up by at
/// most three.
pub proof fn lemma_round_up_4_bounds(w: int)
    requires
        w >= 0,
    ensures
        w <= round_up_4(w) <= w + 3,
{
    lemma_fundamental_div_mod(w + 3, 4);
}

/// Resolve a capability description into a concrete frame layout. Returns
/// `None` exactly when the description is malformed or under-specified: not
/// a single alternative with a single format and fixed dimensions and frame
/// rate, or a layout too large for memory.
pub fn from_caps(caps: &CapsSet) -> (r: Option<ConcreteFormat>)
    ensures
        r == spec_from_caps(caps@),
{
    if caps.alternatives.len() != 1 {
        return None;
    }
    let a = &caps.alternatives[0];
    if a.formats.len() != 1 {
        return None;
    }
    let f = a.formats[0];
    if !(a.width.lo == a.width.hi && a.width.lo >= 0) {
        return None;
    }
    if !(a.height.lo == a.height.hi && a.height.lo >= 0) {
        return None;
    }
    if !(a.framerate.lo.num == a.framerate.hi.num && a.framerate.lo.den == a.framerate.hi.den
        && a.framerate.lo.den >= 1 && a.framerate.lo.num >= 0) {
        return None;
    }
    let w = a.width.lo as u32;
    let h = a.height.lo as u32;
    let ghost wi = w as int;
    let stride: usize = match f {
        PixelFormat::Bgrx => {
            match (w as usize).checked_mul(4) {
                Some(s) => s,
                None => {
                    proof {
                        assert(spec_stride(f, wi) == 4 * wi);
                    }
                    return None;
                },
            }
        },
        PixelFormat::Gray8 => {
            let ru: u32 = ((w + 3) / 4) * 4;
            proof {
                lemma_round_up_4_bounds(wi);
            }
            ru as usize
        },
    };
    assert(stride == spec_stride(f, wi));
    let size: usize = match stride.checked_mul(h as usize) {
        Some(s) => s,
        None => {
            return None;
        },
    };
    Some(ConcreteFormat { format: f, width: w, height: h, stride, planes: f.plane_count(), size })
}

/// The per-buffer byte size implied by a capability description, used by the
/// host to size buffers before configuration commits. Independent of any
/// current stream configuration.
pub fn unit_size(caps: &CapsSet) -> (r: Option<usize>)
    ensures
        r == spec_unit_size(caps@),
{
    match from_caps(caps) {
        Some(f) => Some(f.size),
        None => None,
    }
}

/// Layout consistency: the stride covers one row of pixels and the total
/// size is exactly one stride per row.
pub open spec fn layout_consistent(f: ConcreteFormat) -> bool {
    &&& f.width * f.format.spec_bytes_per_pixel() <= f.stride
    &&& f.size == f.stride * f.height
}

/// Every concrete format that resolution produces is layout-consistent.
pub proof fn lemma_from_caps_layout_consistent(s: Seq<CapsAlternativeView>)
    requires
        spec_from_caps(s) is Some,
    ensures
        layout_consistent(spec_from_caps(s).unwrap()),
{
    let f = spec_from_caps(s).unwrap();
    match f.format {
        PixelFormat::Bgrx => {
        },
        PixelFormat::Gray8 => {
            lemma_round_up_4_bounds(f.width as int);
        },
    }
}

} // verus!
