//! The filter element: the interface a pipeline host drives a transform
//! element through — `transform_caps`, `set_caps`, `get_unit_size`,
//! `transform`, `stop` — and the one concrete type implementing it, which
//! owns the stream configuration and the settings store. The host constructs
//! the element by an explicit registration-style call of its own rather than
//! through inheritance-based dispatch.

use vstd::prelude::*;

use crate::caps::CapsAlternativeView;
use crate::caps::CapsSet;
use crate::caps::PixelFormat;
use crate::format::ConcreteFormat;
use crate::format::from_caps;
use crate::format::layout_consistent;
use crate::format::lemma_from_caps_layout_consistent;
use crate::format::spec_from_caps;
use crate::format::spec_unit_size;
use crate::format::unit_size;
use crate::negotiate::Direction;
use crate::negotiate::negotiate;
use crate::negotiate::opt_caps_view;
use crate::negotiate::spec_negotiate;
use crate::settings::Settings;
use crate::settings::spec_default_settings;
use crate::transform::bgrx_out_byte;
use crate::transform::gray8_out_byte;
use crate::transform::transform_frame_bgrx;
use crate::transform::transform_frame_gray8;

verus! {

/// The concrete negotiated format pair a stream runs under, committed by
/// `set_caps` and cleared by `stop`.
#[derive(Clone, Copy, Debug, PartialEq, Eq, Structural)]
pub struct StreamConfig {
    pub in_format: ConcreteFormat,
    pub out_format: ConcreteFormat,
}

/// Why a `transform` call failed.
#[derive(Clone, Copy, Debug, PartialEq, Eq, Structural)]
pub enum TransformError {
    /// No stream configuration is present: `transform` was called before
    /// `set_caps` succeeded, or after `stop`. A host-side sequencing error,
    /// distinct from a per-buffer processing error.
    NotConfigured,
    /// The supplied buffers cannot be read or written under the negotiated
    /// layout: wrong byte length, or a configuration whose two sides do not
    /// fit together.
    BufferMappingFailure,
}

/// Whether a pair of capability descriptions can be committed: both sides
/// resolve to a concrete layout and the input side resolves to the packed
/// color format, the only format the input connection point accepts.
pub open spec fn spec_configure_ok(
    incaps: Seq<CapsAlternativeView>,
    outcaps: Seq<CapsAlternativeView>,
) -> bool {
    &&& spec_from_caps(incaps) is Some
    &&& spec_from_caps(incaps).unwrap().format == PixelFormat::Bgrx
    &&& spec_from_caps(outcaps) is Some
}

/// The configuration a successful `set_caps` commits.
pub open spec fn spec_config(
    incaps: Seq<CapsAlternativeView>,
    outcaps: Seq<CapsAlternativeView>,
) -> StreamConfig {
    StreamConfig {
        in_format: spec_from_caps(incaps).unwrap(),
        out_format: spec_from_caps(outcaps).unwrap(),
    }
}

/// Whether a configured stream can map and transform the supplied buffers:
/// the input side is packed color, the two sides agree on the frame
/// dimensions, both layouts are internally consistent, and each buffer's
/// byte length is exactly its side's frame size.
pub open spec fn spec_transform_ok(sc: StreamConfig, in_len: int, out_len: int) -> bool {
    &&& sc.in_format.format == PixelFormat::Bgrx
    &&& sc.in_format.width == sc.out_format.width
    &&& sc.in_format.height == sc.out_format.height
    &&& layout_consistent(sc.in_format)
    &&& layout_consistent(sc.out_format)
    &&& in_len == sc.in_format.size
    &&& out_len == sc.out_format.size
}

/// The byte at offset `i` of the output frame after a successful transform,
/// by the negotiated output format.
pub open spec fn spec_output_byte(
    sc: StreamConfig,
    inp: Seq<u8>,
    old_out: Seq<u8>,
    st: Settings,
    i: int,
) -> u8 {
    match sc.out_format.format {
        PixelFormat::Gray8 => gray8_out_byte(
            inp,
            old_out,
            sc.out_format.width as int,
            sc.in_format.stride as int,
            sc.out_format.stride as int,
            st.shift,
            st.invert,
            i,
        ),
        PixelFormat::Bgrx => bgrx_out_byte(
            inp,
            old_out,
            sc.out_format.width as int,
            sc.in_format.stride as int,
            sc.out_format.stride as int,
            st.shift,
            st.invert,
            i,
        ),
    }
}

/// The boundary calls a pipeline host drives a transform element through:
/// capability negotiation, buffer sizing, configuration commit and rollback,
/// per-frame transformation, and stop.
pub trait TransformElement: Sized {
    /// The committed stream configuration, present exactly between a
    /// successful `set_caps` and the next `stop`.
    spec fn configured(&self) -> Option<StreamConfig>;

    /// The runtime settings snapshot a transform would use.
    spec fn runtime_settings(&self) -> Settings;

    /// Negotiate: derive the candidate capability set for the other side
    /// from the set requested on `direction`'s side, intersected with the
    /// further `filter` when one is supplied. An empty result signals "no
    /// usable format" to the host.
    fn transform_caps(
        &self,
        direction: Direction,
        caps: &CapsSet,
        filter: Option<&CapsSet>,
    ) -> (r: CapsSet)
        ensures
            r@ == spec_negotiate(direction, caps@, opt_caps_view(filter)),
    ;

    /// The per-buffer byte size implied by a capability description,
    /// independent of the current stream configuration.
    fn get_unit_size(&self, caps: &CapsSet) -> (r: Option<usize>)
        ensures
            r == spec_unit_size(caps@),
    ;

    /// Commit a negotiated capability pair: resolve both descriptions and
    /// replace any previous configuration wholesale. On failure nothing is
    /// mutated.
    fn set_caps(&mut self, incaps: &CapsSet, outcaps: &CapsSet) -> (ok: bool)
        ensures
            ok == spec_configure_ok(incaps@, outcaps@),
            ok ==> final(self).configured() == Some(spec_config(incaps@, outcaps@)),
            !ok ==> final(self).configured() == old(self).configured(),
            final(self).runtime_settings() == old(self).runtime_settings(),
    ;

    /// Clear the stream configuration. Idempotent; safe to call on an
    /// element that was never configured.
    fn stop(&mut self)
        ensures
            final(self).configured() is None,
            final(self).runtime_settings() == old(self).runtime_settings(),
    ;

    /// Transform one frame: read `inbuf` under the negotiated input layout
    /// and write the gray image into `outbuf` under the negotiated output
    /// layout, using one snapshot of the current settings.
    ///
    /// Fails with `NotConfigured` when no configuration is present, and with
    /// `BufferMappingFailure` when the buffers or the configured layouts do
    /// not fit together; in both cases `outbuf` is untouched.
    fn transform(&self, inbuf: &Vec<u8>, outbuf: &mut Vec<u8>) -> (r: Result<(), TransformError>)
        ensures
            final(outbuf)@.len() == old(outbuf)@.len(),
            r is Ok <==> (self.configured() is Some && spec_transform_ok(
                self.configured().unwrap(),
                inbuf@.len() as int,
                old(outbuf)@.len() as int,
            )),
            self.configured() is None ==> r == Err::<(), TransformError>(
                TransformError::NotConfigured,
            ),
            self.configured() is Some && !spec_transform_ok(
                self.configured().unwrap(),
                inbuf@.len() as int,
                old(outbuf)@.len() as int,
            ) ==> r == Err::<(), TransformError>(TransformError::BufferMappingFailure),
            r is Err ==> final(outbuf)@ == old(outbuf)@,
            r is Ok ==> forall|i: int|
                0 <= i < final(outbuf)@.len() ==> final(outbuf)@[i] == spec_output_byte(
                    self.configured().unwrap(),
                    inbuf@,
                    old(outbuf)@,
                    self.runtime_settings(),
                    i,
                ),
    ;
}

/// The filter element. The stream configuration is mutated only by
/// `set_caps` and `stop`; the settings may be adjusted between frames. Both
/// are plain owned state: a host that drives the element from several
/// execution contexts guards it with a mutual-exclusion primitive of its
/// own, which is what makes every settings read a consistent snapshot.
#[derive(Clone, Copy, Debug)]
pub struct Rgb2Gray {
    /// Present exactly between a successful `set_caps` and the next `stop`.
    pub state: Option<StreamConfig>,
    /// The current runtime parameters.
    pub settings: Settings,
}

impl Rgb2Gray {
    /// A fresh, unconfigured filter with default settings.
    pub fn new() -> (r: Self)
        ensures
            r.state is None,
            r.settings == spec_default_settings(),
    {
        Rgb2Gray { state: None, settings: Settings::default() }
    }

    /// Set the wrapping brightness shift.
    pub fn set_shift(&mut self, shift: u8)
        ensures
            final(self).settings.shift == shift,
            final(self).settings.invert == old(self).settings.invert,
            final(self).state == old(self).state,
    {
        self.settings.shift = shift;
    }

    /// Set the inversion flag.
    pub fn set_invert(&mut self, invert: bool)
        ensures
            final(self).settings.invert == invert,
            final(self).settings.shift == old(self).settings.shift,
            final(self).state == old(self).state,
    {
        self.settings.invert = invert;
    }

    /// The current shift.
    pub fn get_shift(&self) -> (r: u8)
        ensures
            r == self.settings.shift,
    {
        self.settings.shift
    }

    /// The current inversion flag.
    pub fn get_invert(&self) -> (r: bool)
        ensures
            r == self.settings.invert,
    {
        self.settings.invert
    }

    /// One consistent snapshot of both settings.
    pub fn get_settings(&self) -> (r: Settings)
        ensures
            r == self.settings,
    {
        self.settings
    }
}

impl TransformElement for Rgb2Gray {
    open spec fn configured(&self) -> Option<StreamConfig> {
        self.state
    }

    open spec fn runtime_settings(&self) -> Settings {
        self.settings
    }

    fn transform_caps(
        &self,
        direction: Direction,
        caps: &CapsSet,
        filter: Option<&CapsSet>,
    ) -> (r: CapsSet) {
        negotiate(direction, caps, filter)
    }

    fn get_unit_size(&self, caps: &CapsSet) -> (r: Option<usize>) {
        unit_size(caps)
    }

    fn set_caps(&mut self, incaps: &CapsSet, outcaps: &CapsSet) -> (ok: bool) {
        let in_format = match from_caps(incaps) {
            Some(f) => f,
            None => {
                return false;
            },
        };
        if in_format.format != PixelFormat::Bgrx {
            return false;
        }
        let out_format = match from_caps(outcaps) {
            Some(f) => f,
            None => {
                return false;
            },
        };
        self.state = Some(StreamConfig { in_format, out_format });
        true
    }

    fn stop(&mut self) {
        self.state = None;
    }

    /// The output format can only be one of the two the catalog advertises,
    /// so there is no unsupported-output-format case left to fail on.
    fn transform(&self, inbuf: &Vec<u8>, outbuf: &mut Vec<u8>) -> (r: Result<
        (),
        TransformError,
    >) {
        let sc = match self.state {
            Some(sc) => sc,
            None => {
                return Err(TransformError::NotConfigured);
            },
        };
        if sc.in_format.format != PixelFormat::Bgrx {
            return Err(TransformError::BufferMappingFailure);
        }
        if sc.in_format.width != sc.out_format.width {
            return Err(TransformError::BufferMappingFailure);
        }
        if sc.in_format.height != sc.out_format.height {
            return Err(TransformError::BufferMappingFailure);
        }
        if !layout_fits(sc.in_format) {
            return Err(TransformError::BufferMappingFailure);
        }
        if !layout_fits(sc.out_format) {
            return Err(TransformError::BufferMappingFailure);
        }
        if inbuf.len() != sc.in_format.size {
            return Err(TransformError::BufferMappingFailure);
        }
        if outbuf.len() != sc.out_format.size {
            return Err(TransformError::BufferMappingFailure);
        }
        let w = sc.out_format.width as usize;
        let h = sc.out_format.height as usize;
        match sc.out_format.format {
            PixelFormat::Gray8 => {
                transform_frame_gray8(
                    inbuf,
                    outbuf,
                    w,
                    h,
                    sc.in_format.stride,
                    sc.out_format.stride,
                    self.settings.shift,
                    self.settings.invert,
                );
            },
            PixelFormat::Bgrx => {
                transform_frame_bgrx(
                    inbuf,
                    outbuf,
                    w,
                    h,
                    sc.in_format.stride,
                    sc.out_format.stride,
                    self.settings.shift,
                    self.settings.invert,
                );
            },
        }
        Ok(())
    }
}

/// Whether a concrete format's layout fields are consistent with its
/// dimensions, checked in 64-bit arithmetic.
fn layout_fits(f: ConcreteFormat) -> (r: bool)
    ensures
        r == layout_consistent(f),
{
    let bpp: u64 = f.format.bytes_per_pixel() as u64;
    if !((f.width as u64) * bpp <= f.stride as u64) {
        return false;
    }
    match (f.stride as u64).checked_mul(f.height as u64) {
        Some(p) => p == f.size as u64,
        None => {
            proof {
                assert(f.stride * f.height > u64::MAX ==> f.size != f.stride * f.height);
            }
            false
        },
    }
}

/// Law: a stopped filter is indistinguishable from one that was never
/// configured. Both hold no stream configuration, so as values they are
/// equal whenever their settings agree, and every later call behaves
/// identically on them.
pub proof fn lemma_stopped_like_unconfigured(stopped: Rgb2Gray, fresh: Rgb2Gray)
    requires
        stopped.state is None,
        fresh.state is None,
        stopped.settings == fresh.settings,
    ensures
        stopped == fresh,
{
}

/// Law: the byte size `get_unit_size` reports for a capability description
/// is exactly the byte length `transform` consumes and produces under the
/// configuration committed from that description. For a committed pair
/// whose sides agree on the frame dimensions, a transform succeeds if and
/// only if each buffer is exactly its side's reported unit size.
pub proof fn lemma_unit_size_matches_transform(
    incaps: Seq<CapsAlternativeView>,
    outcaps: Seq<CapsAlternativeView>,
    in_len: int,
    out_len: int,
)
    requires
        spec_configure_ok(incaps, outcaps),
    ensures
        spec_unit_size(incaps) == Some(spec_config(incaps, outcaps).in_format.size),
        spec_unit_size(outcaps) == Some(spec_config(incaps, outcaps).out_format.size),
        spec_transform_ok(spec_config(incaps, outcaps), in_len, out_len) <==> {
            let sc = spec_config(incaps, outcaps);
            &&& sc.in_format.width == sc.out_format.width
            &&& sc.in_format.height == sc.out_format.height
            &&& in_len == spec_unit_size(incaps).unwrap()
            &&& out_len == spec_unit_size(outcaps).unwrap()
        },
{
    lemma_from_caps_layout_consistent(incaps);
    lemma_from_caps_layout_consistent(outcaps);
}

} // verus!
