//! A verified video filter core: it converts packed BGRX color frames to
//! grayscale, either as single-byte gray frames or as gray written back into
//! a packed color frame.
//!
//! The crate covers the filter's negotiable surface: a capability catalog for
//! its two connection points, a format negotiator, resolution of capability
//! descriptions into concrete frame layouts, a settings store (brightness
//! shift and inversion), and the per-frame pixel transform engine. A pipeline
//! host drives it: ask `transform_caps` for compatible capability sets, fix
//! concrete formats, commit them with `set_caps`, then call `transform` for
//! each frame, and `stop` to clear the configuration.

pub mod caps;
pub mod element;
pub mod format;
pub mod negotiate;
pub mod settings;
pub mod transform;

pub use caps::CapsAlternative;
pub use caps::CapsAlternativeView;
pub use caps::CapsSet;
pub use caps::Fraction;
pub use caps::FractionRange;
pub use caps::IntRange;
pub use caps::PixelFormat;
pub use caps::input_capabilities;
pub use caps::output_capabilities;
pub use element::Rgb2Gray;
pub use element::TransformElement;
pub use element::StreamConfig;
pub use element::TransformError;
pub use format::ConcreteFormat;
pub use format::from_caps;
pub use format::unit_size;
pub use negotiate::Direction;
pub use negotiate::caps_intersect;
pub use negotiate::negotiate;
pub use settings::Settings;
pub use transform::bgrx_to_gray;
pub use transform::transform_frame_bgrx;
pub use transform::transform_frame_gray8;
