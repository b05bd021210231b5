//! Screen capture engine for Wayland compositors that speak `wlr-screencopy`.
//!
//! The crate holds the decisions of the engine as verified code: the region
//! arithmetic, the bookkeeping of outputs and frames, the orientation and
//! scaling of pixel buffers and the compositing of several outputs into one
//! image. Talking to the compositor is left to the caller, who feeds the
//! protocol's events into the engine and carries out the requests it hands back.

pub mod capture;
pub mod compositor;
pub mod encode;
pub mod error;
pub mod frame;
pub mod geometry;
pub mod grim;
pub mod multi;
pub mod output;
pub mod pixels;
pub mod scale;
pub mod search;
pub mod text;
pub mod transform;

pub use capture::{
    CaptureMap, CaptureParameters, CaptureResult, MultiOutputCaptureResult, NamedCapture, Output,
};
pub use compositor::{CompositeJob, CompositeStep};
pub use error::Error;
pub use frame::{
    finish_frame, BufferLayout, FrameCapture, FrameEvent, FrameRequest, FrameState, FrameStep,
};
pub use geometry::Box;
pub use grim::{GlobalKind, Grim, RefreshStep};
pub use multi::{MultiCapture, MultiStep, NamedRequest};
pub use output::{OutputEvent, OutputInfo, XdgOutputEvent};
pub use pixels::{blit_capture, ShmFormat};
pub use scale::{scale_image_data, scale_image_integer_fast, ResizeFilter, ScalePlan};
pub use transform::{
    apply_image_transform, apply_output_transform, flip_horizontal, flip_vertical, rotate_180,
    rotate_270, rotate_90, Transform,
};
