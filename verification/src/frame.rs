//! One frame, from the request to the upright image.
//!
//! The compositor first describes the buffer it wants, is given one, copies
//! into it and reports that the frame is ready. The engine waits for each of
//! the two answers a bounded number of times, and says after every look at the
//! frame's state what is to be done next.

use crate::capture::{CaptureResult, Picture};
use crate::error::{Error, ErrorView};
use crate::geometry::Box;
use crate::pixels::{is_image, normalize_pixels, normalized, pixel_at, ShmFormat};
use crate::text::{append_unsigned, decimal_digits};
use crate::transform::{apply_image_transform, flip_vertical, Transform};
use vstd::prelude::*;
use vstd::string::StringExecFns;

verus! {

/// How often the engine lets the compositor's events be dispatched while it
/// waits for one answer.
pub const MAX_ATTEMPTS: usize = 100;

/// The bit of a frame's flags that says its rows are stored bottom-up.
pub const Y_INVERT: u32 = 1;

/// What the compositor has said of a frame so far.
#[derive(Debug, Clone, Copy)]
pub struct FrameState {
    /// Whether the compositor has described the buffer it wants.
    pub buffer: bool,
    /// The width of that buffer, in pixels.
    pub width: u32,
    /// The height of that buffer, in pixels.
    pub height: u32,
    /// The pixel format of that buffer, where it is one the protocol names.
    pub format: Option<ShmFormat>,
    /// Whether the frame has come to its end, copied or failed.
    pub ready: bool,
    /// The frame's flags.
    pub flags: u32,
}

/// What the compositor says of a frame.
#[derive(Debug, Clone, Copy)]
pub enum FrameEvent {
    /// The buffer the compositor wants. A format without a name in the
    /// protocol comes as `None`.
    Buffer { format: Option<ShmFormat>, width: u32, height: u32, stride: u32 },
    /// The frame's flags. Flags without a meaning in the protocol come as
    /// `None`.
    Flags { flags: Option<u32> },
    /// The frame has been copied.
    Ready,
    /// The frame cannot be copied.
    Failed,
    /// The compositor offers a buffer of another kind, which is not taken up.
    LinuxDmabuf,
    /// The compositor has named all the buffers it offers.
    BufferDone,
    /// Any other event.
    Other,
}

/// The state of a frame after an event.
pub open spec fn after_frame_event(state: FrameState, event: FrameEvent) -> FrameState {
    match event {
        FrameEvent::Buffer { format, width, height, stride } => FrameState {
            buffer: true,
            width,
            height,
            format: match format {
                Some(f) => Some(f),
                None => state.format,
            },
            ..state
        },
        FrameEvent::Flags { flags } => FrameState {
            flags: match flags {
                Some(f) => f,
                None => state.flags,
            },
            ..state
        },
        FrameEvent::Ready => FrameState { ready: true, ..state },
        FrameEvent::Failed => FrameState { ready: true, ..state },
        _ => state,
    }
}

/// The buffer that the compositor is given to copy a frame into.
#[derive(Debug, Clone, Copy)]
pub struct BufferLayout {
    pub width: u32,
    pub height: u32,
    /// Bytes from one row to the next.
    pub stride: u32,
    /// Bytes in all.
    pub size: usize,
    pub format: ShmFormat,
}

/// The most bytes that a shared-memory pool can hold.
pub open spec fn pool_limit() -> int {
    0x7fff_ffff
}

/// The message of a frame too large for a shared-memory pool.
pub open spec fn oversize_text(width: u32, height: u32) -> Seq<char> {
    "frame of "@ + decimal_digits(width as nat) + "x"@ + decimal_digits(height as nat)
        + " does not fit a shared-memory pool"@
}

/// The buffer for a frame in the given state: rows of four bytes a pixel
/// without padding, in the format that the compositor named or else in the
/// one without alpha.
pub open spec fn layout_for(state: FrameState) -> BufferLayout {
    BufferLayout {
        width: state.width,
        height: state.height,
        stride: (state.width * 4) as u32,
        size: (state.width * 4 * state.height) as usize,
        format: match state.format {
            Some(f) => f,
            None => ShmFormat::Xrgb8888,
        },
    }
}

/// Whether `r` is the buffer to make for a frame in the given state. A frame
/// without width or height has failed; a frame larger than a pool has no
/// buffer.
pub open spec fn is_layout_of(state: FrameState, r: Result<BufferLayout, Error>) -> bool {
    if state.width == 0 || state.height == 0 {
        r == Err::<BufferLayout, Error>(Error::CaptureFailed)
    } else if state.width * 4 * state.height > pool_limit() {
        r matches Err(Error::BufferCreation(t)) && t@ == oversize_text(state.width, state.height)
    } else {
        r == Ok::<BufferLayout, Error>(layout_for(state))
    }
}

impl FrameState {
    /// The state of a frame of which nothing has been heard.
    pub fn new() -> (r: Self)
        ensures
            r == (FrameState {
                buffer: false,
                width: 0,
                height: 0,
                format: None,
                ready: false,
                flags: 0,
            }),
    {
        FrameState { buffer: false, width: 0, height: 0, format: None, ready: false, flags: 0 }
    }

    /// Takes in an event of the frame. The answer says whether the frame is
    /// done with and is to be destroyed, which it is once it has been copied.
    pub fn apply_event(&mut self, event: FrameEvent) -> (destroy: bool)
        ensures
            *final(self) == after_frame_event(*old(self), event),
            destroy == (event is Ready),
    {
        match event {
            FrameEvent::Buffer { format, width, height, stride } => {
                self.width = width;
                self.height = height;
                if let Some(f) = format {
                    self.format = Some(f);
                }
                self.buffer = true;
                false
            },
            FrameEvent::Flags { flags } => {
                if let Some(f) = flags {
                    self.flags = f;
                }
                false
            },
            FrameEvent::Ready => {
                self.ready = true;
                true
            },
            FrameEvent::Failed => {
                self.ready = true;
                false
            },
            _ => false,
        }
    }

    /// The buffer to make for the frame.
    pub fn buffer_layout(&self) -> (r: Result<BufferLayout, Error>)
        ensures
            is_layout_of(*self, r),
    {
        if self.width == 0 || self.height == 0 {
            return Err(Error::CaptureFailed);
        }
        assert(self.width * 4 * self.height <= 0xffff_ffff * 4 * 0xffff_ffff) by (nonlinear_arith)
            requires
                0 <= self.width <= 0xffff_ffff,
                0 <= self.height <= 0xffff_ffff,
        ;
        let size: u128 = self.width as u128 * 4 * self.height as u128;
        if size > 0x7fff_ffff {
            let mut t = String::from_str("frame of ");
            append_unsigned(&mut t, self.width as u64);
            t.append("x");
            append_unsigned(&mut t, self.height as u64);
            t.append(" does not fit a shared-memory pool");
            return Err(Error::BufferCreation(t));
        }
        assert(self.width * 4 <= self.width * 4 * self.height) by (nonlinear_arith)
            requires
                self.height >= 1,
        ;
        Ok(
            BufferLayout {
                width: self.width,
                height: self.height,
                stride: self.width * 4,
                size: size as usize,
                format: match self.format {
                    Some(f) => f,
                    None => ShmFormat::Xrgb8888,
                },
            },
        )
    }
}

/// Whether a region can be asked of an output: it must have a width and a
/// height above zero and begin at no negative coordinate.
pub fn validate_frame_region(region: &Box) -> (r: Result<(), Error>)
    ensures
        match r {
            Ok(_) => region.width > 0 && region.height > 0 && region.x >= 0 && region.y >= 0,
            Err(Error::InvalidRegion(t)) => if region.width <= 0 || region.height <= 0 {
                t@ == "Capture region must have positive width and height"@
            } else {
                (region.x < 0 || region.y < 0) && t@
                    == "Capture region origin must be non-negative"@
            },
            Err(_) => false,
        },
{
    if region.width <= 0 || region.height <= 0 {
        return Err(
            Error::InvalidRegion(
                String::from_str("Capture region must have positive width and height"),
            ),
        );
    }
    if region.x < 0 || region.y < 0 {
        return Err(
            Error::InvalidRegion(String::from_str("Capture region origin must be non-negative")),
        );
    }
    Ok(())
}

/// What the engine waits for.
#[derive(Debug, Clone, Copy)]
pub enum FramePhase {
    /// For the compositor to describe the buffer it wants.
    AwaitBuffer,
    /// For the compositor to copy the frame into the buffer of this layout,
    /// which it was given.
    AwaitReady(BufferLayout),
}

/// What is to be done next for a frame.
#[derive(Debug, Clone, Copy)]
pub enum FrameStep {
    /// Let the compositor's events be dispatched once, then ask again.
    Dispatch,
    /// Make a buffer of this layout, hand it to the compositor to copy into,
    /// then ask again.
    CreateBuffer(BufferLayout),
    /// Read the buffer of this layout: the frame is in it.
    ReadBuffer(BufferLayout),
}

/// A request for the pixels of a part of one output.
#[derive(Debug, Clone, Copy)]
pub struct FrameRequest {
    /// The output, by the number of its protocol object.
    pub output_id: u32,
    /// The part, in the output's device pixels.
    pub region: Box,
    /// Whether the pointer is drawn into the frame.
    pub overlay_cursor: bool,
}

/// The progress of one frame.
#[derive(Debug, Clone, Copy)]
pub struct FrameCapture {
    pub request: FrameRequest,
    pub phase: FramePhase,
    /// How often events have been dispatched in this phase.
    pub attempts: usize,
}

/// What `next` answers and what becomes of the progress, given the frame's
/// state and whether shared memory is at hand.
///
/// While the awaited answer is missing, events are dispatched, `MAX_ATTEMPTS`
/// times at most. A frame that is ready without a buffer ever described breaks
/// the protocol. Once the buffer is described, one is made; once the frame is
/// ready, it is read.
pub open spec fn next_of(capture: FrameCapture, state: FrameState, shm: bool) -> (
    Result<FrameStep, ErrorView>,
    FrameCapture,
) {
    match capture.phase {
        FramePhase::AwaitBuffer => if state.buffer || state.ready {
            if !state.buffer {
                (
                    Err(ErrorView::FrameCapture("Frame is ready but buffer was not received"@)),
                    capture,
                )
            } else if !shm {
                (Err(ErrorView::UnsupportedProtocol("wl_shm not available"@)), capture)
            } else if state.width == 0 || state.height == 0 {
                (Err(ErrorView::CaptureFailed), capture)
            } else if state.width * 4 * state.height > pool_limit() {
                (
                    Err(ErrorView::BufferCreation(oversize_text(state.width, state.height))),
                    capture,
                )
            } else {
                (
                    Ok(FrameStep::CreateBuffer(layout_for(state))),
                    FrameCapture {
                        phase: FramePhase::AwaitReady(layout_for(state)),
                        attempts: 0,
                        ..capture
                    },
                )
            }
        } else if capture.attempts >= MAX_ATTEMPTS {
            (Err(ErrorView::FrameCapture("Timeout waiting for frame buffer"@)), capture)
        } else {
            (
                Ok(FrameStep::Dispatch),
                FrameCapture { attempts: (capture.attempts + 1) as usize, ..capture },
            )
        },
        FramePhase::AwaitReady(layout) => if state.ready {
            if !state.buffer {
                (
                    Err(ErrorView::FrameCapture("Frame is ready but buffer was not received"@)),
                    capture,
                )
            } else {
                (Ok(FrameStep::ReadBuffer(layout)), capture)
            }
        } else if capture.attempts >= MAX_ATTEMPTS {
            (
                Err(ErrorView::FrameCapture("Timeout waiting for frame capture completion"@)),
                capture,
            )
        } else {
            (
                Ok(FrameStep::Dispatch),
                FrameCapture { attempts: (capture.attempts + 1) as usize, ..capture },
            )
        },
    }
}

/// Whether an answer is the one that the contract speaks of.
pub open spec fn answers<T>(r: Result<T, Error>, expected: Result<T, ErrorView>) -> bool {
    match (r, expected) {
        (Ok(a), Ok(b)) => a == b,
        (Err(e), Err(v)) => e@ == v,
        _ => false,
    }
}

/// How the capture of a part of an output begins: the part must have a size
/// and lie at no negative coordinate, and the compositor must offer screencopy
/// at all.
pub open spec fn begun(request: FrameRequest, screencopy: bool) -> Result<FrameCapture, ErrorView> {
    if request.region.width <= 0 || request.region.height <= 0 {
        Err(ErrorView::InvalidRegion("Capture region must have positive width and height"@))
    } else if request.region.x < 0 || request.region.y < 0 {
        Err(ErrorView::InvalidRegion("Capture region origin must be non-negative"@))
    } else if !screencopy {
        Err(ErrorView::UnsupportedProtocol("zwlr_screencopy_manager_v1 not available"@))
    } else {
        Ok(FrameCapture { request, phase: FramePhase::AwaitBuffer, attempts: 0 })
    }
}

impl FrameCapture {
    /// Begins the capture of a part of an output. The request is then to be
    /// sent to the compositor, and `next` asked what to do.
    pub fn begin(request: FrameRequest, screencopy: bool) -> (r: Result<FrameCapture, Error>)
        ensures
            answers(r, begun(request, screencopy)),
    {
        match validate_frame_region(&request.region) {
            Err(e) => {
                return Err(e);
            },
            Ok(_) => {},
        }
        if !screencopy {
            return Err(
                Error::UnsupportedProtocol(
                    String::from_str("zwlr_screencopy_manager_v1 not available"),
                ),
            );
        }
        Ok(FrameCapture { request, phase: FramePhase::AwaitBuffer, attempts: 0 })
    }

    /// Looks at the frame's state and says what is to be done next. To be
    /// asked once the request is sent, and again after every step but the
    /// last.
    pub fn next(&mut self, state: &FrameState, shm: bool) -> (r: Result<FrameStep, Error>)
        ensures
            answers(r, next_of(*old(self), *state, shm).0),
            *final(self) == next_of(*old(self), *state, shm).1,
    {
        match self.phase {
            FramePhase::AwaitBuffer => {
                if state.buffer || state.ready {
                    if !state.buffer {
                        return Err(
                            Error::FrameCapture(
                                String::from_str("Frame is ready but buffer was not received"),
                            ),
                        );
                    }
                    if !shm {
                        return Err(
                            Error::UnsupportedProtocol(String::from_str("wl_shm not available")),
                        );
                    }
                    let layout = match state.buffer_layout() {
                        Ok(l) => l,
                        Err(e) => {
                            return Err(e);
                        },
                    };
                    self.phase = FramePhase::AwaitReady(layout);
                    self.attempts = 0;
                    Ok(FrameStep::CreateBuffer(layout))
                } else if self.attempts >= MAX_ATTEMPTS {
                    Err(Error::FrameCapture(String::from_str("Timeout waiting for frame buffer")))
                } else {
                    self.attempts = self.attempts + 1;
                    Ok(FrameStep::Dispatch)
                }
            },
            FramePhase::AwaitReady(layout) => {
                if state.ready {
                    if !state.buffer {
                        return Err(
                            Error::FrameCapture(
                                String::from_str("Frame is ready but buffer was not received"),
                            ),
                        );
                    }
                    Ok(FrameStep::ReadBuffer(layout))
                } else if self.attempts >= MAX_ATTEMPTS {
                    Err(
                        Error::FrameCapture(
                            String::from_str("Timeout waiting for frame capture completion"),
                        ),
                    )
                } else {
                    self.attempts = self.attempts + 1;
                    Ok(FrameStep::Dispatch)
                }
            },
        }
    }
}

/// Whether the flags say that the frame's rows are stored bottom-up.
pub open spec fn is_y_inverted(flags: u32) -> bool {
    flags & Y_INVERT != 0
}

/// Where the pixel `(x, y)` of a frame of `width` by `height` stands in the
/// upright image: first the output's transform is undone, then the rows are
/// turned over where the frame is stored bottom-up.
pub open spec fn upright_target(
    transform: Transform,
    inverted: bool,
    width: int,
    height: int,
    x: int,
    y: int,
) -> (int, int) {
    let t = transform.target(width, height, x, y);
    if inverted {
        (t.0, transform.size(width, height).1 - 1 - t.1)
    } else {
        t
    }
}

/// Whether `out` is the upright image of the frame whose buffer was read as
/// `raw`: the pixels brought to RGBA, each standing at its upright place.
pub open spec fn is_upright(
    raw: Seq<u8>,
    layout: BufferLayout,
    transform: Transform,
    flags: u32,
    out: Picture,
) -> bool {
    let width = layout.width as int;
    let height = layout.height as int;
    &&& (out.width, out.height) == transform.size(width, height)
    &&& out.complete()
    &&& forall|x: int, y: int|
        0 <= x < width && 0 <= y < height ==> pixel_at(
            out.data,
            out.width,
            upright_target(transform, is_y_inverted(flags), width, height, x, y).0,
            upright_target(transform, is_y_inverted(flags), width, height, x, y).1,
        ) == #[trigger] pixel_at(normalized(raw, layout.format), width, x, y)
}

/// Makes the upright RGBA image of a frame from the bytes read out of its
/// buffer: brings the pixels to RGBA, undoes the output's transform and, where
/// the flags say so, turns the rows over.
pub fn finish_frame(
    raw: Vec<u8>,
    layout: &BufferLayout,
    transform: Transform,
    flags: u32,
) -> (r: CaptureResult)
    requires
        is_image(raw@, layout.width as int, layout.height as int),
    ensures
        is_upright(raw@, *layout, transform, flags, r@),
        transform is Normal && !is_y_inverted(flags) ==> r@.data == normalized(
            raw@,
            layout.format,
        ),
{
    let mut data = raw;
    normalize_pixels(&mut data, layout.format);
    let ghost rgba = data@;
    assert(rgba.len() == raw@.len());
    let mut width = layout.width;
    let mut height = layout.height;
    match transform {
        Transform::Normal => {},
        _ => {
            let (turned, w, h) = apply_image_transform(data.as_slice(), width, height, transform);
            data = turned;
            width = w;
            height = h;
        },
    }
    let ghost turned = data@;
    assert(transform.relates(rgba, layout.width as int, layout.height as int, turned));
    if (flags & Y_INVERT) != 0 {
        let (inverted, w, h) = flip_vertical(data.as_slice(), width, height);
        data = inverted;
        width = w;
        height = h;
        proof {
            assert forall|x: int, y: int|
                0 <= x < layout.width && 0 <= y < layout.height implies pixel_at(
                data@,
                width as int,
                upright_target(
                    transform,
                    true,
                    layout.width as int,
                    layout.height as int,
                    x,
                    y,
                ).0,
                upright_target(
                    transform,
                    true,
                    layout.width as int,
                    layout.height as int,
                    x,
                    y,
                ).1,
            ) == #[trigger] pixel_at(rgba, layout.width as int, x, y) by {
                let t = transform.target(layout.width as int, layout.height as int, x, y);
                assert(pixel_at(turned, width as int, t.0, t.1) == pixel_at(
                    rgba,
                    layout.width as int,
                    x,
                    y,
                ));
                assert(0 <= t.0 < width && 0 <= t.1 < height);
            }
        }
    }
    CaptureResult::new(data, width, height)
}

} // verus!
