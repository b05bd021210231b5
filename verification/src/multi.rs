//! Several outputs captured side by side: every frame is asked for before any
//! is awaited, and all are awaited together.

use crate::capture::{
    CaptureParameters, CaptureParametersView, CaptureResult, NamedCapture, Picture,
};
use crate::error::{Error, ErrorView};
use crate::frame::{
    answers, layout_for, oversize_text, pool_limit, BufferLayout, FrameRequest, FrameState,
    MAX_ATTEMPTS,
};
use crate::geometry::Box;
use crate::grim::{entry_views, names_of, EngineView, Grim};
use crate::pixels::{normalize_pixels, opaque_rgba, ShmFormat};
use crate::search::{first_at, lemma_first_at};
use crate::text::{append_unsigned, same_text};
use vstd::prelude::*;
use vstd::string::StringExecFns;

verus! {

/// The frame to ask of the engine's outputs for one set of parameters: of the
/// first output of the name, the part that the parameters name, which must lie
/// within the output's physical box, or the whole of that box.
pub open spec fn planned(e: EngineView, p: CaptureParametersView) -> Result<
    FrameRequest,
    ErrorView,
> {
    let at = first_at(names_of(e.infos), p.output_name);
    if at >= e.infos.len() || !e.outputs.contains(e.infos[at].0) {
        Err(ErrorView::OutputNotFound(p.output_name))
    } else {
        let info = e.infos[at].1;
        match p.region {
            Some(r) => if r.x < info.x || r.y < info.y || r.x + r.width > info.x + info.width
                || r.y + r.height > info.y + info.height {
                Err(ErrorView::InvalidRegion("Capture region extends outside output boundaries"@))
            } else {
                Ok(
                    FrameRequest {
                        output_id: e.infos[at].0,
                        region: r,
                        overlay_cursor: p.overlay_cursor,
                    },
                )
            },
            None => Ok(
                FrameRequest {
                    output_id: e.infos[at].0,
                    region: info.physical_box(),
                    overlay_cursor: p.overlay_cursor,
                },
            ),
        }
    }
}

/// The frames to ask for, one for each set of parameters and in their order,
/// or the error of the first set that has one.
pub open spec fn planned_all(e: EngineView, params: Seq<CaptureParametersView>) -> Result<
    Seq<FrameRequest>,
    ErrorView,
>
    decreases params.len(),
{
    if params.len() == 0 {
        Ok(Seq::empty())
    } else {
        match planned_all(e, params.drop_last()) {
            Err(v) => Err(v),
            Ok(done) => match planned(e, params.last()) {
                Err(v) => Err(v),
                Ok(request) => Ok(done.push(request)),
            },
        }
    }
}

/// A frame to ask for, with the name of its output.
#[derive(Debug)]
pub struct NamedRequest {
    /// The name of the output, as the parameters gave it.
    pub name: String,
    /// The frame.
    pub request: FrameRequest,
    /// Where the state of the frame is kept: at the place of the first request
    /// of the same name. A later frame of one name takes the place of the
    /// earlier one.
    pub slot: usize,
}

/// What the engine waits for.
#[derive(Debug, Clone, Copy, PartialEq, Eq, Structural)]
pub enum MultiPhase {
    /// For the compositor to describe the buffers it wants.
    AwaitBuffers,
    /// For the compositor to copy the frames into the buffers it was given.
    AwaitReady,
}

/// What is to be done next for the frames.
#[derive(Debug)]
pub enum MultiStep {
    /// Let the compositor's events be dispatched once, then ask again.
    Dispatch,
    /// Make a buffer of each layout and hand it to the compositor for the
    /// frame of its slot, then ask again. A slot that holds no frame has no
    /// layout.
    CreateBuffers(Vec<Option<BufferLayout>>),
    /// Read the buffers: the frames are in them.
    ReadBuffers,
}

/// The progress of several frames, as contracts speak of it.
pub struct MultiView {
    /// The names of the outputs, one for each request and in the order of the
    /// requests.
    pub names: Seq<Seq<char>>,
    pub phase: MultiPhase,
    /// How often events have been dispatched in this phase.
    pub attempts: int,
}

impl MultiView {
    /// Whether the slot `i` holds a frame: it does where no earlier request
    /// has the same name.
    pub open spec fn live(self, i: int) -> bool {
        first_at(self.names, self.names[i]) == i
    }
}

/// The progress of several frames.
#[derive(Debug)]
pub struct MultiCapture {
    names: Vec<String>,
    live: Vec<bool>,
    phase: MultiPhase,
    attempts: usize,
}

/// Whether `live` says of every name whether it is the first of its kind.
pub open spec fn marks_first(names: Seq<Seq<char>>, live: Seq<bool>) -> bool {
    &&& live.len() == names.len()
    &&& forall|i: int|
        0 <= i < live.len() ==> #[trigger] live[i] == (first_at(names, names[i]) == i)
}

/// The texts of the names.
pub open spec fn texts(names: Seq<String>) -> Seq<Seq<char>> {
    Seq::new(names.len(), |i: int| names[i]@)
}

impl View for MultiCapture {
    type V = MultiView;

    closed spec fn view(&self) -> MultiView {
        MultiView { names: texts(self.names@), phase: self.phase, attempts: self.attempts as int }
    }
}

/// Whether a frame in the given state has what the phase waits for.
pub open spec fn settled(state: FrameState, phase: MultiPhase) -> bool {
    match phase {
        MultiPhase::AwaitBuffers => state.buffer || state.ready,
        MultiPhase::AwaitReady => state.ready,
    }
}

/// How many of the first `upto` slots hold a frame that has what the phase
/// waits for.
pub open spec fn settled_count(m: MultiView, states: Seq<FrameState>, upto: int) -> int
    decreases upto,
{
    if upto <= 0 {
        0
    } else {
        settled_count(m, states, upto - 1) + if m.live(upto - 1) && settled(
            states[upto - 1],
            m.phase,
        ) {
            1int
        } else {
            0int
        }
    }
}

/// Where the first slot from `from` on stands whose frame is in the way of
/// going on, or the number of slots if there is none. When the buffers are to
/// be made, a frame without a described buffer is in the way, and so is one
/// too large for a pool. When the buffers are to be read, a frame that is
/// ready without a buffer ever described is.
pub open spec fn first_failure(m: MultiView, states: Seq<FrameState>, from: int) -> int
    decreases states.len() - from,
{
    if from >= states.len() {
        states.len() as int
    } else if from >= 0 && m.live(from) && fails(states[from], m.phase) {
        from
    } else {
        first_failure(m, states, from + 1)
    }
}

/// Whether a frame is too large for a shared-memory pool, by its rows or as
/// a whole.
pub open spec fn too_large(state: FrameState) -> bool {
    state.width * 4 > pool_limit() || state.width * 4 * state.height > pool_limit()
}

/// Whether a frame in the given state, for which the wait of the phase is
/// over, is in the way of going on.
pub open spec fn fails(state: FrameState, phase: MultiPhase) -> bool {
    match phase {
        MultiPhase::AwaitBuffers => !state.buffer || too_large(state),
        MultiPhase::AwaitReady => state.ready && !state.buffer,
    }
}

/// The error of a frame that is in the way of going on.
pub open spec fn failure_of(state: FrameState, phase: MultiPhase) -> ErrorView {
    match phase {
        MultiPhase::AwaitBuffers => if !state.buffer {
            ErrorView::CaptureFailed
        } else {
            ErrorView::BufferCreation(oversize_text(state.width, state.height))
        },
        MultiPhase::AwaitReady => ErrorView::FrameCapture(
            "Frame is ready but buffer was not received"@,
        ),
    }
}

/// The buffer for each slot: of the size that the frame's state names, in the
/// format that the compositor named or else in the one without alpha.
pub open spec fn layouts_of(m: MultiView, states: Seq<FrameState>) -> Seq<Option<BufferLayout>> {
    Seq::new(
        states.len(),
        |i: int|
            if m.live(i) {
                Some(layout_for(states[i]))
            } else {
                None
            },
    )
}

/// The message of the wait that ran out.
pub open spec fn timeout_text(phase: MultiPhase) -> Seq<char> {
    match phase {
        MultiPhase::AwaitBuffers => "Timeout waiting for frame buffers"@,
        MultiPhase::AwaitReady => "Timeout waiting for frame capture completion"@,
    }
}

/// What `next` decides, given the states of the frames.
pub enum MultiDecision {
    Dispatch,
    CreateBuffers(Seq<Option<BufferLayout>>),
    ReadBuffers,
    Fail(ErrorView),
}

/// What `next` decides and what becomes of the progress.
///
/// With no frame at all there is nothing to wait for. Else events are
/// dispatched until as many frames have what the phase waits for as there
/// were requests, `MAX_ATTEMPTS` times at most; a wait that has used them up
/// has run out, whatever the last dispatch brought. Two requests of one name
/// share a slot, so that their wait always runs out.
pub open spec fn multi_next_of(m: MultiView, states: Seq<FrameState>) -> (
    MultiDecision,
    MultiView,
) {
    let total = m.names.len() as int;
    if total > 0 && m.attempts >= MAX_ATTEMPTS {
        (MultiDecision::Fail(ErrorView::FrameCapture(timeout_text(m.phase))), m)
    } else if total > 0 && settled_count(m, states, total) < total {
        (MultiDecision::Dispatch, MultiView { attempts: m.attempts + 1, ..m })
    } else if first_failure(m, states, 0) < total {
        (MultiDecision::Fail(failure_of(states[first_failure(m, states, 0)], m.phase)), m)
    } else {
        match m.phase {
            MultiPhase::AwaitBuffers => (
                MultiDecision::CreateBuffers(layouts_of(m, states)),
                MultiView { phase: MultiPhase::AwaitReady, attempts: 0, ..m },
            ),
            MultiPhase::AwaitReady => (MultiDecision::ReadBuffers, m),
        }
    }
}

/// Whether the answer of `next` is the decision.
pub open spec fn decided(r: Result<MultiStep, Error>, d: MultiDecision) -> bool {
    match d {
        MultiDecision::Dispatch => r matches Ok(MultiStep::Dispatch),
        MultiDecision::CreateBuffers(layouts) => r matches Ok(MultiStep::CreateBuffers(v)) && v@
            == layouts,
        MultiDecision::ReadBuffers => r matches Ok(MultiStep::ReadBuffers),
        MultiDecision::Fail(v) => r matches Err(e) && e@ == v,
    }
}

/// The image of the frame of a slot: the bytes read from its buffer, brought
/// to RGBA where the compositor named the format without alpha, under the size
/// that the frame's state names.
pub open spec fn slot_image(state: FrameState, raw: Seq<u8>) -> Picture {
    Picture {
        data: if state.format == Some(ShmFormat::Xrgb8888) {
            opaque_rgba(raw)
        } else {
            raw
        },
        width: state.width as int,
        height: state.height as int,
    }
}

fn timeout_message(phase: MultiPhase) -> (r: String)
    ensures
        r@ == timeout_text(phase),
{
    match phase {
        MultiPhase::AwaitBuffers => String::from_str("Timeout waiting for frame buffers"),
        MultiPhase::AwaitReady => String::from_str(
            "Timeout waiting for frame capture completion",
        ),
    }
}

/// Whether the frame can go on, or why it cannot.
fn check_frame(state: &FrameState, phase: MultiPhase) -> (r: Result<(), Error>)
    ensures
        match r {
            Ok(_) => !fails(*state, phase),
            Err(e) => fails(*state, phase) && e@ == failure_of(*state, phase),
        },
{
    match phase {
        MultiPhase::AwaitBuffers => {
            if !state.buffer {
                return Err(Error::CaptureFailed);
            }
            assert(state.width * 4 * state.height <= 0xffff_ffff * 4 * 0xffff_ffff)
                by (nonlinear_arith)
                requires
                    0 <= state.width <= 0xffff_ffff,
                    0 <= state.height <= 0xffff_ffff,
            ;
            let row: u64 = state.width as u64 * 4;
            let size: u128 = state.width as u128 * 4 * state.height as u128;
            if row > 0x7fff_ffff || size > 0x7fff_ffff {
                let mut t = String::from_str("frame of ");
                append_unsigned(&mut t, state.width as u64);
                t.append("x");
                append_unsigned(&mut t, state.height as u64);
                t.append(" does not fit a shared-memory pool");
                return Err(Error::BufferCreation(t));
            }
            Ok(())
        },
        MultiPhase::AwaitReady => {
            if state.ready && !state.buffer {
                return Err(
                    Error::FrameCapture(
                        String::from_str("Frame is ready but buffer was not received"),
                    ),
                );
            }
            Ok(())
        },
    }
}

/// The buffer for a frame that is not too large.
fn layout_of_frame(state: &FrameState) -> (r: BufferLayout)
    requires
        !too_large(*state),
    ensures
        r == layout_for(*state),
{
    assert(0 <= state.width * 4 * state.height) by (nonlinear_arith)
        requires
            0 <= state.width,
            0 <= state.height,
    ;
    let size: u64 = state.width as u64 * 4 * state.height as u64;
    BufferLayout {
        width: state.width,
        height: state.height,
        stride: state.width * 4,
        size: size as usize,
        format: match state.format {
            Some(f) => f,
            None => ShmFormat::Xrgb8888,
        },
    }
}

impl MultiCapture {
    /// How many slots there are: as many as requests.
    pub fn slot_count(&self) -> (r: usize)
        ensures
            r == self@.names.len(),
    {
        self.names.len()
    }

    /// What holds of every progress: the engine knows of each slot whether it
    /// holds a frame.
    pub closed spec fn wf(&self) -> bool {
        marks_first(texts(self.names@), self.live@)
    }

    /// Looks at the states of the frames, slot by slot, and says what is to be
    /// done next. To be asked once the requests are sent, and again after
    /// every step but the last. The state of a slot that holds no frame is not
    /// looked at.
    pub fn next(&mut self, states: &Vec<FrameState>) -> (r: Result<MultiStep, Error>)
        requires
            old(self).wf(),
            states@.len() == old(self)@.names.len(),
        ensures
            final(self).wf(),
            decided(r, multi_next_of(old(self)@, states@).0),
            final(self)@ == multi_next_of(old(self)@, states@).1,
    {
        let total = self.names.len();
        assert(texts(self.names@).len() == self.names@.len());
        if total > 0 && self.attempts >= MAX_ATTEMPTS {
            return Err(Error::FrameCapture(timeout_message(self.phase)));
        }
        let mut completed: usize = 0;
        let mut i: usize = 0;
        while i < total
            invariant
                self.wf(),
                *self == *old(self),
                total == self.names@.len(),
                states@.len() == total,
                i <= total,
                completed <= i,
                completed == settled_count(self@, states@, i as int),
            decreases total - i,
        {
            let done = match self.phase {
                MultiPhase::AwaitBuffers => states[i].buffer || states[i].ready,
                MultiPhase::AwaitReady => states[i].ready,
            };
            if self.live[i] && done {
                completed = completed + 1;
            }
            i = i + 1;
        }
        if total > 0 && completed < total {
            self.attempts = self.attempts + 1;
            return Ok(MultiStep::Dispatch);
        }
        let mut layouts: Vec<Option<BufferLayout>> = Vec::new();
        let mut j: usize = 0;
        while j < total
            invariant
                self.wf(),
                *self == *old(self),
                total == self.names@.len(),
                total == self@.names.len(),
                states@.len() == total,
                j <= total,
                !(total > 0 && self.attempts >= MAX_ATTEMPTS),
                !(total > 0 && settled_count(self@, states@, total as int) < total),
                first_failure(self@, states@, 0) == first_failure(self@, states@, j as int),
                self.phase is AwaitBuffers ==> layouts@.len() == j,
                self.phase is AwaitBuffers ==> forall|k: int|
                    0 <= k < j ==> #[trigger] layouts@[k] == layouts_of(self@, states@)[k],
            decreases total - j,
        {
            if self.live[j] {
                match check_frame(&states[j], self.phase) {
                    Err(e) => {
                        return Err(e);
                    },
                    Ok(_) => {},
                }
                match self.phase {
                    MultiPhase::AwaitBuffers => {
                        layouts.push(Some(layout_of_frame(&states[j])));
                    },
                    MultiPhase::AwaitReady => {},
                }
            } else {
                match self.phase {
                    MultiPhase::AwaitBuffers => {
                        layouts.push(None);
                    },
                    MultiPhase::AwaitReady => {},
                }
            }
            j = j + 1;
        }
        match self.phase {
            MultiPhase::AwaitBuffers => {
                self.phase = MultiPhase::AwaitReady;
                self.attempts = 0;
                assert(layouts@ =~= layouts_of(old(self)@, states@));
                Ok(MultiStep::CreateBuffers(layouts))
            },
            MultiPhase::AwaitReady => Ok(MultiStep::ReadBuffers),
        }
    }

    /// Makes the images of the frames from the bytes read out of their
    /// buffers, slot by slot: one image for every slot that holds a frame,
    /// under the name of its output and in the order of the slots.
    pub fn finish(self, states: &Vec<FrameState>, raws: Vec<Vec<u8>>) -> (r: Vec<NamedCapture>)
        requires
            self.wf(),
            states@.len() == self@.names.len(),
            raws@.len() == self@.names.len(),
        ensures
            r@.len() == live_count(self@, self@.names.len() as int),
            forall|i: int|
                #![trigger self@.live(i)]
                0 <= i < self@.names.len() && self@.live(i) ==> {
                    let at = live_count(self@, i);
                    &&& 0 <= at < r@.len()
                    &&& r@[at].name@ == self@.names[i]
                    &&& r@[at].capture@ == slot_image(states@[i], raws@[i]@)
                },
    {
        let total = self.names.len();
        assert(texts(self.names@).len() == self.names@.len());
        let ghost given = raws@;
        let mut raws = raws;
        let mut out: Vec<NamedCapture> = Vec::new();
        let mut i: usize = 0;
        while i < total
            invariant
                self.wf(),
                total == self.names@.len(),
                states@.len() == total,
                raws@.len() == total,
                i <= total,
                forall|k: int| i <= k < total ==> #[trigger] raws@[k] == given[k],
                out@.len() == live_count(self@, i as int),
                forall|k: int|
                    #![trigger self@.live(k)]
                    0 <= k < i && self@.live(k) ==> {
                        let at = live_count(self@, k);
                        &&& 0 <= at < out@.len()
                        &&& out@[at].name@ == self@.names[k]
                        &&& out@[at].capture@ == slot_image(states@[k], given[k]@)
                    },
            decreases total - i,
        {
            if self.live[i] {
                let mut data: Vec<u8> = Vec::new();
                std::mem::swap(&mut data, &mut raws[i]);
                let state = &states[i];
                match state.format {
                    Some(ShmFormat::Xrgb8888) => {
                        normalize_pixels(&mut data, ShmFormat::Xrgb8888);
                    },
                    _ => {},
                }
                proof {
                    lemma_live_count_bounds(self@, i as int);
                }
                out.push(
                    NamedCapture {
                        name: self.names[i].clone(),
                        capture: CaptureResult::new(data, state.width, state.height),
                    },
                );
            }
            i = i + 1;
        }
        out
    }
}

/// How many of the first `upto` slots hold a frame.
pub open spec fn live_count(m: MultiView, upto: int) -> int
    decreases upto,
{
    if upto <= 0 {
        0
    } else {
        live_count(m, upto - 1) + if m.live(upto - 1) {
            1int
        } else {
            0int
        }
    }
}

/// No more slots hold a frame than there are slots.
pub proof fn lemma_live_count_bounds(m: MultiView, upto: int)
    requires
        0 <= upto,
    ensures
        0 <= live_count(m, upto) <= upto,
    decreases upto,
{
    if upto > 0 {
        lemma_live_count_bounds(m, upto - 1);
    }
}

/// Whether `named` are the requests to send for the frames `requests` of the
/// outputs named `names`: one for each, in their order, each with the slot of
/// the first request of its name.
pub open spec fn are_requests(
    named: Seq<NamedRequest>,
    names: Seq<Seq<char>>,
    requests: Seq<FrameRequest>,
) -> bool {
    &&& named.len() == names.len()
    &&& requests.len() == names.len()
    &&& forall|i: int|
        0 <= i < named.len() ==> {
            &&& (#[trigger] named[i]).name@ == names[i]
            &&& named[i].request == requests[i]
            &&& named[i].slot == first_at(names, names[i])
        }
}

/// The names of the outputs that the parameters ask for.
pub open spec fn asked_names(params: Seq<CaptureParametersView>) -> Seq<Seq<char>> {
    Seq::new(params.len(), |i: int| params[i].output_name)
}

/// The views of the parameters.
pub open spec fn parameter_views(params: Seq<CaptureParameters>) -> Seq<CaptureParametersView> {
    Seq::new(params.len(), |i: int| params[i]@)
}

/// Whether `r` is how the capture of several outputs begins for an engine.
/// There must be an output and screencopy, and every set of parameters must
/// name an output and a part of it. Then there is a request to send for every
/// set, and the wait for the buffers begins.
pub open spec fn begins_multi(
    e: EngineView,
    params: Seq<CaptureParametersView>,
    r: Result<(MultiCapture, Vec<NamedRequest>), Error>,
) -> bool {
    if e.outputs.len() == 0 {
        r matches Err(err) && err@ == ErrorView::NoOutputs
    } else if !e.screencopy_manager {
        r matches Err(err) && err@ == ErrorView::UnsupportedProtocol(
            "zwlr_screencopy_manager_v1 not available"@,
        )
    } else {
        match planned_all(e, params) {
            Err(v) => r matches Err(err) && err@ == v,
            Ok(requests) => r matches Ok((multi, named)) && multi.wf() && multi@ == (MultiView {
                names: asked_names(params),
                phase: MultiPhase::AwaitBuffers,
                attempts: 0,
            }) && are_requests(named@, asked_names(params), requests),
        }
    }
}

/// Where the first entry of the given name stands among `entries`, or their
/// number if none has the name.
fn find_name(names: &Vec<String>, name: &str) -> (r: usize)
    ensures
        r == first_at(texts(names@), name@),
        r <= names@.len(),
{
    let mut i: usize = 0;
    while i < names.len()
        invariant
            i <= names@.len(),
            forall|j: int| 0 <= j < i ==> (#[trigger] texts(names@)[j]) != name@,
        decreases names@.len() - i,
    {
        if same_text(names[i].as_str(), name) {
            proof {
                lemma_first_at(texts(names@), name@, i as int);
            }
            return i;
        }
        i = i + 1;
    }
    proof {
        lemma_first_at(texts(names@), name@, i as int);
    }
    i
}

impl Grim {
    /// The frame to ask for one set of parameters.
    fn plan_request(&self, p: &CaptureParameters) -> (r: Result<FrameRequest, Error>)
        ensures
            answers(r, planned(self@, p@)),
    {
        let entries = self.known_outputs();
        let at = crate::grim::find_named(entries, p.output_name());
        assert(entry_views(entries@).len() == entries@.len());
        if at >= entries.len() {
            return Err(Error::OutputNotFound(String::from_str(p.output_name())));
        }
        assert(entries@[at as int]@ == entry_views(entries@)[at as int]);
        let id = entries[at].id;
        if !self.is_bound(id) {
            return Err(Error::OutputNotFound(String::from_str(p.output_name())));
        }
        let info = &entries[at].info;
        match p.region_ref() {
            Some(r) => {
                if (r.x < info.x) || (r.y < info.y) || (r.x as i64 + r.width as i64 > info.x as i64
                    + info.width as i64) || (r.y as i64 + r.height as i64 > info.y as i64
                    + info.height as i64) {
                    return Err(
                        Error::InvalidRegion(
                            String::from_str("Capture region extends outside output boundaries"),
                        ),
                    );
                }
                Ok(
                    FrameRequest {
                        output_id: id,
                        region: *r,
                        overlay_cursor: p.overlay_cursor_enabled(),
                    },
                )
            },
            None => Ok(
                FrameRequest {
                    output_id: id,
                    region: Box::new(info.x, info.y, info.width, info.height),
                    overlay_cursor: p.overlay_cursor_enabled(),
                },
            ),
        }
    }

    /// Begins the capture of several outputs at once, one frame for each set
    /// of parameters. The requests that come back are all to be sent before
    /// `next` is asked what to do.
    pub fn capture_outputs(&self, parameters: Vec<CaptureParameters>) -> (r: Result<
        (MultiCapture, Vec<NamedRequest>),
        Error,
    >)
        ensures
            begins_multi(self@, parameter_views(parameters@), r),
    {
        if self.output_count() == 0 {
            return Err(Error::NoOutputs);
        }
        if !self.has_screencopy() {
            return Err(
                Error::UnsupportedProtocol(
                    String::from_str("zwlr_screencopy_manager_v1 not available"),
                ),
            );
        }
        let ghost params = parameter_views(parameters@);
        let mut names: Vec<String> = Vec::new();
        let mut live: Vec<bool> = Vec::new();
        let mut named: Vec<NamedRequest> = Vec::new();
        let ghost mut requests: Seq<FrameRequest> = Seq::empty();
        let mut i: usize = 0;
        assert(params.take(0) =~= Seq::empty());
        while i < parameters.len()
            invariant
                self@.outputs.len() != 0,
                self@.screencopy_manager,
                params == parameter_views(parameters@),
                params.len() == parameters@.len(),
                i <= parameters@.len(),
                names@.len() == i,
                live@.len() == i,
                texts(names@) == asked_names(params).take(i as int),
                marks_first(texts(names@), live@),
                planned_all(self@, params.take(i as int)) == Ok::<Seq<FrameRequest>, ErrorView>(
                    requests,
                ),
                are_requests(named@, texts(names@), requests),
            decreases parameters@.len() - i,
        {
            let p = &parameters[i];
            assert(parameters@[i as int]@ == params[i as int]);
            proof {
                assert(params.take(i + 1).drop_last() =~= params.take(i as int));
                assert(params.take(i + 1).last() == params[i as int]);
            }
            let request = match self.plan_request(p) {
                Ok(request) => request,
                Err(e) => {
                    proof {
                        lemma_planned_all_fails(self@, params, i + 1);
                    }
                    return Err(e);
                },
            };
            let slot = find_name(&names, p.output_name());
            let ghost before = texts(names@);
            names.push(String::from_str(p.output_name()));
            live.push(slot == i);
            named.push(NamedRequest { name: String::from_str(p.output_name()), request, slot });
            proof {
                requests = requests.push(request);
                let after = texts(names@);
                assert(after =~= before.push(p@.output_name));
                assert(after =~= asked_names(params).take(i + 1));
                assert forall|k: int| 0 <= k <= i implies first_at(after, #[trigger] after[k])
                    == first_at(before, after[k]) by {
                    lemma_first_at_pushed(before, p@.output_name, after[k]);
                    crate::search::lemma_first_at_found(before, after[k]);
                    if k < i {
                        assert(before[k] == after[k]);
                    }
                }
                assert forall|k: int| 0 <= k < i implies #[trigger] before[k] == after[k] by {}
            }
            i = i + 1;
        }
        proof {
            assert(params.take(i as int) =~= params);
            assert(asked_names(params).take(i as int) =~= asked_names(params));
        }
        Ok((MultiCapture { names, live, phase: MultiPhase::AwaitBuffers, attempts: 0 }, named))
    }
}

/// Once the parameters up to some place have an error, all of them have
/// that error.
pub proof fn lemma_planned_all_fails(e: EngineView, params: Seq<CaptureParametersView>, upto: int)
    requires
        0 <= upto <= params.len(),
        planned_all(e, params.take(upto)) is Err,
    ensures
        planned_all(e, params) == planned_all(e, params.take(upto)),
    decreases params.len() - upto,
{
    if upto < params.len() {
        assert(params.take(upto + 1).drop_last() =~= params.take(upto));
        lemma_planned_all_fails(e, params, upto + 1);
    } else {
        assert(params.take(upto) =~= params);
    }
}

/// Where a value first stands in a sequence with one more item at its end:
/// where it stood before, or at the new item if it stood nowhere and is the
/// new item.
pub proof fn lemma_first_at_pushed<T>(s: Seq<T>, last: T, x: T)
    ensures
        first_at(s, x) < s.len() ==> first_at(s.push(last), x) == first_at(s, x),
        first_at(s, x) >= s.len() && x == last ==> first_at(s.push(last), x) == s.len(),
        first_at(s, x) >= s.len() && x != last ==> first_at(s.push(last), x) == s.len() + 1,
{
    crate::search::lemma_first_at_found(s, x);
    let k = first_at(s, x);
    let t = s.push(last);
    if k < s.len() {
        lemma_first_at(t, x, k);
    } else if x == last {
        lemma_first_at(t, x, s.len() as int);
    } else {
        lemma_first_at(t, x, s.len() as int + 1);
    }
}

} // verus!
