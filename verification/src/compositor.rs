//! One image out of several outputs.
//!
//! A region of the compositor's coordinate space is captured output by
//! output: of every output that the region touches, the touched part is
//! asked for in the output's own pixels, brought to one pixel for each logical
//! pixel and copied to its place in the image of the region.

use crate::capture::{CaptureResult, Picture};
use crate::error::{Error, ErrorView};
use crate::frame::FrameRequest;
use crate::geometry::Box;
use crate::grim::{entry_views, EngineView, Grim, OutputEntry};
use crate::output::OutputInfoView;
use crate::pixels::{blit_capture, is_blit, is_image};
use crate::scale::{
    can_resample, downscale_plan, downscale_plan_of, resampled, scale_image_data,
    scaling_failure_text, ScalePlan,
};
use vstd::prelude::*;
use vstd::string::StringExecFns;

verus! {

/// `v`, or the nearest `i32` where `v` is none.
pub open spec fn clamped(v: int) -> i32 {
    if v > i32::MAX {
        i32::MAX
    } else if v < i32::MIN {
        i32::MIN
    } else {
        v as i32
    }
}

/// The part `part` of an output, which lies in the output's logical box, in
/// the output's own pixels: measured from the output's corner and multiplied
/// by its scale.
pub open spec fn physical_part(info: OutputInfoView, part: Box) -> Box {
    Box {
        x: clamped((part.x - info.logical_x) * info.scale),
        y: clamped((part.y - info.logical_y) * info.scale),
        width: clamped(part.width * info.scale),
        height: clamped(part.height * info.scale),
    }
}

/// What is asked of one output for the image of a region.
#[derive(Debug, Clone, Copy)]
pub struct CompositeStep {
    /// The frame to capture.
    pub request: FrameRequest,
    /// The part of the region that the frame covers, in logical coordinates.
    pub intersection: Box,
    /// The scale of the output.
    pub scale: i32,
}

/// What is asked of the output `entry`, which touches `region`.
pub open spec fn step_for(
    region: Box,
    entry: (u32, OutputInfoView),
    overlay_cursor: bool,
) -> CompositeStep {
    let part = entry.1.logical_box().overlap(region).unwrap();
    CompositeStep {
        request: FrameRequest {
            output_id: entry.0,
            region: physical_part(entry.1, part),
            overlay_cursor,
        },
        intersection: part,
        scale: entry.1.scale,
    }
}

/// Where the first output from `from` on stands that touches `region`, or the
/// number of outputs if none does.
pub open spec fn next_touching(outputs: Seq<(u32, OutputInfoView)>, region: Box, from: int) -> int
    decreases outputs.len() - from,
{
    if from >= outputs.len() {
        outputs.len() as int
    } else if from >= 0 && outputs[from].1.logical_box().overlaps(region) {
        from
    } else {
        next_touching(outputs, region, from + 1)
    }
}

/// The image that a frame of an output of the given scale is brought to
/// before it is copied into the image of the region: the frame itself at
/// scale 1, else the frame sampled anew to its size divided by the scale.
pub open spec fn brought_down(frame: Picture, scale: i32) -> Result<Picture, ErrorView> {
    match downscale_plan_of(frame.width as u32, frame.height as u32, scale) {
        ScalePlan::Resample { width, height, filter } => if width == 0 || height == 0 {
            Err(ErrorView::InvalidRegion("Scaled dimensions must be positive"@))
        } else if !can_resample(frame.width as u32, frame.height as u32, width, height) {
            Err(
                ErrorView::ScalingFailed(
                    scaling_failure_text(
                        frame.width as u32,
                        frame.height as u32,
                        width as int,
                        height as int,
                    ),
                ),
            )
        } else {
            Ok(
                Picture {
                    data: resampled(
                        frame.data,
                        frame.width as u32,
                        frame.height as u32,
                        width,
                        height,
                        filter,
                    ),
                    width: width as int,
                    height: height as int,
                },
            )
        },
        _ => Ok(frame),
    }
}

/// The making of the image of a region, as contracts speak of it.
pub struct JobView {
    /// The region, in logical coordinates.
    pub region: Box,
    /// The outputs, with what was known of each when the job began.
    pub outputs: Seq<(u32, OutputInfoView)>,
    /// Whether the pointer is drawn into the frames.
    pub overlay_cursor: bool,
    /// The image so far: as large as the region, black and clear where nothing
    /// has been copied.
    pub dest: Seq<u8>,
    /// The outputs before this place are done with.
    pub next: int,
    /// Whether a frame has been copied.
    pub any_capture: bool,
}

impl JobView {
    /// What holds of every job: the region has a size, the image is as large
    /// as the region, no output has a scale below 1, and a frame has been
    /// copied only if an output touches the region.
    pub open spec fn wf(self) -> bool {
        &&& self.region.width > 0
        &&& self.region.height > 0
        &&& is_image(self.dest, self.region.width as int, self.region.height as int)
        &&& 0 <= self.next <= self.outputs.len()
        &&& forall|i: int| 0 <= i < self.outputs.len() ==> (#[trigger] self.outputs[i]).1.scale >= 1
        &&& self.any_capture ==> self.touched()
    }

    /// Whether a frame has been asked for and is awaited.
    pub open spec fn pending(self) -> bool {
        self.next < self.outputs.len() && self.outputs[self.next].1.logical_box().overlaps(
            self.region,
        )
    }

    /// What is asked of the awaited output.
    pub open spec fn step(self) -> CompositeStep
        recommends
            self.pending(),
    {
        step_for(self.region, self.outputs[self.next], self.overlay_cursor)
    }

    /// Whether any output touches the region.
    pub open spec fn touched(self) -> bool {
        exists|i: int|
            0 <= i < self.outputs.len() && (#[trigger] self.outputs[i]).1.logical_box().overlaps(
                self.region,
            )
    }
}

/// The making of the image of a region.
pub struct CompositeJob {
    region: Box,
    outputs: Vec<OutputEntry>,
    overlay_cursor: bool,
    dest: Vec<u8>,
    next: usize,
    any_capture: bool,
}

impl View for CompositeJob {
    type V = JobView;

    closed spec fn view(&self) -> JobView {
        JobView {
            region: self.region,
            outputs: entry_views(self.outputs@),
            overlay_cursor: self.overlay_cursor,
            dest: self.dest@,
            next: self.next as int,
            any_capture: self.any_capture,
        }
    }
}

/// The message of a region whose image is larger than memory.
pub open spec fn unaddressable_text() -> Seq<char> {
    "image of the capture region exceeds addressable memory"@
}

/// Whether any of `outputs` touches `region`.
pub open spec fn touches_any(outputs: Seq<(u32, OutputInfoView)>, region: Box) -> bool {
    exists|i: int|
        0 <= i < outputs.len() && (#[trigger] outputs[i]).1.logical_box().overlaps(region)
}

/// The message of a region that no output touches.
pub open spec fn untouched_text() -> Seq<char> {
    "Capture region does not intersect with any output"@
}

/// Whether `r` is how the image of `region` out of `outputs` begins: with an
/// image as large as the region, black and clear all over, and no output
/// looked at yet. The region must have a size, an output must touch it, and
/// its image must fit into memory.
pub open spec fn begins(
    region: Box,
    outputs: Seq<(u32, OutputInfoView)>,
    overlay_cursor: bool,
    r: Result<CompositeJob, Error>,
) -> bool {
    if region.width <= 0 || region.height <= 0 {
        r matches Err(e) && e@ == ErrorView::InvalidRegion(
            "Capture region must have positive width and height"@,
        )
    } else if !touches_any(outputs, region) {
        r matches Err(e) && e@ == ErrorView::InvalidRegion(untouched_text())
    } else if region.width * region.height * 4 > usize::MAX {
        r matches Err(e) && e@ == ErrorView::BufferCreation(unaddressable_text())
    } else {
        r matches Ok(job) && {
            &&& job@.wf()
            &&& job@.touched()
            &&& job@.region == region
            &&& job@.outputs == outputs
            &&& job@.overlay_cursor == overlay_cursor
            &&& job@.next == 0
            &&& !job@.any_capture
            &&& forall|i: int| 0 <= i < job@.dest.len() ==> job@.dest[i] == 0
        }
    }
}

impl CompositeJob {
    /// Begins the image of `region` out of `outputs`.
    pub fn begin(
        region: Box,
        outputs: Vec<OutputEntry>,
        overlay_cursor: bool,
    ) -> (r: Result<CompositeJob, Error>)
        requires
            forall|i: int|
                0 <= i < outputs@.len() ==> (#[trigger] entry_views(outputs@)[i]).1.scale >= 1,
        ensures
            begins(region, entry_views(outputs@), overlay_cursor, r),
    {
        if region.width <= 0 || region.height <= 0 {
            return Err(
                Error::InvalidRegion(
                    String::from_str("Capture region must have positive width and height"),
                ),
            );
        }
        let mut touched = false;
        let mut i: usize = 0;
        while i < outputs.len() && !touched
            invariant
                i <= outputs@.len(),
                touched ==> touches_any(entry_views(outputs@), region),
                !touched ==> forall|j: int|
                    0 <= j < i ==> !(#[trigger] entry_views(outputs@)[j]).1.logical_box().overlaps(
                        region,
                    ),
            decreases outputs@.len() - i + if touched { 0int } else { 1int },
        {
            let info = &outputs[i].info;
            let logical = Box::new(
                info.logical_x,
                info.logical_y,
                info.logical_width,
                info.logical_height,
            );
            assert(outputs@[i as int]@ == entry_views(outputs@)[i as int]);
            if logical.intersects(&region) {
                touched = true;
            } else {
                i = i + 1;
            }
        }
        if !touched {
            return Err(
                Error::InvalidRegion(
                    String::from_str("Capture region does not intersect with any output"),
                ),
            );
        }
        assert(region.width * region.height <= 0x7fff_ffff * 0x7fff_ffff) by (nonlinear_arith)
            requires
                0 < region.width <= 0x7fff_ffff,
                0 < region.height <= 0x7fff_ffff,
        ;
        let bytes: u64 = region.width as u64 * region.height as u64 * 4;
        if bytes > usize::MAX as u64 {
            return Err(
                Error::BufferCreation(
                    String::from_str("image of the capture region exceeds addressable memory"),
                ),
            );
        }
        let dest = vec![0u8; bytes as usize];
        Ok(CompositeJob { region, outputs, overlay_cursor, dest, next: 0, any_capture: false })
    }

    /// The region that the image is made of.
    pub fn region(&self) -> (r: Box)
        ensures
            r == self@.region,
    {
        self.region
    }

    /// Says which frame to capture next, or that no output is left. Outputs
    /// that do not touch the region are passed over. The frame asked for is
    /// awaited until `accept` takes it; asking again meanwhile gives the same
    /// answer.
    pub fn next_request(&mut self) -> (r: Option<CompositeStep>)
        requires
            old(self)@.wf(),
        ensures
            final(self)@ == (JobView {
                next: next_touching(old(self)@.outputs, old(self)@.region, old(self)@.next),
                ..old(self)@
            }),
            final(self)@.wf(),
            match r {
                Some(step) => final(self)@.pending() && step == final(self)@.step(),
                None => final(self)@.next == final(self)@.outputs.len(),
            },
    {
        let ghost start = self.next as int;
        while self.next < self.outputs.len()
            invariant
                self.region == old(self).region,
                self.outputs == old(self).outputs,
                self.overlay_cursor == old(self).overlay_cursor,
                self.dest == old(self).dest,
                self.any_capture == old(self).any_capture,
                old(self)@.wf(),
                start <= self.next <= self.outputs@.len(),
                start == old(self).next,
                next_touching(old(self)@.outputs, old(self)@.region, start) == next_touching(
                    old(self)@.outputs,
                    old(self)@.region,
                    self.next as int,
                ),
            decreases self.outputs@.len() - self.next,
        {
            let info = &self.outputs[self.next].info;
            let logical = Box::new(
                info.logical_x,
                info.logical_y,
                info.logical_width,
                info.logical_height,
            );
            assert(self.outputs@[self.next as int]@ == entry_views(
                self.outputs@,
            )[self.next as int]);
            match logical.intersection(&self.region) {
                Some(part) => {
                    let step = CompositeStep {
                        request: FrameRequest {
                            output_id: self.outputs[self.next].id,
                            region: Box::new(
                                times_clamped(part.x as i64 - info.logical_x as i64, info.scale),
                                times_clamped(part.y as i64 - info.logical_y as i64, info.scale),
                                times_clamped(part.width as i64, info.scale),
                                times_clamped(part.height as i64, info.scale),
                            ),
                            overlay_cursor: self.overlay_cursor,
                        },
                        intersection: part,
                        scale: info.scale,
                    };
                    return Some(step);
                },
                None => {
                    self.next = self.next + 1;
                },
            }
        }
        None
    }

    /// Takes the frame that was asked for last: brings it down to one pixel
    /// for each logical pixel and copies it to its place in the image. What
    /// reaches beyond the image is left out, and what lay there before is
    /// overwritten. Where the frame cannot be brought down, nothing is copied
    /// and the frame stays awaited.
    pub fn accept(&mut self, frame: CaptureResult) -> (r: Result<(), Error>)
        requires
            old(self)@.wf(),
            old(self)@.pending(),
            frame@.complete(),
        ensures
            final(self)@.wf(),
            match brought_down(frame@, old(self)@.step().scale) {
                Ok(image) => {
                    &&& r is Ok
                    &&& is_blit(
                        old(self)@.dest,
                        final(self)@.dest,
                        old(self)@.region.width as int,
                        old(self)@.region.height as int,
                        image,
                        old(self)@.step().intersection.x - old(self)@.region.x,
                        old(self)@.step().intersection.y - old(self)@.region.y,
                    )
                    &&& final(self)@ == (JobView {
                        dest: final(self)@.dest,
                        next: old(self)@.next + 1,
                        any_capture: true,
                        ..old(self)@
                    })
                },
                Err(v) => r matches Err(e) && e@ == v && final(self)@ == old(self)@,
            },
    {
        assert(entry_views(self.outputs@).len() == self.outputs@.len());
        let count: usize = self.outputs.len();
        let current: usize = self.next;
        assert(current < count);
        let info = &self.outputs[self.next].info;
        assert(self.outputs@[self.next as int]@ == entry_views(self.outputs@)[self.next as int]);
        let logical = Box::new(
            info.logical_x,
            info.logical_y,
            info.logical_width,
            info.logical_height,
        );
        let part = logical.intersection(&self.region).unwrap();
        let plan = downscale_plan(frame.width(), frame.height(), info.scale);
        let image = match scale_image_data(frame, plan) {
            Ok(image) => image,
            Err(e) => {
                return Err(e);
            },
        };
        let offset_x: usize = (part.x as i64 - self.region.x as i64) as usize;
        let offset_y: usize = (part.y as i64 - self.region.y as i64) as usize;
        blit_capture(
            &mut self.dest,
            self.region.width as usize,
            self.region.height as usize,
            &image,
            offset_x,
            offset_y,
        );
        self.any_capture = true;
        self.next = current + 1;
        Ok(())
    }

    /// Hands out the image. That no frame was copied is an error, and so it
    /// is always where no output touches the region.
    pub fn finish(self) -> (r: Result<CaptureResult, Error>)
        requires
            self@.wf(),
        ensures
            !self@.touched() ==> r is Err,
            match r {
                Ok(image) => self@.any_capture && image@ == (Picture {
                    data: self@.dest,
                    width: self@.region.width as int,
                    height: self@.region.height as int,
                }) && image@.complete(),
                Err(e) => !self@.any_capture && e@ == ErrorView::InvalidRegion(
                    "Capture region does not intersect with any output"@,
                ),
            },
    {
        if !self.any_capture {
            return Err(
                Error::InvalidRegion(
                    String::from_str("Capture region does not intersect with any output"),
                ),
            );
        }
        Ok(CaptureResult::new(self.dest, self.region.width as u32, self.region.height as u32))
    }
}

/// The least of the numbers in `s`, which is not empty.
pub open spec fn least(s: Seq<int>) -> int
    decreases s.len(),
{
    if s.len() <= 1 {
        s[0]
    } else if least(s.drop_last()) <= s.last() {
        least(s.drop_last())
    } else {
        s.last()
    }
}

/// The greatest of the numbers in `s`, which is not empty.
pub open spec fn greatest(s: Seq<int>) -> int
    decreases s.len(),
{
    if s.len() <= 1 {
        s[0]
    } else if greatest(s.drop_last()) >= s.last() {
        greatest(s.drop_last())
    } else {
        s.last()
    }
}

/// The least of some numbers is one of them and none of them is less; the
/// greatest is one of them and none is greater.
pub proof fn law_least_and_greatest(s: Seq<int>)
    requires
        s.len() > 0,
    ensures
        forall|i: int| 0 <= i < s.len() ==> least(s) <= #[trigger] s[i] <= greatest(s),
        exists|i: int| 0 <= i < s.len() && s[i] == least(s),
        exists|i: int| 0 <= i < s.len() && s[i] == greatest(s),
    decreases s.len(),
{
    if s.len() <= 1 {
        assert(s[0] == least(s));
        assert(s[0] == greatest(s));
    } else {
        let head = s.drop_last();
        law_least_and_greatest(head);
        assert forall|i: int| 0 <= i < s.len() implies least(s) <= #[trigger] s[i] <= greatest(
            s,
        ) by {
            if i < s.len() - 1 {
                assert(head[i] == s[i]);
            }
        }
        let a = choose|i: int| 0 <= i < head.len() && head[i] == least(head);
        let b = choose|i: int| 0 <= i < head.len() && head[i] == greatest(head);
        assert(s[a] == head[a]);
        assert(s[b] == head[b]);
        let last = s.len() - 1;
        assert(s[last] == s.last());
        if least(head) <= s.last() {
            assert(s[a] == least(s));
        } else {
            assert(s[last] == least(s));
        }
        if greatest(head) >= s.last() {
            assert(s[b] == greatest(s));
        } else {
            assert(s[last] == greatest(s));
        }
    }
}

/// The region that the capture of everything takes holds the logical box of
/// every output: no box begins before its left or top edge or ends behind its
/// right or bottom edge.
pub proof fn law_whole_region_holds_every_output(outputs: Seq<(u32, OutputInfoView)>, i: int)
    requires
        0 <= i < outputs.len(),
    ensures
        least(lefts(outputs)) <= outputs[i].1.logical_box().x,
        least(tops(outputs)) <= outputs[i].1.logical_box().y,
        outputs[i].1.logical_box().right() <= greatest(rights(outputs)),
        outputs[i].1.logical_box().bottom() <= greatest(bottoms(outputs)),
{
    law_least_and_greatest(lefts(outputs));
    law_least_and_greatest(tops(outputs));
    law_least_and_greatest(rights(outputs));
    law_least_and_greatest(bottoms(outputs));
    assert(lefts(outputs)[i] == outputs[i].1.logical_x);
    assert(tops(outputs)[i] == outputs[i].1.logical_y);
    assert(rights(outputs)[i] == outputs[i].1.logical_box().right());
    assert(bottoms(outputs)[i] == outputs[i].1.logical_box().bottom());
}

/// The left edges of the logical boxes of the outputs.
pub open spec fn lefts(outputs: Seq<(u32, OutputInfoView)>) -> Seq<int> {
    Seq::new(outputs.len(), |i: int| outputs[i].1.logical_x as int)
}

/// The top edges of the logical boxes of the outputs.
pub open spec fn tops(outputs: Seq<(u32, OutputInfoView)>) -> Seq<int> {
    Seq::new(outputs.len(), |i: int| outputs[i].1.logical_y as int)
}

/// The right edges of the logical boxes of the outputs.
pub open spec fn rights(outputs: Seq<(u32, OutputInfoView)>) -> Seq<int> {
    Seq::new(outputs.len(), |i: int| outputs[i].1.logical_x + outputs[i].1.logical_width)
}

/// The bottom edges of the logical boxes of the outputs.
pub open spec fn bottoms(outputs: Seq<(u32, OutputInfoView)>) -> Seq<int> {
    Seq::new(outputs.len(), |i: int| outputs[i].1.logical_y + outputs[i].1.logical_height)
}

/// The message of outputs that lie too far apart for one image.
pub open spec fn span_text() -> Seq<char> {
    "Outputs span more than one capture region can hold"@
}

/// Whether `r` is how the capture of everything begins for an engine: with
/// the image of the region from the leftmost left edge and the topmost top
/// edge of the logical boxes of the outputs to the rightmost right edge and
/// the lowest bottom edge. There must be an output, and the edges must not lie
/// further apart than an `i32` counts.
pub open spec fn begins_all(e: EngineView, r: Result<CompositeJob, Error>) -> bool {
    let outputs = e.snapshot();
    if outputs.len() == 0 {
        r matches Err(err) && err@ == ErrorView::NoOutputs
    } else {
        let width = greatest(rights(outputs)) - least(lefts(outputs));
        let height = greatest(bottoms(outputs)) - least(tops(outputs));
        if width > i32::MAX || height > i32::MAX || width < i32::MIN || height < i32::MIN {
            r matches Err(err) && err@ == ErrorView::InvalidRegion(span_text())
        } else {
            begins(
                Box {
                    x: least(lefts(outputs)) as i32,
                    y: least(tops(outputs)) as i32,
                    width: width as i32,
                    height: height as i32,
                },
                outputs,
                false,
                r,
            )
        }
    }
}

impl Grim {
    /// Begins the capture of a region of the compositor's coordinate space,
    /// out of the outputs as they are known now and without the pointer.
    pub fn capture_region(&self, region: Box) -> (r: Result<CompositeJob, Error>)
        requires
            self@.wf(),
        ensures
            begins(region, self@.snapshot(), false, r),
    {
        let snapshot = self.collect_outputs_snapshot();
        proof {
            assert(entry_views(snapshot@).len() == snapshot@.len());
            assert forall|i: int| 0 <= i < snapshot@.len() implies (#[trigger] entry_views(
                snapshot@,
            )[i]).1.scale >= 1 by {
                self@.lemma_snapshot_scales(i);
            }
        }
        CompositeJob::begin(region, snapshot, false)
    }

    /// Begins the capture of everything: of the region that just holds the
    /// logical boxes of all outputs.
    pub fn capture_all(&self) -> (r: Result<CompositeJob, Error>)
        requires
            self@.wf(),
        ensures
            begins_all(self@, r),
    {
        let snapshot = self.collect_outputs_snapshot();
        assert(entry_views(snapshot@).len() == snapshot@.len());
        if snapshot.len() == 0 {
            return Err(Error::NoOutputs);
        }
        let ghost outputs = entry_views(snapshot@);
        assert(snapshot@[0]@ == outputs[0]);
        let first = &snapshot[0].info;
        let mut min_x: i64 = first.logical_x as i64;
        let mut min_y: i64 = first.logical_y as i64;
        let mut max_x: i64 = first.logical_x as i64 + first.logical_width as i64;
        let mut max_y: i64 = first.logical_y as i64 + first.logical_height as i64;
        let mut i: usize = 1;
        proof {
            assert(lefts(outputs).take(1).len() == 1);
            assert(tops(outputs).take(1).len() == 1);
            assert(rights(outputs).take(1).len() == 1);
            assert(bottoms(outputs).take(1).len() == 1);
        }
        while i < snapshot.len()
            invariant
                outputs == entry_views(snapshot@),
                outputs.len() == snapshot@.len(),
                1 <= i <= snapshot@.len(),
                min_x == least(lefts(outputs).take(i as int)),
                min_y == least(tops(outputs).take(i as int)),
                max_x == greatest(rights(outputs).take(i as int)),
                max_y == greatest(bottoms(outputs).take(i as int)),
                -0x8000_0000 <= min_x <= 0x7fff_ffff,
                -0x8000_0000 <= min_y <= 0x7fff_ffff,
                -0x1_0000_0000 <= max_x <= 0xffff_ffff,
                -0x1_0000_0000 <= max_y <= 0xffff_ffff,
            decreases snapshot@.len() - i,
        {
            assert(snapshot@[i as int]@ == outputs[i as int]);
            let info = &snapshot[i].info;
            let left: i64 = info.logical_x as i64;
            let top: i64 = info.logical_y as i64;
            let right: i64 = info.logical_x as i64 + info.logical_width as i64;
            let bottom: i64 = info.logical_y as i64 + info.logical_height as i64;
            proof {
                let n = i as int;
                assert(lefts(outputs).take(n + 1).drop_last() =~= lefts(outputs).take(n));
                assert(tops(outputs).take(n + 1).drop_last() =~= tops(outputs).take(n));
                assert(rights(outputs).take(n + 1).drop_last() =~= rights(outputs).take(n));
                assert(bottoms(outputs).take(n + 1).drop_last() =~= bottoms(outputs).take(n));
                assert(lefts(outputs).take(n + 1).last() == left);
                assert(tops(outputs).take(n + 1).last() == top);
                assert(rights(outputs).take(n + 1).last() == right);
                assert(bottoms(outputs).take(n + 1).last() == bottom);
            }
            if left < min_x {
                min_x = left;
            }
            if top < min_y {
                min_y = top;
            }
            if right > max_x {
                max_x = right;
            }
            if bottom > max_y {
                max_y = bottom;
            }
            i = i + 1;
        }
        proof {
            assert(lefts(outputs).take(i as int) =~= lefts(outputs));
            assert(tops(outputs).take(i as int) =~= tops(outputs));
            assert(rights(outputs).take(i as int) =~= rights(outputs));
            assert(bottoms(outputs).take(i as int) =~= bottoms(outputs));
            assert forall|k: int| 0 <= k < snapshot@.len() implies (#[trigger] entry_views(
                snapshot@,
            )[k]).1.scale >= 1 by {
                self@.lemma_snapshot_scales(k);
            }
        }
        let width: i64 = max_x - min_x;
        let height: i64 = max_y - min_y;
        if width > 2147483647 || height > 2147483647 || width < -2147483648 || height
            < -2147483648 {
            return Err(
                Error::InvalidRegion(
                    String::from_str("Outputs span more than one capture region can hold"),
                ),
            );
        }
        CompositeJob::begin(
            Box::new(min_x as i32, min_y as i32, width as i32, height as i32),
            snapshot,
            false,
        )
    }
}

impl EngineView {
    /// In a well-formed engine every output of the snapshot has a scale of 1
    /// or more.
    pub proof fn lemma_snapshot_scales(self, i: int)
        requires
            self.wf(),
            0 <= i < self.outputs.len(),
        ensures
            self.snapshot()[i].1.scale >= 1,
    {
        assert(self.knows(self.outputs[i]));
        crate::grim::lemma_info_index_found(self.infos, self.outputs[i]);
    }
}

/// A region that has a size and that no output touches begins no job: the
/// answer is the error of a region outside the outputs, whatever the size of
/// the region, and so no frame is asked for and no image comes of it.
pub proof fn law_region_outside_outputs(
    region: Box,
    outputs: Seq<(u32, OutputInfoView)>,
    overlay_cursor: bool,
    r: Result<CompositeJob, Error>,
)
    requires
        begins(region, outputs, overlay_cursor, r),
        region.width > 0,
        region.height > 0,
        forall|i: int|
            0 <= i < outputs.len() ==> !(#[trigger] outputs[i]).1.logical_box().overlaps(region),
    ensures
        r matches Err(e) && e@ == ErrorView::InvalidRegion(untouched_text()),
{
}

/// In a job that no output touches, which is none that `begin` makes, no
/// frame is awaited or copied, and none is asked for.
pub proof fn law_untouched_job_asks_nothing(job: JobView)
    requires
        job.wf(),
        !job.touched(),
    ensures
        !job.any_capture,
        !job.pending(),
        next_touching(job.outputs, job.region, job.next) == job.outputs.len(),
{
    lemma_next_touching_none(job.outputs, job.region, job.next);
}

/// `a` times `scale`, or the nearest `i32` where the product is none.
fn times_clamped(a: i64, scale: i32) -> (r: i32)
    requires
        -0xffff_ffff <= a <= 0xffff_ffff,
    ensures
        r == clamped(a * scale),
{
    assert(-0xffff_ffff * 0x8000_0000 <= a * scale <= 0xffff_ffff * 0x8000_0000)
        by (nonlinear_arith)
        requires
            -0xffff_ffff <= a <= 0xffff_ffff,
            -0x8000_0000 <= scale <= 0x7fff_ffff,
    ;
    let v: i64 = a * scale as i64;
    if v > 2147483647 {
        2147483647
    } else if v < -2147483648 {
        -2147483648
    } else {
        v as i32
    }
}

/// Where no output touches the region, no frame is asked for.
pub proof fn lemma_next_touching_none(outputs: Seq<(u32, OutputInfoView)>, region: Box, from: int)
    requires
        0 <= from,
        forall|i: int|
            from <= i < outputs.len() ==> !(#[trigger] outputs[i]).1.logical_box().overlaps(region),
    ensures
        next_touching(outputs, region, from) == outputs.len(),
    decreases outputs.len() - from,
{
    if from < outputs.len() {
        lemma_next_touching_none(outputs, region, from + 1);
    }
}

} // verus!
