//! What is known of each output, and how the compositor's events add to it.

use crate::capture::{Output, OutputView};
use crate::geometry::Box;
use crate::text::{append_unsigned, decimal_digits, has_prefix};
use crate::transform::{apply_output_transform, Transform};
use vstd::prelude::*;
use vstd::string::StringExecFns;

verus! {

/// What the engine knows of one output.
///
/// The physical box is in device pixels, the logical box in the compositor's
/// coordinates, where a scaled or turned output takes another size.
#[derive(Debug)]
pub struct OutputInfo {
    pub name: String,
    pub width: i32,
    pub height: i32,
    pub x: i32,
    pub y: i32,
    pub scale: i32,
    pub transform: Transform,
    pub logical_x: i32,
    pub logical_y: i32,
    pub logical_width: i32,
    pub logical_height: i32,
    pub logical_scale_known: bool,
    pub description: Option<String>,
}

/// An `OutputInfo` as contracts speak of it.
pub struct OutputInfoView {
    pub name: Seq<char>,
    pub width: i32,
    pub height: i32,
    pub x: i32,
    pub y: i32,
    pub scale: i32,
    pub transform: Transform,
    pub logical_x: i32,
    pub logical_y: i32,
    pub logical_width: i32,
    pub logical_height: i32,
    pub logical_scale_known: bool,
    pub description: Option<Seq<char>>,
}

/// The text of an optional string.
pub open spec fn text_of(s: Option<String>) -> Option<Seq<char>> {
    match s {
        Some(t) => Some(t@),
        None => None,
    }
}

impl View for OutputInfo {
    type V = OutputInfoView;

    open spec fn view(&self) -> OutputInfoView {
        OutputInfoView {
            name: self.name@,
            width: self.width,
            height: self.height,
            x: self.x,
            y: self.y,
            scale: self.scale,
            transform: self.transform,
            logical_x: self.logical_x,
            logical_y: self.logical_y,
            logical_width: self.logical_width,
            logical_height: self.logical_height,
            logical_scale_known: self.logical_scale_known,
            description: text_of(self.description),
        }
    }
}

impl OutputInfoView {
    /// The box of the output in device pixels.
    pub open spec fn physical_box(self) -> Box {
        Box { x: self.x, y: self.y, width: self.width, height: self.height }
    }

    /// The box of the output in the compositor's coordinates.
    pub open spec fn logical_box(self) -> Box {
        Box {
            x: self.logical_x,
            y: self.logical_y,
            width: self.logical_width,
            height: self.logical_height,
        }
    }

    /// The box under which the output is listed: the logical one where it is
    /// known, else the physical one.
    pub open spec fn listed_box(self) -> Box {
        if self.logical_scale_known {
            self.logical_box()
        } else {
            self.physical_box()
        }
    }

    /// The output as it is listed.
    pub open spec fn listed(self) -> OutputView {
        OutputView {
            name: self.name,
            geometry: self.listed_box(),
            scale: self.scale as int,
            description: self.description,
        }
    }
}

/// What an output reports of itself.
#[derive(Debug)]
pub enum OutputEvent {
    /// Where the output stands and how it is turned. A turn that the protocol
    /// does not name comes as `None`.
    Geometry { x: i32, y: i32, transform: Option<Transform> },
    /// The size of the output's current mode, in device pixels.
    Mode { width: i32, height: i32 },
    /// How many device pixels make one logical pixel, each way.
    Scale { factor: i32 },
    Name { name: String },
    Description { description: String },
    /// Any other event.
    Other,
}

/// What the compositor reports of an output's logical side.
#[derive(Debug)]
pub enum XdgOutputEvent {
    LogicalPosition { x: i32, y: i32 },
    LogicalSize { width: i32, height: i32 },
    Name { name: String },
    Description { description: String },
    Done,
    /// Any other event.
    Other,
}

/// The name an output goes by until the compositor names it: `output-` and the
/// number under which the output was advertised.
pub open spec fn placeholder_name(name: u32) -> Seq<char> {
    "output-"@ + decimal_digits(name as nat)
}

/// An output of which nothing is known yet: of no size, at the origin, not
/// scaled, not turned, under a placeholder name.
pub open spec fn placeholder(name: u32) -> OutputInfoView {
    OutputInfoView {
        name: placeholder_name(name),
        width: 0,
        height: 0,
        x: 0,
        y: 0,
        scale: 1,
        transform: Transform::Normal,
        logical_x: 0,
        logical_y: 0,
        logical_width: 0,
        logical_height: 0,
        logical_scale_known: false,
        description: None,
    }
}

/// The output after an event of its own. Position and mode also set the
/// logical box as long as nothing better is known of it. A scale below 1 is
/// not taken.
pub open spec fn after_output_event(info: OutputInfoView, event: OutputEvent) -> OutputInfoView {
    match event {
        OutputEvent::Geometry { x, y, transform } => OutputInfoView {
            x,
            y,
            transform: match transform {
                Some(t) => t,
                None => info.transform,
            },
            logical_x: if info.logical_scale_known {
                info.logical_x
            } else {
                x
            },
            logical_y: if info.logical_scale_known {
                info.logical_y
            } else {
                y
            },
            ..info
        },
        OutputEvent::Mode { width, height } => OutputInfoView {
            width,
            height,
            logical_width: if info.logical_scale_known {
                info.logical_width
            } else {
                width
            },
            logical_height: if info.logical_scale_known {
                info.logical_height
            } else {
                height
            },
            ..info
        },
        OutputEvent::Scale { factor } => OutputInfoView {
            scale: if factor >= 1 {
                factor
            } else {
                info.scale
            },
            ..info
        },
        OutputEvent::Name { name } => OutputInfoView { name: name@, ..info },
        OutputEvent::Description { description } => OutputInfoView {
            description: Some(description@),
            ..info
        },
        OutputEvent::Other => info,
    }
}

/// The output after an event of its logical side. The name is taken only
/// where the output still goes by a placeholder or by no name at all.
pub open spec fn after_xdg_event(info: OutputInfoView, event: XdgOutputEvent) -> OutputInfoView {
    match event {
        XdgOutputEvent::LogicalPosition { x, y } => OutputInfoView {
            logical_x: x,
            logical_y: y,
            logical_scale_known: true,
            ..info
        },
        XdgOutputEvent::LogicalSize { width, height } => OutputInfoView {
            logical_width: width,
            logical_height: height,
            logical_scale_known: true,
            ..info
        },
        XdgOutputEvent::Name { name } => if "output-"@.is_prefix_of(info.name) || info.name.len()
            == 0 {
            OutputInfoView { name: name@, ..info }
        } else {
            info
        },
        XdgOutputEvent::Description { description } => OutputInfoView {
            description: Some(description@),
            ..info
        },
        XdgOutputEvent::Done => OutputInfoView { logical_scale_known: true, ..info },
        XdgOutputEvent::Other => info,
    }
}

/// `a` divided by `b`, rounded toward zero.
pub open spec fn quotient_toward_zero(a: int, b: int) -> int {
    if a >= 0 {
        a / b
    } else {
        -((-a) / b)
    }
}

/// The output with its logical box worked out from the physical one: at the
/// same place, of the physical size divided by the scale, and with width and
/// height changed over where the output is turned by a quarter.
pub open spec fn with_guessed_logical_box(info: OutputInfoView) -> OutputInfoView {
    let w = quotient_toward_zero(info.width as int, info.scale as int) as i32;
    let h = quotient_toward_zero(info.height as int, info.scale as int) as i32;
    OutputInfoView {
        logical_x: info.x,
        logical_y: info.y,
        logical_width: if info.transform.swaps_axes() {
            h
        } else {
            w
        },
        logical_height: if info.transform.swaps_axes() {
            w
        } else {
            h
        },
        logical_scale_known: true,
        ..info
    }
}

impl OutputInfo {
    /// What is known of an output when it is first seen.
    pub fn new(name: u32) -> (r: Self)
        ensures
            r@ == placeholder(name),
    {
        let mut text = String::from_str("output-");
        append_unsigned(&mut text, name as u64);
        OutputInfo {
            name: text,
            width: 0,
            height: 0,
            x: 0,
            y: 0,
            scale: 1,
            transform: Transform::Normal,
            logical_x: 0,
            logical_y: 0,
            logical_width: 0,
            logical_height: 0,
            logical_scale_known: false,
            description: None,
        }
    }

    /// A copy of what is known.
    pub fn duplicate(&self) -> (r: Self)
        ensures
            r@ == self@,
    {
        OutputInfo {
            name: self.name.clone(),
            width: self.width,
            height: self.height,
            x: self.x,
            y: self.y,
            scale: self.scale,
            transform: self.transform,
            logical_x: self.logical_x,
            logical_y: self.logical_y,
            logical_width: self.logical_width,
            logical_height: self.logical_height,
            logical_scale_known: self.logical_scale_known,
            description: match &self.description {
                Some(d) => Some(d.clone()),
                None => None,
            },
        }
    }

    /// Takes in an event of the output.
    pub fn apply_output_event(&mut self, event: OutputEvent)
        ensures
            final(self)@ == after_output_event(old(self)@, event),
    {
        match event {
            OutputEvent::Geometry { x, y, transform } => {
                self.x = x;
                self.y = y;
                if let Some(t) = transform {
                    self.transform = t;
                }
                if !self.logical_scale_known {
                    self.logical_x = x;
                    self.logical_y = y;
                }
            },
            OutputEvent::Mode { width, height } => {
                self.width = width;
                self.height = height;
                if !self.logical_scale_known {
                    self.logical_width = width;
                    self.logical_height = height;
                }
            },
            OutputEvent::Scale { factor } => {
                if factor >= 1 {
                    self.scale = factor;
                }
            },
            OutputEvent::Name { name } => {
                self.name = name;
            },
            OutputEvent::Description { description } => {
                self.description = Some(description);
            },
            OutputEvent::Other => {},
        }
    }

    /// Takes in an event of the output's logical side.
    pub fn apply_xdg_event(&mut self, event: XdgOutputEvent)
        ensures
            final(self)@ == after_xdg_event(old(self)@, event),
    {
        match event {
            XdgOutputEvent::LogicalPosition { x, y } => {
                self.logical_x = x;
                self.logical_y = y;
                self.logical_scale_known = true;
            },
            XdgOutputEvent::LogicalSize { width, height } => {
                self.logical_width = width;
                self.logical_height = height;
                self.logical_scale_known = true;
            },
            XdgOutputEvent::Name { name } => {
                if has_prefix(self.name.as_str(), "output-") || self.name.as_str().is_empty() {
                    self.name = name;
                }
            },
            XdgOutputEvent::Description { description } => {
                self.description = Some(description);
            },
            XdgOutputEvent::Done => {
                self.logical_scale_known = true;
            },
            XdgOutputEvent::Other => {},
        }
    }

    /// The output as it is listed for callers.
    pub fn to_output(&self) -> (r: Output)
        ensures
            r@ == self@.listed(),
    {
        let geometry = if self.logical_scale_known {
            Box::new(self.logical_x, self.logical_y, self.logical_width, self.logical_height)
        } else {
            Box::new(self.x, self.y, self.width, self.height)
        };
        let description = match &self.description {
            Some(d) => Some(d.clone()),
            None => None,
        };
        Output::new(self.name.clone(), geometry, self.scale, description)
    }
}

/// Works out the logical box of an output from its physical box, for a
/// compositor that does not tell it.
pub fn guess_output_logical_geometry(info: &mut OutputInfo)
    requires
        old(info).scale >= 1,
    ensures
        final(info)@ == with_guessed_logical_box(old(info)@),
{
    info.logical_x = info.x;
    info.logical_y = info.y;
    info.logical_width = info.width / info.scale;
    info.logical_height = info.height / info.scale;
    let mut w = info.logical_width;
    let mut h = info.logical_height;
    apply_output_transform(info.transform, &mut w, &mut h);
    info.logical_width = w;
    info.logical_height = h;
    info.logical_scale_known = true;
}

} // verus!
