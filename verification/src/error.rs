//! The ways in which a capture can fail.

use vstd::prelude::*;
use vstd::string::StringExecFns;

verus! {

/// `std::io::Error`, carried through as it is.
#[verifier::external_type_specification]
#[verifier::external_body]
pub struct ExIoError(std::io::Error);

/// `image::ImageError`, carried through as it is.
#[verifier::external_type_specification]
#[verifier::external_body]
pub struct ExImageError(image::ImageError);

/// Why a request to the engine failed.
#[derive(Debug)]
pub enum Error {
    /// A region was given as text that is not of the form `x,y wxh`.
    InvalidGeometry(String),
    /// The compositor has no output.
    NoOutputs,
    /// No output has the name that was asked for.
    OutputNotFound(String),
    /// A region cannot be captured: it is empty, begins at a negative
    /// coordinate, leaves its output or touches no output.
    InvalidRegion(String),
    /// The compositor did not deliver a frame.
    CaptureFailed,
    /// The buffer that the compositor copies into could not be set up.
    BufferCreation(String),
    /// An image could not be built from the data and dimensions given.
    ImageProcessing(image::ImageError),
    /// Reading or writing failed.
    Io(std::io::Error),
    /// Reading or writing failed during the named operation.
    IoWithContext { operation: String, source: std::io::Error },
    /// The compositor lacks a protocol that the engine cannot do without.
    UnsupportedProtocol(String),
    /// The compositor could not be reached.
    WaylandConnection(String),
    /// A frame was not completed: the compositor went silent or broke the
    /// protocol.
    FrameCapture(String),
    /// An output is turned in a way that the engine cannot undo.
    TransformNotSupported(String),
    /// A frame stored bottom-up could not be turned over.
    InvertFailed(String),
    /// An image could not be scaled.
    ScalingFailed(String),
}

/// An error as contracts speak of it: its kind and the text it carries. Of an
/// error made elsewhere and wrapped, only the kind is known.
pub enum ErrorView {
    InvalidGeometry(Seq<char>),
    NoOutputs,
    OutputNotFound(Seq<char>),
    InvalidRegion(Seq<char>),
    CaptureFailed,
    BufferCreation(Seq<char>),
    ImageProcessing,
    Io,
    IoWithContext { operation: Seq<char> },
    UnsupportedProtocol(Seq<char>),
    WaylandConnection(Seq<char>),
    FrameCapture(Seq<char>),
    TransformNotSupported(Seq<char>),
    InvertFailed(Seq<char>),
    ScalingFailed(Seq<char>),
}

impl View for Error {
    type V = ErrorView;

    open spec fn view(&self) -> ErrorView {
        match self {
            Error::InvalidGeometry(s) => ErrorView::InvalidGeometry(s@),
            Error::NoOutputs => ErrorView::NoOutputs,
            Error::OutputNotFound(s) => ErrorView::OutputNotFound(s@),
            Error::InvalidRegion(s) => ErrorView::InvalidRegion(s@),
            Error::CaptureFailed => ErrorView::CaptureFailed,
            Error::BufferCreation(s) => ErrorView::BufferCreation(s@),
            Error::ImageProcessing(_) => ErrorView::ImageProcessing,
            Error::Io(_) => ErrorView::Io,
            Error::IoWithContext { operation, .. } => ErrorView::IoWithContext {
                operation: operation@,
            },
            Error::UnsupportedProtocol(s) => ErrorView::UnsupportedProtocol(s@),
            Error::WaylandConnection(s) => ErrorView::WaylandConnection(s@),
            Error::FrameCapture(s) => ErrorView::FrameCapture(s@),
            Error::TransformNotSupported(s) => ErrorView::TransformNotSupported(s@),
            Error::InvertFailed(s) => ErrorView::InvertFailed(s@),
            Error::ScalingFailed(s) => ErrorView::ScalingFailed(s@),
        }
    }
}

impl From<std::io::Error> for Error {
    /// An I/O error as an error of the engine.
    fn from(source: std::io::Error) -> (r: Error) {
        Error::Io(source)
    }
}

impl vstd::std_specs::convert::FromSpecImpl<std::io::Error> for Error {
    open spec fn obeys_from_spec() -> bool {
        true
    }

    open spec fn from_spec(source: std::io::Error) -> Error {
        Error::Io(source)
    }
}

impl From<image::ImageError> for Error {
    /// An error of the `image` crate as an error of the engine.
    fn from(source: image::ImageError) -> (r: Error) {
        Error::ImageProcessing(source)
    }
}

impl vstd::std_specs::convert::FromSpecImpl<image::ImageError> for Error {
    open spec fn obeys_from_spec() -> bool {
        true
    }

    open spec fn from_spec(source: image::ImageError) -> Error {
        Error::ImageProcessing(source)
    }
}

/// The text of an I/O error, as `std::io::Error` displays it. Nothing is
/// claimed of the text: it comes from the operating system or from whoever
/// made the error.
#[verifier::external_body]
fn io_error_text(e: &std::io::Error) -> (r: String) {
    format!("{}", e)
}

/// The text of an image error, as `image::ImageError` displays it. Nothing is
/// claimed of the text.
#[verifier::external_body]
fn image_error_text(e: &image::ImageError) -> (r: String) {
    format!("{}", e)
}

impl Error {
    /// What stands before the detail in the message of this error, or the whole
    /// message where the error carries no detail.
    pub open spec fn headline(self) -> Seq<char> {
        match self {
            Error::InvalidGeometry(_) => "Invalid geometry format: "@,
            Error::NoOutputs => "No outputs available"@,
            Error::OutputNotFound(_) => "Output not found: "@,
            Error::InvalidRegion(_) => "Invalid capture region: "@,
            Error::CaptureFailed => "Screenshot capture failed"@,
            Error::BufferCreation(_) => "Buffer creation failed: "@,
            Error::ImageProcessing(_) => "Image processing error: "@,
            Error::Io(_) => "IO error: "@,
            Error::IoWithContext { operation, .. } => "IO error during "@ + operation@ + ": "@,
            Error::UnsupportedProtocol(_) => "Compositor doesn't support required protocol: "@,
            Error::WaylandConnection(_) => "Wayland connection error: "@,
            Error::FrameCapture(_) => "Frame capture failed: "@,
            Error::TransformNotSupported(_) => "Output transform not supported: "@,
            Error::InvertFailed(_) => "Failed to apply Y-invert transformation: "@,
            Error::ScalingFailed(_) => "Image scaling failed: "@,
        }
    }

    /// The detail that the error carries as text, if it carries any.
    pub open spec fn detail(self) -> Option<Seq<char>> {
        match self {
            Error::InvalidGeometry(s) => Some(s@),
            Error::OutputNotFound(s) => Some(s@),
            Error::InvalidRegion(s) => Some(s@),
            Error::BufferCreation(s) => Some(s@),
            Error::UnsupportedProtocol(s) => Some(s@),
            Error::WaylandConnection(s) => Some(s@),
            Error::FrameCapture(s) => Some(s@),
            Error::TransformNotSupported(s) => Some(s@),
            Error::InvertFailed(s) => Some(s@),
            Error::ScalingFailed(s) => Some(s@),
            _ => None,
        }
    }

    /// Whether the error wraps one made elsewhere, whose text is not known here.
    pub open spec fn wraps_foreign(self) -> bool {
        self is ImageProcessing || self is Io || self is IoWithContext
    }

    /// The message of the error: its headline, then its detail. For an error
    /// that wraps a foreign one the message begins with the headline and goes
    /// on with the foreign error's own text.
    pub fn to_string(&self) -> (r: String)
        ensures
            self.headline().is_prefix_of(r@),
            !self.wraps_foreign() ==> r@ == self.headline() + (match self.detail() {
                Some(d) => d,
                None => Seq::<char>::empty(),
            }),
    {
        match self {
            Error::InvalidGeometry(s) => String::from_str("Invalid geometry format: ").concat(
                s.as_str(),
            ),
            Error::NoOutputs => {
                let r = String::from_str("No outputs available");
                assert(r@ =~= r@ + Seq::<char>::empty());
                r
            },
            Error::OutputNotFound(s) => String::from_str("Output not found: ").concat(s.as_str()),
            Error::InvalidRegion(s) => String::from_str("Invalid capture region: ").concat(
                s.as_str(),
            ),
            Error::CaptureFailed => {
                let r = String::from_str("Screenshot capture failed");
                assert(r@ =~= r@ + Seq::<char>::empty());
                r
            },
            Error::BufferCreation(s) => String::from_str("Buffer creation failed: ").concat(
                s.as_str(),
            ),
            Error::ImageProcessing(e) => {
                let t = image_error_text(e);
                String::from_str("Image processing error: ").concat(t.as_str())
            },
            Error::Io(e) => {
                let t = io_error_text(e);
                String::from_str("IO error: ").concat(t.as_str())
            },
            Error::IoWithContext { operation, source } => {
                let t = io_error_text(source);
                String::from_str("IO error during ").concat(operation.as_str()).concat(
                    ": ",
                ).concat(t.as_str())
            },
            Error::UnsupportedProtocol(s) => String::from_str(
                "Compositor doesn't support required protocol: ",
            ).concat(s.as_str()),
            Error::WaylandConnection(s) => String::from_str("Wayland connection error: ").concat(
                s.as_str(),
            ),
            Error::FrameCapture(s) => String::from_str("Frame capture failed: ").concat(
                s.as_str(),
            ),
            Error::TransformNotSupported(s) => String::from_str(
                "Output transform not supported: ",
            ).concat(s.as_str()),
            Error::InvertFailed(s) => String::from_str(
                "Failed to apply Y-invert transformation: ",
            ).concat(s.as_str()),
            Error::ScalingFailed(s) => String::from_str("Image scaling failed: ").concat(
                s.as_str(),
            ),
        }
    }
}

} // verus!
