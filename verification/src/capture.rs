//! What a capture is asked for and what it gives back.

use crate::geometry::Box;
use crate::pixels::is_image;
use crate::search::{first_at, lemma_first_at, lemma_first_at_found};
use crate::text::same_text;
use vstd::prelude::*;
use vstd::string::StringExecFns;

verus! {

/// An image as contracts speak of it: its bytes and its size in pixels.
pub struct Picture {
    pub data: Seq<u8>,
    pub width: int,
    pub height: int,
}

impl Picture {
    /// Whether the bytes are exactly the pixels of the stated size, four bytes
    /// each.
    pub open spec fn complete(self) -> bool {
        is_image(self.data, self.width, self.height)
    }
}

/// A captured image: RGBA bytes, rows from the top, with its width and height
/// in pixels.
#[derive(Debug, Clone)]
pub struct CaptureResult {
    data: Vec<u8>,
    width: u32,
    height: u32,
}

impl View for CaptureResult {
    type V = Picture;

    closed spec fn view(&self) -> Picture {
        Picture { data: self.data@, width: self.width as int, height: self.height as int }
    }
}

impl CaptureResult {
    /// Puts bytes and a size together. Whether the bytes fill the size is not
    /// asked here: see `is_complete`.
    pub fn new(data: Vec<u8>, width: u32, height: u32) -> (r: Self)
        ensures
            r@ == (Picture { data: data@, width: width as int, height: height as int }),
    {
        Self { data, width, height }
    }

    /// The bytes of the image.
    pub fn data(&self) -> (r: &[u8])
        ensures
            r@ == self@.data,
    {
        self.data.as_slice()
    }

    /// The width of the image, in pixels.
    pub fn width(&self) -> (r: u32)
        ensures
            r == self@.width,
    {
        self.width
    }

    /// The height of the image, in pixels.
    pub fn height(&self) -> (r: u32)
        ensures
            r == self@.height,
    {
        self.height
    }

    /// The bytes of the image, given up by it.
    pub fn into_data(self) -> (r: Vec<u8>)
        ensures
            r@ == self@.data,
    {
        self.data
    }

    /// Whether the bytes are exactly the pixels of the stated size.
    pub fn is_complete(&self) -> (r: bool)
        ensures
            r == self@.complete(),
    {
        assert(self.width as int * self.height as int <= 0xffff_ffff * 0xffff_ffff)
            by (nonlinear_arith)
            requires
                0 <= self.width as int <= 0xffff_ffff,
                0 <= self.height as int <= 0xffff_ffff,
        ;
        let pixels: u64 = self.width as u64 * self.height as u64;
        let len: u64 = self.data.len() as u64;
        len % 4 == 0 && len / 4 == pixels
    }
}

/// A display as the compositor presents it.
#[derive(Debug, Clone)]
pub struct Output {
    name: String,
    geometry: Box,
    scale: i32,
    description: Option<String>,
}

/// An output as contracts speak of it.
pub struct OutputView {
    pub name: Seq<char>,
    pub geometry: Box,
    pub scale: int,
    pub description: Option<Seq<char>>,
}

impl View for Output {
    type V = OutputView;

    closed spec fn view(&self) -> OutputView {
        OutputView {
            name: self.name@,
            geometry: self.geometry,
            scale: self.scale as int,
            description: match self.description {
                Some(d) => Some(d@),
                None => None,
            },
        }
    }
}

impl Output {
    /// An output of the given name, place, scale and description.
    pub fn new(name: String, geometry: Box, scale: i32, description: Option<String>) -> (r: Self)
        ensures
            r@ == (OutputView {
                name: name@,
                geometry,
                scale: scale as int,
                description: match description {
                    Some(d) => Some(d@),
                    None => None,
                },
            }),
    {
        Self { name, geometry, scale, description }
    }

    /// The name of the output.
    pub fn name(&self) -> (r: &str)
        ensures
            r@ == self@.name,
    {
        self.name.as_str()
    }

    /// The box of the output.
    pub fn geometry(&self) -> (r: &Box)
        ensures
            *r == self@.geometry,
    {
        &self.geometry
    }

    /// How many device pixels make one logical pixel of the output, each way.
    pub fn scale(&self) -> (r: i32)
        ensures
            r == self@.scale,
    {
        self.scale
    }

    /// The description of the output, if the compositor gave one.
    pub fn description(&self) -> (r: Option<&str>)
        ensures
            match r {
                Some(d) => self@.description == Some(d@),
                None => self@.description is None,
            },
    {
        match &self.description {
            Some(d) => Some(d.as_str()),
            None => None,
        }
    }
}

/// What to capture of one output: the output by its name, the part of it, and
/// whether the pointer is drawn into the image.
#[derive(Debug, Clone)]
pub struct CaptureParameters {
    output_name: String,
    region: Option<Box>,
    overlay_cursor: bool,
}

/// Capture parameters as contracts speak of them.
pub struct CaptureParametersView {
    pub output_name: Seq<char>,
    pub region: Option<Box>,
    pub overlay_cursor: bool,
}

impl View for CaptureParameters {
    type V = CaptureParametersView;

    closed spec fn view(&self) -> CaptureParametersView {
        CaptureParametersView {
            output_name: self.output_name@,
            region: self.region,
            overlay_cursor: self.overlay_cursor,
        }
    }
}

impl CaptureParameters {
    /// Parameters for the whole of the named output, without the pointer.
    pub fn new(output_name: &str) -> (r: Self)
        ensures
            r@ == (CaptureParametersView {
                output_name: output_name@,
                region: None,
                overlay_cursor: false,
            }),
    {
        Self { output_name: String::from_str(output_name), region: None, overlay_cursor: false }
    }

    /// The same parameters, for the given part of the output.
    pub fn region(self, region: Box) -> (r: Self)
        ensures
            r@ == (CaptureParametersView { region: Some(region), ..self@ }),
    {
        let mut r = self;
        r.region = Some(region);
        r
    }

    /// The same parameters, with or without the pointer.
    pub fn overlay_cursor(self, overlay_cursor: bool) -> (r: Self)
        ensures
            r@ == (CaptureParametersView { overlay_cursor, ..self@ }),
    {
        let mut r = self;
        r.overlay_cursor = overlay_cursor;
        r
    }

    /// The name of the output to capture.
    pub fn output_name(&self) -> (r: &str)
        ensures
            r@ == self@.output_name,
    {
        self.output_name.as_str()
    }

    /// The part of the output to capture, if it is not the whole.
    pub fn region_ref(&self) -> (r: Option<&Box>)
        ensures
            match r {
                Some(b) => self@.region == Some(*b),
                None => self@.region is None,
            },
    {
        self.region.as_ref()
    }

    /// Whether the pointer is drawn into the image.
    pub fn overlay_cursor_enabled(&self) -> (r: bool)
        ensures
            r == self@.overlay_cursor,
    {
        self.overlay_cursor
    }
}

/// The image of an output, with the output's name.
#[derive(Debug, Clone)]
pub struct NamedCapture {
    pub name: String,
    pub capture: CaptureResult,
}

impl View for NamedCapture {
    type V = (Seq<char>, Picture);

    open spec fn view(&self) -> (Seq<char>, Picture) {
        (self.name@, self.capture@)
    }
}

/// The views of named images.
pub open spec fn named_views(entries: Seq<NamedCapture>) -> Seq<(Seq<char>, Picture)> {
    Seq::new(entries.len(), |i: int| entries[i]@)
}

/// The names of named images, entry by entry.
pub open spec fn names_in(images: Seq<(Seq<char>, Picture)>) -> Seq<Seq<char>> {
    Seq::new(images.len(), |i: int| images[i].0)
}

/// Where the image under `name` stands among `images`: at the first entry of
/// that name, or at their number if there is none.
pub open spec fn place_of(images: Seq<(Seq<char>, Picture)>, name: Seq<char>) -> int {
    first_at(names_in(images), name)
}

/// The image that `images` hold under `name`, if they hold one.
pub open spec fn image_under(images: Seq<(Seq<char>, Picture)>, name: Seq<char>) -> Option<
    Picture,
> {
    if place_of(images, name) < images.len() {
        Some(images[place_of(images, name)].1)
    } else {
        None
    }
}

/// `images` with `image` put under `name`: in place of the image that stood
/// under that name, or as a new entry.
pub open spec fn with_image(images: Seq<(Seq<char>, Picture)>, name: Seq<char>, image: Picture) -> Seq<
    (Seq<char>, Picture),
> {
    if place_of(images, name) < images.len() {
        images.update(place_of(images, name), (name, image))
    } else {
        images.push((name, image))
    }
}

/// Whether no two entries of `images` have one name.
pub open spec fn distinct_names(images: Seq<(Seq<char>, Picture)>) -> bool {
    forall|i: int, j: int|
        0 <= i < images.len() && 0 <= j < images.len() && i != j ==> (#[trigger] images[i]).0
            != (#[trigger] images[j]).0
}

/// After an image is put under a name, that image stands under the name, and
/// under every other name stands what stood there before. Names that were
/// distinct stay distinct.
pub proof fn law_put_then_get(
    images: Seq<(Seq<char>, Picture)>,
    name: Seq<char>,
    image: Picture,
    other: Seq<char>,
)
    ensures
        image_under(with_image(images, name, image), name) == Some(image),
        other != name ==> image_under(with_image(images, name, image), other) == image_under(
            images,
            other,
        ),
        distinct_names(images) ==> distinct_names(with_image(images, name, image)),
        with_image(images, name, image).len() == if image_under(images, name) is Some {
            images.len()
        } else {
            images.len() + 1
        },
{
    let after = with_image(images, name, image);
    let at = place_of(images, name);
    lemma_first_at_found(names_in(images), name);
    assert forall|j: int| 0 <= j < at implies #[trigger] names_in(after)[j] != name by {
        assert(names_in(images)[j] != name);
    }
    lemma_first_at(names_in(after), name, at);
    if other != name {
        let k = place_of(images, other);
        lemma_first_at_found(names_in(images), other);
        assert forall|j: int| 0 <= j < k implies #[trigger] names_in(after)[j] != other by {
            if j < images.len() {
                assert(names_in(images)[j] != other);
            }
        }
        if k < images.len() {
            assert(names_in(images)[k] == other);
            lemma_first_at(names_in(after), other, k);
        } else {
            lemma_first_at(names_in(after), other, after.len() as int);
        }
    }
    if distinct_names(images) {
        assert forall|i: int, j: int|
            0 <= i < after.len() && 0 <= j < after.len() && i != j implies (#[trigger] after[i]).0
            != (#[trigger] after[j]).0 by {
            if at < images.len() {
                assert(images[at].0 == names_in(images)[at]);
                assert(after[i].0 == images[i].0);
                assert(after[j].0 == images[j].0);
            } else {
                if i < images.len() {
                    assert(names_in(images)[i] != name);
                }
                if j < images.len() {
                    assert(names_in(images)[j] != name);
                }
            }
        }
    }
}

/// Images under the names of their outputs, one image to a name.
///
/// The entries are kept in the order in which their names first came, so that
/// a search by name has one answer.
#[derive(Debug, Clone)]
pub struct CaptureMap {
    entries: Vec<NamedCapture>,
}

impl View for CaptureMap {
    type V = Seq<(Seq<char>, Picture)>;

    closed spec fn view(&self) -> Seq<(Seq<char>, Picture)> {
        named_views(self.entries@)
    }
}

impl CaptureMap {
    /// A map that holds nothing.
    pub fn new() -> (r: Self)
        ensures
            r@ == Seq::<(Seq<char>, Picture)>::empty(),
            distinct_names(r@),
    {
        let r = CaptureMap { entries: Vec::new() };
        assert(r@ =~= Seq::<(Seq<char>, Picture)>::empty());
        r
    }

    /// How many images are held.
    pub fn len(&self) -> (r: usize)
        ensures
            r == self@.len(),
    {
        self.entries.len()
    }

    /// Whether nothing is held.
    pub fn is_empty(&self) -> (r: bool)
        ensures
            r == (self@.len() == 0),
    {
        self.entries.len() == 0
    }

    /// Where the image under `name` stands.
    fn find(&self, name: &str) -> (r: usize)
        ensures
            r == place_of(self@, name@),
            r <= self.entries@.len(),
    {
        let mut i: usize = 0;
        while i < self.entries.len()
            invariant
                i <= self.entries@.len(),
                forall|j: int| 0 <= j < i ==> (#[trigger] names_in(self@)[j]) != name@,
            decreases self.entries@.len() - i,
        {
            if same_text(self.entries[i].name.as_str(), name) {
                proof {
                    lemma_first_at(names_in(self@), name@, i as int);
                }
                return i;
            }
            i = i + 1;
        }
        proof {
            lemma_first_at(names_in(self@), name@, i as int);
        }
        i
    }

    /// Whether an image is held under `name`.
    pub fn contains_key(&self, name: &str) -> (r: bool)
        ensures
            r == (image_under(self@, name@) is Some),
    {
        self.find(name) < self.entries.len()
    }

    /// The image held under `name`, if there is one.
    pub fn get(&self, name: &str) -> (r: Option<&CaptureResult>)
        ensures
            match r {
                Some(c) => image_under(self@, name@) == Some(c@),
                None => image_under(self@, name@) is None,
            },
    {
        let at = self.find(name);
        if at < self.entries.len() {
            Some(&self.entries[at].capture)
        } else {
            None
        }
    }

    /// Puts an image under `name`. The image that stood under that name
    /// before leaves the map and is handed back.
    pub fn insert(&mut self, name: String, capture: CaptureResult) -> (r: Option<CaptureResult>)
        ensures
            final(self)@ == with_image(old(self)@, name@, capture@),
            distinct_names(old(self)@) ==> distinct_names(final(self)@),
            match r {
                Some(c) => image_under(old(self)@, name@) == Some(c@),
                None => image_under(old(self)@, name@) is None,
            },
    {
        let at = self.find(name.as_str());
        proof {
            law_put_then_get(self@, name@, capture@, name@);
        }
        let mut entry = NamedCapture { name, capture };
        if at < self.entries.len() {
            std::mem::swap(&mut entry, &mut self.entries[at]);
            assert(self@ =~= with_image(old(self)@, name@, capture@));
            Some(entry.capture)
        } else {
            self.entries.push(entry);
            assert(self@ =~= with_image(old(self)@, name@, capture@));
            None
        }
    }

    /// The images with their names, in the order in which the names first
    /// came.
    pub fn into_entries(self) -> (r: Vec<NamedCapture>)
        ensures
            named_views(r@) == self@,
    {
        self.entries
    }
}

/// The images of several outputs, each under the name of its output.
#[derive(Debug, Clone)]
pub struct MultiOutputCaptureResult {
    outputs: CaptureMap,
}

impl View for MultiOutputCaptureResult {
    type V = Seq<(Seq<char>, Picture)>;

    closed spec fn view(&self) -> Seq<(Seq<char>, Picture)> {
        self.outputs@
    }
}

impl MultiOutputCaptureResult {
    /// Holds the images under the names of their outputs.
    pub fn new(outputs: CaptureMap) -> (r: Self)
        ensures
            r@ == outputs@,
    {
        Self { outputs }
    }

    /// The image of the output named `output_name`, if there is one.
    pub fn get(&self, output_name: &str) -> (r: Option<&CaptureResult>)
        ensures
            match r {
                Some(c) => image_under(self@, output_name@) == Some(c@),
                None => image_under(self@, output_name@) is None,
            },
    {
        self.outputs.get(output_name)
    }

    /// The images under the names of their outputs.
    pub fn outputs(&self) -> (r: &CaptureMap)
        ensures
            r@ == self@,
    {
        &self.outputs
    }

    /// The images under the names of their outputs, given up.
    pub fn into_outputs(self) -> (r: CaptureMap)
        ensures
            r@ == self@,
    {
        self.outputs
    }
}

} // verus!
