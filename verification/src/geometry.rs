//! Axis-aligned integer rectangles.

use crate::error::Error;
use crate::text::{
    append_signed, chars_of, decimal_digits, decimal_text, i32_of_text, is_digit,
    law_i32_text_reads_back, lemma_decimal_digits, read_i32,
};
use vstd::prelude::*;
use vstd::string::StringExecFns;

verus! {

/// A rectangle on the integer grid: origin `(x, y)`, extent `width` by `height`.
///
/// The rectangle covers the grid points `(px, py)` with `x <= px < x + width`
/// and `y <= py < y + height`; with a width or height of zero or less it covers
/// none.
#[derive(Debug, Clone, Copy, PartialEq, Eq, Structural)]
pub struct Box {
    pub x: i32,
    pub y: i32,
    pub width: i32,
    pub height: i32,
}

impl Box {
    /// The first column to the right of the rectangle.
    pub open spec fn right(self) -> int {
        self.x + self.width
    }

    /// The first row below the rectangle.
    pub open spec fn bottom(self) -> int {
        self.y + self.height
    }

    /// Whether the rectangle covers no grid point.
    pub open spec fn empty(self) -> bool {
        self.width <= 0 || self.height <= 0
    }

    /// Whether the rectangle covers the grid point `(px, py)`.
    pub open spec fn covers(self, px: int, py: int) -> bool {
        self.x <= px < self.right() && self.y <= py < self.bottom()
    }

    /// Whether every grid point of `self` is a grid point of `outer`.
    pub open spec fn within(self, outer: Box) -> bool {
        forall|px: int, py: int| self.covers(px, py) ==> outer.covers(px, py)
    }

    /// The left edge of the overlap of two rectangles.
    pub open spec fn overlap_left(self, other: Box) -> int {
        if self.x >= other.x { self.x as int } else { other.x as int }
    }

    /// The top edge of the overlap of two rectangles.
    pub open spec fn overlap_top(self, other: Box) -> int {
        if self.y >= other.y { self.y as int } else { other.y as int }
    }

    /// The right edge of the overlap of two rectangles.
    pub open spec fn overlap_right(self, other: Box) -> int {
        if self.right() <= other.right() { self.right() } else { other.right() }
    }

    /// The bottom edge of the overlap of two rectangles.
    pub open spec fn overlap_bottom(self, other: Box) -> int {
        if self.bottom() <= other.bottom() { self.bottom() } else { other.bottom() }
    }

    /// Whether two rectangles have a grid point in common.
    pub open spec fn overlaps(self, other: Box) -> bool {
        &&& !self.empty()
        &&& !other.empty()
        &&& self.overlap_left(other) < self.overlap_right(other)
        &&& self.overlap_top(other) < self.overlap_bottom(other)
    }

    /// The rectangle of the grid points that two rectangles have in common, if
    /// there are any.
    pub open spec fn overlap(self, other: Box) -> Option<Box> {
        if self.overlaps(other) {
            Some(
                (Box {
                    x: self.overlap_left(other) as i32,
                    y: self.overlap_top(other) as i32,
                    width: (self.overlap_right(other) - self.overlap_left(other)) as i32,
                    height: (self.overlap_bottom(other) - self.overlap_top(other)) as i32,
                }),
            )
        } else {
            None
        }
    }

    /// The rectangle of the given origin and extent.
    pub fn new(x: i32, y: i32, width: i32, height: i32) -> (r: Self)
        ensures
            r == (Box { x, y, width, height }),
    {
        Self { x, y, width, height }
    }

    /// The left edge.
    pub fn x(&self) -> (r: i32)
        ensures
            r == self.x,
    {
        self.x
    }

    /// The top edge.
    pub fn y(&self) -> (r: i32)
        ensures
            r == self.y,
    {
        self.y
    }

    /// The extent from left to right.
    pub fn width(&self) -> (r: i32)
        ensures
            r == self.width,
    {
        self.width
    }

    /// The extent from top to bottom.
    pub fn height(&self) -> (r: i32)
        ensures
            r == self.height,
    {
        self.height
    }

    /// Whether the rectangle covers no grid point, which is so where its width or
    /// height is zero or less.
    pub fn is_empty(&self) -> (r: bool)
        ensures
            r == self.empty(),
    {
        self.width <= 0 || self.height <= 0
    }

    /// Whether the two rectangles share a grid point. The edges are compared in
    /// 64 bits, so no origin or extent is out of range.
    pub fn intersects(&self, other: &Box) -> (r: bool)
        ensures
            r == self.overlaps(*other),
    {
        if self.is_empty() || other.is_empty() {
            return false;
        }
        let x1: i64 = if self.x >= other.x { self.x as i64 } else { other.x as i64 };
        let y1: i64 = if self.y >= other.y { self.y as i64 } else { other.y as i64 };
        let r1: i64 = self.x as i64 + self.width as i64;
        let r2: i64 = other.x as i64 + other.width as i64;
        let b1: i64 = self.y as i64 + self.height as i64;
        let b2: i64 = other.y as i64 + other.height as i64;
        let x2: i64 = if r1 <= r2 { r1 } else { r2 };
        let y2: i64 = if b1 <= b2 { b1 } else { b2 };
        x2 > x1 && y2 > y1
    }

    /// The shared part of the two rectangles, or `None` when they share no grid
    /// point.
    pub fn intersection(&self, other: &Box) -> (r: Option<Box>)
        ensures
            r == self.overlap(*other),
    {
        if !self.intersects(other) {
            return None;
        }
        let x1: i64 = if self.x >= other.x { self.x as i64 } else { other.x as i64 };
        let y1: i64 = if self.y >= other.y { self.y as i64 } else { other.y as i64 };
        let r1: i64 = self.x as i64 + self.width as i64;
        let r2: i64 = other.x as i64 + other.width as i64;
        let b1: i64 = self.y as i64 + self.height as i64;
        let b2: i64 = other.y as i64 + other.height as i64;
        let x2: i64 = if r1 <= r2 { r1 } else { r2 };
        let y2: i64 = if b1 <= b2 { b1 } else { b2 };
        Some(Box::new(x1 as i32, y1 as i32, (x2 - x1) as i32, (y2 - y1) as i32))
    }
}

/// Whether `c` stands at `i` in `s` and nowhere else.
pub open spec fn only_at(s: Seq<char>, c: char, i: int) -> bool {
    &&& 0 <= i < s.len()
    &&& s[i] == c
    &&& forall|j: int| 0 <= j < s.len() && j != i ==> s[j] != c
}

/// What stands before and after `c` in `s`, where `c` occurs exactly once.
pub open spec fn split_once(s: Seq<char>, c: char) -> Option<(Seq<char>, Seq<char>)> {
    if exists|i: int| only_at(s, c, i) {
        let i = choose|i: int| only_at(s, c, i);
        Some((s.take(i), s.skip(i + 1)))
    } else {
        None
    }
}

/// The rectangle that `s` stands for. The form is `x,y wxh`: one space, before
/// it two integers around one comma, behind it two integers around one `x`.
pub open spec fn region_of_text(s: Seq<char>) -> Option<Box> {
    match split_once(s, ' ') {
        Some((origin, extent)) => match (split_once(origin, ','), split_once(extent, 'x')) {
            (Some((x, y)), Some((w, h))) => match (
                i32_of_text(x),
                i32_of_text(y),
                i32_of_text(w),
                i32_of_text(h),
            ) {
                (Some(x), Some(y), Some(width), Some(height)) => Some(
                    (Box { x, y, width, height }),
                ),
                _ => None,
            },
            _ => None,
        },
        None => None,
    }
}

/// The text of a rectangle, in the form that `region_of_text` reads.
pub open spec fn region_text(b: Box) -> Seq<char> {
    decimal_text(b.x as int) + seq![','] + decimal_text(b.y as int) + seq![' '] + decimal_text(
        b.width as int,
    ) + seq!['x'] + decimal_text(b.height as int)
}

/// Where `c` stands in the characters `from..to`, if it stands there exactly
/// once.
fn find_only(chars: &Vec<char>, from: usize, to: usize, c: char) -> (r: Option<usize>)
    requires
        from <= to <= chars.len(),
    ensures
        match r {
            Some(p) => {
                &&& from <= p < to
                &&& split_once(chars@.subrange(from as int, to as int), c) == Some(
                    (
                        chars@.subrange(from as int, p as int),
                        chars@.subrange(p + 1, to as int),
                    ),
                )
            },
            None => split_once(chars@.subrange(from as int, to as int), c) is None,
        },
{
    let ghost s = chars@.subrange(from as int, to as int);
    let mut found: Option<usize> = None;
    let mut i: usize = from;
    while i < to
        invariant
            from <= i <= to <= chars.len(),
            s == chars@.subrange(from as int, to as int),
            match found {
                Some(p) => from <= p < i && s[p - from] == c && forall|j: int|
                    0 <= j < i - from && j != p - from ==> s[j] != c,
                None => forall|j: int| 0 <= j < i - from ==> s[j] != c,
            },
        decreases to - i,
    {
        if chars[i] == c {
            assert(s[i - from] == c);
            match found {
                Some(p) => {
                    assert forall|k: int| !only_at(s, c, k) by {
                        if only_at(s, c, k) {
                            assert(s[p - from] == c);
                            assert(s[i - from] == c);
                        }
                    }
                    return None;
                },
                None => {
                    found = Some(i);
                },
            }
        }
        i = i + 1;
    }
    match found {
        Some(p) => {
            proof {
                assert(only_at(s, c, p - from));
                let q = choose|q: int| only_at(s, c, q);
                assert(q == p - from);
                assert(s.take(q) =~= chars@.subrange(from as int, p as int));
                assert(s.skip(q + 1) =~= chars@.subrange(p + 1, to as int));
            }
            Some(p)
        },
        None => {
            assert forall|k: int| !only_at(s, c, k) by {}
            None
        },
    }
}

impl Box {
    /// Reads a rectangle from text of the form `x,y wxh`. Text of any other
    /// form is handed back in the error.
    pub fn parse(s: &str) -> (r: Result<Box, Error>)
        ensures
            match region_of_text(s@) {
                Some(b) => r == Ok::<Box, Error>(b),
                None => r matches Err(Error::InvalidGeometry(t)) && t@ == s@,
            },
    {
        let chars = chars_of(s);
        let n = chars.len();
        let space = match find_only(&chars, 0, n, ' ') {
            Some(p) => p,
            None => {
                assert(chars@.subrange(0, n as int) =~= s@);
                return Err(Error::InvalidGeometry(String::from_str(s)));
            },
        };
        assert(chars@.subrange(0, n as int) =~= s@);
        let comma = find_only(&chars, 0, space, ',');
        let cross = find_only(&chars, space + 1, n, 'x');
        let (comma, cross) = match (comma, cross) {
            (Some(a), Some(b)) => (a, b),
            _ => {
                return Err(Error::InvalidGeometry(String::from_str(s)));
            },
        };
        let x = read_i32(&chars, 0, comma);
        let y = read_i32(&chars, comma + 1, space);
        let width = read_i32(&chars, space + 1, cross);
        let height = read_i32(&chars, cross + 1, n);
        match (x, y, width, height) {
            (Some(x), Some(y), Some(width), Some(height)) => Ok(Box::new(x, y, width, height)),
            _ => Err(Error::InvalidGeometry(String::from_str(s))),
        }
    }

    /// The rectangle as text, in the form `x,y wxh`.
    pub fn to_string(&self) -> (r: String)
        ensures
            r@ == region_text(*self),
    {
        proof {
            reveal_strlit(",");
            reveal_strlit(" ");
            reveal_strlit("x");
        }
        let mut out = String::new();
        append_signed(&mut out, self.x as i64);
        out.append(",");
        append_signed(&mut out, self.y as i64);
        out.append(" ");
        append_signed(&mut out, self.width as i64);
        out.append("x");
        append_signed(&mut out, self.height as i64);
        assert(out@ =~= region_text(*self));
        out
    }
}

impl std::str::FromStr for Box {
    type Err = Error;

    /// Reads a rectangle from text of the form `x,y wxh`, as `Box::parse`
    /// does. Text of any other form is handed back in the error.
    fn from_str(s: &str) -> (r: Result<Self, Self::Err>)
        ensures
            match region_of_text(s@) {
                Some(b) => r == Ok::<Box, Error>(b),
                None => r matches Err(Error::InvalidGeometry(t)) && t@ == s@,
            },
    {
        Box::parse(s)
    }
}

/// The text of an integer holds digits and `-` only.
proof fn lemma_decimal_text_chars(v: int)
    ensures
        forall|i: int|
            0 <= i < decimal_text(v).len() ==> {
                let c = #[trigger] decimal_text(v)[i];
                c != ' ' && c != ',' && c != 'x'
            },
{
    let n = (if v < 0 { -v } else { v }) as nat;
    lemma_decimal_digits(n);
    assert forall|i: int| 0 <= i < decimal_text(v).len() implies {
        let c = #[trigger] decimal_text(v)[i];
        c != ' ' && c != ',' && c != 'x'
    } by {
        if v < 0 {
            if i > 0 {
                assert(decimal_text(v)[i] == decimal_digits(n)[i - 1]);
                assert(is_digit(decimal_digits(n)[i - 1]));
            }
        } else {
            assert(is_digit(decimal_digits(n)[i]));
        }
    }
}

/// Two texts without `c`, put together around one `c`, split at that `c`.
proof fn lemma_split_once_joined(left: Seq<char>, right: Seq<char>, c: char)
    requires
        forall|i: int| 0 <= i < left.len() ==> left[i] != c,
        forall|i: int| 0 <= i < right.len() ==> right[i] != c,
    ensures
        split_once(left + seq![c] + right, c) == Some((left, right)),
{
    let s = left + seq![c] + right;
    let p = left.len() as int;
    assert(only_at(s, c, p));
    let q = choose|q: int| only_at(s, c, q);
    assert(q == p);
    assert(s.take(p) =~= left);
    assert(s.skip(p + 1) =~= right);
}

/// Reading the text of a rectangle gives the rectangle back, and writing that
/// one gives the same text again.
pub proof fn law_region_text_reads_back(b: Box)
    ensures
        region_of_text(region_text(b)) == Some(b),
        region_text(region_of_text(region_text(b)).unwrap()) == region_text(b),
{
    let x = decimal_text(b.x as int);
    let y = decimal_text(b.y as int);
    let w = decimal_text(b.width as int);
    let h = decimal_text(b.height as int);
    lemma_decimal_text_chars(b.x as int);
    lemma_decimal_text_chars(b.y as int);
    lemma_decimal_text_chars(b.width as int);
    lemma_decimal_text_chars(b.height as int);
    let origin = x + seq![','] + y;
    let extent = w + seq!['x'] + h;
    assert(region_text(b) =~= origin + seq![' '] + extent);
    lemma_split_once_joined(origin, extent, ' ');
    lemma_split_once_joined(x, y, ',');
    lemma_split_once_joined(w, h, 'x');
    law_i32_text_reads_back(b.x);
    law_i32_text_reads_back(b.y);
    law_i32_text_reads_back(b.width);
    law_i32_text_reads_back(b.height);
}

/// Whether two rectangles intersect does not depend on the order in which
/// they are given, and neither does their intersection.
pub proof fn law_intersection_commutes(a: Box, b: Box)
    ensures
        a.overlaps(b) == b.overlaps(a),
        a.overlap(b) == b.overlap(a),
{
}

/// Two rectangles intersect exactly when some grid point lies in both.
pub proof fn law_intersects_iff_common_point(a: Box, b: Box)
    ensures
        a.overlaps(b) <==> exists|px: int, py: int| a.covers(px, py) && b.covers(px, py),
{
    if a.overlaps(b) {
        let px = a.overlap_left(b);
        let py = a.overlap_top(b);
        assert(a.covers(px, py) && b.covers(px, py));
    }
}

/// There is an intersection exactly when the rectangles intersect. It then
/// covers the grid points that lie in both rectangles and no others, so it
/// lies within either of them and is not empty.
pub proof fn law_intersection_is_common_part(a: Box, b: Box)
    ensures
        a.overlap(b) is Some <==> a.overlaps(b),
        a.overlap(b) matches Some(c) ==> {
            &&& !c.empty()
            &&& c.within(a)
            &&& c.within(b)
            &&& forall|px: int, py: int| c.covers(px, py) <==> a.covers(px, py) && b.covers(px, py)
        },
{
}

/// A rectangle that is not empty is its own intersection with itself.
pub proof fn law_intersection_with_itself(a: Box)
    requires
        !a.empty(),
    ensures
        a.overlaps(a),
        a.overlap(a) == Some(a),
{
}

/// An empty rectangle intersects nothing, whichever side it stands on.
pub proof fn law_empty_intersects_nothing(a: Box, b: Box)
    requires
        a.empty(),
    ensures
        !a.overlaps(b),
        !b.overlaps(a),
        a.overlap(b) is None,
        b.overlap(a) is None,
{
}

/// Two rectangles side by side, `right` beginning in the column where `left`
/// ends, split a region that crosses that column: where the region reaches
/// into the rows of both and stays between their outer edges, the widths of
/// its two intersections add up to its own width.
pub proof fn law_adjacent_split_widths(left: Box, right: Box, region: Box)
    requires
        !left.empty(),
        !right.empty(),
        left.right() == right.x,
        left.x <= region.x < right.x,
        right.x < region.right() <= right.right(),
        region.overlap_top(left) < region.overlap_bottom(left),
        region.overlap_top(right) < region.overlap_bottom(right),
    ensures
        !left.overlaps(right),
        left.overlap(region) is Some,
        right.overlap(region) is Some,
        left.overlap(region).unwrap().width + right.overlap(region).unwrap().width
            == region.width,
        left.overlap(region).unwrap().right() == right.overlap(region).unwrap().x,
{
}

} // verus!
