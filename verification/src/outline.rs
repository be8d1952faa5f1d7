//! The outline of a glyph, gathered from the sequence of pen movements that
//! a font gives for it.
//!
//! A coordinate is an IEEE 754 single-precision number, carried as its 32
//! bits. The builder never computes with coordinates; it only asks whether
//! the pen is back where a contour began, and it asks as such numbers
//! compare: no number equals a NaN, and the two zeros are equal.

use vstd::prelude::*;

verus! {

/// The bits of a coordinate without its sign.
pub open spec fn magnitude(bits: u32) -> u32 {
    bits & 0x7fff_ffff
}

/// The coordinate is not a number.
pub open spec fn is_nan(bits: u32) -> bool {
    magnitude(bits) > 0x7f80_0000
}

/// The two coordinates are equal as numbers.
pub open spec fn coord_eq(a: u32, b: u32) -> bool {
    !is_nan(a) && !is_nan(b) && (a == b || (magnitude(a) == 0 && magnitude(b) == 0))
}

/// A point of an outline, in font units.
#[derive(Clone, Copy, Debug, PartialEq, Eq, Structural)]
pub struct Point {
    pub x: u32,
    pub y: u32,
}

impl Point {
    /// The two points are equal as pairs of numbers.
    pub open spec fn same(self, other: Point) -> bool {
        coord_eq(self.x, other.x) && coord_eq(self.y, other.y)
    }

    /// Whether the two points are equal as pairs of numbers.
    pub fn is_same(&self, other: &Point) -> (r: bool)
        ensures
            r == self.same(*other),
    {
        coords_equal(self.x, other.x) && coords_equal(self.y, other.y)
    }
}

/// Whether the two coordinates are equal as numbers.
pub fn coords_equal(a: u32, b: u32) -> (r: bool)
    ensures
        r == coord_eq(a, b),
{
    let a_magnitude: u32 = a & 0x7fff_ffff;
    let b_magnitude: u32 = b & 0x7fff_ffff;
    a_magnitude <= 0x7f80_0000 && b_magnitude <= 0x7f80_0000 && (a == b || (a_magnitude == 0
        && b_magnitude == 0))
}

/// The two are both absent, or both present and equal as pairs of numbers.
pub open spec fn same_point(a: Option<Point>, b: Option<Point>) -> bool {
    match (a, b) {
        (None, None) => true,
        (Some(p), Some(q)) => p.same(q),
        _ => false,
    }
}

/// A piece of a contour: a straight line or a Bezier curve, from its first
/// point to its last, with the control points between them.
#[derive(Clone, Copy, Debug, PartialEq, Eq, Structural)]
pub enum Segment {
    Line(Point, Point),
    Quad(Point, Point, Point),
    Cubic(Point, Point, Point, Point),
}

/// What a builder has gathered.
pub struct ShapeView {
    /// The contours begun so far, each with its segments in order.
    pub contours: Seq<Seq<Segment>>,
    /// Where the contour that is being drawn began.
    pub start_point: Option<Point>,
    /// Where the pen is.
    pub last_point: Option<Point>,
}

impl ShapeView {
    /// The pen has a place exactly when the contour has a beginning, and
    /// then there is a contour.
    pub open spec fn wf(&self) -> bool {
        &&& self.start_point is Some <==> self.last_point is Some
        &&& self.start_point is Some ==> self.contours.len() > 0
    }

    /// Nothing gathered yet.
    pub open spec fn empty() -> ShapeView {
        ShapeView { contours: Seq::empty(), start_point: None, last_point: None }
    }

    /// The contour being drawn is open: there is one, and the pen is not
    /// where it began.
    pub open spec fn is_open(&self) -> bool {
        self.contours.len() > 0 && !same_point(self.start_point, self.last_point)
    }

    /// The contours with `segment` after the segments of the last one.
    pub open spec fn with_segment(&self, segment: Segment) -> Seq<Seq<Segment>> {
        self.contours.update(self.contours.len() - 1, self.contours.last().push(segment))
    }

    /// The contours with the last one closed by a straight line back to its
    /// beginning, if it is open.
    pub open spec fn closed_contours(&self) -> Seq<Seq<Segment>> {
        if self.is_open() {
            self.with_segment(Segment::Line(self.last_point.unwrap(), self.start_point.unwrap()))
        } else {
            self.contours
        }
    }

    /// The pen is lifted and set down at `to`: the contour being drawn is
    /// closed if need be, and a new one begins at `to`.
    pub open spec fn move_to(&self, to: Point) -> ShapeView {
        ShapeView {
            contours: self.closed_contours().push(Seq::empty()),
            start_point: Some(to),
            last_point: Some(to),
        }
    }

    /// The pen draws `segment`, which begins where the pen is, and stops at
    /// `to`.
    pub open spec fn draw(&self, segment: Segment, to: Point) -> ShapeView {
        ShapeView {
            contours: self.with_segment(segment),
            start_point: self.start_point,
            last_point: Some(to),
        }
    }

    /// The contour being drawn ends. If it is open, it is closed by a
    /// straight line, and the pen has no place until it is set down again;
    /// otherwise nothing changes.
    pub open spec fn close(&self) -> ShapeView {
        if self.is_open() {
            ShapeView {
                contours: self.closed_contours(),
                start_point: None,
                last_point: None,
            }
        } else {
            *self
        }
    }
}

/// Gathers the contours of an outline from pen movements.
#[derive(Debug)]
pub struct ShapeBuilder {
    contours: Vec<Vec<Segment>>,
    start_point: Option<Point>,
    last_point: Option<Point>,
}

impl View for ShapeBuilder {
    type V = ShapeView;

    closed spec fn view(&self) -> ShapeView {
        ShapeView {
            contours: self.contours@.map_values(|contour: Vec<Segment>| contour@),
            start_point: self.start_point,
            last_point: self.last_point,
        }
    }
}

impl ShapeBuilder {
    /// A builder that has gathered nothing.
    pub fn new() -> (builder: ShapeBuilder)
        ensures
            builder@ == ShapeView::empty(),
            builder@.wf(),
    {
        let builder = ShapeBuilder { contours: Vec::new(), start_point: None, last_point: None };
        assert(builder@.contours =~= Seq::empty());
        builder
    }

    /// Whether the pen has a place, so that it can draw.
    pub fn has_current_point(&self) -> (r: bool)
        ensures
            r == self@.last_point is Some,
    {
        self.last_point.is_some()
    }

    /// Closes the contour being drawn by a straight line, if it is open.
    fn close_contour(&mut self) -> (closed: bool)
        requires
            old(self)@.wf(),
        ensures
            closed == old(self)@.is_open(),
            final(self)@.contours == old(self)@.closed_contours(),
            final(self)@.start_point == old(self)@.start_point,
            final(self)@.last_point == old(self)@.last_point,
    {
        let count: usize = self.contours.len();
        if count == 0 {
            return false;
        }
        match (self.start_point, self.last_point) {
            (Some(start), Some(last)) => {
                if start.is_same(&last) {
                    false
                } else {
                    self.contours[count - 1].push(Segment::Line(last, start));
                    proof {
                        assert(self@.contours =~= old(self)@.closed_contours());
                    }
                    true
                }
            },
            _ => false,
        }
    }

    /// The pen is lifted and set down at `(x, y)`.
    pub fn move_to(&mut self, x: u32, y: u32)
        requires
            old(self)@.wf(),
        ensures
            final(self)@ == old(self)@.move_to(Point { x, y }),
            final(self)@.wf(),
    {
        self.close_contour();
        let ghost before = self@.contours;
        self.start_point = Some(Point { x, y });
        self.last_point = self.start_point;
        self.contours.push(Vec::new());
        proof {
            assert(self@.contours =~= before.push(Seq::empty()));
        }
    }

    /// Adds `segment`, which ends at `to`, to the contour being drawn.
    fn push_segment(&mut self, segment: Segment, to: Point)
        requires
            old(self)@.wf(),
            old(self)@.last_point is Some,
        ensures
            final(self)@ == old(self)@.draw(segment, to),
            final(self)@.wf(),
    {
        let count: usize = self.contours.len();
        assert(old(self)@.contours.len() == count);
        self.contours[count - 1].push(segment);
        self.last_point = Some(to);
        proof {
            assert(self@.contours =~= old(self)@.with_segment(segment));
        }
    }

    /// The pen draws a straight line to `(x, y)`.
    pub fn line_to(&mut self, x: u32, y: u32)
        requires
            old(self)@.wf(),
            old(self)@.last_point is Some,
        ensures
            final(self)@ == old(self)@.draw(
                Segment::Line(old(self)@.last_point.unwrap(), Point { x, y }),
                Point { x, y },
            ),
            final(self)@.wf(),
    {
        let next_point = Point { x, y };
        let last = match self.last_point {
            Some(last) => last,
            None => next_point,
        };
        self.push_segment(Segment::Line(last, next_point), next_point);
    }

    /// The pen draws a quadratic curve to `(x, y)`, bent towards
    /// `(x1, y1)`.
    pub fn quad_to(&mut self, x1: u32, y1: u32, x: u32, y: u32)
        requires
            old(self)@.wf(),
            old(self)@.last_point is Some,
        ensures
            final(self)@ == old(self)@.draw(
                Segment::Quad(
                    old(self)@.last_point.unwrap(),
                    Point { x: x1, y: y1 },
                    Point { x, y },
                ),
                Point { x, y },
            ),
            final(self)@.wf(),
    {
        let next_point = Point { x, y };
        let last = match self.last_point {
            Some(last) => last,
            None => next_point,
        };
        self.push_segment(Segment::Quad(last, Point { x: x1, y: y1 }, next_point), next_point);
    }

    /// The pen draws a cubic curve to `(x, y)`, bent towards `(x1, y1)`
    /// first and `(x2, y2)` then.
    pub fn curve_to(&mut self, x1: u32, y1: u32, x2: u32, y2: u32, x: u32, y: u32)
        requires
            old(self)@.wf(),
            old(self)@.last_point is Some,
        ensures
            final(self)@ == old(self)@.draw(
                Segment::Cubic(
                    old(self)@.last_point.unwrap(),
                    Point { x: x1, y: y1 },
                    Point { x: x2, y: y2 },
                    Point { x, y },
                ),
                Point { x, y },
            ),
            final(self)@.wf(),
    {
        let next_point = Point { x, y };
        let last = match self.last_point {
            Some(last) => last,
            None => next_point,
        };
        self.push_segment(
            Segment::Cubic(last, Point { x: x1, y: y1 }, Point { x: x2, y: y2 }, next_point),
            next_point,
        );
    }

    /// The contour being drawn ends.
    pub fn close(&mut self)
        requires
            old(self)@.wf(),
        ensures
            final(self)@ == old(self)@.close(),
            final(self)@.wf(),
    {
        if self.close_contour() {
            self.start_point = None;
            self.last_point = None;
        }
    }

    /// The contours gathered, each with its segments in order.
    pub fn contours(&self) -> (contours: &Vec<Vec<Segment>>)
        ensures
            contours@.len() == self@.contours.len(),
            forall|i: int|
                0 <= i < contours@.len() ==> (#[trigger] contours@[i])@ == self@.contours[i],
    {
        &self.contours
    }
}

} // verus!
