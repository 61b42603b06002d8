use vstd::prelude::*;

verus! {

/// A convex, axis-aligned region centered on the origin, given by its
/// dimensions on the integer grid. A boundary is well formed when all of its
/// dimensions are positive.
///
/// Corner coordinates use a right-handed, Y-up coordinate system: the top-left
/// corner has the smallest x and the largest y. For an odd dimension the extra
/// unit goes to the positive side, so the region always spans exactly `width`
/// units in x and `height` units in y.
#[derive(Clone, Copy, Debug, PartialEq, Eq, Structural)]
pub enum Boundary {
    /// Origin-centered square with the given size as both width and height.
    CenteredSquare(i64),
    /// Origin-centered rectangle with the given width and height.
    CenteredRectangle(i64, i64),
}

impl Boundary {
    /// Width of the region.
    pub open spec fn spec_width(self) -> int {
        match self {
            Boundary::CenteredSquare(size) => size as int,
            Boundary::CenteredRectangle(width, _) => width as int,
        }
    }

    /// Height of the region.
    pub open spec fn spec_height(self) -> int {
        match self {
            Boundary::CenteredSquare(size) => size as int,
            Boundary::CenteredRectangle(_, height) => height as int,
        }
    }

    /// A boundary is well formed when all dimensions are positive.
    pub open spec fn wf(self) -> bool {
        self.spec_width() > 0 && self.spec_height() > 0
    }

    /// Smallest x coordinate covered by the region.
    pub open spec fn spec_left(self) -> int {
        -(self.spec_width() / 2)
    }

    /// Largest x coordinate covered by the region.
    pub open spec fn spec_right(self) -> int {
        self.spec_width() - self.spec_width() / 2
    }

    /// Smallest y coordinate covered by the region.
    pub open spec fn spec_bottom(self) -> int {
        -(self.spec_height() / 2)
    }

    /// Largest y coordinate covered by the region.
    pub open spec fn spec_top(self) -> int {
        self.spec_height() - self.spec_height() / 2
    }

    /// Returns `(width, height)`.
    pub fn size(&self) -> (r: (i64, i64))
        ensures
            r.0 == self.spec_width(),
            r.1 == self.spec_height(),
    {
        match self {
            Boundary::CenteredSquare(size) => (*size, *size),
            Boundary::CenteredRectangle(width, height) => (*width, *height),
        }
    }

    /// Top-left corner `(left, top)` in the Y-up coordinate system.
    pub fn top_left(&self) -> (r: (i64, i64))
        requires
            self.wf(),
        ensures
            r.0 == self.spec_left(),
            r.1 == self.spec_top(),
    {
        let (width, height) = self.size();
        (-(width / 2), height - height / 2)
    }

    /// Bottom-right corner `(right, bottom)` in the Y-up coordinate system.
    pub fn bottom_right(&self) -> (r: (i64, i64))
        requires
            self.wf(),
        ensures
            r.0 == self.spec_right(),
            r.1 == self.spec_bottom(),
    {
        let (width, height) = self.size();
        (width - width / 2, -(height / 2))
    }
}

impl Default for Boundary {
    /// The default boundary is an origin-centered square of size 10.
    fn default() -> (r: Self)
        ensures
            r == Boundary::CenteredSquare(10i64),
    {
        Boundary::CenteredSquare(10)
    }
}

/// Law: for every well-formed boundary the top-left corner lies strictly to
/// the left of and strictly above the bottom-right corner.
pub proof fn lemma_corner_order(b: Boundary)
    requires
        b.wf(),
    ensures
        b.spec_left() < b.spec_right(),
        b.spec_top() > b.spec_bottom(),
{
}

/// The region spans exactly its dimensions: `right - left == width` and
/// `top - bottom == height`.
pub proof fn lemma_span_exact(b: Boundary)
    ensures
        b.spec_right() - b.spec_left() == b.spec_width(),
        b.spec_top() - b.spec_bottom() == b.spec_height(),
{
}

} // verus!
