use vstd::prelude::*;

verus! {

/// A 2D point on the library's integer coordinate grid.
///
/// The external diagram engine computes in floating point; this library keeps
/// every coordinate it reasons about on an integer grid, and the thin driver
/// around the engine converts at the edge.
#[derive(Clone, Copy, Debug, PartialEq, Eq, Structural)]
pub struct Point {
    pub x: i64,
    pub y: i64,
}

impl Point {
    /// Builds the point `(x, y)`.
    pub fn new(x: i64, y: i64) -> (p: Point)
        ensures
            p == (Point { x, y }),
    {
        Point { x, y }
    }
}

} // verus!
