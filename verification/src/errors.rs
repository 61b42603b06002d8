use vstd::prelude::*;

verus! {

/// A construction request could not even be assembled.
///
/// Zero sites and zero relaxation iterations are valid configurations, not
/// errors; only a boundary with a non-positive dimension is refused here.
#[derive(Clone, Copy, Debug, PartialEq, Eq, Structural)]
pub enum ConfigurationError {
    /// A boundary dimension is zero or negative.
    InvalidBoundaryDimensions,
}

/// The engine's answer could not be adopted as a diagram.
#[derive(Clone, Copy, Debug, PartialEq, Eq, Structural)]
pub enum ConstructionError {
    /// The boundary handed along with the parts has a non-positive dimension.
    MalformedBoundary,
    /// The number of cells differs from the number of sites.
    CellSiteCountMismatch,
    /// Sites and diagram vertices together would not fit in 32-bit mesh
    /// indices.
    TooManyVertices,
    /// A cell ring refers to a vertex index outside the vertex sequence.
    VertexIndexOutOfRange,
    /// A cell ring mentions the same vertex index twice.
    RepeatedRingVertex,
    /// The engine could not build a diagram from the sites (too few,
    /// collinear, or otherwise degenerate input).
    DegenerateSites,
}

} // verus!
