//! Voronoi diagrams over an integer coordinate grid, with verified
//! configuration, deterministic site sampling, and triangle-mesh extraction.
//!
//! The numeric Voronoi computation itself (Fortune's sweep / Delaunay
//! triangulation and Lloyd relaxation) is an external engine working in
//! floating point; this crate owns everything around it: boundary semantics,
//! seeded uniform site sampling, the builder that assembles a construction
//! request, the diagram data model with its invariants, and the conversion of
//! cell rings into deduplicated mesh buffers.

pub mod boundary;
pub mod builder;
pub mod diagram;
pub mod errors;
pub mod geometry;
pub mod mesh;
pub mod sampling;

pub use boundary::Boundary;
pub use builder::{BuildOutcome, BuildRequest, VoronoiBuilder};
pub use diagram::Voronoi;
pub use errors::{ConfigurationError, ConstructionError};
pub use geometry::Point;
pub use mesh::{ring, MeshVertex};
pub use sampling::{random_points, random_uniform};
