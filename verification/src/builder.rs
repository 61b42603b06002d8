use vstd::prelude::*;

use crate::boundary::Boundary;
use crate::diagram::Voronoi;
use crate::errors::ConfigurationError;
use crate::geometry::Point;
use crate::sampling::random_uniform;
use crate::sampling::sample_point;

verus! {

/// Everything the external diagram engine needs for one construction:
/// the sites, the boundary to clip against, and how many rounds of Lloyd
/// relaxation to run.
pub struct BuildRequest {
    pub sites: Vec<Point>,
    pub boundary: Boundary,
    pub iterations: usize,
}

/// What `VoronoiBuilder::build` decided. With no sites the diagram is
/// already known — it is empty — and no engine run is needed; otherwise the
/// carried request is handed to the engine.
pub enum BuildOutcome {
    /// The finished diagram; produced without the engine.
    Ready(Voronoi),
    /// A request the engine still has to run.
    NeedsEngine(BuildRequest),
}

/// Accumulates boundary, sites and relaxation-iteration count for one
/// diagram construction. Every configuration step consumes the builder and
/// returns the updated value, so distinct builder states never alias.
pub struct VoronoiBuilder {
    boundary: Boundary,
    sites: Vec<Point>,
    iterations: usize,
}

impl VoronoiBuilder {
    /// The configured boundary.
    pub closed spec fn boundary_view(self) -> Boundary {
        self.boundary
    }

    /// The configured sites.
    pub closed spec fn sites_view(self) -> Seq<Point> {
        self.sites@
    }

    /// The configured relaxation-iteration count.
    pub closed spec fn iterations_view(self) -> usize {
        self.iterations
    }

    /// Replaces the boundary, keeping sites and iterations.
    pub fn set_boundary(self, boundary: Boundary) -> (r: Self)
        ensures
            r.boundary_view() == boundary,
            r.sites_view() == self.sites_view(),
            r.iterations_view() == self.iterations_view(),
    {
        VoronoiBuilder { boundary, sites: self.sites, iterations: self.iterations }
    }

    /// Replaces the sites, keeping boundary and iterations.
    pub fn set_sites(self, points: Vec<Point>) -> (r: Self)
        ensures
            r.boundary_view() == self.boundary_view(),
            r.sites_view() == points@,
            r.iterations_view() == self.iterations_view(),
    {
        VoronoiBuilder { boundary: self.boundary, sites: points, iterations: self.iterations }
    }

    /// Replaces the relaxation-iteration count, keeping boundary and sites.
    /// Zero iterations means relaxation is skipped entirely.
    pub fn set_lloyd_relaxation_iterations(self, iterations: usize) -> (r: Self)
        ensures
            r.boundary_view() == self.boundary_view(),
            r.sites_view() == self.sites_view(),
            r.iterations_view() == iterations,
    {
        VoronoiBuilder { boundary: self.boundary, sites: self.sites, iterations }
    }

    /// Sets the boundary and then draws `count` sites uniformly within it
    /// from `seed`, so that sampling and construction use the same boundary.
    pub fn set_sites_random(self, boundary: Boundary, count: usize, seed: u64) -> (r: Self)
        requires
            boundary.wf(),
        ensures
            r.boundary_view() == boundary,
            r.sites_view().len() == count,
            forall|j: int| 0 <= j < count ==> r.sites_view()[j] == sample_point(boundary, seed, j),
            r.iterations_view() == self.iterations_view(),
    {
        let points = random_uniform(boundary, count, seed);
        let s = self.set_boundary(boundary);
        s.set_sites(points)
    }

    /// Turns the configuration into a construction decision.
    ///
    /// A boundary with a non-positive dimension is refused with
    /// `ConfigurationError::InvalidBoundaryDimensions`. With no sites the
    /// empty diagram is returned directly — zero sites are a valid
    /// configuration, not an error. Otherwise the result carries the exact
    /// request the engine has to run.
    pub fn build(self) -> (r: Result<BuildOutcome, ConfigurationError>)
        ensures
            r is Ok <==> self.boundary_view().wf(),
            !self.boundary_view().wf() ==> r == Err::<BuildOutcome, ConfigurationError>(
                ConfigurationError::InvalidBoundaryDimensions,
            ),
            self.boundary_view().wf() && self.sites_view().len() == 0 ==> (r matches Ok(
                BuildOutcome::Ready(d),
            ) && d.wf() && d.sites_view().len() == 0 && d.vertices_view().len() == 0
                && d.cells_view().len() == 0 && d.boundary_view() == self.boundary_view()),
            self.boundary_view().wf() && self.sites_view().len() > 0 ==> (r matches Ok(
                BuildOutcome::NeedsEngine(q),
            ) && q.sites@ == self.sites_view() && q.boundary == self.boundary_view()
                && q.iterations == self.iterations_view()),
    {
        let (width, height) = self.boundary.size();
        if width <= 0 || height <= 0 {
            return Err(ConfigurationError::InvalidBoundaryDimensions);
        }
        if self.sites.len() == 0 {
            return Ok(BuildOutcome::Ready(Voronoi::empty(self.boundary)));
        }
        Ok(
            BuildOutcome::NeedsEngine(
                BuildRequest {
                    sites: self.sites,
                    boundary: self.boundary,
                    iterations: self.iterations,
                },
            ),
        )
    }
}

impl Default for VoronoiBuilder {
    /// The default configuration: the default boundary, no sites, and no
    /// relaxation.
    fn default() -> (r: Self)
        ensures
            r.boundary_view() == Boundary::CenteredSquare(10i64),
            r.sites_view().len() == 0,
            r.iterations_view() == 0,
    {
        VoronoiBuilder { boundary: Boundary::CenteredSquare(10), sites: Vec::new(), iterations: 0 }
    }
}

} // verus!
