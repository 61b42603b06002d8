use vstd::prelude::*;

use crate::boundary::Boundary;
use crate::errors::ConstructionError;
use crate::geometry::Point;

verus! {

/// A cell ring is well formed for a diagram with `num_vertices` vertices when
/// every index it holds is in range and no index repeats.
pub open spec fn ring_wf(ring: Seq<usize>, num_vertices: nat) -> bool {
    &&& forall|j: int| 0 <= j < ring.len() ==> (ring[j] as nat) < num_vertices
    &&& forall|j: int, k: int| 0 <= j < k < ring.len() ==> ring[j] != ring[k]
}

/// The first reason, if any, for which the given parts cannot be adopted as
/// a diagram. The checks run in this order: boundary shape, cell/site
/// pairing, 32-bit index capacity, ring index range, ring duplicates.
pub open spec fn parts_verdict(
    num_sites: nat,
    num_vertices: nat,
    cells: Seq<Seq<usize>>,
    boundary: Boundary,
) -> Option<ConstructionError> {
    if !boundary.wf() {
        Some(ConstructionError::MalformedBoundary)
    } else if cells.len() != num_sites {
        Some(ConstructionError::CellSiteCountMismatch)
    } else if num_sites + num_vertices > u32::MAX {
        Some(ConstructionError::TooManyVertices)
    } else if exists|i: int, j: int|
        0 <= i < cells.len() && 0 <= j < cells[i].len() && (cells[i][j] as nat) >= num_vertices {
        Some(ConstructionError::VertexIndexOutOfRange)
    } else if exists|i: int, j: int, k: int|
        0 <= i < cells.len() && 0 <= j < k < cells[i].len() && cells[i][j] == cells[i][k] {
        Some(ConstructionError::RepeatedRingVertex)
    } else {
        None
    }
}

/// An immutable Voronoi diagram: the sites it was built from, the Voronoi
/// vertices (circumcenters on the integer grid), one closed
/// counter-clockwise ring of vertex indices per site (`cells[i]` belongs to
/// `sites[i]`), and the boundary the diagram was clipped to.
pub struct Voronoi {
    sites: Vec<Point>,
    vertices: Vec<Point>,
    cells: Vec<Vec<usize>>,
    boundary: Boundary,
}

impl Voronoi {
    /// The sites, in construction order.
    pub closed spec fn sites_view(self) -> Seq<Point> {
        self.sites@
    }

    /// The Voronoi vertices.
    pub closed spec fn vertices_view(self) -> Seq<Point> {
        self.vertices@
    }

    /// The per-site cell rings.
    pub closed spec fn cells_view(self) -> Seq<Seq<usize>> {
        self.cells@.map_values(|ring: Vec<usize>| ring@)
    }

    /// The boundary the diagram was clipped to.
    pub closed spec fn boundary_view(self) -> Boundary {
        self.boundary
    }

    /// Diagram invariant: the boundary is well formed, cells pair with sites
    /// one to one, all indices fit a 32-bit mesh index buffer, and every
    /// ring is well formed.
    pub open spec fn wf(self) -> bool {
        &&& self.boundary_view().wf()
        &&& self.cells_view().len() == self.sites_view().len()
        &&& self.sites_view().len() + self.vertices_view().len() <= u32::MAX
        &&& forall|i: int|
            0 <= i < self.cells_view().len() ==> ring_wf(
                self.cells_view()[i],
                self.vertices_view().len(),
            )
    }

    /// The empty diagram for a boundary: no sites, no vertices, no cells.
    pub fn empty(boundary: Boundary) -> (d: Voronoi)
        requires
            boundary.wf(),
        ensures
            d.wf(),
            d.sites_view().len() == 0,
            d.vertices_view().len() == 0,
            d.cells_view().len() == 0,
            d.boundary_view() == boundary,
    {
        let d = Voronoi { sites: Vec::new(), vertices: Vec::new(), cells: Vec::new(), boundary };
        proof {
            assert(d.cells_view().len() == 0);
        }
        d
    }

    /// Adopts engine output as a diagram, after validating the diagram
    /// invariant. Returns the first violation found, in the fixed order
    /// given by `parts_verdict`, or the diagram built from exactly these
    /// parts.
    pub fn from_parts(
        sites: Vec<Point>,
        vertices: Vec<Point>,
        cells: Vec<Vec<usize>>,
        boundary: Boundary,
    ) -> (r: Result<Voronoi, ConstructionError>)
        ensures
            ({
                let verdict = parts_verdict(
                    sites@.len(),
                    vertices@.len(),
                    cells@.map_values(|ring: Vec<usize>| ring@),
                    boundary,
                );
                match verdict {
                    Some(e) => r == Err::<Voronoi, ConstructionError>(e),
                    None => (r matches Ok(d) && d.wf() && d.sites_view() == sites@
                        && d.vertices_view() == vertices@ && d.cells_view() == cells@.map_values(
                        |ring: Vec<usize>| ring@,
                    ) && d.boundary_view() == boundary),
                }
            }),
    {
        let ghost cells_seq = cells@.map_values(|ring: Vec<usize>| ring@);
        let (width, height) = boundary.size();
        if width <= 0 || height <= 0 {
            return Err(ConstructionError::MalformedBoundary);
        }
        if cells.len() != sites.len() {
            return Err(ConstructionError::CellSiteCountMismatch);
        }
        if (sites.len() as u128) + (vertices.len() as u128) > (u32::MAX as u128) {
            return Err(ConstructionError::TooManyVertices);
        }
        let num_vertices = vertices.len();
        let num_cells = cells.len();
        let mut i: usize = 0;
        while i < num_cells
            invariant
                i <= num_cells,
                boundary.wf(),
                cells@.len() == sites@.len(),
                sites@.len() + vertices@.len() <= u32::MAX,
                num_cells == cells@.len(),
                num_vertices == vertices@.len(),
                cells_seq == cells@.map_values(|ring: Vec<usize>| ring@),
                forall|a: int, b: int|
                    0 <= a < i && 0 <= b < cells_seq[a].len() ==> (cells_seq[a][b] as nat)
                        < num_vertices,
            decreases num_cells - i,
        {
            let ring = &cells[i];
            let ring_len = ring.len();
            let mut j: usize = 0;
            while j < ring_len
                invariant
                    i < num_cells,
                    j <= ring_len,
                    boundary.wf(),
                cells@.len() == sites@.len(),
                sites@.len() + vertices@.len() <= u32::MAX,
                num_cells == cells@.len(),
                    num_vertices == vertices@.len(),
                    cells_seq == cells@.map_values(|ring: Vec<usize>| ring@),
                    ring_len == cells_seq[i as int].len(),
                    ring@ == cells_seq[i as int],
                    forall|b: int| 0 <= b < j ==> (cells_seq[i as int][b] as nat) < num_vertices,
                decreases ring_len - j,
            {
                if ring[j] >= num_vertices {
                    proof {
                        assert(0 <= i < cells_seq.len() && 0 <= j < cells_seq[i as int].len()
                            && (cells_seq[i as int][j as int] as nat) >= vertices@.len());
                    }
                    return Err(ConstructionError::VertexIndexOutOfRange);
                }
                j = j + 1;
            }
            i = i + 1;
        }
        let mut i2: usize = 0;
        while i2 < num_cells
            invariant
                i2 <= num_cells,
                boundary.wf(),
                cells@.len() == sites@.len(),
                sites@.len() + vertices@.len() <= u32::MAX,
                num_cells == cells@.len(),
                num_vertices == vertices@.len(),
                cells_seq == cells@.map_values(|ring: Vec<usize>| ring@),
                forall|a: int, b: int|
                    0 <= a < cells_seq.len() && 0 <= b < cells_seq[a].len() ==> (
                    cells_seq[a][b] as nat) < num_vertices,
                forall|a: int, b: int, c: int|
                    0 <= a < i2 && 0 <= b < c < cells_seq[a].len() ==> cells_seq[a][b]
                        != cells_seq[a][c],
            decreases num_cells - i2,
        {
            let ring = &cells[i2];
            let ring_len = ring.len();
            let mut j: usize = 0;
            while j < ring_len
                invariant
                    i2 < num_cells,
                    j <= ring_len,
                    boundary.wf(),
                cells@.len() == sites@.len(),
                sites@.len() + vertices@.len() <= u32::MAX,
                num_cells == cells@.len(),
                    num_vertices == vertices@.len(),
                    forall|a: int, b: int|
                        0 <= a < cells_seq.len() && 0 <= b < cells_seq[a].len() ==> (
                        cells_seq[a][b] as nat) < num_vertices,
                    cells_seq == cells@.map_values(|ring: Vec<usize>| ring@),
                    ring_len == cells_seq[i2 as int].len(),
                    ring@ == cells_seq[i2 as int],
                    forall|b: int, c: int|
                        0 <= b < c < cells_seq[i2 as int].len() && b < j ==> cells_seq[i2 as int][b]
                            != cells_seq[i2 as int][c],
                decreases ring_len - j,
            {
                let mut k: usize = j + 1;
                while k < ring_len
                    invariant
                        i2 < num_cells,
                        j < k,
                        k <= ring_len,
                        boundary.wf(),
                cells@.len() == sites@.len(),
                sites@.len() + vertices@.len() <= u32::MAX,
                num_cells == cells@.len(),
                        num_vertices == vertices@.len(),
                        forall|a: int, b: int|
                            0 <= a < cells_seq.len() && 0 <= b < cells_seq[a].len() ==> (
                            cells_seq[a][b] as nat) < num_vertices,
                        cells_seq == cells@.map_values(|ring: Vec<usize>| ring@),
                        ring_len == cells_seq[i2 as int].len(),
                        ring@ == cells_seq[i2 as int],
                        forall|c: int|
                            j < c < k ==> cells_seq[i2 as int][j as int] != cells_seq[i2 as int][c],
                    decreases ring_len - k,
                {
                    if ring[j] == ring[k] {
                        proof {
                            assert(0 <= i2 < cells_seq.len() && 0 <= j < k < cells_seq[
                                i2 as int].len() && cells_seq[i2 as int][j as int] == cells_seq[
                                i2 as int][k as int]);
                        }
                        return Err(ConstructionError::RepeatedRingVertex);
                    }
                    k = k + 1;
                }
                j = j + 1;
            }
            i2 = i2 + 1;
        }
        let d = Voronoi { sites, vertices, cells, boundary };
        proof {
            assert(d.cells_view() == cells_seq);
            assert forall|i: int| 0 <= i < d.cells_view().len() implies ring_wf(
                d.cells_view()[i],
                d.vertices_view().len(),
            ) by {
                assert(d.cells_view()[i] == cells_seq[i]);
            }
        }
        Ok(d)
    }

    /// The sites, in construction order.
    pub fn sites(&self) -> (r: &Vec<Point>)
        ensures
            r@ == self.sites_view(),
    {
        &self.sites
    }

    /// The Voronoi vertices.
    pub fn vertices(&self) -> (r: &Vec<Point>)
        ensures
            r@ == self.vertices_view(),
    {
        &self.vertices
    }

    /// The per-site cell rings.
    pub fn cells(&self) -> (r: &Vec<Vec<usize>>)
        ensures
            r@.map_values(|ring: Vec<usize>| ring@) == self.cells_view(),
    {
        &self.cells
    }

    /// The four corners of the diagram's bounding box, in the order
    /// bottom-left, top-right, bottom-right, top-left.
    pub fn bounding_box(&self) -> (r: Vec<Point>)
        requires
            self.wf(),
        ensures
            r@.len() == 4,
            r@[0] == (Point {
                x: self.boundary_view().spec_left() as i64,
                y: self.boundary_view().spec_bottom() as i64,
            }),
            r@[1] == (Point {
                x: self.boundary_view().spec_right() as i64,
                y: self.boundary_view().spec_top() as i64,
            }),
            r@[2] == (Point {
                x: self.boundary_view().spec_right() as i64,
                y: self.boundary_view().spec_bottom() as i64,
            }),
            r@[3] == (Point {
                x: self.boundary_view().spec_left() as i64,
                y: self.boundary_view().spec_top() as i64,
            }),
    {
        let (left, top) = self.boundary.top_left();
        let (right, bottom) = self.boundary.bottom_right();
        let mut r: Vec<Point> = Vec::new();
        r.push(Point { x: left, y: bottom });
        r.push(Point { x: right, y: top });
        r.push(Point { x: right, y: bottom });
        r.push(Point { x: left, y: top });
        r
    }
}

impl Default for Voronoi {
    /// The default diagram is the empty diagram over the default boundary,
    /// consistent with the policy that zero sites yield an empty diagram.
    fn default() -> (d: Self)
        ensures
            d.wf(),
            d.sites_view().len() == 0,
            d.vertices_view().len() == 0,
            d.cells_view().len() == 0,
            d.boundary_view() == Boundary::CenteredSquare(10i64),
    {
        Voronoi::empty(Boundary::CenteredSquare(10))
    }
}

} // verus!
