//! Tests that run the external floating-point diagram engine and adopt its
//! output through the library's validated construction path.

use voronoi_mesh::{Boundary, BuildOutcome, Point, Voronoi, VoronoiBuilder};

fn engine_bounding_box(boundary: Boundary) -> voronoice::BoundingBox {
    match boundary {
        Boundary::CenteredSquare(size) => {
            voronoice::BoundingBox::new_centered_square(size as f64)
        }
        Boundary::CenteredRectangle(width, height) => {
            voronoice::BoundingBox::new_centered(width as f64, height as f64)
        }
    }
}

fn run_engine(sites: &[Point], boundary: Boundary, iterations: usize) -> voronoice::Voronoi {
    voronoice::VoronoiBuilder::default()
        .set_sites(
            sites
                .iter()
                .map(|p| voronoice::Point { x: p.x as f64, y: p.y as f64 })
                .collect(),
        )
        .set_bounding_box(engine_bounding_box(boundary))
        .set_lloyd_relaxation_iterations(iterations)
        .build()
        .expect("the engine could not build a diagram")
}

/// Quantizes the engine's floating-point output onto the library's integer
/// grid and adopts it as a validated diagram.
fn adopt(engine: &voronoice::Voronoi, boundary: Boundary) -> Voronoi {
    let sites: Vec<Point> = engine
        .sites()
        .iter()
        .map(|p| Point::new(p.x.round() as i64, p.y.round() as i64))
        .collect();
    let vertices: Vec<Point> = engine
        .vertices()
        .iter()
        .map(|p| Point::new(p.x.round() as i64, p.y.round() as i64))
        .collect();
    let cells: Vec<Vec<usize>> = engine.cells().clone();
    Voronoi::from_parts(sites, vertices, cells, boundary).expect("engine output was rejected")
}

#[test]
fn explicit_well_separated_sites_give_one_cell_per_site() {
    let sites = vec![
        Point::new(-60, -55),
        Point::new(55, -60),
        Point::new(60, 58),
        Point::new(-58, 62),
        Point::new(3, 2),
    ];
    let boundary = Boundary::CenteredSquare(200);
    let engine = run_engine(&sites, boundary, 0);
    let d = adopt(&engine, boundary);
    assert_eq!(d.cells().len(), sites.len());
    for ring in d.cells() {
        assert!(ring.len() >= 3);
        for ix in ring {
            assert!(*ix < d.vertices().len());
        }
    }
}

#[test]
fn four_site_centered_square_scenario() {
    let sites = vec![
        Point::new(-50, -50),
        Point::new(50, -50),
        Point::new(50, 50),
        Point::new(-50, 50),
    ];
    let boundary = Boundary::CenteredSquare(200);
    let engine = run_engine(&sites, boundary, 0);
    let d = adopt(&engine, boundary);
    assert_eq!(d.cells().len(), 4);
    for ring in d.cells() {
        assert!(ring.len() >= 3);
    }
    let (verts, inds) = d.mesh_buffers();
    // exactly four fan-center vertices: one per site, never shared
    let fan_centers = verts
        .iter()
        .filter(|v| sites.iter().any(|s| s.x == v.x && s.y == v.y && v.z == 0))
        .count();
    assert_eq!(fan_centers, 4);
    // the triangle count equals the sum of the ring lengths over all cells
    let ring_sum: usize = d.cells().iter().map(|r| r.len()).sum();
    assert_eq!(inds.len(), 3 * ring_sum);
    // vertex buffer: one center per cell plus each distinct referenced
    // diagram vertex once
    let mut referenced: Vec<usize> = d.cells().iter().flatten().copied().collect();
    referenced.sort();
    referenced.dedup();
    assert_eq!(verts.len(), 4 + referenced.len());
    // per-cell blocks are contiguous and in cell order: the fan centers
    // appear in the third slot of each triangle, grouped by cell
    let mut triangle = 0usize;
    for (cell, ring) in d.cells().iter().enumerate() {
        let center = verts
            .iter()
            .position(|v| v.x == d.sites()[cell].x && v.y == d.sites()[cell].y)
            .unwrap();
        for _ in 0..ring.len() {
            assert_eq!(inds[3 * triangle + 2] as usize, center);
            triangle += 1;
        }
    }
}

#[test]
fn build_request_round_trip_through_engine() {
    let boundary = Boundary::CenteredSquare(120);
    let outcome = VoronoiBuilder::default()
        .set_sites_random(boundary, 24, 11)
        .build()
        .unwrap();
    let req = match outcome {
        BuildOutcome::NeedsEngine(req) => req,
        BuildOutcome::Ready(_) => panic!("expected an engine request"),
    };
    let engine = run_engine(&req.sites, req.boundary, req.iterations);
    let d = adopt(&engine, req.boundary);
    assert_eq!(d.cells().len(), 24);
    let (verts, inds) = d.mesh_buffers();
    assert_eq!(inds.len() % 3, 0);
    for tri in inds.chunks(3) {
        assert!(tri[0] != tri[1] && tri[0] != tri[2] && tri[1] != tri[2]);
        for ix in tri {
            assert!((*ix as usize) < verts.len());
        }
    }
}

fn relaxation_energy(engine: &voronoice::Voronoi) -> f64 {
    // total squared distance from each site to its own cell's centroid
    let mut energy = 0.0f64;
    for (site, ring) in engine.sites().iter().zip(engine.cells().iter()) {
        if ring.is_empty() {
            continue;
        }
        let mut cx = 0.0f64;
        let mut cy = 0.0f64;
        for ix in ring {
            cx += engine.vertices()[*ix].x;
            cy += engine.vertices()[*ix].y;
        }
        cx /= ring.len() as f64;
        cy /= ring.len() as f64;
        energy += (site.x - cx) * (site.x - cx) + (site.y - cy) * (site.y - cy);
    }
    energy
}

#[test]
fn lloyd_relaxation_reduces_centroid_energy() {
    let sites = vec![
        Point::new(-70, -80),
        Point::new(-60, -75),
        Point::new(-65, -60),
        Point::new(40, -20),
        Point::new(80, 75),
        Point::new(70, 60),
        Point::new(-10, 55),
        Point::new(5, 8),
    ];
    let boundary = Boundary::CenteredSquare(220);
    let e0 = relaxation_energy(&run_engine(&sites, boundary, 0));
    let e1 = relaxation_energy(&run_engine(&sites, boundary, 1));
    let e2 = relaxation_energy(&run_engine(&sites, boundary, 2));
    let eps = 1e-9;
    assert!(e1 <= e0 + eps);
    assert!(e2 <= e1 + eps);
}
