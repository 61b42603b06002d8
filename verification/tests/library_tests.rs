use voronoi_mesh::{
    random_points, random_uniform, ring, Boundary, BuildOutcome, ConfigurationError,
    ConstructionError, MeshVertex, Point, Voronoi, VoronoiBuilder,
};

#[test]
fn boundary_square_corners() {
    let b = Boundary::CenteredSquare(200);
    assert_eq!(b.size(), (200, 200));
    assert_eq!(b.top_left(), (-100, 100));
    assert_eq!(b.bottom_right(), (100, -100));
}

#[test]
fn boundary_rectangle_corners() {
    let b = Boundary::CenteredRectangle(10, 4);
    assert_eq!(b.size(), (10, 4));
    assert_eq!(b.top_left(), (-5, 2));
    assert_eq!(b.bottom_right(), (5, -2));
}

#[test]
fn boundary_odd_dimensions_span_exactly() {
    let b = Boundary::CenteredRectangle(7, 1);
    let tl = b.top_left();
    let br = b.bottom_right();
    // the corners are strictly ordered and span exactly the dimensions
    assert!(tl.0 < br.0);
    assert!(tl.1 > br.1);
    assert_eq!(br.0 - tl.0, 7);
    assert_eq!(tl.1 - br.1, 1);
}

#[test]
fn boundary_default_is_square_ten() {
    assert_eq!(Boundary::default(), Boundary::CenteredSquare(10));
}

#[test]
fn random_uniform_is_deterministic_per_seed() {
    let b = Boundary::CenteredSquare(200);
    let a = random_uniform(b, 32, 42);
    let c = random_uniform(b, 32, 42);
    assert_eq!(a, c);
}

#[test]
fn random_uniform_distinct_seeds_differ() {
    let b = Boundary::CenteredSquare(200);
    let a = random_uniform(b, 32, 1);
    let c = random_uniform(b, 32, 2);
    assert_ne!(a, c);
}

#[test]
fn random_uniform_stays_in_bounds() {
    let b = Boundary::CenteredRectangle(50, 30);
    let pts = random_uniform(b, 100, 7);
    assert_eq!(pts.len(), 100);
    for p in &pts {
        assert!(-25 <= p.x && p.x < 25);
        assert!(-15 <= p.y && p.y < 15);
    }
}

#[test]
fn random_uniform_zero_count_is_empty() {
    let b = Boundary::CenteredSquare(10);
    assert!(random_uniform(b, 0, 99).is_empty());
}

#[test]
fn random_points_deterministic_and_in_bounds() {
    let a = random_points(20, (-8, 8), 5);
    let c = random_points(20, (-8, 8), 5);
    assert_eq!(a, c);
    for (x, y) in &a {
        assert!(-8 <= *x && *x < 8);
        assert!(-8 <= *y && *y < 8);
    }
    let d = random_points(20, (-8, 8), 6);
    assert_ne!(a, d);
}

#[test]
fn builder_chains_into_engine_request() {
    let sites = vec![Point::new(1, 2), Point::new(-3, 4), Point::new(5, -6)];
    let outcome = VoronoiBuilder::default()
        .set_boundary(Boundary::CenteredSquare(100))
        .set_lloyd_relaxation_iterations(3)
        .set_sites(sites.clone())
        .build()
        .unwrap();
    match outcome {
        BuildOutcome::NeedsEngine(req) => {
            assert_eq!(req.sites, sites);
            assert_eq!(req.boundary, Boundary::CenteredSquare(100));
            assert_eq!(req.iterations, 3);
        }
        BuildOutcome::Ready(_) => panic!("expected an engine request"),
    }
}

#[test]
fn builder_invalid_boundary_is_configuration_error() {
    let r = VoronoiBuilder::default()
        .set_boundary(Boundary::CenteredSquare(0))
        .set_sites(vec![Point::new(0, 0)])
        .build();
    match r {
        Err(e) => assert_eq!(e, ConfigurationError::InvalidBoundaryDimensions),
        Ok(_) => panic!("expected a configuration error"),
    }
    let r2 = VoronoiBuilder::default()
        .set_boundary(Boundary::CenteredRectangle(5, -1))
        .build();
    match r2 {
        Err(e) => assert_eq!(e, ConfigurationError::InvalidBoundaryDimensions),
        Ok(_) => panic!("expected a configuration error"),
    }
}

#[test]
fn builder_zero_sites_yields_empty_diagram() {
    // the fixed policy: no sites is a valid state and gives an empty diagram
    let outcome = VoronoiBuilder::default()
        .set_boundary(Boundary::CenteredSquare(100))
        .build()
        .unwrap();
    match outcome {
        BuildOutcome::Ready(d) => {
            assert!(d.sites().is_empty());
            assert!(d.vertices().is_empty());
            assert!(d.cells().is_empty());
        }
        BuildOutcome::NeedsEngine(_) => panic!("expected a ready empty diagram"),
    }
}

#[test]
fn builder_zero_random_sites_is_deterministically_empty() {
    for seed in [0u64, 1, 99] {
        let outcome = VoronoiBuilder::default()
            .set_sites_random(Boundary::CenteredSquare(100), 0, seed)
            .build()
            .unwrap();
        match outcome {
            BuildOutcome::Ready(d) => assert!(d.sites().is_empty()),
            BuildOutcome::NeedsEngine(_) => panic!("expected a ready empty diagram"),
        }
    }
}

#[test]
fn builder_random_sites_use_sampling_boundary() {
    let b = Boundary::CenteredSquare(60);
    let outcome = VoronoiBuilder::default().set_sites_random(b, 12, 3).build().unwrap();
    match outcome {
        BuildOutcome::NeedsEngine(req) => {
            assert_eq!(req.boundary, b);
            assert_eq!(req.sites, random_uniform(b, 12, 3));
        }
        BuildOutcome::Ready(_) => panic!("expected an engine request"),
    }
}

#[test]
fn from_parts_rejects_malformed_boundary() {
    let r = Voronoi::from_parts(vec![], vec![], vec![], Boundary::CenteredSquare(-4));
    match r {
        Err(e) => assert_eq!(e, ConstructionError::MalformedBoundary),
        Ok(_) => panic!("expected a construction error"),
    }
}

#[test]
fn from_parts_rejects_cell_site_mismatch() {
    let r = Voronoi::from_parts(
        vec![Point::new(0, 0)],
        vec![],
        vec![],
        Boundary::CenteredSquare(10),
    );
    match r {
        Err(e) => assert_eq!(e, ConstructionError::CellSiteCountMismatch),
        Ok(_) => panic!("expected a construction error"),
    }
}

#[test]
fn from_parts_rejects_out_of_range_index() {
    let r = Voronoi::from_parts(
        vec![Point::new(0, 0)],
        vec![Point::new(1, 1)],
        vec![vec![0, 1]],
        Boundary::CenteredSquare(10),
    );
    match r {
        Err(e) => assert_eq!(e, ConstructionError::VertexIndexOutOfRange),
        Ok(_) => panic!("expected a construction error"),
    }
}

#[test]
fn from_parts_rejects_repeated_ring_vertex() {
    let r = Voronoi::from_parts(
        vec![Point::new(0, 0)],
        vec![Point::new(1, 1), Point::new(2, 2)],
        vec![vec![0, 1, 0]],
        Boundary::CenteredSquare(10),
    );
    match r {
        Err(e) => assert_eq!(e, ConstructionError::RepeatedRingVertex),
        Ok(_) => panic!("expected a construction error"),
    }
}

#[test]
fn from_parts_accepts_valid_parts() {
    let sites = vec![Point::new(0, 0)];
    let vertices = vec![Point::new(10, 0), Point::new(0, 10), Point::new(-10, -10)];
    let cells = vec![vec![0, 1, 2]];
    let d = Voronoi::from_parts(sites.clone(), vertices.clone(), cells.clone(), Boundary::CenteredSquare(40))
        .unwrap();
    assert_eq!(d.sites(), &sites);
    assert_eq!(d.vertices(), &vertices);
    assert_eq!(d.cells(), &cells);
}

#[test]
fn bounding_box_corner_order() {
    let d = Voronoi::from_parts(vec![], vec![], vec![], Boundary::CenteredRectangle(20, 10))
        .unwrap();
    let corners = d.bounding_box();
    assert_eq!(
        corners,
        vec![
            Point::new(-10, -5),
            Point::new(10, 5),
            Point::new(10, -5),
            Point::new(-10, 5),
        ]
    );
}

#[test]
fn default_diagram_is_empty() {
    let d = Voronoi::default();
    assert!(d.sites().is_empty());
    assert!(d.vertices().is_empty());
    assert!(d.cells().is_empty());
    let (verts, inds) = d.mesh_buffers();
    assert!(verts.is_empty());
    assert!(inds.is_empty());
}

fn mv(x: i64, y: i64) -> MeshVertex {
    MeshVertex { x, y, z: 0 }
}

#[test]
fn mesh_single_cell_exact() {
    let d = Voronoi::from_parts(
        vec![Point::new(0, 0)],
        vec![Point::new(10, 0), Point::new(0, 10), Point::new(-10, -10)],
        vec![vec![0, 1, 2]],
        Boundary::CenteredSquare(40),
    )
    .unwrap();
    let (verts, inds) = d.mesh_buffers();
    assert_eq!(verts, vec![mv(0, 0), mv(10, 0), mv(0, 10), mv(-10, -10)]);
    assert_eq!(inds, vec![1, 2, 0, 2, 3, 0, 3, 1, 0]);
}

#[test]
fn mesh_shared_vertices_are_deduplicated() {
    let d = Voronoi::from_parts(
        vec![Point::new(-1, 0), Point::new(1, 0)],
        vec![
            Point::new(0, 1),
            Point::new(0, -1),
            Point::new(-2, 0),
            Point::new(2, 0),
        ],
        vec![vec![0, 2, 1], vec![1, 3, 0]],
        Boundary::CenteredSquare(10),
    )
    .unwrap();
    let (verts, inds) = d.mesh_buffers();
    // two fan centers plus the four distinct diagram vertices, shared ones
    // emitted once
    assert_eq!(
        verts,
        vec![mv(-1, 0), mv(0, 1), mv(-2, 0), mv(0, -1), mv(1, 0), mv(2, 0)]
    );
    // cell 0 triangles first, then cell 1, each fan in ring order
    assert_eq!(inds, vec![1, 2, 0, 2, 3, 0, 3, 1, 0, 3, 5, 4, 5, 1, 4, 1, 3, 4]);
    // the index buffer holds whole triangles with pairwise-distinct corners
    assert_eq!(inds.len() % 3, 0);
    for tri in inds.chunks(3) {
        assert!(tri[0] != tri[1] && tri[0] != tri[2] && tri[1] != tri[2]);
        for ix in tri {
            assert!((*ix as usize) < verts.len());
        }
    }
}

#[test]
fn mesh_duplicate_sites_keep_their_own_fan_centers() {
    // coinciding sites still get one fan-center vertex each
    let d = Voronoi::from_parts(
        vec![Point::new(3, 3), Point::new(3, 3)],
        vec![Point::new(0, 1), Point::new(0, -1), Point::new(2, 0)],
        vec![vec![0, 1, 2], vec![2, 1, 0]],
        Boundary::CenteredSquare(10),
    )
    .unwrap();
    let (verts, _inds) = d.mesh_buffers();
    assert_eq!(verts.iter().filter(|v| **v == mv(3, 3)).count(), 2);
    assert_eq!(verts.len(), 2 + 3);
}

#[test]
fn mesh_degenerate_ring_is_skipped_without_error() {
    // the fixed policy: a ring of fewer than three vertices contributes its
    // vertices but no triangles
    let d = Voronoi::from_parts(
        vec![Point::new(0, 0)],
        vec![Point::new(1, 1), Point::new(2, 2)],
        vec![vec![0, 1]],
        Boundary::CenteredSquare(10),
    )
    .unwrap();
    let (verts, inds) = d.mesh_buffers();
    assert_eq!(verts, vec![mv(0, 0), mv(1, 1), mv(2, 2)]);
    assert!(inds.is_empty());
}

#[test]
fn ring_pairs_cyclically() {
    assert_eq!(ring(&vec![1usize, 2, 3]), vec![(1, 2), (2, 3), (3, 1)]);
    assert_eq!(ring(&vec![7usize]), vec![(7, 7)]);
    assert_eq!(ring(&Vec::<usize>::new()), vec![]);
}
