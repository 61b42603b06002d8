use vstd::prelude::*;

use crate::diagram::ring_wf;
use crate::diagram::Voronoi;
use crate::geometry::Point;

verus! {

/// One vertex-buffer entry: a 3D position whose z component is always zero.
#[derive(Clone, Copy, Debug, PartialEq, Eq, Structural)]
pub struct MeshVertex {
    pub x: i64,
    pub y: i64,
    pub z: i64,
}

/// The vertex-buffer entry for a grid point.
pub open spec fn mesh_vertex(p: Point) -> MeshVertex {
    MeshVertex { x: p.x, y: p.y, z: 0 }
}

/// The extractor's state after some cells have been processed: the vertex
/// buffer, the index buffer, and the remap table from diagram-vertex index
/// to its position in the vertex buffer, if it has one yet.
pub ghost struct MeshState {
    pub verts: Seq<MeshVertex>,
    pub inds: Seq<u32>,
    pub map: Seq<Option<u32>>,
}

/// The payload of a remap entry; zero for an unmapped one (never consulted
/// for unmapped entries).
pub open spec fn some_val(o: Option<u32>) -> u32 {
    match o {
        Some(x) => x,
        None => 0,
    }
}

/// How many diagram vertices are mapped so far.
pub open spec fn count_some(map: Seq<Option<u32>>) -> nat
    decreases map.len(),
{
    if map.len() == 0 {
        0
    } else {
        count_some(map.drop_last()) + (if map.last() is Some {
            1nat
        } else {
            0nat
        })
    }
}

/// One cell's deduplication pass: walk the ring in order and append each
/// still-unmapped diagram vertex to the vertex buffer, recording its new
/// position in the remap table.
pub open spec fn add_ring_verts(
    dverts: Seq<Point>,
    ring: Seq<usize>,
    verts: Seq<MeshVertex>,
    map: Seq<Option<u32>>,
) -> (Seq<MeshVertex>, Seq<Option<u32>>)
    decreases ring.len(),
{
    if ring.len() == 0 {
        (verts, map)
    } else {
        let v = ring[0] as int;
        if map[v] is None {
            add_ring_verts(
                dverts,
                ring.drop_first(),
                verts.push(mesh_vertex(dverts[v])),
                map.update(v, Some(verts.len() as u32)),
            )
        } else {
            add_ring_verts(dverts, ring.drop_first(), verts, map)
        }
    }
}

/// The ring entry after position `t`, wrapping from the last back to the
/// first.
pub open spec fn ring_next(ring: Seq<usize>, t: int) -> usize {
    if t + 1 < ring.len() {
        ring[t + 1]
    } else {
        ring[0]
    }
}

/// The first `j` triangles of one cell's fan, flattened: triangle `t` is
/// `(map[ring[t]], map[ring[t+1 cyclically]], center)`, preserving the
/// ring's counter-clockwise order.
pub open spec fn fan_inds(ring: Seq<usize>, map: Seq<Option<u32>>, center: u32, j: nat) -> Seq<u32>
    decreases j,
{
    if j == 0 {
        Seq::empty()
    } else {
        fan_inds(ring, map, center, (j - 1) as nat) + seq![
            some_val(map[ring[j - 1] as int]),
            some_val(map[ring_next(ring, j - 1) as int]),
            center,
        ]
    }
}

/// Processing one cell: append the fan-center copy of its site (never
/// deduplicated), run the deduplication pass over its ring, then — for a
/// ring of at least three vertices — emit one triangle per cyclically
/// adjacent ring pair. Shorter (degenerate) rings emit no triangles and no
/// error.
pub open spec fn extract_cell(
    sites: Seq<Point>,
    dverts: Seq<Point>,
    ring: Seq<usize>,
    st: MeshState,
    i: int,
) -> MeshState {
    let center = st.verts.len() as u32;
    let verts1 = st.verts.push(mesh_vertex(sites[i]));
    let step = add_ring_verts(dverts, ring, verts1, st.map);
    MeshState {
        verts: step.0,
        map: step.1,
        inds: if ring.len() >= 3 {
            st.inds + fan_inds(ring, step.1, center, ring.len())
        } else {
            st.inds
        },
    }
}

/// The extractor's starting state: empty buffers, nothing mapped.
pub open spec fn initial_state(num_vertices: nat) -> MeshState {
    MeshState {
        verts: Seq::empty(),
        inds: Seq::empty(),
        map: Seq::new(num_vertices, |v: int| None),
    }
}

/// The extractor's state after the first `k` cells, in diagram order.
pub open spec fn extract_upto(
    sites: Seq<Point>,
    dverts: Seq<Point>,
    cells: Seq<Seq<usize>>,
    k: int,
) -> MeshState
    decreases k,
{
    if k <= 0 {
        initial_state(dverts.len())
    } else {
        extract_cell(
            sites,
            dverts,
            cells[k - 1],
            extract_upto(sites, dverts, cells, k - 1),
            k - 1,
        )
    }
}

/// The mesh buffers of a whole diagram.
pub open spec fn mesh_spec(d: Voronoi) -> MeshState {
    extract_upto(d.sites_view(), d.vertices_view(), d.cells_view(), d.sites_view().len() as int)
}

proof fn lemma_count_some_le(map: Seq<Option<u32>>)
    ensures
        count_some(map) <= map.len(),
    decreases map.len(),
{
    if map.len() > 0 {
        lemma_count_some_le(map.drop_last());
    }
}

proof fn lemma_count_some_update(map: Seq<Option<u32>>, v: int, x: u32)
    requires
        0 <= v < map.len(),
        map[v] is None,
    ensures
        count_some(map.update(v, Some(x))) == count_some(map) + 1,
    decreases map.len(),
{
    let updated = map.update(v, Some(x));
    if v == map.len() - 1 {
        assert(updated.drop_last() =~= map.drop_last());
    } else {
        assert(updated.drop_last() =~= map.drop_last().update(v, Some(x)));
        assert(updated.last() == map.last());
        lemma_count_some_update(map.drop_last(), v, x);
    }
}

proof fn lemma_count_some_lt_of_none(map: Seq<Option<u32>>, v: int)
    requires
        0 <= v < map.len(),
        map[v] is None,
    ensures
        count_some(map) < map.len(),
    decreases map.len(),
{
    if v == map.len() - 1 {
        lemma_count_some_le(map.drop_last());
    } else {
        lemma_count_some_lt_of_none(map.drop_last(), v);
    }
}

proof fn lemma_count_some_empty_map(num_vertices: nat)
    ensures
        count_some(Seq::new(num_vertices, |v: int| None::<u32>)) == 0,
    decreases num_vertices,
{
    let map = Seq::new(num_vertices, |v: int| None::<u32>);
    if num_vertices > 0 {
        assert(map.drop_last() =~= Seq::new((num_vertices - 1) as nat, |v: int| None));
        lemma_count_some_empty_map((num_vertices - 1) as nat);
    }
}

impl Voronoi {
    /// Converts the diagram's cells into mesh buffers: a vertex buffer and a
    /// flat triangle index buffer, one counter-clockwise triangle fan per
    /// cell, in diagram cell order.
    ///
    /// Every cell first contributes a fresh copy of its site as the fan
    /// center — fan centers are deliberately never shared between cells,
    /// even for coinciding sites, so that per-cell attributes can ride on
    /// them — followed by the cell's still-unseen ring vertices; boundary
    /// and circumcenter vertices shared between adjacent cells are emitted
    /// once and reused through the remap table. Degenerate cells, with
    /// fewer than three ring vertices, contribute their vertices but no
    /// triangles; they are skipped without an error.
    pub fn mesh_buffers(&self) -> (r: (Vec<MeshVertex>, Vec<u32>))
        requires
            self.wf(),
        ensures
            r.0@ == mesh_spec(*self).verts,
            r.1@ == mesh_spec(*self).inds,
    {
        let ghost sites_seq = self.sites_view();
        let ghost dverts = self.vertices_view();
        let ghost cells_seq = self.cells_view();
        let sites_ref = self.sites();
        let verts_ref = self.vertices();
        let cells_ref = self.cells();
        let num_sites = sites_ref.len();
        let num_vertices = verts_ref.len();
        let mut verts: Vec<MeshVertex> = Vec::new();
        let mut inds: Vec<u32> = Vec::new();
        let mut map: Vec<Option<u32>> = Vec::new();
        let mut v0: usize = 0;
        while v0 < num_vertices
            invariant
                v0 <= num_vertices,
                map@.len() == v0,
                forall|t: int| 0 <= t < v0 ==> map@[t] is None,
            decreases num_vertices - v0,
        {
            map.push(None);
            v0 = v0 + 1;
        }
        proof {
            assert(map@ =~= initial_state(dverts.len()).map);
            assert(verts@ =~= initial_state(dverts.len()).verts);
            assert(inds@ =~= initial_state(dverts.len()).inds);
            lemma_count_some_empty_map(dverts.len());
        }
        let mut i: usize = 0;
        while i < num_sites
            invariant
                self.wf(),
                sites_seq == self.sites_view(),
                dverts == self.vertices_view(),
                cells_seq == self.cells_view(),
                sites_ref@ == sites_seq,
                verts_ref@ == dverts,
                cells_ref@.map_values(|ring: Vec<usize>| ring@) == cells_seq,
                num_sites == sites_seq.len(),
                num_vertices == dverts.len(),
                i <= num_sites,
                verts@ == extract_upto(sites_seq, dverts, cells_seq, i as int).verts,
                inds@ == extract_upto(sites_seq, dverts, cells_seq, i as int).inds,
                map@ == extract_upto(sites_seq, dverts, cells_seq, i as int).map,
                map@.len() == num_vertices,
                verts@.len() == i + count_some(map@),
                count_some(map@) <= num_vertices,
            decreases num_sites - i,
        {
            let ghost st0 = extract_upto(sites_seq, dverts, cells_seq, i as int);
            let center: u32 = verts.len() as u32;
            let site = sites_ref[i];
            verts.push(MeshVertex { x: site.x, y: site.y, z: 0 });
            let ghost verts1 = st0.verts.push(mesh_vertex(sites_seq[i as int]));
            proof {
                assert(verts@ == verts1);
                assert(cells_seq[i as int] == self.cells_view()[i as int]);
                assert(ring_wf(cells_seq[i as int], dverts.len()));
            }
            proof {
                assert(cells_seq.len() == num_sites);
                assert(cells_ref@.map_values(|ring: Vec<usize>| ring@).len() == num_sites);
                assert(cells_seq[i as int] == cells_ref@[i as int]@);
            }
            let ring = &cells_ref[i];
            proof {
                assert(ring@ == cells_seq[i as int]);
            }
            let ring_len = ring.len();
            proof {
                assert(ring@.subrange(0, ring_len as int) =~= ring@);
                assert(verts@ == verts1);
                assert(map@ == st0.map);
            }
            let mut j: usize = 0;
            while j < ring_len
                invariant
                    num_vertices == dverts.len(),
                    verts_ref@ == dverts,
                    ring_len == ring@.len(),
                    ring_wf(ring@, num_vertices as nat),
                    i < num_sites,
                    num_sites + num_vertices <= u32::MAX,
                    j <= ring_len,
                    map@.len() == num_vertices,
                    verts@.len() == i + 1 + count_some(map@),
                    count_some(map@) <= num_vertices,
                    forall|t: int| 0 <= t < j ==> map@[ring@[t] as int] is Some,
                    add_ring_verts(
                        dverts,
                        ring@.subrange(j as int, ring_len as int),
                        verts@,
                        map@,
                    ) == add_ring_verts(dverts, ring@, verts1, st0.map),
                decreases ring_len - j,
            {
                let rv = ring[j];
                proof {
                    assert((ring@[j as int] as nat) < num_vertices);
                    assert((rv as int) < map@.len());
                }
                let ghost pre_verts = verts@;
                let ghost pre_map = map@;
                if map[rv].is_none() {
                    proof {
                        lemma_count_some_lt_of_none(pre_map, rv as int);
                    }
                    let pos: u32 = verts.len() as u32;
                    let dv = verts_ref[rv];
                    verts.push(MeshVertex { x: dv.x, y: dv.y, z: 0 });
                    map.set(rv, Some(pos));
                    proof {
                        assert(pos == pre_verts.len() as u32);
                        assert(verts@ == pre_verts.push(mesh_vertex(dverts[rv as int])));
                        assert(map@ == pre_map.update(rv as int, Some(pre_verts.len() as u32)));
                        lemma_count_some_update(pre_map, rv as int, pos);
                    }
                }
                proof {
                    let tail = ring@.subrange(j as int, ring_len as int);
                    assert(tail.len() == ring_len - j);
                    assert(tail[0] == ring@[j as int]);
                    assert(tail.drop_first() =~= ring@.subrange(j + 1, ring_len as int));
                    if pre_map[rv as int] is None {
                        assert(add_ring_verts(dverts, tail, pre_verts, pre_map)
                            == add_ring_verts(
                            dverts,
                            tail.drop_first(),
                            pre_verts.push(mesh_vertex(dverts[tail[0] as int])),
                            pre_map.update(tail[0] as int, Some(pre_verts.len() as u32)),
                        ));
                    } else {
                        assert(add_ring_verts(dverts, tail, pre_verts, pre_map)
                            == add_ring_verts(dverts, tail.drop_first(), pre_verts, pre_map));
                    }
                    assert(add_ring_verts(dverts, tail, pre_verts, pre_map) == add_ring_verts(
                        dverts,
                        ring@.subrange(j + 1, ring_len as int),
                        verts@,
                        map@,
                    ));
                    assert(forall|t: int|
                        0 <= t < j ==> map@[ring@[t] as int] is Some) by {
                        assert(forall|t: int|
                            0 <= t < j ==> pre_map[ring@[t] as int] is Some);
                    }
                }
                j = j + 1;
            }
            proof {
                assert(ring@.subrange(ring_len as int, ring_len as int) =~= Seq::<usize>::empty());
                assert(add_ring_verts(
                    dverts,
                    ring@.subrange(ring_len as int, ring_len as int),
                    verts@,
                    map@,
                ) == (verts@, map@));
                assert((verts@, map@) == add_ring_verts(dverts, ring@, verts1, st0.map));
            }
            let ghost inds_before = inds@;
            let ghost map2 = map@;
            if ring_len >= 3 {
                let mut j2: usize = 0;
                while j2 < ring_len
                    invariant
                        ring_len == ring@.len(),
                        ring_len >= 3,
                        j2 <= ring_len,
                        map@ == map2,
                        map@.len() == num_vertices,
                        num_vertices == dverts.len(),
                        ring_wf(ring@, num_vertices as nat),
                        forall|t: int| 0 <= t < ring_len ==> map2[ring@[t] as int] is Some,
                        inds@ == inds_before + fan_inds(ring@, map2, center, j2 as nat),
                    decreases ring_len - j2,
                {
                    let a = ring[j2];
                    let b = if j2 + 1 < ring_len {
                        ring[j2 + 1]
                    } else {
                        ring[0]
                    };
                    proof {
                        assert(map2[a as int] is Some);
                        assert(b == ring_next(ring@, j2 as int));
                        assert(map2[b as int] is Some);
                    }
                    let ma = match map[a] {
                        Some(x) => x,
                        None => 0,
                    };
                    let mb = match map[b] {
                        Some(x) => x,
                        None => 0,
                    };
                    inds.push(ma);
                    inds.push(mb);
                    inds.push(center);
                    proof {
                        assert(ma == some_val(map2[a as int]));
                        assert(mb == some_val(map2[b as int]));
                        assert(inds@ =~= inds_before + fan_inds(
                            ring@,
                            map2,
                            center,
                            (j2 + 1) as nat,
                        ));
                    }
                    j2 = j2 + 1;
                }
            }
            proof {
                let st1 = extract_upto(sites_seq, dverts, cells_seq, i + 1);
                assert(st1 == extract_cell(sites_seq, dverts, cells_seq[i as int], st0, i as int));
                let step = add_ring_verts(dverts, cells_seq[i as int], verts1, st0.map);
                assert(verts@ == step.0);
                assert(map@ == step.1);
                assert(center == st0.verts.len() as u32);
                if ring_len >= 3 {
                    assert(inds@ == st0.inds + fan_inds(
                        cells_seq[i as int],
                        step.1,
                        center,
                        cells_seq[i as int].len(),
                    ));
                } else {
                    assert(inds@ == st0.inds);
                }
                assert(verts@ == st1.verts);
                assert(inds@ == st1.inds);
                assert(map@ == st1.map);
            }
            i = i + 1;
        }
        (verts, inds)
    }
}

/// Pairs every element of a sequence with its cyclic successor: entry `k`
/// is `(vec[k], vec[(k + 1) % len])`.
pub fn ring<T: Copy>(vec: &Vec<T>) -> (r: Vec<(T, T)>)
    ensures
        r@.len() == vec@.len(),
        forall|k: int|
            0 <= k < vec@.len() ==> r@[k] == (vec@[k], vec@[(k + 1) % (vec@.len() as int)]),
{
    let len = vec.len();
    let mut r: Vec<(T, T)> = Vec::new();
    let mut k: usize = 0;
    while k < len
        invariant
            len == vec@.len(),
            k <= len,
            r@.len() == k,
            forall|t: int|
                0 <= t < k ==> r@[t] == (vec@[t], vec@[(t + 1) % (vec@.len() as int)]),
        decreases len - k,
    {
        let next = if k + 1 < len {
            vec[k + 1]
        } else {
            vec[0]
        };
        r.push((vec[k], next));
        proof {
            if k + 1 < len {
                vstd::arithmetic::div_mod::lemma_small_mod((k + 1) as nat, len as nat);
            } else {
                vstd::arithmetic::div_mod::lemma_mod_self_0(len as int);
            }
        }
        k = k + 1;
    }
    r
}

/// Whether diagram-vertex index `v` occurs in a ring.
pub open spec fn in_ring(ring: Seq<usize>, v: int) -> bool {
    exists|t: int| 0 <= t < ring.len() && ring[t] as int == v
}

/// The remap table is internally consistent for a vertex buffer: mapped
/// positions are in range and no two diagram vertices share one.
pub open spec fn state_wf(st: MeshState, num_vertices: nat) -> bool {
    &&& st.map.len() == num_vertices
    &&& forall|v: int|
        0 <= v < num_vertices && st.map[v] is Some ==> (some_val(st.map[v]) as int)
            < st.verts.len()
    &&& forall|v1: int, v2: int|
        0 <= v1 < num_vertices && 0 <= v2 < num_vertices && v1 != v2 && st.map[v1] is Some
            && st.map[v2] is Some ==> some_val(st.map[v1]) != some_val(st.map[v2])
}

proof fn lemma_add_ring_verts_props(
    dverts: Seq<Point>,
    ring: Seq<usize>,
    verts: Seq<MeshVertex>,
    map: Seq<Option<u32>>,
)
    requires
        forall|t: int| 0 <= t < ring.len() ==> (ring[t] as int) < map.len(),
        forall|v: int|
            0 <= v < map.len() && map[v] is Some ==> (some_val(map[v]) as int) < verts.len(),
        forall|v1: int, v2: int|
            0 <= v1 < map.len() && 0 <= v2 < map.len() && v1 != v2 && map[v1] is Some
                && map[v2] is Some ==> some_val(map[v1]) != some_val(map[v2]),
        verts.len() + (map.len() - count_some(map)) <= u32::MAX,
    ensures
        ({
            let r = add_ring_verts(dverts, ring, verts, map);
            &&& r.1.len() == map.len()
            &&& r.0.len() >= verts.len()
            &&& r.0.len() + (map.len() - count_some(r.1)) == verts.len() + (map.len()
                - count_some(map))
            &&& count_some(r.1) >= count_some(map)
            &&& forall|k: int| 0 <= k < verts.len() ==> r.0[k] == verts[k]
            &&& forall|v: int| 0 <= v < map.len() && map[v] is Some ==> r.1[v] == map[v]
            &&& forall|v: int|
                0 <= v < map.len() && r.1[v] is Some ==> map[v] is Some || in_ring(ring, v)
            &&& forall|v: int| 0 <= v < map.len() && in_ring(ring, v) ==> r.1[v] is Some
            &&& forall|v: int|
                0 <= v < map.len() && r.1[v] is Some && map[v] is None ==> verts.len()
                    <= some_val(r.1[v]) < r.0.len()
            &&& forall|v: int|
                0 <= v < map.len() && r.1[v] is Some ==> (some_val(r.1[v]) as int) < r.0.len()
            &&& forall|v1: int, v2: int|
                0 <= v1 < map.len() && 0 <= v2 < map.len() && v1 != v2 && r.1[v1] is Some
                    && r.1[v2] is Some ==> some_val(r.1[v1]) != some_val(r.1[v2])
            &&& (forall|k: int| 0 <= k < verts.len() ==> verts[k].z == 0) ==> (forall|k: int|
                0 <= k < r.0.len() ==> r.0[k].z == 0)
        }),
    decreases ring.len(),
{
    if ring.len() == 0 {
    } else {
        let h = ring[0] as int;
        let tail = ring.drop_first();
        assert(forall|t: int| 0 <= t < tail.len() ==> tail[t] == ring[t + 1]);
        if map[h] is None {
            lemma_count_some_lt_of_none(map, h);
            let verts_n = verts.push(mesh_vertex(dverts[h]));
            let map_n = map.update(h, Some(verts.len() as u32));
            lemma_count_some_update(map, h, verts.len() as u32);
            assert(some_val(map_n[h]) == verts.len() as u32);
            lemma_add_ring_verts_props(dverts, tail, verts_n, map_n);
            let r = add_ring_verts(dverts, ring, verts, map);
            let rr = add_ring_verts(dverts, tail, verts_n, map_n);
            assert(r == rr);
            assert forall|k: int| 0 <= k < verts.len() implies r.0[k] == verts[k] by {
                assert(r.0[k] == rr.0[k]);
                assert(rr.0[k] == verts_n[k]);
                assert(verts_n[k] == verts[k]);
            }
            assert forall|v: int|
                0 <= v < map.len() && map[v] is Some implies r.1[v] == map[v] by {
                assert(v != h);
                assert(map_n[v] == map[v]);
                assert(rr.1[v] == map_n[v]);
            }
            assert forall|v: int|
                0 <= v < map.len() && r.1[v] is Some && map[v] is None implies verts.len()
                <= some_val(r.1[v]) by {
                if v == h {
                    assert(map_n[h] is Some);
                    assert(rr.1[h] == map_n[h]);
                    assert(some_val(map_n[h]) == verts.len() as u32);
                    assert(verts.len() < u32::MAX);
                } else {
                    assert(map_n[v] is None);
                    assert(verts_n.len() <= some_val(rr.1[v]));
                }
            }
            assert forall|v: int|
                0 <= v < map.len() && r.1[v] is Some implies map[v] is Some || in_ring(ring, v) by {
                if map[v] is None {
                    if v == h {
                        assert(ring[0] as int == v);
                    } else {
                        assert(map_n[v] is None);
                        assert(in_ring(tail, v));
                        let t = choose|t: int| 0 <= t < tail.len() && tail[t] as int == v;
                        assert(ring[t + 1] as int == v);
                    }
                }
            }
            assert forall|v: int|
                0 <= v < map.len() && in_ring(ring, v) implies r.1[v] is Some by {
                let t = choose|t: int| 0 <= t < ring.len() && ring[t] as int == v;
                if t == 0 {
                    assert(map_n[v] is Some);
                } else {
                    assert(tail[t - 1] as int == v);
                    assert(in_ring(tail, v));
                }
            }
        } else {
            lemma_add_ring_verts_props(dverts, tail, verts, map);
            let r = add_ring_verts(dverts, ring, verts, map);
            let rr = add_ring_verts(dverts, tail, verts, map);
            assert(r == rr);
            assert forall|k: int| 0 <= k < verts.len() implies r.0[k] == verts[k] by {
                assert(r.0[k] == rr.0[k]);
                assert(rr.0[k] == verts[k]);
            }
            assert forall|v: int|
                0 <= v < map.len() && map[v] is Some implies r.1[v] == map[v] by {
                assert(rr.1[v] == map[v]);
            }
            assert forall|v: int|
                0 <= v < map.len() && r.1[v] is Some implies map[v] is Some || in_ring(ring, v) by {
                if map[v] is None {
                    assert(in_ring(tail, v));
                    let t = choose|t: int| 0 <= t < tail.len() && tail[t] as int == v;
                    assert(ring[t + 1] as int == v);
                }
            }
            assert forall|v: int|
                0 <= v < map.len() && in_ring(ring, v) implies r.1[v] is Some by {
                let t = choose|t: int| 0 <= t < ring.len() && ring[t] as int == v;
                if t == 0 {
                    assert(map[v] is Some);
                } else {
                    assert(tail[t - 1] as int == v);
                    assert(in_ring(tail, v));
                }
            }
        }
    }
}

proof fn lemma_fan_len(ring: Seq<usize>, map: Seq<Option<u32>>, center: u32, j: nat)
    ensures
        fan_inds(ring, map, center, j).len() == 3 * j,
    decreases j,
{
    if j > 0 {
        lemma_fan_len(ring, map, center, (j - 1) as nat);
    }
}

proof fn lemma_fan_index(ring: Seq<usize>, map: Seq<Option<u32>>, center: u32, j: nat, t: int)
    requires
        0 <= t < j,
    ensures
        fan_inds(ring, map, center, j)[3 * t] == some_val(map[ring[t] as int]),
        fan_inds(ring, map, center, j)[3 * t + 1] == some_val(map[ring_next(ring, t) as int]),
        fan_inds(ring, map, center, j)[3 * t + 2] == center,
    decreases j,
{
    lemma_fan_len(ring, map, center, (j - 1) as nat);
    if t < j - 1 {
        lemma_fan_index(ring, map, center, (j - 1) as nat, t);
    }
}

proof fn lemma_extract_props(sites: Seq<Point>, dverts: Seq<Point>, cells: Seq<Seq<usize>>, k: int)
    requires
        0 <= k <= cells.len(),
        cells.len() == sites.len(),
        sites.len() + dverts.len() <= u32::MAX,
        forall|i: int| 0 <= i < cells.len() ==> ring_wf(cells[i], dverts.len()),
    ensures
        ({
            let st = extract_upto(sites, dverts, cells, k);
            &&& state_wf(st, dverts.len())
            &&& st.verts.len() == k + count_some(st.map)
            &&& count_some(st.map) <= dverts.len()
            &&& st.inds.len() % 3 == 0
            &&& forall|x: int| 0 <= x < st.inds.len() ==> (st.inds[x] as int) < st.verts.len()
            &&& forall|x: int, y: int|
                0 <= x < st.inds.len() && 0 <= y < st.inds.len() && x != y && x / 3 == y / 3
                    ==> st.inds[x] != st.inds[y]
            &&& forall|v: int|
                0 <= v < dverts.len() ==> (st.map[v] is Some <==> exists|i: int|
                    0 <= i < k && in_ring(cells[i], v))
            &&& forall|k2: int| 0 <= k2 < st.verts.len() ==> st.verts[k2].z == 0
        }),
    decreases k,
{
    let m = dverts.len();
    if k == 0 {
        lemma_count_some_empty_map(m);
        assert(extract_upto(sites, dverts, cells, 0) == initial_state(m));
    } else {
        lemma_extract_props(sites, dverts, cells, k - 1);
        let st0 = extract_upto(sites, dverts, cells, k - 1);
        let st1 = extract_upto(sites, dverts, cells, k);
        let ring = cells[k - 1];
        assert(st1 == extract_cell(sites, dverts, ring, st0, k - 1));
        let center = st0.verts.len() as u32;
        let verts1 = st0.verts.push(mesh_vertex(sites[k - 1]));
        lemma_count_some_le(st0.map);
        assert(st0.verts.len() < u32::MAX);
        assert(ring_wf(ring, m));
        lemma_add_ring_verts_props(dverts, ring, verts1, st0.map);
        let step = add_ring_verts(dverts, ring, verts1, st0.map);
        assert(st1.verts == step.0 && st1.map == step.1);
        lemma_count_some_le(step.1);
        assert(forall|k2: int| 0 <= k2 < verts1.len() ==> verts1[k2].z == 0);
        assert(forall|k2: int| 0 <= k2 < st1.verts.len() ==> st1.verts[k2].z == 0);
        // every mapped position differs from the fan center
        assert forall|v: int|
            0 <= v < m && step.1[v] is Some implies some_val(step.1[v]) != center by {
            if st0.map[v] is Some {
                assert(step.1[v] == st0.map[v]);
                assert((some_val(st0.map[v]) as int) < st0.verts.len());
            } else {
                assert(verts1.len() <= some_val(step.1[v]));
            }
        }
        if ring.len() >= 3 {
            let block = fan_inds(ring, step.1, center, ring.len());
            lemma_fan_len(ring, step.1, center, ring.len());
            assert(st1.inds == st0.inds + block);
            vstd::arithmetic::div_mod::lemma_mod_multiples_vanish(
                ring.len() as int,
                st0.inds.len() as int,
                3,
            );
            assert((st0.inds.len() + 3 * ring.len()) % 3 == st0.inds.len() % 3);
            // the new block's triangles are well formed
            assert forall|x: int, y: int|
                0 <= x < st1.inds.len() && 0 <= y < st1.inds.len() && x != y && x / 3 == y
                    / 3 implies st1.inds[x] != st1.inds[y] by {
                let t = x / 3;
                vstd::arithmetic::div_mod::lemma_fundamental_div_mod(x, 3);
                vstd::arithmetic::div_mod::lemma_fundamental_div_mod(y, 3);
                let rx = x % 3;
                let ry = y % 3;
                assert(x == 3 * t + rx && 0 <= rx < 3);
                assert(y == 3 * t + ry && 0 <= ry < 3);
                let t0 = st0.inds.len() / 3;
                vstd::arithmetic::div_mod::lemma_fundamental_div_mod(st0.inds.len() as int, 3);
                assert(st0.inds.len() == 3 * t0);
                if t < t0 {
                    assert(x < st0.inds.len() && y < st0.inds.len());
                    assert(st1.inds[x] == st0.inds[x] && st1.inds[y] == st0.inds[y]);
                } else {
                    assert(x >= st0.inds.len() && y >= st0.inds.len());
                    let u = t - t0;
                    assert(0 <= u < ring.len());
                    lemma_fan_index(ring, step.1, center, ring.len(), u);
                    assert(st1.inds[x] == block[3 * u + rx]);
                    assert(st1.inds[y] == block[3 * u + ry]);
                    let a = ring[u] as int;
                    let b = ring_next(ring, u) as int;
                    if u + 1 < ring.len() {
                        assert(ring[u] != ring[u + 1]);
                    } else {
                        assert(ring[0] != ring[u]);
                    }
                    assert(a != b);
                    assert(in_ring(ring, a));
                    assert(in_ring(ring, b));
                    assert(step.1[a] is Some && step.1[b] is Some);
                    assert(block[3 * u] != block[3 * u + 1]);
                    assert(block[3 * u] != block[3 * u + 2]);
                    assert(block[3 * u + 1] != block[3 * u + 2]);
                }
            }
            // all indices stay inside the vertex buffer
            assert forall|x: int|
                0 <= x < st1.inds.len() implies (st1.inds[x] as int) < st1.verts.len() by {
                if x < st0.inds.len() {
                    assert(st1.inds[x] == st0.inds[x]);
                } else {
                    let y = x - st0.inds.len();
                    let u = y / 3;
                    vstd::arithmetic::div_mod::lemma_fundamental_div_mod(y, 3);
                    assert(y == 3 * u + (y % 3));
                    assert(0 <= u < ring.len());
                    lemma_fan_index(ring, step.1, center, ring.len(), u);
                    assert(in_ring(ring, ring[u] as int));
                    assert(in_ring(ring, ring_next(ring, u) as int));
                }
            }
        } else {
            assert(st1.inds == st0.inds);
            assert forall|x: int|
                0 <= x < st1.inds.len() implies (st1.inds[x] as int) < st1.verts.len() by {
                assert(st1.inds[x] == st0.inds[x]);
            }
        }
        // a vertex is mapped exactly when some processed cell references it
        assert forall|v: int|
            0 <= v < m implies (st1.map[v] is Some <==> exists|i: int|
                0 <= i < k && in_ring(cells[i], v)) by {
            if st1.map[v] is Some {
                if st0.map[v] is Some {
                    let i = choose|i: int| 0 <= i < k - 1 && in_ring(cells[i], v);
                    assert(0 <= i < k && in_ring(cells[i], v));
                } else {
                    assert(in_ring(ring, v));
                    assert(0 <= k - 1 < k && in_ring(cells[k - 1], v));
                }
            }
            if exists|i: int| 0 <= i < k && in_ring(cells[i], v) {
                let i = choose|i: int| 0 <= i < k && in_ring(cells[i], v);
                if i < k - 1 {
                    assert(st0.map[v] is Some);
                    assert(st1.map[v] == st0.map[v]);
                } else {
                    assert(in_ring(ring, v));
                }
            }
        }
    }
}

/// Law: the index buffer length is always a multiple of three — it holds
/// whole triangles only.
pub proof fn lemma_mesh_triangle_count(d: Voronoi)
    requires
        d.wf(),
    ensures
        mesh_spec(d).inds.len() % 3 == 0,
{
    lemma_extract_props(
        d.sites_view(),
        d.vertices_view(),
        d.cells_view(),
        d.sites_view().len() as int,
    );
}

/// Law: every emitted triangle is proper: its three indices are pairwise
/// distinct, and every index refers into the vertex buffer.
pub proof fn lemma_mesh_triangles_wf(d: Voronoi)
    requires
        d.wf(),
    ensures
        forall|x: int, y: int|
            0 <= x < mesh_spec(d).inds.len() && 0 <= y < mesh_spec(d).inds.len() && x != y && x / 3
                == y / 3 ==> mesh_spec(d).inds[x] != mesh_spec(d).inds[y],
        forall|x: int|
            0 <= x < mesh_spec(d).inds.len() ==> (mesh_spec(d).inds[x] as int) < mesh_spec(
                d,
            ).verts.len(),
{
    lemma_extract_props(
        d.sites_view(),
        d.vertices_view(),
        d.cells_view(),
        d.sites_view().len() as int,
    );
}

/// Law: the vertex buffer holds one never-shared fan-center copy per site
/// plus each distinct referenced diagram vertex exactly once: its length is
/// the site count plus the number of mapped diagram vertices, and a diagram
/// vertex is mapped exactly when some cell references it.
pub proof fn lemma_mesh_vertex_count(d: Voronoi)
    requires
        d.wf(),
    ensures
        mesh_spec(d).verts.len() == d.sites_view().len() + count_some(mesh_spec(d).map),
        forall|v: int|
            0 <= v < d.vertices_view().len() ==> (mesh_spec(d).map[v] is Some <==> exists|i: int|
                0 <= i < d.cells_view().len() && in_ring(d.cells_view()[i], v)),
{
    lemma_extract_props(
        d.sites_view(),
        d.vertices_view(),
        d.cells_view(),
        d.sites_view().len() as int,
    );
}

/// The triangle block one cell appends to the index buffer: its full fan
/// for a ring of at least three vertices, nothing for a degenerate ring.
pub open spec fn cell_fan(d: Voronoi, i: int) -> Seq<u32> {
    let st0 = extract_upto(d.sites_view(), d.vertices_view(), d.cells_view(), i);
    let ring = d.cells_view()[i];
    let step = add_ring_verts(
        d.vertices_view(),
        ring,
        st0.verts.push(mesh_vertex(d.sites_view()[i])),
        st0.map,
    );
    if ring.len() >= 3 {
        fan_inds(ring, step.1, st0.verts.len() as u32, ring.len())
    } else {
        Seq::empty()
    }
}

proof fn lemma_inds_prefix(sites: Seq<Point>, dverts: Seq<Point>, cells: Seq<Seq<usize>>, a: int, b: int)
    requires
        0 <= a <= b,
    ensures
        extract_upto(sites, dverts, cells, a).inds.is_prefix_of(
            extract_upto(sites, dverts, cells, b).inds,
        ),
    decreases b - a,
{
    if a < b {
        lemma_inds_prefix(sites, dverts, cells, a, b - 1);
        let stb = extract_upto(sites, dverts, cells, b);
        let stp = extract_upto(sites, dverts, cells, b - 1);
        assert(stb == extract_cell(sites, dverts, cells[b - 1], stp, b - 1));
    }
}

/// Law: the index buffer is ordered by cell. The triangles of cell `i` are
/// exactly the contiguous block between the index-buffer lengths after `i`
/// and after `i + 1` cells, so every cell's triangles sit together and the
/// blocks follow diagram cell order.
pub proof fn lemma_mesh_cell_blocks(d: Voronoi, i: int)
    requires
        d.wf(),
        0 <= i < d.sites_view().len(),
    ensures
        ({
            let sites = d.sites_view();
            let dverts = d.vertices_view();
            let cells = d.cells_view();
            let start = extract_upto(sites, dverts, cells, i).inds.len() as int;
            let end = extract_upto(sites, dverts, cells, i + 1).inds.len() as int;
            &&& start <= end <= mesh_spec(d).inds.len()
            &&& mesh_spec(d).inds.subrange(start, end) == cell_fan(d, i)
            &&& cell_fan(d, i).len() == (if d.cells_view()[i].len() >= 3 {
                3 * d.cells_view()[i].len()
            } else {
                0
            })
        }),
{
    let sites = d.sites_view();
    let dverts = d.vertices_view();
    let cells = d.cells_view();
    let st0 = extract_upto(sites, dverts, cells, i);
    let st1 = extract_upto(sites, dverts, cells, i + 1);
    assert(st1 == extract_cell(sites, dverts, cells[i], st0, i));
    assert(st1.inds == st0.inds + cell_fan(d, i));
    if cells[i].len() >= 3 {
        let step = add_ring_verts(
            dverts,
            cells[i],
            st0.verts.push(mesh_vertex(sites[i])),
            st0.map,
        );
        lemma_fan_len(cells[i], step.1, st0.verts.len() as u32, cells[i].len());
    }
    lemma_inds_prefix(sites, dverts, cells, i + 1, sites.len() as int);
    let full = mesh_spec(d).inds;
    let start = st0.inds.len() as int;
    let end = st1.inds.len() as int;
    assert(st1.inds == full.subrange(0, end));
    assert(full.subrange(start, end) =~= cell_fan(d, i)) by {
        assert forall|x: int| 0 <= x < end - start implies full.subrange(start, end)[x]
            == cell_fan(d, i)[x] by {
            assert(full[start + x] == full.subrange(0, end)[start + x]);
            assert(st1.inds[start + x] == cell_fan(d, i)[x]);
        }
    }
}

/// The vertex-buffer position holding cell `i`'s fan-center vertex.
pub open spec fn center_slot(d: Voronoi, i: int) -> int {
    extract_upto(d.sites_view(), d.vertices_view(), d.cells_view(), i).verts.len() as int
}

proof fn lemma_verts_preserved(
    sites: Seq<Point>,
    dverts: Seq<Point>,
    cells: Seq<Seq<usize>>,
    a: int,
    b: int,
)
    requires
        0 <= a <= b <= cells.len(),
        cells.len() == sites.len(),
        sites.len() + dverts.len() <= u32::MAX,
        forall|i: int| 0 <= i < cells.len() ==> ring_wf(cells[i], dverts.len()),
    ensures
        extract_upto(sites, dverts, cells, b).verts.len() >= extract_upto(
            sites,
            dverts,
            cells,
            a,
        ).verts.len(),
        forall|k: int|
            0 <= k < extract_upto(sites, dverts, cells, a).verts.len() ==> extract_upto(
                sites,
                dverts,
                cells,
                b,
            ).verts[k] == extract_upto(sites, dverts, cells, a).verts[k],
    decreases b - a,
{
    if a < b {
        lemma_verts_preserved(sites, dverts, cells, a, b - 1);
        lemma_extract_props(sites, dverts, cells, b - 1);
        let sta = extract_upto(sites, dverts, cells, a);
        let stp = extract_upto(sites, dverts, cells, b - 1);
        let stb = extract_upto(sites, dverts, cells, b);
        assert(stb == extract_cell(sites, dverts, cells[b - 1], stp, b - 1));
        let verts1 = stp.verts.push(mesh_vertex(sites[b - 1]));
        lemma_count_some_le(stp.map);
        lemma_add_ring_verts_props(dverts, cells[b - 1], verts1, stp.map);
        let step = add_ring_verts(dverts, cells[b - 1], verts1, stp.map);
        assert forall|k: int| 0 <= k < sta.verts.len() implies stb.verts[k] == sta.verts[k] by {
            assert(stp.verts[k] == sta.verts[k]);
            assert(verts1[k] == stp.verts[k]);
            assert(step.0[k] == verts1[k]);
        }
    }
}

/// Law: fan centers are never shared. Cell `i` owns the vertex-buffer
/// entry at its center slot, and that entry is a fresh copy of the cell's
/// own site position with z = 0, even when two sites coincide.
pub proof fn lemma_mesh_fan_centers(d: Voronoi, i: int)
    requires
        d.wf(),
        0 <= i < d.sites_view().len(),
    ensures
        0 <= center_slot(d, i) < mesh_spec(d).verts.len(),
        mesh_spec(d).verts[center_slot(d, i)] == mesh_vertex(d.sites_view()[i]),
{
    let sites = d.sites_view();
    let dverts = d.vertices_view();
    let cells = d.cells_view();
    let n = sites.len() as int;
    lemma_extract_props(sites, dverts, cells, i);
    let stp = extract_upto(sites, dverts, cells, i);
    let st1 = extract_upto(sites, dverts, cells, i + 1);
    assert(st1 == extract_cell(sites, dverts, cells[i], stp, i));
    let verts1 = stp.verts.push(mesh_vertex(sites[i]));
    lemma_count_some_le(stp.map);
    lemma_add_ring_verts_props(dverts, cells[i], verts1, stp.map);
    let step = add_ring_verts(dverts, cells[i], verts1, stp.map);
    let slot = center_slot(d, i);
    assert(verts1[slot] == mesh_vertex(sites[i]));
    assert(st1.verts[slot] == verts1[slot]);
    lemma_verts_preserved(sites, dverts, cells, i + 1, n);
    assert(mesh_spec(d).verts[slot] == st1.verts[slot]);
}

/// Law: the mesh is flat. Every vertex-buffer entry lies in the z = 0
/// plane.
pub proof fn lemma_mesh_vertices_flat(d: Voronoi)
    requires
        d.wf(),
    ensures
        forall|k: int| 0 <= k < mesh_spec(d).verts.len() ==> mesh_spec(d).verts[k].z == 0,
{
    lemma_extract_props(
        d.sites_view(),
        d.vertices_view(),
        d.cells_view(),
        d.sites_view().len() as int,
    );
}

} // verus!
