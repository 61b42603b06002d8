use vstd::prelude::*;

use crate::boundary::Boundary;
use crate::geometry::Point;

verus! {

/// rand's standard seedable generator, used for site sampling. Its state is
/// opaque to the verifier; everything proved about sampling goes through
/// `raw_draw` below.
#[verifier::external_type_specification]
#[verifier::external_body]
pub struct ExStdRng(rand::rngs::StdRng);

/// The `k`-th `next_u64` output of a `StdRng` seeded with `seed` through
/// `seed_from_u64`. For the pinned rand version, `StdRng` is a fixed
/// deterministic algorithm (ChaCha with 12 rounds) whose output stream is a
/// function of the seed alone, on every machine, so this is well defined.
pub uninterp spec fn raw_draw(seed: u64, k: nat) -> u64;

/// A seedable generator together with the count of outputs drawn so far.
/// The count is ghost: it only serves to tie each drawn value to its
/// position in the deterministic stream named by `raw_draw`.
struct Sampler {
    rng: rand::rngs::StdRng,
    seed_value: u64,
    draws: Ghost<nat>,
}

impl Sampler {
    /// The seed this generator was built from.
    pub closed spec fn seed(self) -> u64 {
        self.seed_value
    }

    /// How many outputs have been drawn so far.
    pub closed spec fn drawn(self) -> nat {
        self.draws@
    }

    /// Relies on rand's `SeedableRng::seed_from_u64` for `StdRng`: it
    /// deterministically builds the generator for `seed`, with no output
    /// drawn yet.
    #[verifier::external_body]
    fn from_seed(seed: u64) -> (s: Sampler)
        ensures
            s.seed() == seed,
            s.drawn() == 0,
    {
        Sampler {
            rng: <rand::rngs::StdRng as rand::SeedableRng>::seed_from_u64(seed),
            seed_value: seed,
            draws: Ghost(0),
        }
    }

    /// Relies on rand's `RngCore::next_u64` for `StdRng`: the next output is
    /// the deterministic function `raw_draw` of the seed and of how many
    /// outputs were drawn before it.
    #[verifier::external_body]
    fn next_raw(&mut self) -> (r: u64)
        ensures
            r == raw_draw(old(self).seed(), old(self).drawn()),
            final(self).seed() == old(self).seed(),
            final(self).drawn() == old(self).drawn() + 1,
    {
        rand::RngCore::next_u64(&mut self.rng)
    }
}

/// Folds a raw 64-bit draw into the half-open range `[lo, hi)` by taking the
/// remainder of the draw by the range's span. Meaningful when `lo < hi`.
pub open spec fn in_range_spec(raw: u64, lo: int, hi: int) -> int {
    lo + (raw as int) % (hi - lo)
}

/// Reduces a raw draw into `[lo, hi)`.
fn reduce_to_range(raw: u64, lo: i64, hi: i64) -> (r: i64)
    requires
        lo < hi,
    ensures
        r == in_range_spec(raw, lo as int, hi as int),
        lo <= r < hi,
{
    let span: i128 = (hi as i128) - (lo as i128);
    let off: u128 = (raw as u128) % (span as u128);
    proof {
        assert(span == hi - lo);
        assert(span as u128 == span);
        assert(off == (raw as int) % (span as int));
        assert(0 <= off < span);
    }
    ((lo as i128) + (off as i128)) as i64
}

/// The `j`-th point drawn for `boundary` from `seed`: its x coordinate comes
/// from draw `2 * j` folded into `[left, right)`, its y coordinate from draw
/// `2 * j + 1` folded into `[bottom, top)`.
pub open spec fn sample_point(boundary: Boundary, seed: u64, j: int) -> Point {
    Point {
        x: in_range_spec(
            raw_draw(seed, (2 * j) as nat),
            boundary.spec_left(),
            boundary.spec_right(),
        ) as i64,
        y: in_range_spec(
            raw_draw(seed, (2 * j + 1) as nat),
            boundary.spec_bottom(),
            boundary.spec_top(),
        ) as i64,
    }
}

/// Draws `count` points uniformly within the boundary's per-axis ranges,
/// using a generator owned by this call and seeded with `seed`. The result
/// is a deterministic function of the arguments; a count of zero yields an
/// empty set.
pub fn random_uniform(boundary: Boundary, count: usize, seed: u64) -> (r: Vec<Point>)
    requires
        boundary.wf(),
    ensures
        r@.len() == count,
        forall|j: int| 0 <= j < count ==> r@[j] == sample_point(boundary, seed, j),
{
    let (left, top) = boundary.top_left();
    let (right, bottom) = boundary.bottom_right();
    proof {
        crate::boundary::lemma_corner_order(boundary);
    }
    let mut sampler = Sampler::from_seed(seed);
    let mut r: Vec<Point> = Vec::new();
    let mut i: usize = 0;
    while i < count
        invariant
            boundary.wf(),
            left == boundary.spec_left(),
            right == boundary.spec_right(),
            bottom == boundary.spec_bottom(),
            top == boundary.spec_top(),
            left < right,
            bottom < top,
            sampler.seed() == seed,
            sampler.drawn() == 2 * i,
            i <= count,
            r@.len() == i,
            forall|j: int| 0 <= j < i ==> r@[j] == sample_point(boundary, seed, j),
        decreases count - i,
    {
        let rx = sampler.next_raw();
        let ry = sampler.next_raw();
        let x = reduce_to_range(rx, left, right);
        let y = reduce_to_range(ry, bottom, top);
        r.push(Point { x, y });
        proof {
            assert(r@[i as int] == sample_point(boundary, seed, i as int));
        }
        i = i + 1;
    }
    r
}

/// Draws `count` pairs whose two components both come from the half-open
/// range `[bounds.0, bounds.1)`, deterministically from `seed`: the first
/// component of pair `j` is draw `2 * j`, the second is draw `2 * j + 1`.
pub fn random_points(count: usize, bounds: (i64, i64), seed: u64) -> (r: Vec<(i64, i64)>)
    requires
        bounds.0 < bounds.1,
    ensures
        r@.len() == count,
        forall|j: int| 0 <= j < count ==> r@[j].0 == in_range_spec(
            raw_draw(seed, (2 * j) as nat),
            bounds.0 as int,
            bounds.1 as int,
        ),
        forall|j: int| 0 <= j < count ==> r@[j].1 == in_range_spec(
            raw_draw(seed, (2 * j + 1) as nat),
            bounds.0 as int,
            bounds.1 as int,
        ),
{
    let mut sampler = Sampler::from_seed(seed);
    let mut r: Vec<(i64, i64)> = Vec::new();
    let mut i: usize = 0;
    while i < count
        invariant
            bounds.0 < bounds.1,
            sampler.seed() == seed,
            sampler.drawn() == 2 * i,
            i <= count,
            r@.len() == i,
            forall|j: int| 0 <= j < i ==> r@[j].0 == in_range_spec(
                raw_draw(seed, (2 * j) as nat),
                bounds.0 as int,
                bounds.1 as int,
            ),
            forall|j: int| 0 <= j < i ==> r@[j].1 == in_range_spec(
                raw_draw(seed, (2 * j + 1) as nat),
                bounds.0 as int,
                bounds.1 as int,
            ),
        decreases count - i,
    {
        let a = sampler.next_raw();
        let b = sampler.next_raw();
        let x = reduce_to_range(a, bounds.0, bounds.1);
        let y = reduce_to_range(b, bounds.0, bounds.1);
        r.push((x, y));
        i = i + 1;
    }
    r
}

/// Law: sampling is deterministic per seed. Any two site sequences drawn
/// with the same boundary, count and seed are equal, point for point.
pub proof fn lemma_random_uniform_deterministic(
    boundary: Boundary,
    count: usize,
    seed: u64,
    r1: Seq<Point>,
    r2: Seq<Point>,
)
    requires
        r1.len() == count,
        r2.len() == count,
        forall|j: int| 0 <= j < count ==> r1[j] == sample_point(boundary, seed, j),
        forall|j: int| 0 <= j < count ==> r2[j] == sample_point(boundary, seed, j),
    ensures
        r1 == r2,
{
    assert(r1 =~= r2);
}

} // verus!
