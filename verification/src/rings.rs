use vstd::prelude::*;
use vstd::arithmetic::div_mod::lemma_fundamental_div_mod_converse;
use crate::coords::chebyshev;

verus! {

/// Offset from the centre of the `i`-th point of the square ring at
/// Chebyshev distance `r`. The points come four at a time: for each step
/// `o = i / 4` in `0..2r` one on the bottom edge, one on the right edge,
/// one on the top edge and one on the left edge, each edge walked in the
/// direction that leaves its last corner to the next edge.
pub open spec fn ring_offset(r: int, i: int) -> (int, int) {
    let o = i / 4;
    let side = i % 4;
    if side == 0 {
        (-r + o, -r)
    } else if side == 1 {
        (r, -r + o)
    } else if side == 2 {
        (r - o, r)
    } else {
        (-r, r - o)
    }
}

/// The `8 * r` points of the square ring at distance `r` around `center`,
/// in the order in which they are produced.
pub open spec fn ring_points(center: (int, int), r: int) -> Seq<(int, int)> {
    Seq::new(
        (8 * r) as nat,
        |i: int| (center.0 + ring_offset(r, i).0, center.1 + ring_offset(r, i).1),
    )
}

/// All rings from distance 1 to distance `d`, nearest ring first.
pub open spec fn neighbor_points(center: (int, int), d: nat) -> Seq<(int, int)>
    decreases d,
{
    if d == 0 {
        Seq::empty()
    } else {
        neighbor_points(center, (d - 1) as nat) + ring_points(center, d as int)
    }
}

/// The element at step `o`, side `s` of a ring.
pub proof fn lemma_ring_points_index(center: (int, int), r: int, o: int, s: int)
    requires
        r >= 1,
        0 <= o < 2 * r,
        0 <= s < 4,
    ensures
        0 <= 4 * o + s < 8 * r,
        ring_points(center, r)[4 * o + s] == (if s == 0 {
            (center.0 - r + o, center.1 - r)
        } else if s == 1 {
            (center.0 + r, center.1 - r + o)
        } else if s == 2 {
            (center.0 + r - o, center.1 + r)
        } else {
            (center.0 - r, center.1 + r - o)
        }),
{
    lemma_fundamental_div_mod_converse(4 * o + s, 4, o, s);
}

proof fn lemma_ring_index_split(r: int, i: int)
    requires
        r >= 1,
        0 <= i < 8 * r,
    ensures
        0 <= i / 4 < 2 * r,
        0 <= i % 4 < 4,
        i == 4 * (i / 4) + i % 4,
{
    vstd::arithmetic::div_mod::lemma_fundamental_div_mod(i, 4);
}

/// Every point of the ring at distance `r` is at Chebyshev distance `r`.
pub proof fn lemma_ring_points_on_ring(center: (int, int), r: int, k: int)
    requires
        r >= 1,
        0 <= k < 8 * r,
    ensures
        chebyshev(ring_points(center, r)[k], center) == r,
{
    lemma_ring_index_split(r, k);
}

/// Every point at Chebyshev distance `r >= 1` lies on the ring at distance `r`.
pub proof fn lemma_ring_points_cover(center: (int, int), r: int, p: (int, int))
    requires
        r >= 1,
        chebyshev(p, center) == r,
    ensures
        ring_points(center, r).contains(p),
{
    let dx = p.0 - center.0;
    let dy = p.1 - center.1;
    let ring = ring_points(center, r);
    if dy == -r && dx < r {
        lemma_ring_points_index(center, r, dx + r, 0);
        assert(ring[4 * (dx + r)] == p);
    } else if dx == r && dy < r {
        lemma_ring_points_index(center, r, dy + r, 1);
        assert(ring[4 * (dy + r) + 1] == p);
    } else if dy == r && dx > -r {
        lemma_ring_points_index(center, r, r - dx, 2);
        assert(ring[4 * (r - dx) + 2] == p);
    } else {
        assert(dx == -r && dy > -r);
        lemma_ring_points_index(center, r, r - dy, 3);
        assert(ring[4 * (r - dy) + 3] == p);
    }
}

/// No point occurs twice on a ring.
pub proof fn lemma_ring_points_distinct(center: (int, int), r: int)
    requires
        r >= 1,
    ensures
        ring_points(center, r).no_duplicates(),
{
    let ring = ring_points(center, r);
    assert forall|i: int, j: int|
        0 <= i < ring.len() && 0 <= j < ring.len() && i != j implies ring[i] != ring[j] by {
        lemma_ring_index_split(r, i);
        lemma_ring_index_split(r, j);
    }
}

/// The list of rings up to distance `d` has `4 * d * (d + 1)` points,
/// which is `(2 * d + 1)^2 - 1`: the whole square but its centre.
pub proof fn lemma_neighbor_points_len(center: (int, int), d: nat)
    ensures
        neighbor_points(center, d).len() == 4 * d * (d + 1),
        neighbor_points(center, d).len() == (2 * d + 1) * (2 * d + 1) - 1,
    decreases d,
{
    if d > 0 {
        lemma_neighbor_points_len(center, (d - 1) as nat);
        assert(4 * (d - 1) * d + 8 * d == 4 * d * (d + 1)) by (nonlinear_arith);
    }
    assert(4 * d * (d + 1) == (2 * d + 1) * (2 * d + 1) - 1) by (nonlinear_arith);
}

/// A point is listed among the neighbours up to distance `d` exactly when
/// its Chebyshev distance to the centre is between 1 and `d`.
pub proof fn lemma_neighbor_points_contains(center: (int, int), d: nat, p: (int, int))
    ensures
        neighbor_points(center, d).contains(p) <==> 1 <= chebyshev(p, center) <= d,
    decreases d,
{
    if d > 0 {
        let prev = neighbor_points(center, (d - 1) as nat);
        let ring = ring_points(center, d as int);
        let all = neighbor_points(center, d);
        assert(all == prev + ring);
        lemma_neighbor_points_contains(center, (d - 1) as nat, p);
        if all.contains(p) {
            let k = choose|k: int| 0 <= k < all.len() && all[k] == p;
            if k < prev.len() {
                assert(prev[k] == p);
            } else {
                lemma_ring_points_on_ring(center, d as int, k - prev.len());
            }
        }
        if 1 <= chebyshev(p, center) <= d {
            if chebyshev(p, center) == d {
                lemma_ring_points_cover(center, d as int, p);
                let k = choose|k: int| 0 <= k < ring.len() && ring[k] == p;
                assert(all[prev.len() + k] == p);
            } else {
                let k = choose|k: int| 0 <= k < prev.len() && prev[k] == p;
                assert(all[k] == p);
            }
        }
    }
}

/// No point is listed twice among the neighbours up to distance `d`.
pub proof fn lemma_neighbor_points_distinct(center: (int, int), d: nat)
    ensures
        neighbor_points(center, d).no_duplicates(),
    decreases d,
{
    if d > 0 {
        let prev = neighbor_points(center, (d - 1) as nat);
        let ring = ring_points(center, d as int);
        let all = neighbor_points(center, d);
        assert(all == prev + ring);
        lemma_neighbor_points_distinct(center, (d - 1) as nat);
        lemma_ring_points_distinct(center, d as int);
        assert forall|i: int, j: int|
            0 <= i < all.len() && 0 <= j < all.len() && i != j implies all[i] != all[j] by {
            if i < prev.len() && j >= prev.len() {
                assert(prev.contains(prev[i]));
                lemma_neighbor_points_contains(center, (d - 1) as nat, prev[i]);
                lemma_ring_points_on_ring(center, d as int, j - prev.len());
            } else if j < prev.len() && i >= prev.len() {
                assert(prev.contains(prev[j]));
                lemma_neighbor_points_contains(center, (d - 1) as nat, prev[j]);
                lemma_ring_points_on_ring(center, d as int, i - prev.len());
            }
        }
    }
}

/// Being neighbours is mutual: if `b` is among the neighbours of `a` up to
/// distance `d`, then `a` is among the neighbours of `b` up to distance `d`.
pub proof fn lemma_neighbors_mutual(a: (int, int), b: (int, int), d: nat)
    requires
        neighbor_points(a, d).contains(b),
    ensures
        neighbor_points(b, d).contains(a),
{
    lemma_neighbor_points_contains(a, d, b);
    lemma_neighbor_points_contains(b, d, a);
}

/// Every neighbour up to distance `d` lies within distance `d` of the
/// centre, and is not the centre itself.
pub proof fn lemma_neighbor_distance(center: (int, int), d: nat, p: (int, int))
    requires
        neighbor_points(center, d).contains(p),
    ensures
        1 <= chebyshev(p, center) <= d,
{
    lemma_neighbor_points_contains(center, d, p);
}

} // verus!
