//! Layout of the floor grid that shows the curvature of space.
//!
//! The grid is a square lattice of `(divisions + 1) * (divisions + 1)` points.
//! It is drawn as line segments between neighbouring points: first every
//! segment along the x axis, row after row, then every segment along the z
//! axis, column after column. Here a point is named by its lattice
//! coordinates `(x_step, z_step)`; where it lies in the world is a matter of
//! scale.
use vstd::prelude::*;

verus! {

/// Number of lines the floor grid is divided into along each axis.
pub const GRID_DIVISIONS: i32 = 50;

/// Builds the lattice of the floor grid.
pub struct GridGenerator;

/// Number of segment end points that the lines along the x axis take.
pub open spec fn x_lines_len(d: int) -> int {
    2 * d * (d + 1)
}

/// The lattice point of the `k`-th end point of the grid with `d` divisions:
/// two end points per segment, the x-axis segments first.
pub open spec fn grid_point(d: int, k: int) -> (int, int) {
    if k < x_lines_len(d) {
        let seg = k / 2;
        (seg % d + k % 2, seg / d)
    } else {
        let seg = (k - x_lines_len(d)) / 2;
        (seg / d, seg % d + (k - x_lines_len(d)) % 2)
    }
}

/// Number of end points of a grid with `d` divisions.
pub open spec fn grid_len(d: int) -> int {
    if d <= 0 {
        0
    } else {
        4 * d * (d + 1)
    }
}

impl GridGenerator {
    /// The segment end points of the floor grid with `divisions` divisions,
    /// as lattice coordinates `(x_step, z_step)`, two per segment.
    pub fn create_grid_lattice(divisions: i32) -> (points: Vec<(i32, i32)>)
        requires
            grid_len(divisions as int) <= usize::MAX,
        ensures
            points.len() == grid_len(divisions as int),
            divisions > 0 ==> points.len() == 4 * divisions * (divisions + 1),
            divisions <= 0 ==> points.len() == 0,
            forall|k: int|
                0 <= k < points.len() ==> ((#[trigger] points[k]).0 as int, points[k].1 as int)
                    == grid_point(divisions as int, k),
    {
        let mut points: Vec<(i32, i32)> = Vec::new();
        if divisions <= 0 {
            return points;
        }
        let d = divisions;
        // Segments along the x axis, one row of the lattice after another.
        let mut z_step: i32 = 0;
        loop
            invariant_except_break
                0 <= z_step <= d,
                points.len() == 2 * (z_step * d),
            invariant
                0 < d,
                forall|k: int|
                    0 <= k < points.len() ==> ((#[trigger] points[k]).0 as int, points[k].1 as int)
                        == grid_point(d as int, k),
            ensures
                points.len() == 2 * ((d + 1) * d),
            decreases d - z_step,
        {
            proof {
                assert(z_step * d + d <= (d + 1) * d) by (nonlinear_arith)
                    requires
                        z_step <= d,
                        d > 0,
                ;
            }
            let mut x_step: i32 = 0;
            while x_step < d
                invariant
                    0 < d,
                    0 <= z_step <= d,
                    0 <= x_step <= d,
                    z_step * d + d <= (d + 1) * d,
                    points.len() == 2 * (z_step * d + x_step),
                    forall|k: int|
                        0 <= k < points.len() ==> ((#[trigger] points[k]).0 as int, points[k].1 as int)
                            == grid_point(d as int, k),
                decreases d - x_step,
            {
                let ghost base = points.len() as int;
                points.push((x_step, z_step));
                points.push((x_step + 1, z_step));
                proof {
                    let seg = z_step * d + x_step;
                    vstd::arithmetic::div_mod::lemma_fundamental_div_mod_converse(
                        seg,
                        d as int,
                        z_step as int,
                        x_step as int,
                    );
                    assert(x_lines_len(d as int) == 2 * ((d + 1) * d)) by (nonlinear_arith);
                    assert forall|k: int|
                        0 <= k < points.len() implies ((#[trigger] points[k]).0 as int, points[k].1 as int)
                            == grid_point(d as int, k) by {
                        if k >= base {
                            vstd::arithmetic::div_mod::lemma_fundamental_div_mod_converse(
                                k,
                                2,
                                seg,
                                k - base,
                            );
                        }
                    }
                }
                x_step = x_step + 1;
            }
            assert((z_step + 1) * d == z_step * d + d) by (nonlinear_arith);
            if z_step == d {
                break;
            }
            z_step = z_step + 1;
        }
        let ghost half = points.len() as int;
        assert(half == x_lines_len(d as int)) by (nonlinear_arith)
            requires
                half == 2 * ((d + 1) * d),
        ;
        // Segments along the z axis, one column of the lattice after another.
        let mut x_step: i32 = 0;
        loop
            invariant_except_break
                0 <= x_step <= d,
                points.len() == half + 2 * (x_step * d),
            invariant
                0 < d,
                half == x_lines_len(d as int),
                forall|k: int|
                    0 <= k < points.len() ==> ((#[trigger] points[k]).0 as int, points[k].1 as int)
                        == grid_point(d as int, k),
            ensures
                points.len() == half + 2 * ((d + 1) * d),
            decreases d - x_step,
        {
            let mut z_step: i32 = 0;
            while z_step < d
                invariant
                    0 < d,
                    0 <= x_step <= d,
                    0 <= z_step <= d,
                    half == x_lines_len(d as int),
                    points.len() == half + 2 * (x_step * d + z_step),
                    forall|k: int|
                        0 <= k < points.len() ==> ((#[trigger] points[k]).0 as int, points[k].1 as int)
                            == grid_point(d as int, k),
                decreases d - z_step,
            {
                let ghost base = points.len() as int;
                points.push((x_step, z_step));
                points.push((x_step, z_step + 1));
                proof {
                    let seg = x_step * d + z_step;
                    vstd::arithmetic::div_mod::lemma_fundamental_div_mod_converse(
                        seg,
                        d as int,
                        x_step as int,
                        z_step as int,
                    );
                    assert forall|k: int|
                        0 <= k < points.len() implies ((#[trigger] points[k]).0 as int, points[k].1 as int)
                            == grid_point(d as int, k) by {
                        if k >= base {
                            vstd::arithmetic::div_mod::lemma_fundamental_div_mod_converse(
                                k - half,
                                2,
                                seg,
                                k - base,
                            );
                        }
                    }
                }
                z_step = z_step + 1;
            }
            assert((x_step + 1) * d == x_step * d + d) by (nonlinear_arith);
            if x_step == d {
                break;
            }
            x_step = x_step + 1;
        }
        assert(half + 2 * ((d + 1) * d) == 4 * d * (d + 1)) by (nonlinear_arith)
            requires
                half == 2 * d * (d + 1),
        ;
        points
    }
}

/// The two end points of the `m`-th segment of the grid with `d` divisions.
pub open spec fn grid_segment(d: int, m: int) -> ((int, int), (int, int)) {
    (grid_point(d, 2 * m), grid_point(d, 2 * m + 1))
}

/// Segment `m` of a grid with `d > 0` divisions: the first `d * (d + 1)`
/// segments run along the x axis, from `(m % d, m / d)` one step in x; the
/// rest run along the z axis, from `(m' / d, m' % d)` one step in z, where
/// `m' = m - d * (d + 1)`. Each end point lies in the lattice `[0, d] x [0, d]`.
pub proof fn lemma_grid_segment_shape(d: int, m: int)
    requires
        0 < d,
        0 <= m < 2 * d * (d + 1),
    ensures
        m < d * (d + 1) ==> {
            let x = m % d;
            let z = m / d;
            &&& grid_segment(d, m) == ((x, z), (x + 1, z))
            &&& 0 <= x < d
            &&& 0 <= z <= d
        },
        m >= d * (d + 1) ==> {
            let x = (m - d * (d + 1)) / d;
            let z = (m - d * (d + 1)) % d;
            &&& grid_segment(d, m) == ((x, z), (x, z + 1))
            &&& 0 <= x <= d
            &&& 0 <= z < d
        },
{
    assert(x_lines_len(d) == 2 * (d * (d + 1))) by (nonlinear_arith);
    vstd::arithmetic::div_mod::lemma_fundamental_div_mod_converse(2 * m, 2, m, 0);
    vstd::arithmetic::div_mod::lemma_fundamental_div_mod_converse(2 * m + 1, 2, m, 1);
    if m < d * (d + 1) {
        vstd::arithmetic::div_mod::lemma_div_pos_is_pos(m, d);
        vstd::arithmetic::div_mod::lemma_mod_bound(m, d);
        vstd::arithmetic::div_mod::lemma_div_is_ordered(m, d * (d + 1) - 1, d);
        assert((d * (d + 1) - 1) / d == d) by {
            assert(d * (d + 1) - 1 == d * d + (d - 1)) by (nonlinear_arith);
            vstd::arithmetic::div_mod::lemma_fundamental_div_mod_converse(d * (d + 1) - 1, d, d, d - 1);
        }
    } else {
        let mm = m - d * (d + 1);
        assert(2 * m - x_lines_len(d) == 2 * mm);
        assert(2 * m + 1 - x_lines_len(d) == 2 * mm + 1);
        vstd::arithmetic::div_mod::lemma_fundamental_div_mod_converse(2 * mm, 2, mm, 0);
        vstd::arithmetic::div_mod::lemma_fundamental_div_mod_converse(2 * mm + 1, 2, mm, 1);
        vstd::arithmetic::div_mod::lemma_div_pos_is_pos(mm, d);
        vstd::arithmetic::div_mod::lemma_mod_bound(mm, d);
        vstd::arithmetic::div_mod::lemma_div_is_ordered(mm, d * (d + 1) - 1, d);
        assert((d * (d + 1) - 1) / d == d) by {
            assert(d * (d + 1) - 1 == d * d + (d - 1)) by (nonlinear_arith);
            vstd::arithmetic::div_mod::lemma_fundamental_div_mod_converse(d * (d + 1) - 1, d, d, d - 1);
        }
    }
}

/// Every edge between two neighbouring lattice points is drawn: the one from
/// `(x, z)` to `(x + 1, z)` is segment `z * d + x`, the one from `(z, x)` to
/// `(z, x + 1)` is segment `d * (d + 1) + z * d + x`.
pub proof fn lemma_grid_covers_every_edge(d: int, x: int, z: int)
    requires
        0 < d,
        0 <= x < d,
        0 <= z <= d,
    ensures
        0 <= z * d + x < d * (d + 1),
        grid_segment(d, z * d + x) == ((x, z), (x + 1, z)),
        grid_segment(d, d * (d + 1) + z * d + x) == ((z, x), (z, x + 1)),
{
    assert(0 <= z * d) by (nonlinear_arith)
        requires
            0 <= z,
            0 < d,
    ;
    assert(z * d + x < d * (d + 1)) by (nonlinear_arith)
        requires
            0 <= z <= d,
            0 <= x < d,
            0 < d,
    ;
    assert(2 * d * (d + 1) == 2 * (d * (d + 1))) by (nonlinear_arith);
    vstd::arithmetic::div_mod::lemma_fundamental_div_mod_converse(z * d + x, d, z, x);
    lemma_grid_segment_shape(d, z * d + x);
    lemma_grid_segment_shape(d, d * (d + 1) + z * d + x);
}

/// No edge is drawn twice: distinct segments of the grid have distinct end points.
pub proof fn lemma_grid_segments_distinct(d: int, m1: int, m2: int)
    requires
        0 < d,
        0 <= m1 < 2 * d * (d + 1),
        0 <= m2 < 2 * d * (d + 1),
        m1 != m2,
    ensures
        grid_segment(d, m1) != grid_segment(d, m2),
{
    lemma_grid_segment_shape(d, m1);
    lemma_grid_segment_shape(d, m2);
    let n = d * (d + 1);
    if m1 < n && m2 < n {
        vstd::arithmetic::div_mod::lemma_fundamental_div_mod(m1, d);
        vstd::arithmetic::div_mod::lemma_fundamental_div_mod(m2, d);
    } else if m1 >= n && m2 >= n {
        vstd::arithmetic::div_mod::lemma_fundamental_div_mod(m1 - n, d);
        vstd::arithmetic::div_mod::lemma_fundamental_div_mod(m2 - n, d);
    }
}

} // verus!
