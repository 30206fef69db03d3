//! Index structure of the UV spheres that stand for the bodies.
//!
//! A sphere mesh has `stacks` bands of latitude and `sectors` slices of
//! longitude. Its vertices form a lattice of `(stacks + 1) * (sectors + 1)`
//! points, numbered row by row: point `(i, j)` has number `i * (sectors + 1) + j`.
use vstd::prelude::*;

verus! {

/// The indices that one lattice cell `(i, j)` adds to the element buffer:
/// the upper triangle unless the cell lies in the top band, then the lower
/// triangle unless it lies in the bottom band.
pub open spec fn cell_indices(stacks: int, sectors: int, i: int, j: int) -> Seq<int> {
    let k1 = i * (sectors + 1);
    let k2 = k1 + sectors + 1;
    (if i != 0 {
        seq![k1 + j, k2 + j, k1 + j + 1]
    } else {
        Seq::<int>::empty()
    }) + (if i != stacks - 1 {
        seq![k1 + j + 1, k2 + j, k2 + j + 1]
    } else {
        Seq::<int>::empty()
    })
}

/// The indices of the first `n` cells of band `i`, cell 0 first.
pub open spec fn band_indices(stacks: int, sectors: int, i: int, n: nat) -> Seq<int>
    decreases n,
{
    if n == 0 {
        Seq::<int>::empty()
    } else {
        band_indices(stacks, sectors, i, (n - 1) as nat) + cell_indices(stacks, sectors, i, n - 1)
    }
}

/// The indices of the first `m` bands, band 0 first.
pub open spec fn bands_indices(stacks: int, sectors: int, m: nat) -> Seq<int>
    decreases m,
{
    if m == 0 {
        Seq::<int>::empty()
    } else {
        bands_indices(stacks, sectors, (m - 1) as nat) + band_indices(stacks, sectors, m - 1, sectors as nat)
    }
}

/// The whole element buffer of a sphere with the given resolution.
pub open spec fn sphere_indices(stacks: nat, sectors: nat) -> Seq<int> {
    bands_indices(stacks as int, sectors as int, stacks)
}

/// The integers that a buffer of `u32` holds.
pub open spec fn as_ints(v: Seq<u32>) -> Seq<int> {
    v.map_values(|x: u32| x as int)
}

/// Builds the triangle list (three indices per triangle) of a UV sphere
/// whose lattice has `stacks + 1` rows of `sectors + 1` points.
pub fn generate_sphere_indices(stacks: u32, sectors: u32) -> (indices: Vec<u32>)
    requires
        stacks == 0 || (stacks + 1) * (sectors + 1) <= u32::MAX + 1,
    ensures
        as_ints(indices@) == sphere_indices(stacks as nat, sectors as nat),
        indices.len() == if stacks == 0 {
            0
        } else {
            6 * sectors * (stacks - 1)
        },
        forall|k: int|
            0 <= k < indices.len() ==> #[trigger] indices[k] < (stacks + 1) * (sectors + 1),
        triangles_proper(as_ints(indices@)),
{
    let mut indices: Vec<u32> = Vec::new();
    let mut i: u32 = 0;
    while i < stacks
        invariant
            i <= stacks,
            stacks == 0 || (stacks + 1) * (sectors + 1) <= u32::MAX + 1,
            as_ints(indices@) == bands_indices(stacks as int, sectors as int, i as nat),
        decreases stacks - i,
    {
        proof {
            assert((i + 2) * (sectors + 1) <= (stacks + 1) * (sectors + 1)) by (nonlinear_arith)
                requires
                    i + 2 <= stacks + 1,
            ;
            assert((i + 2) * (sectors + 1) == i * (sectors + 1) + 2 * sectors + 2) by (nonlinear_arith);
        }
        let k1: u32 = i * (sectors + 1);
        let k2: u32 = k1 + sectors + 1;
        let ghost before = as_ints(indices@);
        let mut j: u32 = 0;
        while j < sectors
            invariant
                i < stacks,
                j <= sectors,
                k1 == i * (sectors + 1),
                k2 == k1 + sectors + 1,
                k2 + sectors + 1 <= u32::MAX + 1,
                before == bands_indices(stacks as int, sectors as int, i as nat),
                as_ints(indices@) == before + band_indices(stacks as int, sectors as int, i as int, j as nat),
            decreases sectors - j,
        {
            let ghost prev = as_ints(indices@);
            if i != 0 {
                indices.push(k1 + j);
                indices.push(k2 + j);
                indices.push(k1 + j + 1);
            }
            if i != stacks - 1 {
                indices.push(k1 + j + 1);
                indices.push(k2 + j);
                indices.push(k2 + j + 1);
            }
            assert(as_ints(indices@) == prev + cell_indices(stacks as int, sectors as int, i as int, j as int));
            assert(band_indices(stacks as int, sectors as int, i as int, (j + 1) as nat)
                == band_indices(stacks as int, sectors as int, i as int, j as nat)
                    + cell_indices(stacks as int, sectors as int, i as int, j as int));
            j = j + 1;
        }
        assert(bands_indices(stacks as int, sectors as int, (i + 1) as nat)
            == before + band_indices(stacks as int, sectors as int, i as int, sectors as nat));
        i = i + 1;
    }
    proof {
        lemma_sphere_index_count(stacks as nat, sectors as nat);
        lemma_sphere_indices_in_bounds(stacks as nat, sectors as nat);
        lemma_sphere_triangles_proper(stacks as nat, sectors as nat);
        assert forall|k: int|
            0 <= k < indices.len() implies #[trigger] indices[k] < (stacks + 1) * (sectors + 1) by {
            assert(as_ints(indices@)[k] == indices[k] as int);
        }
    }
    indices
}

/// The `t`-th triangle of `s` has three different corners.
pub open spec fn triangle_proper(s: Seq<int>, t: int) -> bool {
    &&& s[3 * t] != s[3 * t + 1]
    &&& s[3 * t] != s[3 * t + 2]
    &&& s[3 * t + 1] != s[3 * t + 2]
}

/// `s` is a list of whole triangles, none of which repeats a corner.
pub open spec fn triangles_proper(s: Seq<int>) -> bool {
    &&& s.len() % 3 == 0
    &&& forall|t: int| 0 <= t < s.len() / 3 ==> #[trigger] triangle_proper(s, t)
}

proof fn lemma_triangles_proper_concat(a: Seq<int>, b: Seq<int>)
    requires
        triangles_proper(a),
        triangles_proper(b),
    ensures
        triangles_proper(a + b),
{
    let na = a.len() / 3;
    assert forall|t: int| 0 <= t < (a + b).len() / 3 implies #[trigger] triangle_proper(a + b, t) by {
        if t < na {
            assert(triangle_proper(a, t));
            assert((a + b)[3 * t] == a[3 * t]);
            assert((a + b)[3 * t + 1] == a[3 * t + 1]);
            assert((a + b)[3 * t + 2] == a[3 * t + 2]);
        } else {
            let u = t - na;
            assert(triangle_proper(b, u));
            assert((a + b)[3 * t] == b[3 * u]);
            assert((a + b)[3 * t + 1] == b[3 * u + 1]);
            assert((a + b)[3 * t + 2] == b[3 * u + 2]);
        }
    }
}

proof fn lemma_band_proper(stacks: int, sectors: int, i: int, n: nat)
    requires
        n <= sectors,
    ensures
        triangles_proper(band_indices(stacks, sectors, i, n)),
    decreases n,
{
    if n > 0 {
        let j = n - 1;
        lemma_band_proper(stacks, sectors, i, (n - 1) as nat);
        let c = cell_indices(stacks, sectors, i, j);
        if c.len() >= 3 {
            assert(triangle_proper(c, 0));
        }
        if c.len() == 6 {
            assert(triangle_proper(c, 1));
        }
        assert(triangles_proper(c));
        lemma_triangles_proper_concat(band_indices(stacks, sectors, i, (n - 1) as nat), c);
    }
}

proof fn lemma_bands_proper(stacks: int, sectors: int, m: nat)
    requires
        sectors >= 0,
    ensures
        triangles_proper(bands_indices(stacks, sectors, m)),
    decreases m,
{
    if m > 0 {
        lemma_bands_proper(stacks, sectors, (m - 1) as nat);
        lemma_band_proper(stacks, sectors, m - 1, sectors as nat);
        lemma_triangles_proper_concat(
            bands_indices(stacks, sectors, (m - 1) as nat),
            band_indices(stacks, sectors, m - 1, sectors as nat),
        );
    }
}

/// The element buffer of a sphere is a list of whole triangles, and no
/// triangle uses the same vertex twice.
pub proof fn lemma_sphere_triangles_proper(stacks: nat, sectors: nat)
    ensures
        triangles_proper(sphere_indices(stacks, sectors)),
{
    lemma_bands_proper(stacks as int, sectors as int, stacks);
}

/// Which lattice point, relative to the cell's own corner `(i, j)`, the
/// `c`-th of the six vertices of a cell takes: the cell is drawn as the
/// triangles `(i, j), (i, j + 1), (i + 1, j)` and `(i, j + 1), (i + 1, j + 1), (i + 1, j)`.
pub open spec fn corner_offset(c: int) -> (int, int) {
    if c == 0 {
        (0, 0)
    } else if c == 1 {
        (0, 1)
    } else if c == 2 {
        (1, 0)
    } else if c == 3 {
        (0, 1)
    } else if c == 4 {
        (1, 1)
    } else {
        (1, 0)
    }
}

/// The lattice point `(stack, sector)` of the `k`-th vertex of a sphere drawn
/// without an element buffer: cells come row by row, six vertices each.
pub open spec fn sphere_corner(sectors: int, k: int) -> (int, int) {
    let cell = k / 6;
    let offset = corner_offset(k % 6);
    (cell / sectors + offset.0, cell % sectors + offset.1)
}

/// Lists, six per cell and cells row by row for rows `0..=stacks`, the
/// lattice points `(stack, sector)` of the triangles that draw a sphere
/// without an element buffer.
pub fn generate_sphere_corners(stacks: u32, sectors: u32) -> (corners: Vec<(u32, u32)>)
    requires
        stacks < u32::MAX,
    ensures
        corners.len() == 6 * (stacks + 1) * sectors,
        forall|k: int|
            0 <= k < corners.len() ==> ((#[trigger] corners[k]).0 as int, corners[k].1 as int)
                == sphere_corner(sectors as int, k),
        forall|k: int|
            0 <= k < corners.len() ==> (#[trigger] corners[k]).0 <= stacks + 1 && corners[k].1 <= sectors,
{
    let mut corners: Vec<(u32, u32)> = Vec::new();
    let mut i: u32 = 0;
    while i <= stacks
        invariant
            stacks < u32::MAX,
            i <= stacks + 1,
            corners.len() == 6 * (i * sectors),
            forall|k: int|
                0 <= k < corners.len() ==> ((#[trigger] corners[k]).0 as int, corners[k].1 as int)
                    == sphere_corner(sectors as int, k),
            forall|k: int|
                0 <= k < corners.len() ==> (#[trigger] corners[k]).0 <= stacks + 1 && corners[k].1 <= sectors,
        decreases stacks + 1 - i,
    {
        let mut j: u32 = 0;
        while j < sectors
            invariant
                i <= stacks,
                stacks < u32::MAX,
                j <= sectors,
                corners.len() == 6 * (i * sectors + j),
                forall|k: int|
                    0 <= k < corners.len() ==> ((#[trigger] corners[k]).0 as int, corners[k].1 as int)
                        == sphere_corner(sectors as int, k),
                forall|k: int|
                    0 <= k < corners.len() ==> (#[trigger] corners[k]).0 <= stacks + 1 && corners[k].1 <= sectors,
            decreases sectors - j,
        {
            let ghost base = corners.len() as int;
            corners.push((i, j));
            corners.push((i, j + 1));
            corners.push((i + 1, j));
            corners.push((i, j + 1));
            corners.push((i + 1, j + 1));
            corners.push((i + 1, j));
            proof {
                let cell = i * sectors + j;
                vstd::arithmetic::div_mod::lemma_fundamental_div_mod_converse(
                    cell,
                    sectors as int,
                    i as int,
                    j as int,
                );
                assert(cell == (i * sectors) as int + j);
                assert forall|k: int|
                    0 <= k < corners.len() implies ((#[trigger] corners[k]).0 as int, corners[k].1 as int)
                        == sphere_corner(sectors as int, k) by {
                    if k >= base {
                        vstd::arithmetic::div_mod::lemma_fundamental_div_mod_converse(
                            k,
                            6,
                            cell,
                            k - base,
                        );
                    }
                }
            }
            j = j + 1;
        }
        assert((i + 1) * sectors == i * sectors + sectors) by (nonlinear_arith);
        i = i + 1;
    }
    assert(6 * ((stacks + 1) * sectors) == 6 * (stacks + 1) * sectors) by (nonlinear_arith);
    corners
}

/// Number of entries that one cell of band `i` contributes.
pub open spec fn cell_len(stacks: int, i: int) -> int {
    (if i != 0 { 3int } else { 0int }) + (if i != stacks - 1 { 3int } else { 0int })
}

/// Every entry of `s` lies in `[0, bound)`.
pub open spec fn all_below(s: Seq<int>, bound: int) -> bool {
    forall|k: int| 0 <= k < s.len() ==> 0 <= #[trigger] s[k] < bound
}

proof fn lemma_all_below_concat(a: Seq<int>, b: Seq<int>, bound: int)
    requires
        all_below(a, bound),
        all_below(b, bound),
    ensures
        all_below(a + b, bound),
{
    assert forall|k: int| 0 <= k < (a + b).len() implies 0 <= #[trigger] (a + b)[k] < bound by {
        if k < a.len() {
            assert((a + b)[k] == a[k]);
        } else {
            assert((a + b)[k] == b[k - a.len()]);
        }
    }
}

proof fn lemma_band_len(stacks: int, sectors: int, i: int, n: nat)
    ensures
        band_indices(stacks, sectors, i, n).len() == n * cell_len(stacks, i),
    decreases n,
{
    if n > 0 {
        lemma_band_len(stacks, sectors, i, (n - 1) as nat);
        assert(cell_indices(stacks, sectors, i, n - 1).len() == cell_len(stacks, i));
        assert(n * cell_len(stacks, i) == (n - 1) * cell_len(stacks, i) + cell_len(stacks, i))
            by (nonlinear_arith);
    } else {
        assert(0 * cell_len(stacks, i) == 0) by (nonlinear_arith);
    }
}

proof fn lemma_band_below(stacks: int, sectors: int, i: int, n: nat)
    requires
        0 <= i < stacks,
        n <= sectors,
    ensures
        all_below(band_indices(stacks, sectors, i, n), (stacks + 1) * (sectors + 1)),
    decreases n,
{
    if n > 0 {
        let j = n - 1;
        lemma_band_below(stacks, sectors, i, (n - 1) as nat);
        assert((i + 1) * (sectors + 1) + sectors + 1 <= (stacks + 1) * (sectors + 1)) by (nonlinear_arith)
            requires
                i + 1 <= stacks,
                sectors >= 0,
        ;
        assert(i * (sectors + 1) >= 0) by (nonlinear_arith)
            requires
                i >= 0,
                sectors >= 0,
        ;
        assert((i + 1) * (sectors + 1) == i * (sectors + 1) + sectors + 1) by (nonlinear_arith);
        lemma_all_below_concat(
            band_indices(stacks, sectors, i, (n - 1) as nat),
            cell_indices(stacks, sectors, i, j),
            (stacks + 1) * (sectors + 1),
        );
    }
}

proof fn lemma_bands_len(stacks: int, sectors: int, m: nat)
    requires
        m <= stacks,
        sectors >= 0,
    ensures
        m == 0 ==> bands_indices(stacks, sectors, m).len() == 0,
        m > 0 ==> bands_indices(stacks, sectors, m).len() == 6 * sectors * m - 3 * sectors - (
        if m == stacks {
            3 * sectors
        } else {
            0
        }),
    decreases m,
{
    if m > 0 {
        lemma_bands_len(stacks, sectors, (m - 1) as nat);
        lemma_band_len(stacks, sectors, m - 1, sectors as nat);
        let c = cell_len(stacks, m - 1);
        if c == 0 {
            assert(sectors * c == 0) by (nonlinear_arith)
                requires
                    c == 0,
            ;
        } else if c == 3 {
            assert(sectors * c == 3 * sectors) by (nonlinear_arith)
                requires
                    c == 3,
            ;
        } else {
            assert(sectors * c == 6 * sectors) by (nonlinear_arith)
                requires
                    c == 6,
            ;
        }
        assert(6 * sectors * m == 6 * sectors * (m - 1) + 6 * sectors) by (nonlinear_arith);
    }
}

proof fn lemma_bands_below(stacks: int, sectors: int, m: nat)
    requires
        m <= stacks,
        sectors >= 0,
    ensures
        all_below(bands_indices(stacks, sectors, m), (stacks + 1) * (sectors + 1)),
    decreases m,
{
    if m > 0 {
        lemma_bands_below(stacks, sectors, (m - 1) as nat);
        lemma_band_below(stacks, sectors, m - 1, sectors as nat);
        lemma_all_below_concat(
            bands_indices(stacks, sectors, (m - 1) as nat),
            band_indices(stacks, sectors, m - 1, sectors as nat),
            (stacks + 1) * (sectors + 1),
        );
    }
}

/// A sphere with at least one band has `6 * sectors * (stacks - 1)` index
/// entries: two triangles for each cell of an inner band, one for each cell
/// of a band at a pole (none when a single band touches both); a sphere
/// without bands has none.
pub proof fn lemma_sphere_index_count(stacks: nat, sectors: nat)
    ensures
        sphere_indices(stacks, sectors).len() == if stacks == 0 {
            0
        } else {
            6 * sectors * (stacks - 1)
        },
{
    lemma_bands_len(stacks as int, sectors as int, stacks);
    if stacks > 0 {
        assert(6 * sectors * stacks - 6 * sectors == 6 * sectors * (stacks - 1)) by (nonlinear_arith);
    }
}

/// Every entry of a sphere's element buffer names one of its
/// `(stacks + 1) * (sectors + 1)` lattice vertices.
pub proof fn lemma_sphere_indices_in_bounds(stacks: nat, sectors: nat)
    ensures
        all_below(sphere_indices(stacks, sectors), ((stacks + 1) * (sectors + 1)) as int),
{
    lemma_bands_below(stacks as int, sectors as int, stacks);
}

proof fn lemma_band_prefix(stacks: int, sectors: int, i: int, m: nat, n: nat)
    requires
        m <= n,
    ensures
        band_indices(stacks, sectors, i, m).len() <= band_indices(stacks, sectors, i, n).len(),
        forall|k: int|
            0 <= k < band_indices(stacks, sectors, i, m).len() ==> #[trigger] band_indices(
                stacks,
                sectors,
                i,
                n,
            )[k] == band_indices(stacks, sectors, i, m)[k],
    decreases n,
{
    if n > m {
        lemma_band_prefix(stacks, sectors, i, m, (n - 1) as nat);
        let a = band_indices(stacks, sectors, i, (n - 1) as nat);
        let b = cell_indices(stacks, sectors, i, n - 1);
        assert forall|k: int| 0 <= k < a.len() implies #[trigger] (a + b)[k] == a[k] by {}
    }
}

proof fn lemma_bands_prefix(stacks: int, sectors: int, m: nat, n: nat)
    requires
        m <= n,
    ensures
        bands_indices(stacks, sectors, m).len() <= bands_indices(stacks, sectors, n).len(),
        forall|k: int|
            0 <= k < bands_indices(stacks, sectors, m).len() ==> #[trigger] bands_indices(
                stacks,
                sectors,
                n,
            )[k] == bands_indices(stacks, sectors, m)[k],
    decreases n,
{
    if n > m {
        lemma_bands_prefix(stacks, sectors, m, (n - 1) as nat);
        let a = bands_indices(stacks, sectors, (n - 1) as nat);
        let b = band_indices(stacks, sectors, n - 1, sectors as nat);
        assert forall|k: int| 0 <= k < a.len() implies #[trigger] (a + b)[k] == a[k] by {}
    }
}

/// Entry `c` of cell `(i, j)` stands at `bands_indices(i).len() + j * cell_len(i) + c`.
proof fn lemma_cell_entry(stacks: int, sectors: int, i: int, j: int, c: int)
    requires
        0 <= i < stacks,
        0 <= j < sectors,
        0 <= c < cell_len(stacks, i),
    ensures
        ({
            let p = bands_indices(stacks, sectors, i as nat).len() + j * cell_len(stacks, i) + c;
            &&& 0 <= p < sphere_indices(stacks as nat, sectors as nat).len()
            &&& sphere_indices(stacks as nat, sectors as nat)[p] == cell_indices(stacks, sectors, i, j)[c]
        }),
{
    let l = cell_len(stacks, i);
    lemma_band_len(stacks, sectors, i, j as nat);
    lemma_band_len(stacks, sectors, i, (j + 1) as nat);
    lemma_band_len(stacks, sectors, i, sectors as nat);
    lemma_band_prefix(stacks, sectors, i, (j + 1) as nat, sectors as nat);
    let bj = band_indices(stacks, sectors, i, j as nat);
    let cell = cell_indices(stacks, sectors, i, j);
    assert(cell.len() == l);
    assert(band_indices(stacks, sectors, i, (j + 1) as nat) == bj + cell);
    assert((bj + cell)[j * l + c] == cell[c]);
    let band = band_indices(stacks, sectors, i, sectors as nat);
    assert(band[j * l + c] == cell[c]);
    assert(j * l + c < sectors * l) by (nonlinear_arith)
        requires
            j < sectors,
            c < l,
            0 <= c,
    ;
    let bi = bands_indices(stacks, sectors, i as nat);
    lemma_bands_prefix(stacks, sectors, (i + 1) as nat, stacks as nat);
    let bi1 = bands_indices(stacks, sectors, (i + 1) as nat);
    assert(bi1 == bi + band);
    assert(0 <= j * l) by (nonlinear_arith)
        requires
            0 <= j,
            0 <= l,
    ;
    assert((bi + band)[bi.len() + j * l + c] == band[j * l + c]);
    assert(bi1[bi.len() + j * l + c] == cell[c]);
}

/// In every band strictly between the poles, cell `(i, j)` contributes the two
/// triangles `(k1 + j, k2 + j, k1 + j + 1)` and `(k1 + j + 1, k2 + j, k2 + j + 1)`,
/// where `k1 = i * (sectors + 1)` starts row `i` and `k2 = k1 + sectors + 1`
/// starts row `i + 1`; together they cover the four corners of the quad. The
/// cell's entries start at `3 * sectors + 6 * sectors * (i - 1) + 6 * j`.
pub proof fn lemma_sphere_inner_cell(stacks: nat, sectors: nat, i: int, j: int)
    requires
        0 < i,
        i + 1 < stacks,
        0 <= j < sectors,
    ensures
        ({
            let s = sphere_indices(stacks, sectors);
            let k1 = i * (sectors + 1);
            let k2 = k1 + sectors + 1;
            let p = 3 * sectors + 6 * sectors * (i - 1) + 6 * j;
            &&& p + 6 <= s.len()
            &&& s[p] == k1 + j
            &&& s[p + 1] == k2 + j
            &&& s[p + 2] == k1 + j + 1
            &&& s[p + 3] == k1 + j + 1
            &&& s[p + 4] == k2 + j
            &&& s[p + 5] == k2 + j + 1
        }),
{
    lemma_bands_len(stacks as int, sectors as int, i as nat);
    assert(6 * sectors * i - 3 * sectors == 3 * sectors + 6 * sectors * (i - 1)) by (nonlinear_arith);
    assert(cell_len(stacks as int, i as int) == 6);
    assert(j * 6 == 6 * j);
    let c = cell_indices(stacks as int, sectors as int, i as int, j as int);
    lemma_cell_entry(stacks as int, sectors as int, i as int, j as int, 0);
    lemma_cell_entry(stacks as int, sectors as int, i as int, j as int, 1);
    lemma_cell_entry(stacks as int, sectors as int, i as int, j as int, 2);
    lemma_cell_entry(stacks as int, sectors as int, i as int, j as int, 3);
    lemma_cell_entry(stacks as int, sectors as int, i as int, j as int, 4);
    lemma_cell_entry(stacks as int, sectors as int, i as int, j as int, 5);
}

/// In the band at the first pole (when there are at least two bands), cell
/// `(0, j)` contributes only the triangle `(j + 1, sectors + 1 + j, sectors + 2 + j)`,
/// at entries `3 * j ..`.
pub proof fn lemma_sphere_top_cell(stacks: nat, sectors: nat, j: int)
    requires
        2 <= stacks,
        0 <= j < sectors,
    ensures
        ({
            let s = sphere_indices(stacks, sectors);
            &&& 3 * j + 3 <= s.len()
            &&& s[3 * j] == j + 1
            &&& s[3 * j + 1] == sectors + 1 + j
            &&& s[3 * j + 2] == sectors + 2 + j
        }),
{
    assert(cell_len(stacks as int, 0) == 3);
    assert(bands_indices(stacks as int, sectors as int, 0).len() == 0);
    assert(j * 3 == 3 * j);
    lemma_cell_entry(stacks as int, sectors as int, 0, j as int, 0);
    lemma_cell_entry(stacks as int, sectors as int, 0, j as int, 1);
    lemma_cell_entry(stacks as int, sectors as int, 0, j as int, 2);
}

/// In the band at the last pole (when there are at least two bands), cell
/// `(stacks - 1, j)` contributes only the triangle `(k1 + j, k2 + j, k1 + j + 1)`,
/// at entries `3 * sectors + 6 * sectors * (stacks - 2) + 3 * j ..`.
pub proof fn lemma_sphere_bottom_cell(stacks: nat, sectors: nat, j: int)
    requires
        2 <= stacks,
        0 <= j < sectors,
    ensures
        ({
            let s = sphere_indices(stacks, sectors);
            let i = stacks - 1;
            let k1 = i * (sectors + 1);
            let k2 = k1 + sectors + 1;
            let p = 3 * sectors + 6 * sectors * (stacks - 2) + 3 * j;
            &&& p + 3 <= s.len()
            &&& s[p] == k1 + j
            &&& s[p + 1] == k2 + j
            &&& s[p + 2] == k1 + j + 1
        }),
{
    let i = (stacks - 1) as nat;
    lemma_bands_len(stacks as int, sectors as int, i);
    assert(6 * sectors * i - 3 * sectors == 3 * sectors + 6 * sectors * (stacks - 2)) by (nonlinear_arith)
        requires
            i == stacks - 1,
    ;
    assert(cell_len(stacks as int, i as int) == 3);
    assert(j * 3 == 3 * j);
    lemma_cell_entry(stacks as int, sectors as int, i as int, j as int, 0);
    lemma_cell_entry(stacks as int, sectors as int, i as int, j as int, 1);
    lemma_cell_entry(stacks as int, sectors as int, i as int, j as int, 2);
}

/// The six vertices drawn for cell `(i, j)` of a sphere, at positions
/// `6 * (i * sectors + j) ..`, are `(i, j), (i, j + 1), (i + 1, j)` and
/// `(i, j + 1), (i + 1, j + 1), (i + 1, j)`: two triangles with three distinct
/// corners each that together cover the four corners of the cell.
pub proof fn lemma_sphere_corner_cell(sectors: int, i: int, j: int)
    requires
        0 <= i,
        0 <= j < sectors,
    ensures
        ({
            let p = 6 * (i * sectors + j);
            &&& sphere_corner(sectors, p) == (i, j)
            &&& sphere_corner(sectors, p + 1) == (i, j + 1)
            &&& sphere_corner(sectors, p + 2) == (i + 1, j)
            &&& sphere_corner(sectors, p + 3) == (i, j + 1)
            &&& sphere_corner(sectors, p + 4) == (i + 1, j + 1)
            &&& sphere_corner(sectors, p + 5) == (i + 1, j)
        }),
{
    let cell = i * sectors + j;
    let p = 6 * cell;
    vstd::arithmetic::div_mod::lemma_fundamental_div_mod_converse(cell, sectors, i, j);
    vstd::arithmetic::div_mod::lemma_fundamental_div_mod_converse(p, 6, cell, 0);
    vstd::arithmetic::div_mod::lemma_fundamental_div_mod_converse(p + 1, 6, cell, 1);
    vstd::arithmetic::div_mod::lemma_fundamental_div_mod_converse(p + 2, 6, cell, 2);
    vstd::arithmetic::div_mod::lemma_fundamental_div_mod_converse(p + 3, 6, cell, 3);
    vstd::arithmetic::div_mod::lemma_fundamental_div_mod_converse(p + 4, 6, cell, 4);
    vstd::arithmetic::div_mod::lemma_fundamental_div_mod_converse(p + 5, 6, cell, 5);
}

} // verus!
