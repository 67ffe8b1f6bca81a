//! Gradient lattices: coarse grids of pseudo-random unit direction vectors,
//! one per lattice node, built once per bake from a sequence of drawn angles.

use vstd::prelude::*;
use crate::fixed::{SCALE, TAU_FP, sdiv, sdiv_spec, lemma_sdiv_bound, sin_fp, cos_fp, sin_spec,
    cos_spec};

verus! {

/// A direction vector at a 2D lattice node, in fixed point.
#[derive(Clone, Copy, PartialEq, Eq, Structural, Debug)]
pub struct Grad2 {
    pub x: i64,
    pub y: i64,
}

/// A direction vector at a 3D lattice node, in fixed point.
#[derive(Clone, Copy, PartialEq, Eq, Structural, Debug)]
pub struct Grad3 {
    pub x: i64,
    pub y: i64,
    pub z: i64,
}

/// Every component of a stored gradient has magnitude at most one unit.
pub open spec fn grad2_in_bounds(g: Grad2) -> bool {
    &&& -SCALE <= g.x <= SCALE
    &&& -SCALE <= g.y <= SCALE
}

/// Every component of a stored gradient has magnitude at most one unit.
pub open spec fn grad3_in_bounds(g: Grad3) -> bool {
    &&& -SCALE <= g.x <= SCALE
    &&& -SCALE <= g.y <= SCALE
    &&& -SCALE <= g.z <= SCALE
}

/// The gradient a single drawn angle determines: `(cos a, sin a)`.
pub open spec fn grad2_of(a: int) -> Grad2 {
    Grad2 { x: cos_spec(a) as i64, y: sin_spec(a) as i64 }
}

/// The gradient two drawn angles determine: a point on the unit sphere,
/// `(cos a1 * sin a2, sin a1 * sin a2, cos a2)`.
pub open spec fn grad3_of(a1: int, a2: int) -> Grad3 {
    Grad3 {
        x: sdiv_spec(cos_spec(a1) * sin_spec(a2)) as i64,
        y: sdiv_spec(sin_spec(a1) * sin_spec(a2)) as i64,
        z: cos_spec(a2) as i64,
    }
}

/// Every drawn angle lies in the full turn `[0, TAU_FP)`.
pub open spec fn angles_ok(s: Seq<i64>) -> bool {
    forall|i: int| 0 <= i < s.len() ==> 0 <= #[trigger] s[i] < TAU_FP
}

/// The 2D lattice a given angle sequence determines, node by node.
pub open spec fn spec_lattice2(angles: Seq<i64>, n: nat) -> Seq<Grad2> {
    Seq::new(n, |i: int| grad2_of(angles[i] as int))
}

/// The 3D lattice a given angle sequence determines, node by node;
/// node `i` consumes the angle pair at positions `2i` and `2i + 1`.
pub open spec fn spec_lattice3(angles: Seq<i64>, n: nat) -> Seq<Grad3> {
    Seq::new(n, |i: int| grad3_of(angles[2 * i] as int, angles[2 * i + 1] as int))
}

/// A rectangular grid of 2D gradients, flat in row-major order with the
/// x axis outermost: node `(ix, iy)` sits at `ix * ny + iy`.
pub struct Lattice2 {
    pub nx: usize,
    pub ny: usize,
    pub data: Vec<Grad2>,
}

impl Lattice2 {
    /// Shape and bounds invariant.
    pub open spec fn wf(&self) -> bool {
        &&& self.nx >= 1
        &&& self.ny >= 1
        &&& self.data@.len() == self.nx * self.ny
        &&& forall|i: int|
            0 <= i < self.data@.len() ==> grad2_in_bounds(#[trigger] self.data@[i])
    }
}

/// A cuboid grid of 3D gradients, flat with the x axis outermost:
/// node `(ix, iy, iz)` sits at `(ix * ny + iy) * nz + iz`.
pub struct Lattice3 {
    pub nx: usize,
    pub ny: usize,
    pub nz: usize,
    pub data: Vec<Grad3>,
}

impl Lattice3 {
    /// Shape and bounds invariant.
    pub open spec fn wf(&self) -> bool {
        &&& self.nx >= 1
        &&& self.ny >= 1
        &&& self.nz >= 1
        &&& self.data@.len() == self.nx * self.ny * self.nz
        &&& forall|i: int|
            0 <= i < self.data@.len() ==> grad3_in_bounds(#[trigger] self.data@[i])
    }
}

/// Relies on rand::random_range over a constant, nonempty integer range:
/// the draw is uniform within the range and the call cannot panic.
#[verifier::external_body]
fn draw_angle() -> (r: i64)
    ensures
        0 <= r < TAU_FP,
{
    rand::random_range(0..TAU_FP)
}

/// Draw `n` uniform fixed-point angles, each in `[0, TAU_FP)`.
pub fn draw_angles(n: usize) -> (v: Vec<i64>)
    ensures
        v@.len() == n,
        angles_ok(v@),
{
    let mut v: Vec<i64> = Vec::new();
    let mut i: usize = 0;
    while i < n
        invariant
            i <= n,
            v@.len() == i,
            angles_ok(v@),
        decreases n - i,
    {
        v.push(draw_angle());
        i = i + 1;
    }
    v
}

/// Compute one node's 2D gradient from its drawn angle.
fn node_grad2(a: i64) -> (g: Grad2)
    requires
        0 <= a < TAU_FP,
    ensures
        g == grad2_of(a as int),
        grad2_in_bounds(g),
{
    Grad2 { x: cos_fp(a), y: sin_fp(a) }
}

/// Compute one node's 3D gradient from its two drawn angles.
fn node_grad3(a1: i64, a2: i64) -> (g: Grad3)
    requires
        0 <= a1 < TAU_FP,
        0 <= a2 < TAU_FP,
    ensures
        g == grad3_of(a1 as int, a2 as int),
        grad3_in_bounds(g),
{
    let c1: i64 = cos_fp(a1);
    let s1: i64 = sin_fp(a1);
    let c2: i64 = cos_fp(a2);
    let s2: i64 = sin_fp(a2);
    proof {
        assert(c1 * s2 <= SCALE * SCALE && c1 * s2 >= -SCALE * SCALE && s1 * s2 <= SCALE * SCALE
            && s1 * s2 >= -SCALE * SCALE) by (nonlinear_arith)
            requires
                -SCALE <= c1 <= SCALE,
                -SCALE <= s1 <= SCALE,
                -SCALE <= s2 <= SCALE,
        ;
        lemma_sdiv_bound(c1 as int * s2 as int, SCALE as int);
        lemma_sdiv_bound(s1 as int * s2 as int, SCALE as int);
    }
    Grad3 { x: sdiv(c1 * s2), y: sdiv(s1 * s2), z: c2 }
}

/// Build a fully populated 2D lattice, one gradient per node, from one
/// drawn angle per node; node order is row-major, x axis outermost.
pub fn build_lattice2(nx: usize, ny: usize, angles: &Vec<i64>) -> (lat: Lattice2)
    requires
        nx >= 1,
        ny >= 1,
        angles@.len() == nx * ny,
        angles_ok(angles@),
    ensures
        lat.wf(),
        lat.nx == nx,
        lat.ny == ny,
        lat.data@ == spec_lattice2(angles@, (nx * ny) as nat),
{
    let total: usize = angles.len();
    let mut data: Vec<Grad2> = Vec::new();
    let mut i: usize = 0;
    while i < total
        invariant
            i <= total,
            total == angles@.len(),
            angles_ok(angles@),
            data@ == spec_lattice2(angles@, i as nat),
            forall|j: int| 0 <= j < data@.len() ==> grad2_in_bounds(#[trigger] data@[j]),
        decreases total - i,
    {
        let g = node_grad2(angles[i]);
        data.push(g);
        proof {
            assert(data@ =~= spec_lattice2(angles@, (i + 1) as nat));
        }
        i = i + 1;
    }
    Lattice2 { nx, ny, data }
}

/// Build a fully populated 3D lattice, one gradient per node, from two
/// drawn angles per node; node order is flat, x axis outermost.
pub fn build_lattice3(nx: usize, ny: usize, nz: usize, angles: &Vec<i64>) -> (lat: Lattice3)
    requires
        nx >= 1,
        ny >= 1,
        nz >= 1,
        angles@.len() == 2 * (nx * ny * nz),
        angles_ok(angles@),
    ensures
        lat.wf(),
        lat.nx == nx,
        lat.ny == ny,
        lat.nz == nz,
        lat.data@ == spec_lattice3(angles@, (nx * ny * nz) as nat),
{
    let total: usize = angles.len() / 2;
    proof {
        assert(total == nx * ny * nz);
    }
    let mut data: Vec<Grad3> = Vec::new();
    let mut i: usize = 0;
    while i < total
        invariant
            i <= total,
            2 * total == angles@.len(),
            2 * total <= usize::MAX,
            angles_ok(angles@),
            data@ == spec_lattice3(angles@, i as nat),
            forall|j: int| 0 <= j < data@.len() ==> grad3_in_bounds(#[trigger] data@[j]),
        decreases total - i,
    {
        let g = node_grad3(angles[2 * i], angles[2 * i + 1]);
        data.push(g);
        proof {
            assert(data@ =~= spec_lattice3(angles@, (i + 1) as nat));
        }
        i = i + 1;
    }
    Lattice3 { nx, ny, nz, data }
}

/// Nodes along one axis: `ceil(extent * num / (den * SCALE)) + 1`, the
/// count that keeps every sample's lattice cell fully surrounded.
pub open spec fn node_count_spec(extent: int, num: int, den: int) -> int {
    (extent * num + den * SCALE - 1) / (den * SCALE) + 1
}

/// The lattice cell a sample on one axis falls in: the integer part of
/// its fixed-point coordinate `i * num / den`.
pub open spec fn cell_spec(i: int, num: int, den: int) -> int {
    (i * num) / (den * SCALE as int)
}

/// The fractional offset of a sample within its lattice cell: the
/// fixed-point coordinate `i * num / den` modulo one unit.
pub open spec fn off_spec(i: int, num: int, den: int) -> int {
    ((i * num) / den) % (SCALE as int)
}

/// Lattice sizing: every output coordinate's cell, plus one, stays
/// strictly inside the node count, so all surrounding nodes exist.
pub proof fn lemma_lattice_sizing(extent: int, num: int, den: int, i: int)
    requires
        1 <= extent,
        1 <= num,
        1 <= den,
        0 <= i < extent,
    ensures
        0 <= cell_spec(i, num, den),
        cell_spec(i, num, den) + 1 < node_count_spec(extent, num, den),
{
    let d = den * (SCALE as int);
    assert(den * (SCALE as int) >= SCALE) by (nonlinear_arith)
        requires
            den >= 1,
    ;
    vstd::arithmetic::div_mod::lemma_div_pos_is_pos(i * num, d);
    assert(i * num >= 0) by (nonlinear_arith)
        requires
            i >= 0,
            num >= 1,
    ;
    assert(i * num <= extent * num - 1) by (nonlinear_arith)
        requires
            i < extent,
            num >= 1,
    ;
    vstd::arithmetic::div_mod::lemma_div_is_ordered(i * num, extent * num - 1, d);
    vstd::arithmetic::div_mod::lemma_div_plus_one(extent * num - 1, d);
    assert(extent * num + d - 1 == d + (extent * num - 1));
}

} // verus!
