//! The noise sampler: corner dot products blended with the fade curve by
//! nested linear interpolation, for 2D and 3D gradient lattices.

use vstd::prelude::*;
use crate::fixed::{SCALE, sdiv, sdiv_spec, lemma_sdiv_bound, fade, fade_spec, lerp, lerp_spec,
    lemma_lerp_bound, lemma_lerp_zero, lemma_lerp_full, lemma_fade_endpoints};
use crate::lattice::{Grad2, Grad3, Lattice2, Lattice3, grad2_in_bounds, grad3_in_bounds};

verus! {

/// Largest magnitude a sampled noise value can reach: three blend levels,
/// each growing the bound by at most a factor of 21, on dot products of
/// magnitude at most three units.
pub const NOISE_MAX: i64 = 27783 * 65536;

/// Influence of one 2D corner gradient: its dot product with the vector
/// from the corner to the sample point.
pub open spec fn dot2_spec(g: Grad2, ox: int, oy: int) -> int {
    sdiv_spec(g.x * ox + g.y * oy)
}

/// Influence of one 3D corner gradient: its dot product with the vector
/// from the corner to the sample point.
pub open spec fn dot3_spec(g: Grad3, ox: int, oy: int, oz: int) -> int {
    sdiv_spec(g.x * ox + g.y * oy + g.z * oz)
}

/// The sampler's value inside the 2D cell with origin node `(x0, y0)`,
/// at fractional offsets `(dx, dy)`: the four corner influences blended
/// by faded interpolation, x axis innermost.
pub open spec fn sample2_spec(lat: Seq<Grad2>, ny: int, x0: int, y0: int, dx: int, dy: int) -> int {
    let i00 = dot2_spec(lat[x0 * ny + y0], dx, dy);
    let i10 = dot2_spec(lat[(x0 + 1) * ny + y0], dx - SCALE, dy);
    let i01 = dot2_spec(lat[x0 * ny + y0 + 1], dx, dy - SCALE);
    let i11 = dot2_spec(lat[(x0 + 1) * ny + y0 + 1], dx - SCALE, dy - SCALE);
    let u = fade_spec(dx);
    let v = fade_spec(dy);
    lerp_spec(lerp_spec(i00, i10, u), lerp_spec(i01, i11, u), v)
}

/// The sampler's value inside the 3D cell with origin node
/// `(x0, y0, z0)`, at fractional offsets `(dx, dy, dz)`: the eight corner
/// influences blended by faded interpolation, x axis innermost, then y,
/// then z.
pub open spec fn sample3_spec(
    lat: Seq<Grad3>,
    ny: int,
    nz: int,
    x0: int,
    y0: int,
    z0: int,
    dx: int,
    dy: int,
    dz: int,
) -> int {
    let i000 = dot3_spec(lat[(x0 * ny + y0) * nz + z0], dx, dy, dz);
    let i100 = dot3_spec(lat[((x0 + 1) * ny + y0) * nz + z0], dx - SCALE, dy, dz);
    let i010 = dot3_spec(lat[(x0 * ny + y0 + 1) * nz + z0], dx, dy - SCALE, dz);
    let i110 = dot3_spec(lat[((x0 + 1) * ny + y0 + 1) * nz + z0], dx - SCALE, dy - SCALE, dz);
    let i001 = dot3_spec(lat[(x0 * ny + y0) * nz + z0 + 1], dx, dy, dz - SCALE);
    let i101 = dot3_spec(lat[((x0 + 1) * ny + y0) * nz + z0 + 1], dx - SCALE, dy, dz - SCALE);
    let i011 = dot3_spec(lat[(x0 * ny + y0 + 1) * nz + z0 + 1], dx, dy - SCALE, dz - SCALE);
    let i111 = dot3_spec(
        lat[((x0 + 1) * ny + y0 + 1) * nz + z0 + 1],
        dx - SCALE,
        dy - SCALE,
        dz - SCALE,
    );
    let u = fade_spec(dx);
    let v = fade_spec(dy);
    let w = fade_spec(dz);
    let x00 = lerp_spec(i000, i100, u);
    let x10 = lerp_spec(i010, i110, u);
    let x01 = lerp_spec(i001, i101, u);
    let x11 = lerp_spec(i011, i111, u);
    lerp_spec(lerp_spec(x00, x10, v), lerp_spec(x01, x11, v), w)
}

/// Fetch the gradient at 2D node `(ix, iy)`.
fn grad2_at(lat: &Lattice2, ix: usize, iy: usize) -> (g: Grad2)
    requires
        lat.wf(),
        ix < lat.nx,
        iy < lat.ny,
    ensures
        g == lat.data@[ix * lat.ny + iy],
        grad2_in_bounds(g),
{
    let len: usize = lat.data.len();
    proof {
        assert(ix * lat.ny + iy < lat.nx * lat.ny) by (nonlinear_arith)
            requires
                0 <= ix < lat.nx,
                0 <= iy < lat.ny,
        ;
    }
    lat.data[ix * lat.ny + iy]
}

/// Fetch the gradient at 3D node `(ix, iy, iz)`.
fn grad3_at(lat: &Lattice3, ix: usize, iy: usize, iz: usize) -> (g: Grad3)
    requires
        lat.wf(),
        ix < lat.nx,
        iy < lat.ny,
        iz < lat.nz,
    ensures
        g == lat.data@[(ix * lat.ny + iy) * lat.nz + iz],
        grad3_in_bounds(g),
{
    let len: usize = lat.data.len();
    proof {
        assert(ix * lat.ny + iy < lat.nx * lat.ny) by (nonlinear_arith)
            requires
                0 <= ix < lat.nx,
                0 <= iy < lat.ny,
        ;
        assert(lat.nx * lat.ny <= lat.nx * lat.ny * lat.nz) by (nonlinear_arith)
            requires
                lat.nx >= 0,
                lat.ny >= 0,
                lat.nz >= 1,
        ;
        assert((ix * lat.ny + iy) * lat.nz + iz < lat.nx * lat.ny * lat.nz) by (nonlinear_arith)
            requires
                0 <= ix * lat.ny + iy < lat.nx * lat.ny,
                0 <= iz < lat.nz,
        ;
        assert((ix * lat.ny + iy) * lat.nz <= (ix * lat.ny + iy) * lat.nz + iz);
    }
    lat.data[(ix * lat.ny + iy) * lat.nz + iz]
}

/// Compute one 2D corner influence.
fn dot2(g: Grad2, ox: i64, oy: i64) -> (r: i64)
    requires
        grad2_in_bounds(g),
        -SCALE <= ox <= SCALE,
        -SCALE <= oy <= SCALE,
    ensures
        r == dot2_spec(g, ox as int, oy as int),
        -2 * SCALE <= r <= 2 * SCALE,
{
    proof {
        assert(-SCALE * SCALE <= g.x * ox <= SCALE * SCALE && -SCALE * SCALE <= g.y * oy
            <= SCALE * SCALE) by (nonlinear_arith)
            requires
                -SCALE <= g.x <= SCALE,
                -SCALE <= g.y <= SCALE,
                -SCALE <= ox <= SCALE,
                -SCALE <= oy <= SCALE,
        ;
        lemma_sdiv_bound(g.x as int * ox as int + g.y as int * oy as int, 2 * SCALE as int);
    }
    sdiv(g.x * ox + g.y * oy)
}

/// Compute one 3D corner influence.
fn dot3(g: Grad3, ox: i64, oy: i64, oz: i64) -> (r: i64)
    requires
        grad3_in_bounds(g),
        -SCALE <= ox <= SCALE,
        -SCALE <= oy <= SCALE,
        -SCALE <= oz <= SCALE,
    ensures
        r == dot3_spec(g, ox as int, oy as int, oz as int),
        -3 * SCALE <= r <= 3 * SCALE,
{
    proof {
        assert(-SCALE * SCALE <= g.x * ox <= SCALE * SCALE && -SCALE * SCALE <= g.y * oy
            <= SCALE * SCALE && -SCALE * SCALE <= g.z * oz <= SCALE * SCALE) by (nonlinear_arith)
            requires
                -SCALE <= g.x <= SCALE,
                -SCALE <= g.y <= SCALE,
                -SCALE <= g.z <= SCALE,
                -SCALE <= ox <= SCALE,
                -SCALE <= oy <= SCALE,
                -SCALE <= oz <= SCALE,
        ;
        lemma_sdiv_bound(
            g.x as int * ox as int + g.y as int * oy as int + g.z as int * oz as int,
            3 * SCALE as int,
        );
    }
    sdiv(g.x * ox + g.y * oy + g.z * oz)
}

/// Sample the 2D noise field inside the cell with origin `(x0, y0)` at
/// fractional offsets `(dx, dy)`, each in `[0, SCALE)`.
pub fn sample2(lat: &Lattice2, x0: usize, y0: usize, dx: i64, dy: i64) -> (r: i64)
    requires
        lat.wf(),
        x0 + 1 < lat.nx,
        y0 + 1 < lat.ny,
        0 <= dx < SCALE,
        0 <= dy < SCALE,
    ensures
        r == sample2_spec(lat.data@, lat.ny as int, x0 as int, y0 as int, dx as int, dy as int),
        -NOISE_MAX <= r <= NOISE_MAX,
{
    let g00 = grad2_at(lat, x0, y0);
    let g10 = grad2_at(lat, x0 + 1, y0);
    let g01 = grad2_at(lat, x0, y0 + 1);
    let g11 = grad2_at(lat, x0 + 1, y0 + 1);
    let i00 = dot2(g00, dx, dy);
    let i10 = dot2(g10, dx - SCALE, dy);
    let i01 = dot2(g01, dx, dy - SCALE);
    let i11 = dot2(g11, dx - SCALE, dy - SCALE);
    let u = fade(dx);
    let v = fade(dy);
    let x0v = lerp(i00, i10, u);
    let x1v = lerp(i01, i11, u);
    proof {
        lemma_lerp_bound(i00 as int, i10 as int, u as int, 2 * SCALE as int);
        lemma_lerp_bound(i01 as int, i11 as int, u as int, 2 * SCALE as int);
        lemma_lerp_bound(x0v as int, x1v as int, v as int, 42 * SCALE as int);
    }
    lerp(x0v, x1v, v)
}

/// Sample the 3D noise field inside the cell with origin `(x0, y0, z0)`
/// at fractional offsets `(dx, dy, dz)`, each in `[0, SCALE)`.
pub fn sample3(lat: &Lattice3, x0: usize, y0: usize, z0: usize, dx: i64, dy: i64, dz: i64) -> (r:
    i64)
    requires
        lat.wf(),
        x0 + 1 < lat.nx,
        y0 + 1 < lat.ny,
        z0 + 1 < lat.nz,
        0 <= dx < SCALE,
        0 <= dy < SCALE,
        0 <= dz < SCALE,
    ensures
        r == sample3_spec(
            lat.data@,
            lat.ny as int,
            lat.nz as int,
            x0 as int,
            y0 as int,
            z0 as int,
            dx as int,
            dy as int,
            dz as int,
        ),
        -NOISE_MAX <= r <= NOISE_MAX,
{
    let g000 = grad3_at(lat, x0, y0, z0);
    let g100 = grad3_at(lat, x0 + 1, y0, z0);
    let g010 = grad3_at(lat, x0, y0 + 1, z0);
    let g110 = grad3_at(lat, x0 + 1, y0 + 1, z0);
    let g001 = grad3_at(lat, x0, y0, z0 + 1);
    let g101 = grad3_at(lat, x0 + 1, y0, z0 + 1);
    let g011 = grad3_at(lat, x0, y0 + 1, z0 + 1);
    let g111 = grad3_at(lat, x0 + 1, y0 + 1, z0 + 1);
    let i000 = dot3(g000, dx, dy, dz);
    let i100 = dot3(g100, dx - SCALE, dy, dz);
    let i010 = dot3(g010, dx, dy - SCALE, dz);
    let i110 = dot3(g110, dx - SCALE, dy - SCALE, dz);
    let i001 = dot3(g001, dx, dy, dz - SCALE);
    let i101 = dot3(g101, dx - SCALE, dy, dz - SCALE);
    let i011 = dot3(g011, dx, dy - SCALE, dz - SCALE);
    let i111 = dot3(g111, dx - SCALE, dy - SCALE, dz - SCALE);
    let u = fade(dx);
    let v = fade(dy);
    let w = fade(dz);
    let x00 = lerp(i000, i100, u);
    let x10 = lerp(i010, i110, u);
    let x01 = lerp(i001, i101, u);
    let x11 = lerp(i011, i111, u);
    proof {
        lemma_lerp_bound(i000 as int, i100 as int, u as int, 3 * SCALE as int);
        lemma_lerp_bound(i010 as int, i110 as int, u as int, 3 * SCALE as int);
        lemma_lerp_bound(i001 as int, i101 as int, u as int, 3 * SCALE as int);
        lemma_lerp_bound(i011 as int, i111 as int, u as int, 3 * SCALE as int);
    }
    let y0v = lerp(x00, x10, v);
    let y1v = lerp(x01, x11, v);
    proof {
        lemma_lerp_bound(x00 as int, x10 as int, v as int, 63 * SCALE as int);
        lemma_lerp_bound(x01 as int, x11 as int, v as int, 63 * SCALE as int);
        lemma_lerp_bound(y0v as int, y1v as int, w as int, 1323 * SCALE as int);
    }
    lerp(y0v, y1v, w)
}

/// Continuity across a shared x boundary: the cell at `x0` sampled at a
/// full-unit x offset agrees exactly with the cell at `x0 + 1` sampled at
/// a zero x offset, for every y offset.
pub proof fn lemma_sample2_boundary_x(lat: Seq<Grad2>, ny: int, x0: int, y0: int, dy: int)
    ensures
        sample2_spec(lat, ny, x0, y0, SCALE as int, dy) == sample2_spec(
            lat,
            ny,
            x0 + 1,
            y0,
            0,
            dy,
        ),
{
    lemma_fade_endpoints();
    let i10 = dot2_spec(lat[(x0 + 1) * ny + y0], 0, dy);
    let i11 = dot2_spec(lat[(x0 + 1) * ny + y0 + 1], 0, dy - SCALE);
    let l00 = dot2_spec(lat[x0 * ny + y0], SCALE as int, dy);
    let l01 = dot2_spec(lat[x0 * ny + y0 + 1], SCALE as int, dy - SCALE);
    lemma_lerp_full(l00, i10);
    lemma_lerp_full(l01, i11);
    let r10 = dot2_spec(lat[(x0 + 1 + 1) * ny + y0], -SCALE as int, dy);
    let r11 = dot2_spec(lat[(x0 + 1 + 1) * ny + y0 + 1], -SCALE as int, dy - SCALE);
    lemma_lerp_zero(i10, r10);
    lemma_lerp_zero(i11, r11);
}

/// Continuity across a shared y boundary: the cell at `y0` sampled at a
/// full-unit y offset agrees exactly with the cell at `y0 + 1` sampled at
/// a zero y offset, for every x offset.
pub proof fn lemma_sample2_boundary_y(lat: Seq<Grad2>, ny: int, x0: int, y0: int, dx: int)
    ensures
        sample2_spec(lat, ny, x0, y0, dx, SCALE as int) == sample2_spec(
            lat,
            ny,
            x0,
            y0 + 1,
            dx,
            0,
        ),
{
    lemma_fade_endpoints();
    let i01 = dot2_spec(lat[x0 * ny + y0 + 1], dx, 0);
    let i11 = dot2_spec(lat[(x0 + 1) * ny + y0 + 1], dx - SCALE, 0);
    let u = fade_spec(dx);
    let top = lerp_spec(i01, i11, u);
    let l00 = dot2_spec(lat[x0 * ny + y0], dx, SCALE as int);
    let l10 = dot2_spec(lat[(x0 + 1) * ny + y0], dx - SCALE, SCALE as int);
    let bottom = lerp_spec(l00, l10, u);
    lemma_lerp_full(bottom, top);
    let r01 = dot2_spec(lat[x0 * ny + y0 + 1 + 1], dx, -SCALE as int);
    let r11 = dot2_spec(lat[(x0 + 1) * ny + y0 + 1 + 1], dx - SCALE, -SCALE as int);
    let far = lerp_spec(r01, r11, u);
    lemma_lerp_zero(top, far);
}

/// Continuity across a shared x boundary in 3D, for every y and z offset.
pub proof fn lemma_sample3_boundary_x(
    lat: Seq<Grad3>,
    ny: int,
    nz: int,
    x0: int,
    y0: int,
    z0: int,
    dy: int,
    dz: int,
)
    ensures
        sample3_spec(lat, ny, nz, x0, y0, z0, SCALE as int, dy, dz) == sample3_spec(
            lat,
            ny,
            nz,
            x0 + 1,
            y0,
            z0,
            0,
            dy,
            dz,
        ),
{
    lemma_fade_endpoints();
    let i100 = dot3_spec(lat[((x0 + 1) * ny + y0) * nz + z0], 0, dy, dz);
    let i110 = dot3_spec(lat[((x0 + 1) * ny + y0 + 1) * nz + z0], 0, dy - SCALE, dz);
    let i101 = dot3_spec(lat[((x0 + 1) * ny + y0) * nz + z0 + 1], 0, dy, dz - SCALE);
    let i111 = dot3_spec(lat[((x0 + 1) * ny + y0 + 1) * nz + z0 + 1], 0, dy - SCALE, dz - SCALE);
    let l000 = dot3_spec(lat[(x0 * ny + y0) * nz + z0], SCALE as int, dy, dz);
    let l010 = dot3_spec(lat[(x0 * ny + y0 + 1) * nz + z0], SCALE as int, dy - SCALE, dz);
    let l001 = dot3_spec(lat[(x0 * ny + y0) * nz + z0 + 1], SCALE as int, dy, dz - SCALE);
    let l011 = dot3_spec(
        lat[(x0 * ny + y0 + 1) * nz + z0 + 1],
        SCALE as int,
        dy - SCALE,
        dz - SCALE,
    );
    lemma_lerp_full(l000, i100);
    lemma_lerp_full(l010, i110);
    lemma_lerp_full(l001, i101);
    lemma_lerp_full(l011, i111);
    let r100 = dot3_spec(lat[((x0 + 1 + 1) * ny + y0) * nz + z0], -SCALE as int, dy, dz);
    let r110 = dot3_spec(
        lat[((x0 + 1 + 1) * ny + y0 + 1) * nz + z0],
        -SCALE as int,
        dy - SCALE,
        dz,
    );
    let r101 = dot3_spec(
        lat[((x0 + 1 + 1) * ny + y0) * nz + z0 + 1],
        -SCALE as int,
        dy,
        dz - SCALE,
    );
    let r111 = dot3_spec(
        lat[((x0 + 1 + 1) * ny + y0 + 1) * nz + z0 + 1],
        -SCALE as int,
        dy - SCALE,
        dz - SCALE,
    );
    lemma_lerp_zero(i100, r100);
    lemma_lerp_zero(i110, r110);
    lemma_lerp_zero(i101, r101);
    lemma_lerp_zero(i111, r111);
}

/// Continuity across a shared y boundary in 3D, for every x and z offset.
pub proof fn lemma_sample3_boundary_y(
    lat: Seq<Grad3>,
    ny: int,
    nz: int,
    x0: int,
    y0: int,
    z0: int,
    dx: int,
    dz: int,
)
    ensures
        sample3_spec(lat, ny, nz, x0, y0, z0, dx, SCALE as int, dz) == sample3_spec(
            lat,
            ny,
            nz,
            x0,
            y0 + 1,
            z0,
            dx,
            0,
            dz,
        ),
{
    lemma_fade_endpoints();
    let u = fade_spec(dx);
    let i010 = dot3_spec(lat[(x0 * ny + y0 + 1) * nz + z0], dx, 0, dz);
    let i110 = dot3_spec(lat[((x0 + 1) * ny + y0 + 1) * nz + z0], dx - SCALE, 0, dz);
    let i011 = dot3_spec(lat[(x0 * ny + y0 + 1) * nz + z0 + 1], dx, 0, dz - SCALE);
    let i111 = dot3_spec(lat[((x0 + 1) * ny + y0 + 1) * nz + z0 + 1], dx - SCALE, 0, dz - SCALE);
    let x10 = lerp_spec(i010, i110, u);
    let x11 = lerp_spec(i011, i111, u);
    let l000 = dot3_spec(lat[(x0 * ny + y0) * nz + z0], dx, SCALE as int, dz);
    let l100 = dot3_spec(lat[((x0 + 1) * ny + y0) * nz + z0], dx - SCALE, SCALE as int, dz);
    let l001 = dot3_spec(lat[(x0 * ny + y0) * nz + z0 + 1], dx, SCALE as int, dz - SCALE);
    let l101 = dot3_spec(
        lat[((x0 + 1) * ny + y0) * nz + z0 + 1],
        dx - SCALE,
        SCALE as int,
        dz - SCALE,
    );
    lemma_lerp_full(lerp_spec(l000, l100, u), x10);
    lemma_lerp_full(lerp_spec(l001, l101, u), x11);
    let r010 = dot3_spec(lat[(x0 * ny + y0 + 1 + 1) * nz + z0], dx, -SCALE as int, dz);
    let r110 = dot3_spec(lat[((x0 + 1) * ny + y0 + 1 + 1) * nz + z0], dx - SCALE, -SCALE as int, dz);
    let r011 = dot3_spec(lat[(x0 * ny + y0 + 1 + 1) * nz + z0 + 1], dx, -SCALE as int, dz - SCALE);
    let r111 = dot3_spec(
        lat[((x0 + 1) * ny + y0 + 1 + 1) * nz + z0 + 1],
        dx - SCALE,
        -SCALE as int,
        dz - SCALE,
    );
    lemma_lerp_zero(x10, lerp_spec(r010, r110, u));
    lemma_lerp_zero(x11, lerp_spec(r011, r111, u));
}

/// Continuity across a shared z boundary in 3D, for every x and y offset:
/// consecutive animation frames meet exactly at their shared time slice.
pub proof fn lemma_sample3_boundary_z(
    lat: Seq<Grad3>,
    ny: int,
    nz: int,
    x0: int,
    y0: int,
    z0: int,
    dx: int,
    dy: int,
)
    ensures
        sample3_spec(lat, ny, nz, x0, y0, z0, dx, dy, SCALE as int) == sample3_spec(
            lat,
            ny,
            nz,
            x0,
            y0,
            z0 + 1,
            dx,
            dy,
            0,
        ),
{
    lemma_fade_endpoints();
    let u = fade_spec(dx);
    let v = fade_spec(dy);
    let i001 = dot3_spec(lat[(x0 * ny + y0) * nz + z0 + 1], dx, dy, 0);
    let i101 = dot3_spec(lat[((x0 + 1) * ny + y0) * nz + z0 + 1], dx - SCALE, dy, 0);
    let i011 = dot3_spec(lat[(x0 * ny + y0 + 1) * nz + z0 + 1], dx, dy - SCALE, 0);
    let i111 = dot3_spec(lat[((x0 + 1) * ny + y0 + 1) * nz + z0 + 1], dx - SCALE, dy - SCALE, 0);
    let shared = lerp_spec(lerp_spec(i001, i101, u), lerp_spec(i011, i111, u), v);
    let l000 = dot3_spec(lat[(x0 * ny + y0) * nz + z0], dx, dy, SCALE as int);
    let l100 = dot3_spec(lat[((x0 + 1) * ny + y0) * nz + z0], dx - SCALE, dy, SCALE as int);
    let l010 = dot3_spec(lat[(x0 * ny + y0 + 1) * nz + z0], dx, dy - SCALE, SCALE as int);
    let l110 = dot3_spec(
        lat[((x0 + 1) * ny + y0 + 1) * nz + z0],
        dx - SCALE,
        dy - SCALE,
        SCALE as int,
    );
    let near = lerp_spec(lerp_spec(l000, l100, u), lerp_spec(l010, l110, u), v);
    lemma_lerp_full(near, shared);
    let r001 = dot3_spec(lat[(x0 * ny + y0) * nz + z0 + 1 + 1], dx, dy, -SCALE as int);
    let r101 = dot3_spec(lat[((x0 + 1) * ny + y0) * nz + z0 + 1 + 1], dx - SCALE, dy, -SCALE as int);
    let r011 = dot3_spec(lat[(x0 * ny + y0 + 1) * nz + z0 + 1 + 1], dx, dy - SCALE, -SCALE as int);
    let r111 = dot3_spec(
        lat[((x0 + 1) * ny + y0 + 1) * nz + z0 + 1 + 1],
        dx - SCALE,
        dy - SCALE,
        -SCALE as int,
    );
    let far = lerp_spec(lerp_spec(r001, r101, u), lerp_spec(r011, r111, u), v);
    lemma_lerp_zero(shared, far);
}

} // verus!
