//! The animation baker: validate a configuration, build one gradient
//! lattice sized to cover all three axes, sample every output cell of
//! every frame, and normalize each frame independently into display
//! levels. The whole volume is produced up front, before any playback.

use vstd::prelude::*;
use crate::fixed::SCALE;
use crate::lattice::{Grad2, Grad3, Lattice2, Lattice3, angles_ok, spec_lattice2, spec_lattice3,
    build_lattice2, build_lattice3, draw_angles, node_count_spec, cell_spec, off_spec,
    lemma_lattice_sizing};
use crate::sample::{sample2, sample2_spec, sample3, sample3_spec, NOISE_MAX};
use crate::frame::{RawFrame, NormalizedFrame, normalize, quant_spec, seq_min, seq_max};

verus! {

/// Largest output extent (width, height or frame count) accepted.
pub const EXTENT_MAX: usize = 65536;

/// Largest cell size ("detail") accepted.
pub const DETAIL_MAX: usize = 4096;

/// Largest dewarp or speed factor accepted, in fixed point (16.0).
pub const FACTOR_MAX: i64 = 16 * 65536;

/// Largest number of lattice nodes a bake may allocate.
pub const MAX_NODES: u64 = 4194304;

/// Largest number of output cells (width x height x frames) a bake may
/// allocate.
pub const MAX_CELLS: u64 = 16777216;

/// Bake parameters: output size, frame count, cell size, the per-axis
/// dewarp factor, the time-axis speed factor (both fixed point), and the
/// number of discrete display levels.
#[derive(Clone, Copy, PartialEq, Eq, Structural, Debug)]
pub struct Config {
    pub width: usize,
    pub height: usize,
    pub frames: usize,
    pub detail: usize,
    pub dewarp_fp: i64,
    pub speed_fp: i64,
    pub levels: u8,
}

/// Why a configuration was rejected before baking.
#[derive(Clone, Copy, PartialEq, Eq, Structural, Debug)]
pub enum ConfigError {
    ZeroWidth,
    ZeroHeight,
    ZeroFrames,
    ZeroDetail,
    ZeroDewarp,
    ZeroSpeed,
    ZeroLevels,
    TooLarge,
}

impl Config {
    /// x-axis coordinate scale: one output cell advances `1 / detail`.
    pub open spec fn x_num(&self) -> int {
        SCALE as int
    }

    /// x-axis coordinate denominator.
    pub open spec fn x_den(&self) -> int {
        self.detail as int
    }

    /// y-axis coordinate scale: one output cell advances
    /// `1 / (detail * dewarp)`, rescaling for non-square display cells.
    pub open spec fn y_num(&self) -> int {
        (SCALE * SCALE) as int
    }

    /// y-axis coordinate denominator.
    pub open spec fn y_den(&self) -> int {
        self.detail * self.dewarp_fp
    }

    /// Time-axis coordinate scale: one frame advances `speed / detail`,
    /// so a lower speed factor morphs the pattern more slowly.
    pub open spec fn z_num(&self) -> int {
        self.speed_fp as int
    }

    /// Time-axis coordinate denominator.
    pub open spec fn z_den(&self) -> int {
        self.detail as int
    }

    /// Lattice nodes along the x axis.
    pub open spec fn nodes_x(&self) -> int {
        node_count_spec(self.width as int, self.x_num(), self.x_den())
    }

    /// Lattice nodes along the y axis.
    pub open spec fn nodes_y(&self) -> int {
        node_count_spec(self.height as int, self.y_num(), self.y_den())
    }

    /// Lattice nodes along the time axis.
    pub open spec fn nodes_z(&self) -> int {
        node_count_spec(self.frames as int, self.z_num(), self.z_den())
    }

    /// Total lattice nodes of one bake.
    pub open spec fn total_nodes(&self) -> int {
        self.nodes_x() * self.nodes_y() * self.nodes_z()
    }

    /// Every dimension and factor is at least one.
    pub open spec fn dims_positive(&self) -> bool {
        &&& self.width >= 1
        &&& self.height >= 1
        &&& self.frames >= 1
        &&& self.detail >= 1
        &&& self.dewarp_fp >= 1
        &&& self.speed_fp >= 1
        &&& self.levels >= 1
    }

    /// Every dimension and factor is within its machine cap.
    pub open spec fn within_caps(&self) -> bool {
        &&& self.width <= EXTENT_MAX
        &&& self.height <= EXTENT_MAX
        &&& self.frames <= EXTENT_MAX
        &&& self.detail <= DETAIL_MAX
        &&& self.dewarp_fp <= FACTOR_MAX
        &&& self.speed_fp <= FACTOR_MAX
    }

    /// The lattice and the baked volume both fit the allocation caps.
    pub open spec fn sizes_ok(&self) -> bool {
        &&& self.total_nodes() <= MAX_NODES
        &&& self.width * self.height * self.frames <= MAX_CELLS
    }

    /// A configuration the baker accepts.
    pub open spec fn wf(&self) -> bool {
        &&& self.dims_positive()
        &&& self.within_caps()
        &&& self.sizes_ok()
    }
}

/// Count the lattice nodes along one axis.
fn node_count64(extent: usize, num: i64, den: i64) -> (n: u64)
    requires
        1 <= extent <= EXTENT_MAX,
        1 <= num <= SCALE * SCALE,
        1 <= den <= SCALE * SCALE,
    ensures
        n as int == node_count_spec(extent as int, num as int, den as int),
        n >= 2,
{
    proof {
        assert(extent as int * num as int <= 65536 * (SCALE * SCALE) && extent as int * num as int
            >= 1) by (nonlinear_arith)
            requires
                1 <= extent <= 65536,
                1 <= num <= SCALE * SCALE,
        ;
        assert(SCALE <= den as int * SCALE <= (SCALE * SCALE) * 65536) by (nonlinear_arith)
            requires
                1 <= den <= SCALE * SCALE,
        ;
    }
    let ds: u64 = (den as u64) * (SCALE as u64);
    let q: u64 = ((extent as u64) * (num as u64) + ds - 1) / ds;
    proof {
        vstd::arithmetic::div_mod::lemma_div_pos_is_pos(
            extent as int * num as int + den as int * SCALE - 1,
            den as int * SCALE,
        );
        vstd::arithmetic::div_mod::lemma_div_is_ordered(
            den as int * SCALE,
            extent as int * num as int + den as int * SCALE - 1,
            den as int * SCALE,
        );
        vstd::arithmetic::div_mod::lemma_div_by_multiple(1, den as int * SCALE);
        assert(extent as int * num as int >= 1) by (nonlinear_arith)
            requires
                extent as int >= 1,
                num as int >= 1,
        ;
        assert((1 as int) * (den as int * SCALE) == den as int * SCALE) by (nonlinear_arith);
    }
    q + 1
}

/// Decompose one axis coordinate: the lattice cell a sample falls in and
/// its fractional offset within that cell.
fn axis_cell_off(i: usize, num: i64, den: i64) -> (co: (usize, i64))
    requires
        i <= EXTENT_MAX,
        1 <= num <= SCALE * SCALE,
        1 <= den <= SCALE * SCALE,
        cell_spec(i as int, num as int, den as int) + 1 <= usize::MAX,
    ensures
        co.0 as int == cell_spec(i as int, num as int, den as int),
        co.1 as int == off_spec(i as int, num as int, den as int),
        0 <= co.1 < SCALE,
{
    proof {
        assert(i as int * num as int <= 65536 * (SCALE * SCALE) && i as int * num as int >= 0)
            by (nonlinear_arith)
            requires
                0 <= i <= 65536,
                1 <= num <= SCALE * SCALE,
        ;
    }
    let prod: u64 = (i as u64) * (num as u64);
    let coord: u64 = prod / (den as u64);
    let cell: u64 = coord / (SCALE as u64);
    let off: u64 = coord % (SCALE as u64);
    proof {
        vstd::arithmetic::div_mod::lemma_div_denominator(prod as int, den as int, SCALE as int);
    }
    (cell as usize, off as i64)
}

/// The lattice one bake builds: every node's gradient, determined by the
/// drawn angle sequence.
pub open spec fn lat_of(cfg: Config, angles: Seq<i64>) -> Seq<Grad3> {
    spec_lattice3(angles, cfg.total_nodes() as nat)
}

/// The raw noise sample of output cell `(x, y)` in frame `z`.
pub open spec fn raw_at(cfg: Config, angles: Seq<i64>, x: int, y: int, z: int) -> int {
    sample3_spec(
        lat_of(cfg, angles),
        cfg.nodes_y(),
        cfg.nodes_z(),
        cell_spec(x, cfg.x_num(), cfg.x_den()),
        cell_spec(y, cfg.y_num(), cfg.y_den()),
        cell_spec(z, cfg.z_num(), cfg.z_den()),
        off_spec(x, cfg.x_num(), cfg.x_den()),
        off_spec(y, cfg.y_num(), cfg.y_den()),
        off_spec(z, cfg.z_num(), cfg.z_den()),
    )
}

/// The full raw frame at time index `z`, row-major.
pub open spec fn raw_frame_of(cfg: Config, angles: Seq<i64>, z: int) -> Seq<i64> {
    Seq::new(
        (cfg.width * cfg.height) as nat,
        |j: int| raw_at(cfg, angles, j % (cfg.width as int), j / (cfg.width as int), z) as i64,
    )
}

/// Check a configuration before baking: zero or missing dimensions and
/// factors are rejected one by one, then anything over the machine caps.
pub fn validate(cfg: &Config) -> (r: Result<(), ConfigError>)
    ensures
        r == Ok::<(), ConfigError>(()) <==> cfg.wf(),
        r == Err::<(), ConfigError>(ConfigError::ZeroWidth) <==> cfg.width == 0,
        r == Err::<(), ConfigError>(ConfigError::ZeroHeight) <==> cfg.width >= 1 && cfg.height
            == 0,
        r == Err::<(), ConfigError>(ConfigError::ZeroFrames) <==> cfg.width >= 1 && cfg.height >= 1
            && cfg.frames == 0,
        r == Err::<(), ConfigError>(ConfigError::ZeroDetail) <==> cfg.width >= 1 && cfg.height >= 1
            && cfg.frames >= 1 && cfg.detail == 0,
        r == Err::<(), ConfigError>(ConfigError::ZeroDewarp) <==> cfg.width >= 1 && cfg.height >= 1
            && cfg.frames >= 1 && cfg.detail >= 1 && cfg.dewarp_fp < 1,
        r == Err::<(), ConfigError>(ConfigError::ZeroSpeed) <==> cfg.width >= 1 && cfg.height >= 1
            && cfg.frames >= 1 && cfg.detail >= 1 && cfg.dewarp_fp >= 1 && cfg.speed_fp < 1,
        r == Err::<(), ConfigError>(ConfigError::ZeroLevels) <==> cfg.width >= 1 && cfg.height >= 1
            && cfg.frames >= 1 && cfg.detail >= 1 && cfg.dewarp_fp >= 1 && cfg.speed_fp >= 1
            && cfg.levels == 0,
        r == Err::<(), ConfigError>(ConfigError::TooLarge) <==> cfg.dims_positive() && !(
        cfg.within_caps() && cfg.sizes_ok()),
{
    if cfg.width == 0 {
        return Err(ConfigError::ZeroWidth);
    }
    if cfg.height == 0 {
        return Err(ConfigError::ZeroHeight);
    }
    if cfg.frames == 0 {
        return Err(ConfigError::ZeroFrames);
    }
    if cfg.detail == 0 {
        return Err(ConfigError::ZeroDetail);
    }
    if cfg.dewarp_fp < 1 {
        return Err(ConfigError::ZeroDewarp);
    }
    if cfg.speed_fp < 1 {
        return Err(ConfigError::ZeroSpeed);
    }
    if cfg.levels == 0 {
        return Err(ConfigError::ZeroLevels);
    }
    if cfg.width > EXTENT_MAX || cfg.height > EXTENT_MAX || cfg.frames > EXTENT_MAX || cfg.detail
        > DETAIL_MAX || cfg.dewarp_fp > FACTOR_MAX || cfg.speed_fp > FACTOR_MAX {
        return Err(ConfigError::TooLarge);
    }
    proof {
        assert(1 <= cfg.detail * cfg.dewarp_fp <= SCALE * SCALE) by (nonlinear_arith)
            requires
                1 <= cfg.detail <= DETAIL_MAX,
                1 <= cfg.dewarp_fp <= FACTOR_MAX,
        ;
    }
    let ynum: i64 = SCALE * SCALE;
    let yden: i64 = (cfg.detail as i64) * cfg.dewarp_fp;
    let nx: u64 = node_count64(cfg.width, SCALE, cfg.detail as i64);
    let ny: u64 = node_count64(cfg.height, ynum, yden);
    let nz: u64 = node_count64(cfg.frames, cfg.speed_fp, cfg.detail as i64);
    proof {
        let gx = cfg.nodes_x();
        let gy = cfg.nodes_y();
        let gz = cfg.nodes_z();
        assert(gx <= gx * gy * gz && gy <= gx * gy * gz && gz <= gx * gy * gz && gx * gy <= gx * gy
            * gz) by (nonlinear_arith)
            requires
                gx >= 1,
                gy >= 1,
                gz >= 1,
        ;
        assert(nx as int * (ny as int) * (nz as int) == gx * gy * gz);
        assert(cfg.total_nodes() == gx * gy * gz);
    }
    if nx > MAX_NODES || ny > MAX_NODES || nz > MAX_NODES {
        return Err(ConfigError::TooLarge);
    }
    proof {
        assert(nx as int * (ny as int) <= MAX_NODES * MAX_NODES) by (nonlinear_arith)
            requires
                0 <= nx <= MAX_NODES,
                0 <= ny <= MAX_NODES,
        ;
    }
    let nn: u64 = nx * ny;
    if nn > MAX_NODES {
        return Err(ConfigError::TooLarge);
    }
    proof {
        assert(nn as int * (nz as int) <= MAX_NODES * MAX_NODES) by (nonlinear_arith)
            requires
                0 <= nn <= MAX_NODES,
                0 <= nz <= MAX_NODES,
        ;
    }
    let nnn: u64 = nn * nz;
    if nnn > MAX_NODES {
        return Err(ConfigError::TooLarge);
    }
    proof {
        let gw = cfg.width as int;
        let gh = cfg.height as int;
        let gf = cfg.frames as int;
        assert(gw * gh <= 65536 * 65536 && gw * gh >= 1 && gw * gh <= gw * gh * gf)
            by (nonlinear_arith)
            requires
                1 <= gw <= 65536,
                1 <= gh <= 65536,
                1 <= gf,
        ;
    }
    let cells: u64 = (cfg.width as u64) * (cfg.height as u64);
    if cells > MAX_CELLS {
        return Err(ConfigError::TooLarge);
    }
    proof {
        assert(cells as int * (cfg.frames as int) <= MAX_CELLS * 65536) by (nonlinear_arith)
            requires
                0 <= cells <= MAX_CELLS,
                0 <= cfg.frames <= 65536,
        ;
    }
    let vcells: u64 = cells * (cfg.frames as u64);
    if vcells > MAX_CELLS {
        return Err(ConfigError::TooLarge);
    }
    Ok(())
}

/// Bake the full animation volume from a validated configuration and a
/// drawn angle sequence: one gradient lattice, then every frame sampled
/// and normalized independently. The result is a pure function of the
/// configuration and the angles, so a replayed angle sequence reproduces
/// the volume exactly.
#[verifier::loop_isolation(false)]
pub fn bake(cfg: &Config, angles: &Vec<i64>) -> (vol: Vec<NormalizedFrame>)
    requires
        cfg.wf(),
        angles@.len() == 2 * cfg.total_nodes(),
        angles_ok(angles@),
    ensures
        vol@.len() == cfg.frames,
        forall|k: int|
            0 <= k < vol@.len() ==> (#[trigger] vol@[k]).wf() && vol@[k].width == cfg.width
                && vol@[k].height == cfg.height && vol@[k].levels == cfg.levels
                && vol@[k].data@.len() == cfg.width * cfg.height,
        forall|k: int, j: int|
            0 <= k < vol@.len() && 0 <= j < cfg.width * cfg.height
                ==> #[trigger] vol@[k].data@[j] as int == quant_spec(
                raw_frame_of(*cfg, angles@, k)[j] as int,
                seq_min(raw_frame_of(*cfg, angles@, k)),
                seq_max(raw_frame_of(*cfg, angles@, k)),
                cfg.levels as int,
            ),
{
    proof {
        assert(1 <= cfg.detail * cfg.dewarp_fp <= SCALE * SCALE) by (nonlinear_arith)
            requires
                1 <= cfg.detail <= DETAIL_MAX,
                1 <= cfg.dewarp_fp <= FACTOR_MAX,
        ;
    }
    let ynum: i64 = SCALE * SCALE;
    let yden: i64 = (cfg.detail as i64) * cfg.dewarp_fp;
    let nx64: u64 = node_count64(cfg.width, SCALE, cfg.detail as i64);
    let ny64: u64 = node_count64(cfg.height, ynum, yden);
    let nz64: u64 = node_count64(cfg.frames, cfg.speed_fp, cfg.detail as i64);
    proof {
        let gx = cfg.nodes_x();
        let gy = cfg.nodes_y();
        let gz = cfg.nodes_z();
        assert(gx <= gx * gy * gz && gy <= gx * gy * gz && gz <= gx * gy * gz && gx * gy <= gx * gy
            * gz) by (nonlinear_arith)
            requires
                gx >= 1,
                gy >= 1,
                gz >= 1,
        ;
        assert(nx64 as int * (ny64 as int) * (nz64 as int) == gx * gy * gz);
        assert(cfg.total_nodes() == gx * gy * gz);
    }
    let nx: usize = nx64 as usize;
    let ny: usize = ny64 as usize;
    let nz: usize = nz64 as usize;
    let total: usize = nx * ny * nz;
    let lat: Lattice3 = build_lattice3(nx, ny, nz, angles);
    let mut vol: Vec<NormalizedFrame> = Vec::new();
    let mut z: usize = 0;
    while z < cfg.frames
        invariant
            z <= cfg.frames,
            vol@.len() == z,
            forall|k: int|
                0 <= k < vol@.len() ==> (#[trigger] vol@[k]).wf() && vol@[k].width == cfg.width
                    && vol@[k].height == cfg.height && vol@[k].levels == cfg.levels
                    && vol@[k].data@.len() == cfg.width * cfg.height,
            forall|k: int, j: int|
                0 <= k < vol@.len() && 0 <= j < cfg.width * cfg.height
                    ==> #[trigger] vol@[k].data@[j] as int == quant_spec(
                    raw_frame_of(*cfg, angles@, k)[j] as int,
                    seq_min(raw_frame_of(*cfg, angles@, k)),
                    seq_max(raw_frame_of(*cfg, angles@, k)),
                    cfg.levels as int,
                ),
        decreases cfg.frames - z,
    {
        proof {
            lemma_lattice_sizing(cfg.frames as int, cfg.z_num(), cfg.z_den(), z as int);
        }
        let (cz, oz) = axis_cell_off(z, cfg.speed_fp, cfg.detail as i64);
        let mut data: Vec<i64> = Vec::new();
        let mut y: usize = 0;
        proof {
            assert(0 * cfg.width == 0) by (nonlinear_arith);
        }
        while y < cfg.height
            invariant
                y <= cfg.height,
                data@.len() == y * cfg.width,
                forall|j: int|
                    0 <= j < data@.len() ==> #[trigger] data@[j] == raw_frame_of(
                        *cfg,
                        angles@,
                        z as int,
                    )[j],
                forall|j: int|
                    0 <= j < data@.len() ==> -NOISE_MAX <= #[trigger] data@[j] <= NOISE_MAX,
            decreases cfg.height - y,
        {
            proof {
                lemma_lattice_sizing(cfg.height as int, cfg.y_num(), cfg.y_den(), y as int);
                assert(cfg.y_num() == ynum as int);
            }
            let (cy, oy) = axis_cell_off(y, ynum, yden);
            let mut x: usize = 0;
            proof {
                assert(y * cfg.width + cfg.width <= cfg.width * cfg.height) by (nonlinear_arith)
                    requires
                        y < cfg.height,
                ;
            }
            while x < cfg.width
                invariant
                    x <= cfg.width,
                    data@.len() == y * cfg.width + x,
                    forall|j: int|
                        0 <= j < data@.len() ==> #[trigger] data@[j] == raw_frame_of(
                            *cfg,
                            angles@,
                            z as int,
                        )[j],
                    forall|j: int|
                        0 <= j < data@.len() ==> -NOISE_MAX <= #[trigger] data@[j] <= NOISE_MAX,
                decreases cfg.width - x,
            {
                proof {
                    lemma_lattice_sizing(cfg.width as int, cfg.x_num(), cfg.x_den(), x as int);
                }
                let (cx, ox) = axis_cell_off(x, SCALE, cfg.detail as i64);
                let v: i64 = sample3(&lat, cx, cy, cz, ox, oy, oz);
                data.push(v);
                proof {
                    let w = cfg.width as int;
                    let j0 = y as int * w + x;
                    vstd::arithmetic::div_mod::lemma_fundamental_div_mod_converse_div(
                        j0,
                        w,
                        y as int,
                        x as int,
                    );
                    vstd::arithmetic::div_mod::lemma_fundamental_div_mod_converse_mod(
                        j0,
                        w,
                        y as int,
                        x as int,
                    );
                    assert(j0 < cfg.width * cfg.height) by (nonlinear_arith)
                        requires
                            0 <= x < cfg.width,
                            0 <= y < cfg.height,
                            j0 == y as int * cfg.width + x,
                    ;
                    assert(data@[j0] == raw_frame_of(*cfg, angles@, z as int)[j0]);
                }
                x = x + 1;
            }
            proof {
                assert((y + 1) * cfg.width == y * cfg.width + cfg.width) by (nonlinear_arith);
            }
            y = y + 1;
        }
        proof {
            assert(cfg.height * cfg.width == cfg.width * cfg.height) by (nonlinear_arith);
            assert(cfg.width * cfg.height >= 1) by (nonlinear_arith)
                requires
                    cfg.width >= 1,
                    cfg.height >= 1,
            ;
        }
        let raw = RawFrame { width: cfg.width, height: cfg.height, data };
        proof {
            assert(raw.data@ =~= raw_frame_of(*cfg, angles@, z as int));
        }
        let nf = normalize(&raw, cfg.levels);
        vol.push(nf);
        z = z + 1;
    }
    vol
}

/// The lattice a single-frame 2D bake builds.
pub open spec fn lat2_of(cfg: Config, angles: Seq<i64>) -> Seq<Grad2> {
    spec_lattice2(angles, (cfg.nodes_x() * cfg.nodes_y()) as nat)
}

/// The raw noise sample of output cell `(x, y)` in a single 2D frame.
pub open spec fn raw2_at(cfg: Config, angles: Seq<i64>, x: int, y: int) -> int {
    sample2_spec(
        lat2_of(cfg, angles),
        cfg.nodes_y(),
        cell_spec(x, cfg.x_num(), cfg.x_den()),
        cell_spec(y, cfg.y_num(), cfg.y_den()),
        off_spec(x, cfg.x_num(), cfg.x_den()),
        off_spec(y, cfg.y_num(), cfg.y_den()),
    )
}

/// The full single 2D raw frame, row-major.
pub open spec fn raw2_frame_of(cfg: Config, angles: Seq<i64>) -> Seq<i64> {
    Seq::new(
        (cfg.width * cfg.height) as nat,
        |j: int| raw2_at(cfg, angles, j % (cfg.width as int), j / (cfg.width as int)) as i64,
    )
}

/// Bake one 2D frame from a drawn angle sequence: the single-shot mode,
/// where each displayed frame is rebaked from fresh randomness instead of
/// replayed from a volume. The frame count and speed factor of the
/// configuration play no part here.
#[verifier::loop_isolation(false)]
pub fn bake_frame2(cfg: &Config, angles: &Vec<i64>) -> (f: NormalizedFrame)
    requires
        cfg.wf(),
        angles@.len() == cfg.nodes_x() * cfg.nodes_y(),
        angles_ok(angles@),
    ensures
        f.wf(),
        f.width == cfg.width,
        f.height == cfg.height,
        f.levels == cfg.levels,
        f.data@.len() == cfg.width * cfg.height,
        forall|j: int|
            0 <= j < cfg.width * cfg.height ==> #[trigger] f.data@[j] as int == quant_spec(
                raw2_frame_of(*cfg, angles@)[j] as int,
                seq_min(raw2_frame_of(*cfg, angles@)),
                seq_max(raw2_frame_of(*cfg, angles@)),
                cfg.levels as int,
            ),
{
    proof {
        assert(1 <= cfg.detail * cfg.dewarp_fp <= SCALE * SCALE) by (nonlinear_arith)
            requires
                1 <= cfg.detail <= DETAIL_MAX,
                1 <= cfg.dewarp_fp <= FACTOR_MAX,
        ;
    }
    let ynum: i64 = SCALE * SCALE;
    let yden: i64 = (cfg.detail as i64) * cfg.dewarp_fp;
    let nx64: u64 = node_count64(cfg.width, SCALE, cfg.detail as i64);
    let ny64: u64 = node_count64(cfg.height, ynum, yden);
    proof {
        let gx = cfg.nodes_x();
        let gy = cfg.nodes_y();
        let gz = cfg.nodes_z();
        assert(gx * gy <= gx * gy * gz && gx <= gx * gy && gy <= gx * gy) by (nonlinear_arith)
            requires
                gx >= 1,
                gy >= 1,
                gz >= 1,
        ;
        assert(nx64 as int * (ny64 as int) == gx * gy);
        assert(cfg.total_nodes() == gx * gy * gz);
    }
    let nx: usize = nx64 as usize;
    let ny: usize = ny64 as usize;
    let lat: Lattice2 = build_lattice2(nx, ny, angles);
    let mut data: Vec<i64> = Vec::new();
    let mut y: usize = 0;
    proof {
        assert(0 * cfg.width == 0) by (nonlinear_arith);
    }
    while y < cfg.height
        invariant
            y <= cfg.height,
            data@.len() == y * cfg.width,
            forall|j: int|
                0 <= j < data@.len() ==> #[trigger] data@[j] == raw2_frame_of(*cfg, angles@)[j],
            forall|j: int| 0 <= j < data@.len() ==> -NOISE_MAX <= #[trigger] data@[j] <= NOISE_MAX,
        decreases cfg.height - y,
    {
        proof {
            lemma_lattice_sizing(cfg.height as int, cfg.y_num(), cfg.y_den(), y as int);
            assert(cfg.y_num() == ynum as int);
        }
        let (cy, oy) = axis_cell_off(y, ynum, yden);
        let mut x: usize = 0;
        proof {
            assert(y * cfg.width + cfg.width <= cfg.width * cfg.height) by (nonlinear_arith)
                requires
                    y < cfg.height,
            ;
        }
        while x < cfg.width
            invariant
                x <= cfg.width,
                data@.len() == y * cfg.width + x,
                forall|j: int|
                    0 <= j < data@.len() ==> #[trigger] data@[j] == raw2_frame_of(
                        *cfg,
                        angles@,
                    )[j],
                forall|j: int|
                    0 <= j < data@.len() ==> -NOISE_MAX <= #[trigger] data@[j] <= NOISE_MAX,
            decreases cfg.width - x,
        {
            proof {
                lemma_lattice_sizing(cfg.width as int, cfg.x_num(), cfg.x_den(), x as int);
            }
            let (cx, ox) = axis_cell_off(x, SCALE, cfg.detail as i64);
            let v: i64 = sample2(&lat, cx, cy, ox, oy);
            data.push(v);
            proof {
                let w = cfg.width as int;
                let j0 = y as int * w + x;
                vstd::arithmetic::div_mod::lemma_fundamental_div_mod_converse_div(
                    j0,
                    w,
                    y as int,
                    x as int,
                );
                vstd::arithmetic::div_mod::lemma_fundamental_div_mod_converse_mod(
                    j0,
                    w,
                    y as int,
                    x as int,
                );
                assert(j0 < cfg.width * cfg.height) by (nonlinear_arith)
                    requires
                        0 <= x < cfg.width,
                        0 <= y < cfg.height,
                        j0 == y as int * cfg.width + x,
                ;
                assert(data@[j0] == raw2_frame_of(*cfg, angles@)[j0]);
            }
            x = x + 1;
        }
        proof {
            assert((y + 1) * cfg.width == y * cfg.width + cfg.width) by (nonlinear_arith);
        }
        y = y + 1;
    }
    proof {
        assert(cfg.height * cfg.width == cfg.width * cfg.height) by (nonlinear_arith);
        assert(cfg.width * cfg.height >= 1) by (nonlinear_arith)
            requires
                cfg.width >= 1,
                cfg.height >= 1,
        ;
    }
    let raw = RawFrame { width: cfg.width, height: cfg.height, data };
    proof {
        assert(raw.data@ =~= raw2_frame_of(*cfg, angles@));
    }
    normalize(&raw, cfg.levels)
}

/// Bake one 2D frame with fresh randomness.
pub fn bake_frame2_random(cfg: &Config) -> (f: NormalizedFrame)
    requires
        cfg.wf(),
    ensures
        f.wf(),
        f.width == cfg.width,
        f.height == cfg.height,
        f.levels == cfg.levels,
        f.data@.len() == cfg.width * cfg.height,
{
    proof {
        assert(1 <= cfg.detail * cfg.dewarp_fp <= SCALE * SCALE) by (nonlinear_arith)
            requires
                1 <= cfg.detail <= DETAIL_MAX,
                1 <= cfg.dewarp_fp <= FACTOR_MAX,
        ;
    }
    let ynum: i64 = SCALE * SCALE;
    let yden: i64 = (cfg.detail as i64) * cfg.dewarp_fp;
    let nx64: u64 = node_count64(cfg.width, SCALE, cfg.detail as i64);
    let ny64: u64 = node_count64(cfg.height, ynum, yden);
    proof {
        let gx = cfg.nodes_x();
        let gy = cfg.nodes_y();
        let gz = cfg.nodes_z();
        assert(gx * gy <= gx * gy * gz && gx <= gx * gy && gy <= gx * gy) by (nonlinear_arith)
            requires
                gx >= 1,
                gy >= 1,
                gz >= 1,
        ;
        assert(nx64 as int * (ny64 as int) == gx * gy);
        assert(cfg.total_nodes() == gx * gy * gz);
    }
    let total: usize = (nx64 as usize) * (ny64 as usize);
    let angles: Vec<i64> = draw_angles(total);
    bake_frame2(cfg, &angles)
}

/// Determinism given fixed randomness: any two volumes that satisfy the
/// baker's contract for the same configuration and the same drawn angle
/// sequence are identical, cell for cell. Replaying a recorded angle
/// sequence therefore reproduces the animation exactly.
pub proof fn lemma_bake_deterministic(
    cfg: Config,
    angles: Seq<i64>,
    v1: Seq<NormalizedFrame>,
    v2: Seq<NormalizedFrame>,
)
    requires
        v1.len() == cfg.frames,
        v2.len() == cfg.frames,
        forall|k: int, j: int|
            0 <= k < v1.len() && 0 <= j < cfg.width * cfg.height
                ==> #[trigger] v1[k].data@[j] as int == quant_spec(
                raw_frame_of(cfg, angles, k)[j] as int,
                seq_min(raw_frame_of(cfg, angles, k)),
                seq_max(raw_frame_of(cfg, angles, k)),
                cfg.levels as int,
            ),
        forall|k: int, j: int|
            0 <= k < v2.len() && 0 <= j < cfg.width * cfg.height
                ==> #[trigger] v2[k].data@[j] as int == quant_spec(
                raw_frame_of(cfg, angles, k)[j] as int,
                seq_min(raw_frame_of(cfg, angles, k)),
                seq_max(raw_frame_of(cfg, angles, k)),
                cfg.levels as int,
            ),
    ensures
        forall|k: int, j: int|
            0 <= k < v1.len() && 0 <= j < cfg.width * cfg.height ==> #[trigger] v1[k].data@[j]
                == #[trigger] v2[k].data@[j],
{
}

/// Bake with fresh randomness: draw the angle sequence the lattice needs
/// and bake the volume from it.
pub fn bake_random(cfg: &Config) -> (vol: Vec<NormalizedFrame>)
    requires
        cfg.wf(),
    ensures
        vol@.len() == cfg.frames,
        forall|k: int|
            0 <= k < vol@.len() ==> (#[trigger] vol@[k]).wf() && vol@[k].width == cfg.width
                && vol@[k].height == cfg.height && vol@[k].levels == cfg.levels
                && vol@[k].data@.len() == cfg.width * cfg.height,
{
    proof {
        assert(1 <= cfg.detail * cfg.dewarp_fp <= SCALE * SCALE) by (nonlinear_arith)
            requires
                1 <= cfg.detail <= DETAIL_MAX,
                1 <= cfg.dewarp_fp <= FACTOR_MAX,
        ;
    }
    let ynum: i64 = SCALE * SCALE;
    let yden: i64 = (cfg.detail as i64) * cfg.dewarp_fp;
    let nx64: u64 = node_count64(cfg.width, SCALE, cfg.detail as i64);
    let ny64: u64 = node_count64(cfg.height, ynum, yden);
    let nz64: u64 = node_count64(cfg.frames, cfg.speed_fp, cfg.detail as i64);
    proof {
        let gx = cfg.nodes_x();
        let gy = cfg.nodes_y();
        let gz = cfg.nodes_z();
        assert(gx <= gx * gy * gz && gy <= gx * gy * gz && gz <= gx * gy * gz && gx * gy <= gx * gy
            * gz) by (nonlinear_arith)
            requires
                gx >= 1,
                gy >= 1,
                gz >= 1,
        ;
        assert(nx64 as int * (ny64 as int) * (nz64 as int) == gx * gy * gz);
        assert(cfg.total_nodes() == gx * gy * gz);
    }
    let total: usize = (nx64 as usize) * (ny64 as usize) * (nz64 as usize);
    let angles: Vec<i64> = draw_angles(2 * total);
    bake(cfg, &angles)
}

} // verus!
