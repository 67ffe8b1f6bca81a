//! End-to-end and unit tests for the fixed-point noise engine.

use perlin_bake::bake::{bake, bake_frame2, bake_frame2_random, bake_random, validate, Config,
    ConfigError};
use perlin_bake::fixed::{cos_fp, fade, lerp, sin_fp, HALF_PI_FP, SCALE, TAU_FP};
use perlin_bake::frame::{normalize, RawFrame};
use perlin_bake::lattice::{draw_angles, Grad2, Lattice2};
use perlin_bake::playback::Cursor;
use perlin_bake::sample::sample2;

fn small_config() -> Config {
    Config {
        width: 4,
        height: 4,
        frames: 2,
        detail: 4,
        dewarp_fp: SCALE,
        speed_fp: SCALE,
        levels: 5,
    }
}

fn fixed_angles(n: usize) -> Vec<i64> {
    let mut v: Vec<i64> = Vec::new();
    for i in 0..n {
        v.push((i as i64 * 25000) % TAU_FP);
    }
    v
}

#[test]
fn fade_endpoints_and_midpoint() {
    assert_eq!(fade(0), 0);
    assert_eq!(fade(SCALE), SCALE);
    assert_eq!(fade(SCALE / 2), SCALE / 2);
    // 6 t^5 - 15 t^4 + 10 t^3 at t = 0.25 is exactly 0.103515625
    assert_eq!(fade(SCALE / 4), 6784);
}

#[test]
fn lerp_selects_endpoints_exactly() {
    assert_eq!(lerp(10, 20, 0), 10);
    assert_eq!(lerp(10, 20, SCALE), 20);
    assert_eq!(lerp(0, 100, SCALE / 2), 50);
    assert_eq!(lerp(100, 0, SCALE / 2), 50);
    assert_eq!(lerp(-100, 100, SCALE / 2), 0);
}

#[test]
fn trig_stays_in_unit_range() {
    assert_eq!(sin_fp(0), 0);
    assert!(sin_fp(HALF_PI_FP) > 65000);
    assert!(sin_fp(HALF_PI_FP) <= SCALE);
    assert!(cos_fp(0) > 65000);
    let mut a: i64 = 0;
    while a < TAU_FP {
        let s = sin_fp(a);
        let c = cos_fp(a);
        assert!(-SCALE <= s && s <= SCALE);
        assert!(-SCALE <= c && c <= SCALE);
        a += 997;
    }
}

fn uniform_lattice(nx: usize, ny: usize, g: Grad2) -> Lattice2 {
    let mut data: Vec<Grad2> = Vec::new();
    for _ in 0..nx * ny {
        data.push(g);
    }
    Lattice2 { nx, ny, data }
}

#[test]
fn sampler_matches_hand_computed_mid_cell_value() {
    // Output 4x4 with cell size 4: output cell (2, 2) has fractional
    // offsets dx = dy = 0.5 inside lattice cell (0, 0). With every
    // gradient equal to (1, 0), the hand-computed fade/lerp/dot value is
    // exactly 0: the two x-corner influences +0.5 and -0.5 cancel under
    // the symmetric fade weight 0.5.
    let lat = uniform_lattice(2, 2, Grad2 { x: SCALE, y: 0 });
    let v = sample2(&lat, 0, 0, SCALE / 2, SCALE / 2);
    assert_eq!(v, 0);
}

#[test]
fn sampler_agrees_across_cell_boundary() {
    // One step before the shared boundary of cells 0 and 1 on the x axis,
    // and exactly on it from the right cell, the sampler agrees.
    let lat = uniform_lattice(3, 3, Grad2 { x: SCALE, y: 0 });
    let left = sample2(&lat, 0, 0, SCALE - 1, SCALE / 4);
    let right = sample2(&lat, 1, 0, 0, SCALE / 4);
    assert!((left - right).abs() <= 2);
}

#[test]
fn normalization_pins_min_and_max_levels() {
    let raw = RawFrame { width: 2, height: 2, data: vec![0, 100, 50, 100] };
    let f = normalize(&raw, 5);
    assert_eq!(f.width, 2);
    assert_eq!(f.height, 2);
    assert_eq!(f.levels, 5);
    // min cell lands on level 0, max cells on level 4, midpoint on 2
    assert_eq!(f.data, vec![0u8, 4, 2, 4]);
    assert_eq!(f.get(0, 0), 0);
    assert_eq!(f.get(1, 0), 4);
    assert_eq!(f.get(0, 1), 2);
    assert_eq!(f.get(1, 1), 4);
}

#[test]
fn normalization_never_leaves_level_range() {
    let raw = RawFrame {
        width: 3,
        height: 2,
        data: vec![-900_000, 450_123, 0, 77, -3, 450_123],
    };
    let f = normalize(&raw, 7);
    for &q in f.data.iter() {
        assert!(q <= 6);
    }
    let raw1 = RawFrame { width: 1, height: 1, data: vec![42] };
    let f1 = normalize(&raw1, 1);
    assert_eq!(f1.data, vec![0u8]);
}

#[test]
fn degenerate_frame_resolves_to_middle_level() {
    let raw = RawFrame { width: 2, height: 2, data: vec![7, 7, 7, 7] };
    let f = normalize(&raw, 5);
    assert_eq!(f.data, vec![2u8, 2, 2, 2]);
}

#[test]
fn ping_pong_traversal_sequence() {
    // N = 5 frames, starting at index 0 going forward: flip-then-step
    // yields 1,2,3,4 then bounces to 3,2,1,0 and back up.
    let mut c = Cursor::new(5);
    let mut seen: Vec<usize> = Vec::new();
    for _ in 0..10 {
        c.tick();
        seen.push(c.index);
    }
    assert_eq!(seen, vec![1, 2, 3, 4, 3, 2, 1, 0, 1, 2]);
}

#[test]
fn single_frame_cursor_stays_put() {
    let mut c = Cursor::new(1);
    c.tick();
    c.tick();
    assert_eq!(c.index, 0);
}

#[test]
fn validate_rejects_each_zero_parameter() {
    let good = small_config();
    assert_eq!(validate(&good), Ok(()));
    assert_eq!(validate(&Config { width: 0, ..good }), Err(ConfigError::ZeroWidth));
    assert_eq!(validate(&Config { height: 0, ..good }), Err(ConfigError::ZeroHeight));
    assert_eq!(validate(&Config { frames: 0, ..good }), Err(ConfigError::ZeroFrames));
    assert_eq!(validate(&Config { detail: 0, ..good }), Err(ConfigError::ZeroDetail));
    assert_eq!(validate(&Config { dewarp_fp: 0, ..good }), Err(ConfigError::ZeroDewarp));
    assert_eq!(validate(&Config { speed_fp: -3, ..good }), Err(ConfigError::ZeroSpeed));
    assert_eq!(validate(&Config { levels: 0, ..good }), Err(ConfigError::ZeroLevels));
}

#[test]
fn validate_rejects_oversized_requests() {
    let good = small_config();
    assert_eq!(validate(&Config { width: 70000, ..good }), Err(ConfigError::TooLarge));
    assert_eq!(
        validate(&Config { width: 65536, height: 65536, ..good }),
        Err(ConfigError::TooLarge)
    );
    assert_eq!(validate(&Config { detail: 5000, ..good }), Err(ConfigError::TooLarge));
}

#[test]
fn bake_is_deterministic_for_a_fixed_angle_sequence() {
    let cfg = small_config();
    assert_eq!(validate(&cfg), Ok(()));
    // 2 x 2 x 2 lattice nodes, two angles per node
    let angles = fixed_angles(16);
    let v1 = bake(&cfg, &angles);
    let v2 = bake(&cfg, &angles);
    assert_eq!(v1.len(), 2);
    assert_eq!(v2.len(), 2);
    for k in 0..v1.len() {
        assert_eq!(v1[k].data, v2[k].data);
        assert_eq!(v1[k].width, 4);
        assert_eq!(v1[k].height, 4);
        for &q in v1[k].data.iter() {
            assert!(q <= 4);
        }
    }
}

#[test]
fn baked_volume_has_expected_shape() {
    let cfg = Config {
        width: 70,
        height: 35,
        frames: 3,
        detail: 10,
        dewarp_fp: 29789,
        speed_fp: 13107,
        levels: 5,
    };
    assert_eq!(validate(&cfg), Ok(()));
    let vol = bake_random(&cfg);
    assert_eq!(vol.len(), 3);
    for f in vol.iter() {
        assert_eq!(f.width, 70);
        assert_eq!(f.height, 35);
        assert_eq!(f.data.len(), 70 * 35);
        for &q in f.data.iter() {
            assert!(q <= 4);
        }
    }
}

#[test]
fn single_shot_frame_bakes_to_shape() {
    let cfg = small_config();
    let angles = fixed_angles(4);
    let f = bake_frame2(&cfg, &angles);
    assert_eq!(f.width, 4);
    assert_eq!(f.height, 4);
    assert_eq!(f.data.len(), 16);
    for &q in f.data.iter() {
        assert!(q <= 4);
    }
    let g = bake_frame2(&cfg, &angles);
    assert_eq!(f.data, g.data);
    let r = bake_frame2_random(&cfg);
    assert_eq!(r.data.len(), 16);
}

#[test]
fn drawn_angles_are_full_turn_draws() {
    let v = draw_angles(257);
    assert_eq!(v.len(), 257);
    for &a in v.iter() {
        assert!(0 <= a && a < TAU_FP);
    }
}
