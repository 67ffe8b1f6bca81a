//! Frames: dense row-major grids of noise samples, and per-frame min-max
//! normalization into a bounded range of discrete display levels.

use vstd::prelude::*;
use crate::sample::NOISE_MAX;

verus! {

/// A dense 2D grid of raw noise samples, row-major: cell `(x, y)` sits at
/// `y * width + x`. Transient; consumed by normalization.
pub struct RawFrame {
    pub width: usize,
    pub height: usize,
    pub data: Vec<i64>,
}

impl RawFrame {
    /// Shape and bounds invariant: every sample is a bounded noise value.
    pub open spec fn wf(&self) -> bool {
        &&& self.width >= 1
        &&& self.height >= 1
        &&& self.data@.len() == self.width * self.height
        &&& forall|i: int|
            0 <= i < self.data@.len() ==> -NOISE_MAX <= #[trigger] self.data@[i] <= NOISE_MAX
    }
}

/// A dense 2D grid of quantized display levels, row-major; every value
/// lies in `[0, levels - 1]`.
pub struct NormalizedFrame {
    pub width: usize,
    pub height: usize,
    pub levels: u8,
    pub data: Vec<u8>,
}

impl NormalizedFrame {
    /// Shape and range invariant.
    pub open spec fn wf(&self) -> bool {
        &&& self.width >= 1
        &&& self.height >= 1
        &&& self.levels >= 1
        &&& self.data@.len() == self.width * self.height
        &&& forall|i: int| 0 <= i < self.data@.len() ==> #[trigger] self.data@[i] < self.levels
    }

    /// The display level of cell `(x, y)`; always below `levels`.
    pub fn get(&self, x: usize, y: usize) -> (q: u8)
        requires
            self.wf(),
            x < self.width,
            y < self.height,
        ensures
            q == self.data@[y * self.width + x],
            q < self.levels,
    {
        let len: usize = self.data.len();
        proof {
            assert(y * self.width + x < self.width * self.height) by (nonlinear_arith)
                requires
                    0 <= x < self.width,
                    0 <= y < self.height,
            ;
        }
        self.data[y * self.width + x]
    }
}

/// The smallest value in a nonempty sequence of samples.
pub open spec fn seq_min(s: Seq<i64>) -> int
    recommends
        s.len() >= 1,
    decreases s.len(),
{
    if s.len() <= 1 {
        s[0] as int
    } else {
        let m = seq_min(s.drop_last());
        if s.last() < m {
            s.last() as int
        } else {
            m
        }
    }
}

/// The largest value in a nonempty sequence of samples.
pub open spec fn seq_max(s: Seq<i64>) -> int
    recommends
        s.len() >= 1,
    decreases s.len(),
{
    if s.len() <= 1 {
        s[0] as int
    } else {
        let m = seq_max(s.drop_last());
        if s.last() > m {
            s.last() as int
        } else {
            m
        }
    }
}

/// The minimum is a lower bound and is attained; the maximum is an upper
/// bound and is attained.
pub proof fn lemma_min_max_props(s: Seq<i64>)
    requires
        s.len() >= 1,
    ensures
        forall|i: int| 0 <= i < s.len() ==> seq_min(s) <= #[trigger] s[i] <= seq_max(s),
        exists|i: int| 0 <= i < s.len() && s[i] == seq_min(s),
        exists|i: int| 0 <= i < s.len() && s[i] == seq_max(s),
    decreases s.len(),
{
    if s.len() == 1 {
        assert(s[0] == seq_min(s));
        assert(s[0] == seq_max(s));
    } else {
        lemma_min_max_props(s.drop_last());
        let prev = s.drop_last();
        assert forall|i: int| 0 <= i < s.len() implies seq_min(s) <= #[trigger] s[i] <= seq_max(s) by {
            if i < s.len() - 1 {
                assert(s[i] == prev[i]);
            }
        }
        let wmin = choose|i: int| 0 <= i < prev.len() && prev[i] == seq_min(prev);
        let wmax = choose|i: int| 0 <= i < prev.len() && prev[i] == seq_max(prev);
        if s.last() < seq_min(prev) {
            assert(s[s.len() - 1] == seq_min(s));
        } else {
            assert(s[wmin] == prev[wmin]);
            assert(s[wmin] == seq_min(s));
        }
        if s.last() > seq_max(prev) {
            assert(s[s.len() - 1] == seq_max(s));
        } else {
            assert(s[wmax] == prev[wmax]);
            assert(s[wmax] == seq_max(s));
        }
    }
}

/// Scan a raw frame for its smallest sample.
pub fn frame_min(raw: &RawFrame) -> (m: i64)
    requires
        raw.wf(),
    ensures
        m as int == seq_min(raw.data@),
{
    let len: usize = raw.data.len();
    proof {
        assert(raw.width * raw.height >= 1) by (nonlinear_arith)
            requires
                raw.width >= 1,
                raw.height >= 1,
        ;
    }
    let mut m: i64 = raw.data[0];
    let mut i: usize = 1;
    while i < len
        invariant
            1 <= i <= len,
            len == raw.data@.len(),
            m as int == seq_min(raw.data@.take(i as int)),
        decreases len - i,
    {
        let v = raw.data[i];
        proof {
            let cur = raw.data@.take(i + 1 as int);
            assert(cur.drop_last() =~= raw.data@.take(i as int));
            assert(cur.last() == raw.data@[i as int]);
        }
        if v < m {
            m = v;
        }
        i = i + 1;
    }
    proof {
        assert(raw.data@.take(len as int) =~= raw.data@);
    }
    m
}

/// Scan a raw frame for its largest sample.
pub fn frame_max(raw: &RawFrame) -> (m: i64)
    requires
        raw.wf(),
    ensures
        m as int == seq_max(raw.data@),
{
    let len: usize = raw.data.len();
    proof {
        assert(raw.width * raw.height >= 1) by (nonlinear_arith)
            requires
                raw.width >= 1,
                raw.height >= 1,
        ;
    }
    let mut m: i64 = raw.data[0];
    let mut i: usize = 1;
    while i < len
        invariant
            1 <= i <= len,
            len == raw.data@.len(),
            m as int == seq_max(raw.data@.take(i as int)),
        decreases len - i,
    {
        let v = raw.data[i];
        proof {
            let cur = raw.data@.take(i + 1 as int);
            assert(cur.drop_last() =~= raw.data@.take(i as int));
            assert(cur.last() == raw.data@[i as int]);
        }
        if v > m {
            m = v;
        }
        i = i + 1;
    }
    proof {
        assert(raw.data@.take(len as int) =~= raw.data@);
    }
    m
}

/// The display level one sample normalizes to: rescale by the frame's own
/// min and max to `[0, 1]`, then round to the nearest of `levels` steps.
/// A flat frame (max equals min) resolves to the middle level.
pub open spec fn quant_spec(v: int, m: int, mx: int, levels: int) -> int {
    if mx > m {
        ((v - m) * (levels - 1) + (mx - m) / 2) / (mx - m)
    } else {
        (levels - 1) / 2
    }
}

/// Quantized levels stay in range, the minimum lands exactly on the
/// lowest level, and the maximum exactly on the highest.
pub proof fn lemma_quant_bounds(v: int, m: int, mx: int, levels: int)
    requires
        m <= v <= mx,
        levels >= 1,
    ensures
        0 <= quant_spec(v, m, mx, levels) <= levels - 1,
        mx > m && v == m ==> quant_spec(v, m, mx, levels) == 0,
        mx > m && v == mx ==> quant_spec(v, m, mx, levels) == levels - 1,
{
    if mx > m {
        let r = mx - m;
        let h = r / 2;
        vstd::arithmetic::div_mod::lemma_div_pos_is_pos(r, 2);
        vstd::arithmetic::div_mod::lemma_div_decreases(r, 2);
        let num = (v - m) * (levels - 1) + h;
        assert(0 <= (v - m) * (levels - 1) <= r * (levels - 1)) by (nonlinear_arith)
            requires
                0 <= v - m <= r,
                levels >= 1,
        ;
        vstd::arithmetic::div_mod::lemma_div_pos_is_pos(num, r);
        vstd::arithmetic::div_mod::lemma_div_multiples_vanish_fancy(levels - 1, h, r);
        assert(r * (levels - 1) == (levels - 1) * r) by (nonlinear_arith);
        vstd::arithmetic::div_mod::lemma_div_is_ordered(num, r * (levels - 1) + h, r);
        if v == m {
            vstd::arithmetic::div_mod::lemma_div_multiples_vanish_fancy(0, h, r);
            assert((v - m) * (levels - 1) == 0) by (nonlinear_arith)
                requires
                    v == m,
            ;
        }
    } else {
        vstd::arithmetic::div_mod::lemma_div_pos_is_pos(levels - 1, 2);
        vstd::arithmetic::div_mod::lemma_div_nonincreasing(levels - 1, 2);
    }
}

/// Normalize a raw frame into discrete display levels, rescaling by the
/// frame's own min and max; a flat frame resolves to the middle level for
/// every cell.
pub fn normalize(raw: &RawFrame, levels: u8) -> (f: NormalizedFrame)
    requires
        raw.wf(),
        levels >= 1,
    ensures
        f.wf(),
        f.width == raw.width,
        f.height == raw.height,
        f.levels == levels,
        f.data@.len() == raw.data@.len(),
        forall|i: int|
            0 <= i < f.data@.len() ==> #[trigger] f.data@[i] as int == quant_spec(
                raw.data@[i] as int,
                seq_min(raw.data@),
                seq_max(raw.data@),
                levels as int,
            ),
        forall|i: int| 0 <= i < f.data@.len() ==> #[trigger] f.data@[i] <= levels - 1,
        seq_max(raw.data@) > seq_min(raw.data@) ==> forall|i: int|
            0 <= i < f.data@.len() && raw.data@[i] == seq_min(raw.data@)
                ==> #[trigger] f.data@[i] == 0,
        seq_max(raw.data@) > seq_min(raw.data@) ==> forall|i: int|
            0 <= i < f.data@.len() && raw.data@[i] == seq_max(raw.data@)
                ==> #[trigger] f.data@[i] == levels - 1,
        seq_max(raw.data@) == seq_min(raw.data@) ==> forall|i: int|
            0 <= i < f.data@.len() ==> #[trigger] f.data@[i] as int == (levels - 1) as int / 2,
{
    let m: i64 = frame_min(raw);
    let mx: i64 = frame_max(raw);
    proof {
        assert(raw.width * raw.height >= 1) by (nonlinear_arith)
            requires
                raw.width >= 1,
                raw.height >= 1,
        ;
        lemma_min_max_props(raw.data@);
    }
    let len: usize = raw.data.len();
    let range: i64 = mx - m;
    let mid: u8 = (levels - 1) / 2;
    let mut data: Vec<u8> = Vec::new();
    let mut i: usize = 0;
    while i < len
        invariant
            i <= len,
            len == raw.data@.len(),
            raw.wf(),
            levels >= 1,
            m as int == seq_min(raw.data@),
            mx as int == seq_max(raw.data@),
            range == mx - m,
            range >= 0,
            m <= mx,
            -NOISE_MAX <= m <= NOISE_MAX,
            -NOISE_MAX <= mx <= NOISE_MAX,
            mid as int == (levels - 1) as int / 2,
            data@.len() == i,
            forall|k: int|
                0 <= k < i ==> #[trigger] data@[k] as int == quant_spec(
                    raw.data@[k] as int,
                    m as int,
                    mx as int,
                    levels as int,
                ),
            forall|k: int| 0 <= k < i ==> #[trigger] data@[k] <= levels - 1,
        decreases len - i,
    {
        let v: i64 = raw.data[i];
        proof {
            lemma_min_max_props(raw.data@);
            lemma_quant_bounds(v as int, m as int, mx as int, levels as int);
        }
        let q: u8 = if range == 0 {
            mid
        } else {
            proof {
                vstd::arithmetic::div_mod::lemma_div_pos_is_pos(range as int, 2);
                vstd::arithmetic::div_mod::lemma_div_decreases(range as int, 2);
            }
            let lvl: i64 = (levels - 1) as i64;
            let half: i64 = ((range as u64) / 2) as i64;
            proof {
                assert(0 <= (v - m) * lvl && (v - m) * lvl <= (4 * NOISE_MAX) * 255)
                    by (nonlinear_arith)
                    requires
                        0 <= v - m,
                        v - m <= mx - m,
                        mx - m <= 4 * NOISE_MAX,
                        0 <= lvl <= 255,
                ;
            }
            let num: i64 = (v - m) * lvl + half;
            ((num as u64) / (range as u64)) as u8
        };
        data.push(q);
        i = i + 1;
    }
    proof {
        assert forall|k: int|
            0 <= k < data@.len() && raw.data@[k] == seq_min(raw.data@) && seq_max(raw.data@)
                > seq_min(raw.data@) implies #[trigger] data@[k] == 0 by {
            lemma_quant_bounds(raw.data@[k] as int, m as int, mx as int, levels as int);
        }
        assert forall|k: int|
            0 <= k < data@.len() && raw.data@[k] == seq_max(raw.data@) && seq_max(raw.data@)
                > seq_min(raw.data@) implies #[trigger] data@[k] == levels - 1 by {
            lemma_quant_bounds(raw.data@[k] as int, m as int, mx as int, levels as int);
        }
    }
    NormalizedFrame { width: raw.width, height: raw.height, levels, data }
}

} // verus!
