//! Mip-level arithmetic for hardware and Lanczos pyramids.
use vstd::arithmetic::power2::{lemma2_to64, lemma_pow2_unfold, pow2};
use vstd::prelude::*;

verus! {

/// Floor of the base-2 logarithm; `0` for `n <= 1`.
pub open spec fn log2_floor(n: nat) -> nat
    decreases n,
{
    if n <= 1 {
        0
    } else {
        1 + log2_floor(n / 2)
    }
}

/// Number of binary digits of `n` (`0` for `n == 0`).
pub open spec fn bit_length(n: nat) -> nat
    decreases n,
{
    if n == 0 {
        0
    } else {
        1 + bit_length(n / 2)
    }
}

pub open spec fn max_u32(a: u32, b: u32) -> u32 {
    if a >= b {
        a
    } else {
        b
    }
}

/// Length of a full hardware mip chain for a `w` x `h` texture.
pub open spec fn spec_hw_mip_count(w: u32, h: u32) -> nat {
    if max_u32(w, h) == 0 {
        1
    } else {
        log2_floor(max_u32(w, h) as nat) + 1
    }
}

proof fn lemma_bit_length_log2(n: nat)
    requires
        n >= 1,
    ensures
        bit_length(n) == log2_floor(n) + 1,
    decreases n,
{
    if n > 1 {
        lemma_bit_length_log2(n / 2);
    } else {
        assert(bit_length(0) == 0);
    }
}

proof fn lemma_bit_length_bound(n: nat, k: nat)
    requires
        n < pow2(k),
    ensures
        bit_length(n) <= k,
    decreases n,
{
    if n > 0 {
        if k == 0 {
            lemma2_to64();
        } else {
            lemma_pow2_unfold(k);
            lemma_bit_length_bound(n / 2, (k - 1) as nat);
        }
    }
}

/// `log2_floor(n)` is the floor of the base-2 logarithm: the `k` with
/// `2^k <= n < 2^(k+1)`.
pub proof fn lemma_log2_floor_bounds(n: nat)
    requires
        n >= 1,
    ensures
        pow2(log2_floor(n)) <= n < pow2(log2_floor(n) + 1),
    decreases n,
{
    if n == 1 {
        lemma_pow2_unfold(1);
        assert(pow2(0) == 1) by {
            lemma2_to64();
        }
    } else {
        lemma_log2_floor_bounds(n / 2);
        let k = log2_floor(n / 2);
        lemma_pow2_unfold(k + 1);
        lemma_pow2_unfold(k + 2);
    }
}

/// Full mip chain length: `floor(log2(max(w, h))) + 1`, and `1` for an empty texture.
pub fn hw_mip_count(w: u32, h: u32) -> (r: u32)
    ensures
        r == spec_hw_mip_count(w, h),
{
    let max_dim: u32 = if w >= h { w } else { h };
    if max_dim == 0 {
        return 1;
    }
    proof {
        lemma2_to64();
        lemma_bit_length_bound(max_dim as nat, 32);
    }
    let mut rest: u32 = max_dim;
    let mut count: u32 = 0;
    while rest > 0
        invariant
            count + bit_length(rest as nat) == bit_length(max_dim as nat),
            bit_length(max_dim as nat) <= 32,
        decreases rest,
    {
        rest = rest / 2;
        count = count + 1;
    }
    proof {
        lemma_bit_length_log2(max_dim as nat);
    }
    count
}


/// Number of entries of the Lanczos level-of-detail table (scales 1, 1/2, 1/4, 1/8, 1/16).
pub const LOD_LEVELS: u32 = 5;

/// Smallest side, in pixels, that a Lanczos pyramid level may have.
pub const MIN_LOD_SIDE: u32 = 4;

/// `max(1, round(n / 2))`, rounding halves up.
pub open spec fn half_round(n: nat) -> nat {
    if (n + 1) / 2 >= 1 {
        ((n + 1) / 2) as nat
    } else {
        1
    }
}

/// Extra pyramid levels below a `w` x `h` level, halving each time, while both sides
/// stay at least `MIN_LOD_SIDE` and at most `remaining` more levels are allowed.
pub open spec fn lanczos_levels_below(w: nat, h: nat, remaining: nat) -> nat
    decreases remaining,
{
    if remaining == 0 {
        0
    } else if half_round(w) < MIN_LOD_SIDE || half_round(h) < MIN_LOD_SIDE {
        0
    } else {
        1 + lanczos_levels_below(half_round(w), half_round(h), (remaining - 1) as nat)
    }
}

pub open spec fn spec_lanczos_mip_count(w: u32, h: u32) -> nat {
    1 + lanczos_levels_below(w as nat, h as nat, (LOD_LEVELS - 1) as nat)
}

/// Number of Lanczos pyramid levels for a `w` x `h` tile: level 0 plus each halving
/// that keeps both sides at least `MIN_LOD_SIDE`, up to `LOD_LEVELS` levels in all.
pub fn compute_lanczos_mip_count(w: u32, h: u32) -> (r: u32)
    ensures
        r == spec_lanczos_mip_count(w, h),
        1 <= r <= LOD_LEVELS,
{
    let mut count: u32 = 1;
    let mut pw: u64 = w as u64;
    let mut ph: u64 = h as u64;
    let mut level: u32 = 1;
    while level < LOD_LEVELS
        invariant
            1 <= level <= LOD_LEVELS,
            count == level,
            pw <= u32::MAX,
            ph <= u32::MAX,
            spec_lanczos_mip_count(w, h) == count + lanczos_levels_below(
                pw as nat,
                ph as nat,
                (LOD_LEVELS - level) as nat,
            ),
        decreases LOD_LEVELS - level,
    {
        let nw: u64 = if (pw + 1) / 2 >= 1 {
            (pw + 1) / 2
        } else {
            1
        };
        let nh: u64 = if (ph + 1) / 2 >= 1 {
            (ph + 1) / 2
        } else {
            1
        };
        if nw < MIN_LOD_SIDE as u64 || nh < MIN_LOD_SIDE as u64 {
            return count;
        }
        count = count + 1;
        pw = nw;
        ph = nh;
        level = level + 1;
    }
    proof {
        assert(lanczos_levels_below(pw as nat, ph as nat, 0) == 0);
    }
    count
}

/// Divisor of pyramid level `k`: the level is `1 / lod_divisor(k)` of the tile.
pub open spec fn lod_divisor(k: nat) -> nat
    decreases k,
{
    if k == 0 {
        1
    } else {
        2 * lod_divisor((k - 1) as nat)
    }
}

/// Side of pyramid level `k` for a tile side `t`: `max(1, round(t / 2^k))`, halves
/// rounded up.
pub open spec fn lod_side(t: nat, k: nat) -> nat {
    let s = (2 * t + lod_divisor(k)) / (2 * lod_divisor(k));
    if s >= 1 {
        s as nat
    } else {
        1
    }
}

/// Parameters of one separable Lanczos pass: the size of the texture it reads, the
/// resampling ratio along its axis as `scale_num / scale_den`, and the size it writes.
#[derive(Clone, Copy, Debug, PartialEq, Eq, Structural)]
pub struct PassParams {
    pub src_width: u32,
    pub src_height: u32,
    pub scale_num: u32,
    pub scale_den: u32,
    pub dst_width: u32,
    pub dst_height: u32,
}

/// One level of a Lanczos pyramid: its size, the horizontal pass that writes the
/// intermediate texture, and the vertical pass that writes the level itself.
#[derive(Clone, Copy, Debug, PartialEq, Eq, Structural)]
pub struct LevelPlan {
    pub width: u32,
    pub height: u32,
    pub horizontal: PassParams,
    pub vertical: PassParams,
}

/// Level `k` of the pyramid of a `tw` x `th` tile. Level 0 is a 1:1 resample of the
/// tile; level `k > 0` reads level `k - 1`, the horizontal pass scaling x by
/// `width[k] / width[k-1]`, then the vertical pass scaling y by `height[k] / height[k-1]`.
pub open spec fn spec_level_plan(tw: u32, th: u32, k: nat) -> LevelPlan {
    let w = lod_side(tw as nat, k);
    let h = lod_side(th as nat, k);
    if k == 0 {
        LevelPlan {
            width: w as u32,
            height: h as u32,
            horizontal: PassParams {
                src_width: w as u32,
                src_height: h as u32,
                scale_num: 1,
                scale_den: 1,
                dst_width: w as u32,
                dst_height: h as u32,
            },
            vertical: PassParams {
                src_width: w as u32,
                src_height: h as u32,
                scale_num: 1,
                scale_den: 1,
                dst_width: w as u32,
                dst_height: h as u32,
            },
        }
    } else {
        let pw = lod_side(tw as nat, (k - 1) as nat);
        let ph = lod_side(th as nat, (k - 1) as nat);
        LevelPlan {
            width: w as u32,
            height: h as u32,
            horizontal: PassParams {
                src_width: pw as u32,
                src_height: ph as u32,
                scale_num: w as u32,
                scale_den: pw as u32,
                dst_width: w as u32,
                dst_height: ph as u32,
            },
            vertical: PassParams {
                src_width: w as u32,
                src_height: ph as u32,
                scale_num: h as u32,
                scale_den: ph as u32,
                dst_width: w as u32,
                dst_height: h as u32,
            },
        }
    }
}

proof fn lemma_lod_side_bound(t: nat, k: nat)
    requires
        k <= 4,
        t <= u32::MAX,
    ensures
        1 <= lod_side(t, k) <= u32::MAX,
        1 <= lod_divisor(k) <= 16,
{
    reveal_with_fuel(lod_divisor, 5);
    let d = lod_divisor(k);
    assert((2 * t + d) / (2 * d) <= t + 1) by (nonlinear_arith)
        requires
            d >= 1,
    ;
    if t == u32::MAX {
        assert((2 * t + d) / (2 * d) <= t) by (nonlinear_arith)
            requires
                d >= 1,
                t >= 1,
        ;
    }
}

/// Side of pyramid level `k` of a tile side `t`.
fn level_side(t: u32, k: u32) -> (r: u32)
    requires
        k < LOD_LEVELS,
    ensures
        r == lod_side(t as nat, k as nat),
{
    proof {
        lemma_lod_side_bound(t as nat, k as nat);
        reveal_with_fuel(lod_divisor, 5);
    }
    let d: u64 = if k == 0 {
        1
    } else if k == 1 {
        2
    } else if k == 2 {
        4
    } else if k == 3 {
        8
    } else {
        16
    };
    let s: u64 = (2 * (t as u64) + d) / (2 * d);
    if s >= 1 {
        s as u32
    } else {
        1
    }
}

/// Plans every level of the Lanczos pyramid of a `tw` x `th` tile.
pub fn lanczos_plan(tw: u32, th: u32) -> (r: Vec<LevelPlan>)
    ensures
        r@.len() == spec_lanczos_mip_count(tw, th),
        forall|k: int| 0 <= k < r@.len() ==> r@[k] == spec_level_plan(tw, th, k as nat),
{
    let count = compute_lanczos_mip_count(tw, th);
    let mut levels: Vec<LevelPlan> = Vec::new();
    let w0 = level_side(tw, 0);
    let h0 = level_side(th, 0);
    let first = PassParams {
        src_width: w0,
        src_height: h0,
        scale_num: 1,
        scale_den: 1,
        dst_width: w0,
        dst_height: h0,
    };
    levels.push(LevelPlan { width: w0, height: h0, horizontal: first, vertical: first });
    let mut k: u32 = 1;
    while k < count
        invariant
            1 <= k <= count,
            count == spec_lanczos_mip_count(tw, th),
            count <= LOD_LEVELS,
            levels@.len() == k,
            forall|j: int| 0 <= j < levels@.len() ==> levels@[j] == spec_level_plan(tw, th, j as nat),
        decreases count - k,
    {
        let pw = level_side(tw, k - 1);
        let ph = level_side(th, k - 1);
        let w = level_side(tw, k);
        let h = level_side(th, k);
        levels.push(
            LevelPlan {
                width: w,
                height: h,
                horizontal: PassParams {
                    src_width: pw,
                    src_height: ph,
                    scale_num: w,
                    scale_den: pw,
                    dst_width: w,
                    dst_height: ph,
                },
                vertical: PassParams {
                    src_width: w,
                    src_height: ph,
                    scale_num: h,
                    scale_den: ph,
                    dst_width: w,
                    dst_height: h,
                },
            },
        );
        k = k + 1;
    }
    levels
}

} // verus!
