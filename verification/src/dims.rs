//! Target dimensions for the native pipeline: a downscale-only fit of the
//! image inside the configured longest-edge cap, with rounding to the
//! nearest pixel. The image is never upscaled, and when it already fits the
//! dimensions pass through unchanged.

use vstd::prelude::*;

verus! {

/// Whether either edge exceeds the cap, so the image must shrink.
pub open spec fn needs_scaling(w: u32, h: u32, max_dim: u32) -> bool {
    w > max_dim || h > max_dim
}

/// The longer of the two edges.
pub open spec fn long_edge(w: u32, h: u32) -> int {
    if w >= h {
        w as int
    } else {
        h as int
    }
}

/// `x * max_dim / m` rounded to the nearest integer (halves up): the scaled
/// length of an edge of length `x`, where `m` is the longest edge.
pub open spec fn scaled_edge(x: u32, max_dim: u32, m: int) -> int {
    (2 * x * max_dim + m) / (2 * m)
}

/// The output width: scaled down when the image exceeds the cap, else the
/// input width.
pub open spec fn target_width(w: u32, h: u32, max_dim: u32) -> int {
    if needs_scaling(w, h, max_dim) {
        scaled_edge(w, max_dim, long_edge(w, h))
    } else {
        w as int
    }
}

/// The output height, scaled like the width.
pub open spec fn target_height(w: u32, h: u32, max_dim: u32) -> int {
    if needs_scaling(w, h, max_dim) {
        scaled_edge(h, max_dim, long_edge(w, h))
    } else {
        h as int
    }
}

proof fn lemma_scaled_le_x(x: u32, max_dim: u32, m: int)
    by (nonlinear_arith)
    requires
        x >= 1,
        m >= x,
        m > max_dim,
        max_dim >= 1,
    ensures
        0 <= scaled_edge(x, max_dim, m) <= x,
{
    let n = 2 * x * max_dim + m;
    assert(n < 2 * m * (x as int + 1));
}

proof fn lemma_scaled_le_cap(x: u32, max_dim: u32, m: int)
    by (nonlinear_arith)
    requires
        x >= 1,
        m >= x,
        m > max_dim,
        max_dim >= 1,
    ensures
        scaled_edge(x, max_dim, m) <= max_dim,
        m == x ==> scaled_edge(x, max_dim, m) == max_dim,
{
    let n = 2 * x * max_dim + m;
    assert(n < 2 * m * (max_dim as int + 1));
    assert(m == x ==> n / (2 * m) == max_dim as int + m / (2 * m));
}

/// Computes the output dimensions for one image under the longest-edge cap:
/// aspect-preserving rounding, never an upscale, and an exact pass-through
/// when the image already fits. After a downscale both edges are within the
/// cap and the longest edge lands on it exactly.
pub fn compute_target_dims(w: u32, h: u32, max_dim: u32) -> (r: (u32, u32))
    requires
        w >= 1,
        h >= 1,
        max_dim >= 1,
    ensures
        r.0 == target_width(w, h, max_dim),
        r.1 == target_height(w, h, max_dim),
        r.0 <= w,
        r.1 <= h,
        !needs_scaling(w, h, max_dim) ==> r.0 == w && r.1 == h,
        needs_scaling(w, h, max_dim) ==> r.0 <= max_dim && r.1 <= max_dim && (if w >= h {
            r.0 == max_dim
        } else {
            r.1 == max_dim
        }),
{
    if w <= max_dim && h <= max_dim {
        return (w, h);
    }
    let m: u32 = if w >= h {
        w
    } else {
        h
    };
    proof {
        lemma_scaled_le_x(w, max_dim, m as int);
        lemma_scaled_le_x(h, max_dim, m as int);
        lemma_scaled_le_cap(w, max_dim, m as int);
        lemma_scaled_le_cap(h, max_dim, m as int);
    }
    proof {
        assert(2 * (w as u128) * (max_dim as u128) < 0x40000000000000000u128
            && 2 * (h as u128) * (max_dim as u128) < 0x40000000000000000u128)
            by (nonlinear_arith)
            requires
                w <= 0xFFFFFFFFu32,
                h <= 0xFFFFFFFFu32,
                max_dim <= 0xFFFFFFFFu32,
        ;
    }
    let tw128: u128 = (2 * (w as u128) * (max_dim as u128) + (m as u128)) / (2 * (m as u128));
    let th128: u128 = (2 * (h as u128) * (max_dim as u128) + (m as u128)) / (2 * (m as u128));
    let tw: u32 = tw128 as u32;
    let th: u32 = th128 as u32;
    proof {
        assert(tw128 == scaled_edge(w, max_dim, m as int));
        assert(th128 == scaled_edge(h, max_dim, m as int));
    }
    (tw, th)
}

} // verus!
