//! Cosine similarity between quantised embeddings, in fixed point.
//!
//! An embedding is a vector of `i16` components. Similarity and distance are
//! integers counted in millionths: `SCALE` stands for 1.0.
use vstd::prelude::*;

verus! {

/// The fixed-point unit: similarity `SCALE` is 1.0.
pub const SCALE: i64 = 1_000_000;

/// The most components an embedding may have; within it every product of
/// the exact computation fits in 128 bits.
pub const MAX_DIMENSION: usize = 4096;

/// Sum of the products of the first `n` paired components.
pub open spec fn dot_upto(a: Seq<i16>, b: Seq<i16>, n: nat) -> int
    decreases n,
{
    if n == 0 {
        0
    } else {
        dot_upto(a, b, (n - 1) as nat) + a[n - 1] * b[n - 1]
    }
}

/// Dot product of two vectors of equal length.
pub open spec fn dot(a: Seq<i16>, b: Seq<i16>) -> int {
    dot_upto(a, b, a.len())
}

/// Squared Euclidean norm.
pub open spec fn norm_sq(a: Seq<i16>) -> int {
    dot(a, a)
}

/// `r` millionths is at most the magnitude of a cosine whose squared
/// numerator is `d2` and whose squared denominator is `p`.
pub open spec fn fits(r: int, p: int, d2: int) -> bool {
    r * r * p <= SCALE * SCALE * d2
}

/// The largest `r <= k` that fits (0 always does).
pub open spec fn largest_fit(p: int, d2: int, k: nat) -> nat
    decreases k,
{
    if k == 0 || fits(k as int, p, d2) {
        k
    } else {
        largest_fit(p, d2, (k - 1) as nat)
    }
}

/// Cosine similarity in millionths, rounded toward zero: the largest
/// `r <= SCALE` with `r² · |a|² · |b|² <= SCALE² · (a · b)²`, with the sign of
/// `a · b`. Vectors of different lengths, or with a zero norm, have
/// similarity 0.
pub open spec fn similarity(a: Seq<i16>, b: Seq<i16>) -> int {
    if a.len() != b.len() || norm_sq(a) == 0 || norm_sq(b) == 0 {
        0
    } else {
        let m = largest_fit(norm_sq(a) * norm_sq(b), dot(a, b) * dot(a, b), SCALE as nat) as int;
        if dot(a, b) >= 0 {
            m
        } else {
            -m
        }
    }
}

/// Cosine distance in millionths: `SCALE - similarity`.
pub open spec fn cosine_distance(a: Seq<i16>, b: Seq<i16>) -> int {
    SCALE - similarity(a, b)
}

proof fn lemma_fits_downward(r: int, t: int, p: int, d2: int)
    requires
        0 <= t <= r,
        p >= 0,
        fits(r, p, d2),
    ensures
        fits(t, p, d2),
{
    assert(t * t * p <= r * r * p) by (nonlinear_arith)
        requires
            0 <= t <= r,
            p >= 0,
    ;
}

proof fn lemma_largest_fit(p: int, d2: int, k: nat, m: nat)
    requires
        m <= k,
        fits(m as int, p, d2),
        forall|r: int| m < r <= k ==> !fits(r, p, d2),
    ensures
        largest_fit(p, d2, k) == m,
    decreases k,
{
    if k > m {
        assert(!fits(k as int, p, d2));
        lemma_largest_fit(p, d2, (k - 1) as nat, m);
    }
}

proof fn lemma_product_bound(x: i16, y: i16)
    ensures
        -0x4000_0000 <= x * y <= 0x4000_0000,
{
    assert(-0x4000_0000 <= x * y <= 0x4000_0000) by (nonlinear_arith)
        requires
            -0x8000 <= x <= 0x7fff,
            -0x8000 <= y <= 0x7fff,
    ;
}

proof fn lemma_dot_bound(a: Seq<i16>, b: Seq<i16>, n: nat)
    requires
        n <= a.len(),
        n <= b.len(),
    ensures
        -(n * 0x4000_0000) <= dot_upto(a, b, n) <= n * 0x4000_0000,
    decreases n,
{
    if n > 0 {
        lemma_dot_bound(a, b, (n - 1) as nat);
        lemma_product_bound(a[n - 1], b[n - 1]);
    }
}

proof fn lemma_dot_self_nonneg(a: Seq<i16>, n: nat)
    requires
        n <= a.len(),
    ensures
        dot_upto(a, a, n) >= 0,
    decreases n,
{
    if n > 0 {
        lemma_dot_self_nonneg(a, (n - 1) as nat);
        let x = a[n - 1];
        assert(x * x >= 0) by (nonlinear_arith);
    }
}

proof fn lemma_dot_symmetric(a: Seq<i16>, b: Seq<i16>, n: nat)
    requires
        n <= a.len(),
        n <= b.len(),
    ensures
        dot_upto(a, b, n) == dot_upto(b, a, n),
    decreases n,
{
    if n > 0 {
        lemma_dot_symmetric(a, b, (n - 1) as nat);
    }
}

proof fn lemma_nonzero_component(a: Seq<i16>, n: nat, k: int)
    requires
        n <= a.len(),
        0 <= k < n,
        a[k] != 0,
    ensures
        dot_upto(a, a, n) > 0,
    decreases n,
{
    let x = a[n - 1];
    assert(x * x >= 0) by (nonlinear_arith);
    if k == n - 1 {
        assert(x * x > 0) by (nonlinear_arith)
            requires
                x != 0,
        ;
        lemma_dot_self_nonneg(a, (n - 1) as nat);
    } else {
        lemma_nonzero_component(a, (n - 1) as nat, k);
    }
}

/// Cosine similarity is symmetric, and so is cosine distance.
pub proof fn lemma_similarity_symmetric(a: Seq<i16>, b: Seq<i16>)
    ensures
        similarity(a, b) == similarity(b, a),
        cosine_distance(a, b) == cosine_distance(b, a),
{
    if a.len() == b.len() {
        lemma_dot_symmetric(a, b, a.len());
    }
}

/// A vector with a non-zero component has similarity 1 with itself, and so
/// distance 0.
pub proof fn lemma_self_distance_zero(a: Seq<i16>)
    requires
        exists|k: int| 0 <= k < a.len() && a[k] != 0,
    ensures
        similarity(a, a) == SCALE,
        cosine_distance(a, a) == 0,
{
    let k = choose|k: int| 0 <= k < a.len() && a[k] != 0;
    lemma_nonzero_component(a, a.len(), k);
    let n = norm_sq(a);
    assert(fits(SCALE as int, n * n, dot(a, a) * dot(a, a)));
}

/// Vectors of different lengths, or with a zero norm, have similarity
/// exactly 0 and distance exactly 1.
pub proof fn lemma_degenerate_similarity(a: Seq<i16>, b: Seq<i16>)
    requires
        a.len() != b.len() || norm_sq(a) == 0 || norm_sq(b) == 0,
    ensures
        similarity(a, b) == 0,
        cosine_distance(a, b) == SCALE,
{
}

/// Dot product of two vectors of equal length.
fn dot_product(a: &[i16], b: &[i16]) -> (r: i128)
    requires
        a@.len() == b@.len(),
    ensures
        r == dot(a@, b@),
{
    let n: usize = a.len();
    let mut acc: i128 = 0;
    let mut i: usize = 0;
    while i < n
        invariant
            n == a@.len(),
            n == b@.len(),
            i <= n,
            acc == dot_upto(a@, b@, i as nat),
        decreases n - i,
    {
        proof {
            lemma_dot_bound(a@, b@, (i + 1) as nat);
            assert((i + 1) * 0x4000_0000 <= 0x1_0000_0000_0000_0000 * 0x4000_0000) by (nonlinear_arith)
                requires
                    i < 0x1_0000_0000_0000_0000,
            ;
        }
        assert(dot_upto(a@, b@, (i + 1) as nat) == acc + a@[i as int] * b@[i as int]);
        proof {
            lemma_product_bound(a@[i as int], b@[i as int]);
        }
        acc = acc + (a[i] as i128) * (b[i] as i128);
        i = i + 1;
    }
    acc
}

/// Cosine similarity of `a` and `b` in millionths, rounded toward zero; 0
/// where the lengths differ or either norm is zero.
pub fn cosine_similarity(a: &[i16], b: &[i16]) -> (r: i64)
    requires
        a@.len() <= MAX_DIMENSION,
        b@.len() <= MAX_DIMENSION,
    ensures
        r == similarity(a@, b@),
        -SCALE <= r <= SCALE,
{
    if a.len() != b.len() {
        return 0;
    }
    let ab = dot_product(a, b);
    let aa = dot_product(a, a);
    let bb = dot_product(b, b);
    proof {
        lemma_dot_self_nonneg(a@, a@.len());
        lemma_dot_self_nonneg(b@, b@.len());
        lemma_dot_bound(a@, b@, a@.len());
        lemma_dot_bound(a@, a@, a@.len());
        lemma_dot_bound(b@, b@, b@.len());
    }
    if aa == 0 || bb == 0 {
        return 0;
    }
    let ghost na = norm_sq(a@);
    let ghost nb = norm_sq(b@);
    let ghost dt = dot(a@, b@);
    assert(0 <= aa <= 0x400_0000_0000 && 0 <= bb <= 0x400_0000_0000);
    assert(-0x400_0000_0000 <= ab <= 0x400_0000_0000);
    assert((aa as u128) * (bb as u128) <= 0x10_0000_0000_0000_0000_0000) by (nonlinear_arith)
        requires
            0 <= aa <= 0x400_0000_0000,
            0 <= bb <= 0x400_0000_0000,
    ;
    let p: u128 = (aa as u128) * (bb as u128);
    let mag: u128 = if ab >= 0 { ab as u128 } else { (-ab) as u128 };
    assert(mag * mag <= 0x10_0000_0000_0000_0000_0000 && mag * mag == dt * dt) by (nonlinear_arith)
        requires
            mag <= 0x400_0000_0000,
            mag == ab || mag == -ab,
            ab == dt,
    ;
    let d2: u128 = mag * mag;
    let target: u128 = (SCALE as u128) * (SCALE as u128) * d2;
    assert(p == na * nb);
    let mut lo: u128 = 0;
    let mut hi: u128 = SCALE as u128 + 1;
    assert(fits(0, p as int, d2 as int)) by (nonlinear_arith)
        requires
            d2 >= 0,
    ;
    while hi - lo > 1
        invariant
            lo < hi <= SCALE + 1,
            p <= 0x10_0000_0000_0000_0000_0000,
            target == SCALE * SCALE * d2,
            fits(lo as int, p as int, d2 as int),
            forall|t: int| hi <= t <= SCALE ==> !fits(t, p as int, d2 as int),
        decreases hi - lo,
    {
        let mid: u128 = lo + (hi - lo) / 2;
        assert(mid * mid <= 0x100_0000_0000) by (nonlinear_arith)
            requires
                mid <= 1_000_000,
        ;
        assert(mid * mid * p <= 0x100_0000_0000 * 0x10_0000_0000_0000_0000_0000) by (nonlinear_arith)
            requires
                mid <= 1_000_000,
                p <= 0x10_0000_0000_0000_0000_0000,
        ;
        if mid * mid * p <= target {
            lo = mid;
        } else {
            proof {
                assert forall|t: int| mid <= t <= SCALE implies !fits(t, p as int, d2 as int) by {
                    if fits(t, p as int, d2 as int) {
                        lemma_fits_downward(t, mid as int, p as int, d2 as int);
                    }
                }
            }
            hi = mid;
        }
    }
    proof {
        lemma_largest_fit(p as int, d2 as int, SCALE as nat, lo as nat);
    }
    if ab >= 0 {
        lo as i64
    } else {
        -(lo as i64)
    }
}

} // verus!
