//! Work partitioning: a square grid of `side` by `side` tiles is split among
//! `worker_count` workers into contiguous, equal, disjoint bands of tile rows.
//!
//! Worker `rank` owns tile rows `[rank * h, (rank + 1) * h)` where
//! `h = side / worker_count`. The worker count must be a power of two and at
//! most `side`; a violation is a configuration error, rejected before any
//! other work begins.

use vstd::arithmetic::div_mod::lemma_fundamental_div_mod;
use vstd::arithmetic::div_mod::lemma_fundamental_div_mod_converse_div;
use vstd::arithmetic::div_mod::lemma_mod_bound;
use vstd::arithmetic::div_mod::lemma_mod_multiples_basic;
use vstd::prelude::*;

verus! {

/// Whether `n` is a power of two (one, two, four, ...).
pub open spec fn is_pow2(n: nat) -> bool
    decreases n,
{
    if n == 0 {
        false
    } else if n == 1 {
        true
    } else {
        n % 2 == 0 && is_pow2(n / 2)
    }
}

/// First tile row of the band owned by `rank`.
pub open spec fn band_start(side: int, worker_count: int, rank: int) -> int {
    rank * (side / worker_count)
}

/// One past the last tile row of the band owned by `rank`.
pub open spec fn band_end(side: int, worker_count: int, rank: int) -> int {
    (rank + 1) * (side / worker_count)
}

/// Whether tile row `row` lies in the band owned by `rank`.
pub open spec fn owned_by(side: int, worker_count: int, rank: int, row: int) -> bool {
    band_start(side, worker_count, rank) <= row < band_end(side, worker_count, rank)
}

/// The rank whose band holds tile row `row`.
pub open spec fn band_owner(side: int, worker_count: int, row: int) -> int {
    row / (side / worker_count)
}

/// A rejected worker configuration, detected before any other work.
#[derive(Clone, Copy, PartialEq, Eq, Structural, Debug)]
pub enum ConfigError {
    WorkerCountNotPowerOfTwo,
    WorkerCountExceedsSide,
}

/// Whether `n` is a power of two.
pub fn is_power_of_two(n: u64) -> (r: bool)
    ensures
        r == is_pow2(n as nat),
{
    if n == 0 {
        return false;
    }
    let mut m: u64 = n;
    while m % 2 == 0
        invariant
            m >= 1,
            is_pow2(n as nat) == is_pow2(m as nat),
        decreases m,
    {
        m = m / 2;
    }
    m == 1
}

/// Validate a worker configuration: the worker count must be a power of two
/// and no larger than the grid side. Exactly the offending condition is
/// reported, the power-of-two check first.
pub fn check_config(side: u64, worker_count: u64) -> (r: Result<(), ConfigError>)
    ensures
        r is Ok <==> (is_pow2(worker_count as nat) && worker_count <= side),
        r == Err::<(), ConfigError>(ConfigError::WorkerCountNotPowerOfTwo) <==> !is_pow2(
            worker_count as nat,
        ),
        r == Err::<(), ConfigError>(ConfigError::WorkerCountExceedsSide) <==> (is_pow2(
            worker_count as nat,
        ) && worker_count > side),
{
    if !is_power_of_two(worker_count) {
        Err(ConfigError::WorkerCountNotPowerOfTwo)
    } else if worker_count > side {
        Err(ConfigError::WorkerCountExceedsSide)
    } else {
        Ok(())
    }
}

/// The contiguous band of tile rows owned by `rank`: row `rank * h` up to but
/// excluding row `(rank + 1) * h`, where `h = side / worker_count`.
pub fn band(side: u64, worker_count: u64, rank: u64) -> (r: (u64, u64))
    requires
        is_pow2(worker_count as nat),
        worker_count <= side,
        rank < worker_count,
    ensures
        r.0 == band_start(side as int, worker_count as int, rank as int),
        r.1 == band_end(side as int, worker_count as int, rank as int),
        r.0 <= r.1 <= side,
{
    let height: u64 = side / worker_count;
    proof {
        let s = side as int;
        let w = worker_count as int;
        let h = s / w;
        lemma_fundamental_div_mod(s, w);
        lemma_mod_bound(s, w);
        assert((rank as int + 1) * h <= s) by (nonlinear_arith)
            requires
                rank as int + 1 <= w,
                h >= 0,
                s == w * h + s % w,
                s % w >= 0,
        ;
        assert(rank as int * h <= (rank as int + 1) * h) by (nonlinear_arith)
            requires
                h >= 0,
        ;
    }
    let start_h: u64 = rank * height;
    let end_h: u64 = (rank + 1) * height;
    (start_h, end_h)
}

/// A power of two divides every power of two at least as large.
pub proof fn lemma_pow2_divides(a: nat, b: nat)
    requires
        is_pow2(a),
        is_pow2(b),
        a <= b,
    ensures
        b % a == 0,
    decreases b,
{
    if a == 1 {
        assert(b % 1 == 0) by (nonlinear_arith);
    } else {
        assert(a % 2 == 0 && is_pow2(a / 2));
        assert(b >= 2);
        assert(b % 2 == 0 && is_pow2(b / 2));
        lemma_pow2_divides(a / 2, b / 2);
        let ah = a as int / 2;
        let bh = b as int / 2;
        lemma_fundamental_div_mod(a as int, 2);
        lemma_fundamental_div_mod(b as int, 2);
        let k = bh / ah;
        lemma_fundamental_div_mod(bh, ah);
        assert(bh == ah * k);
        assert(b as int == k * (a as int)) by (nonlinear_arith)
            requires
                a as int == 2 * ah,
                b as int == 2 * bh,
                bh == ah * k,
        ;
        lemma_mod_multiples_basic(k, a as int);
    }
}

/// The bands of all `worker_count` workers are equal in height, contiguous,
/// pairwise disjoint, and together cover exactly the rows `[0, side)`.
pub proof fn lemma_bands_partition(side: nat, worker_count: nat)
    requires
        is_pow2(worker_count),
        worker_count <= side,
        side % worker_count == 0,
    ensures
        side / worker_count >= 1,
        band_start(side as int, worker_count as int, 0) == 0,
        band_end(side as int, worker_count as int, worker_count as int - 1) == side,
        forall|r: int|
            0 <= r < worker_count ==> #[trigger] band_end(side as int, worker_count as int, r)
                - band_start(side as int, worker_count as int, r) == side as int
                / worker_count as int,
        forall|r: int|
            1 <= r < worker_count ==> #[trigger] band_start(side as int, worker_count as int, r)
                == band_end(side as int, worker_count as int, r - 1),
        forall|i: int|
            0 <= i < side ==> 0 <= #[trigger] band_owner(side as int, worker_count as int, i)
                < worker_count && owned_by(
                side as int,
                worker_count as int,
                band_owner(side as int, worker_count as int, i),
                i,
            ),
        forall|r: int, i: int|
            0 <= r < worker_count && #[trigger] owned_by(side as int, worker_count as int, r, i)
                ==> r == band_owner(side as int, worker_count as int, i),
{
    let s = side as int;
    let w = worker_count as int;
    let h = s / w;
    assert(w >= 1);
    lemma_fundamental_div_mod(s, w);
    assert(s == w * h);
    assert(h >= 1) by (nonlinear_arith)
        requires
            s == w * h,
            w >= 1,
            w <= s,
            h >= 0,
    ;
    assert(band_end(s, w, w - 1) == s) by (nonlinear_arith)
        requires
            s == w * h,
            h == s / w,
    ;
    assert forall|r: int| 0 <= r < worker_count implies #[trigger] band_end(s, w, r) - band_start(
        s,
        w,
        r,
    ) == h by {
        assert((r + 1) * h - r * h == h) by (nonlinear_arith);
    }
    assert forall|i: int| 0 <= i < side implies 0 <= #[trigger] band_owner(s, w, i) < worker_count
        && owned_by(s, w, band_owner(s, w, i), i) by {
        let q = i / h;
        lemma_fundamental_div_mod(i, h);
        lemma_mod_bound(i, h);
        assert(q * h <= i < (q + 1) * h) by (nonlinear_arith)
            requires
                i == h * q + i % h,
                0 <= i % h < h,
        ;
        assert(0 <= q < w) by (nonlinear_arith)
            requires
                q * h <= i < (q + 1) * h,
                0 <= i,
                i < s,
                s == w * h,
                h >= 1,
        ;
    }
    assert forall|r: int, i: int|
        0 <= r < worker_count && #[trigger] owned_by(s, w, r, i) implies r == band_owner(
        s,
        w,
        i,
    ) by {
        lemma_band_owner_unique(s, w, r, i);
    }
}

/// A row inside the band of `rank` identifies that rank: it is the quotient of
/// the row by the band height.
proof fn lemma_band_owner_unique(s: int, w: int, rank: int, i: int)
    requires
        w >= 1,
        s / w >= 1,
        0 <= rank,
        band_start(s, w, rank) <= i < band_end(s, w, rank),
    ensures
        rank == i / (s / w),
{
    let h = s / w;
    assert(rank * h + h == (rank + 1) * h) by (nonlinear_arith);
    assert(i == rank * h + (i - rank * h));
    lemma_fundamental_div_mod_converse_div(i, h, rank, i - rank * h);
}

/// The band partition for a grid whose side is a power of two (a side of
/// `2^zoom` tiles): every worker count that is a power of two and at most
/// `side` divides it exactly, so the bands are equal in height, contiguous,
/// pairwise disjoint, and together cover exactly the rows `[0, side)`.
pub proof fn lemma_bands_partition_pow2_side(side: nat, worker_count: nat)
    requires
        is_pow2(side),
        is_pow2(worker_count),
        worker_count <= side,
    ensures
        side / worker_count >= 1,
        band_start(side as int, worker_count as int, 0) == 0,
        band_end(side as int, worker_count as int, worker_count as int - 1) == side,
        forall|r: int|
            0 <= r < worker_count ==> #[trigger] band_end(side as int, worker_count as int, r)
                - band_start(side as int, worker_count as int, r) == side as int
                / worker_count as int,
        forall|r: int|
            1 <= r < worker_count ==> #[trigger] band_start(side as int, worker_count as int, r)
                == band_end(side as int, worker_count as int, r - 1),
        forall|i: int|
            0 <= i < side ==> 0 <= #[trigger] band_owner(side as int, worker_count as int, i)
                < worker_count && owned_by(
                side as int,
                worker_count as int,
                band_owner(side as int, worker_count as int, i),
                i,
            ),
        forall|r: int, i: int|
            0 <= r < worker_count && #[trigger] owned_by(side as int, worker_count as int, r, i)
                ==> r == band_owner(side as int, worker_count as int, i),
{
    lemma_pow2_divides(worker_count, side);
    lemma_bands_partition(side, worker_count);
}

} // verus!
