//! Normalized cross-correlation scoring in fixed point.
//!
//! A confidence is a score in parts per million of a full match. For two
//! equally sized grayscale windows `a` and `b` with `n` pixels, the score is
//! the classical normalized cross-correlation
//! `(n·Σab − Σa·Σb) / sqrt((n·Σa² − (Σa)²) (n·Σb² − (Σb)²))`, computed over
//! integers: the square root is the integer square root of each variance
//! term, negative correlation and flat (zero-variance) windows score zero,
//! and the result is clamped to [`SCALE_PPM`].

use vstd::prelude::*;

use vstd::arithmetic::div_mod::lemma_div_is_ordered;
use vstd::arithmetic::div_mod::lemma_div_multiples_vanish;

verus! {

/// A full match, in parts per million.
pub const SCALE_PPM: u64 = 1_000_000;

/// The largest window the scorer accepts, in pixels.
pub const MAX_PIXELS: usize = 0x100_0000;

pub open spec fn sum_of(s: Seq<u8>) -> int
    decreases s.len(),
{
    if s.len() == 0 {
        0
    } else {
        sum_of(s.drop_last()) + s.last()
    }
}

pub open spec fn sum_sq(s: Seq<u8>) -> int
    decreases s.len(),
{
    if s.len() == 0 {
        0
    } else {
        sum_sq(s.drop_last()) + s.last() * s.last()
    }
}

pub open spec fn sum_prod(a: Seq<u8>, b: Seq<u8>) -> int
    recommends
        a.len() == b.len(),
    decreases a.len(),
{
    if a.len() == 0 {
        0
    } else {
        sum_prod(a.drop_last(), b.drop_last()) + a.last() * b.last()
    }
}

/// `n` times the variance of `s`, scaled by `n`: `n·Σs² − (Σs)²`.
pub open spec fn var_num(s: Seq<u8>) -> int {
    s.len() * sum_sq(s) - sum_of(s) * sum_of(s)
}

/// `n` times the covariance of `a` and `b`, scaled by `n`:
/// `n·Σab − Σa·Σb`.
pub open spec fn cov_num(a: Seq<u8>, b: Seq<u8>) -> int {
    a.len() * sum_prod(a, b) - sum_of(a) * sum_of(b)
}

/// The integer square root: the greatest `r` with `r·r <= n`.
pub open spec fn isqrt_spec(n: nat) -> nat
    decreases n,
{
    if n == 0 {
        0
    } else {
        let p = isqrt_spec((n - 1) as nat);
        if (p + 1) * (p + 1) <= n {
            p + 1
        } else {
            p
        }
    }
}

/// The normalized cross-correlation of two equally sized windows, in parts
/// per million, clamped to `[0, SCALE_PPM]`.
pub open spec fn score_spec(a: Seq<u8>, b: Seq<u8>) -> int
    recommends
        a.len() == b.len(),
{
    if var_num(a) <= 0 || var_num(b) <= 0 || cov_num(a, b) <= 0 {
        0
    } else {
        let q = cov_num(a, b) * (SCALE_PPM as int) / (isqrt_spec(var_num(a) as nat) * isqrt_spec(
            var_num(b) as nat,
        ) as int);
        if q > SCALE_PPM as int {
            SCALE_PPM as int
        } else {
            q
        }
    }
}

pub proof fn lemma_isqrt_char(n: nat)
    ensures
        isqrt_spec(n) * isqrt_spec(n) <= n,
        n < (isqrt_spec(n) + 1) * (isqrt_spec(n) + 1),
    decreases n,
{
    if n == 0 {
        assert(isqrt_spec(0) == 0);
        assert((isqrt_spec(0) + 1) * (isqrt_spec(0) + 1) == 1) by (nonlinear_arith)
            requires
                isqrt_spec(0) == 0,
        ;
    } else {
        lemma_isqrt_char((n - 1) as nat);
        let p = isqrt_spec((n - 1) as nat);
        assert(isqrt_spec(n) == (if (p + 1) * (p + 1) <= n {
            (p + 1) as nat
        } else {
            p
        }));
        if (p + 1) * (p + 1) <= n {
            assert(n <= (p + 1) * (p + 1)) by (nonlinear_arith)
                requires
                    (n - 1) < (p + 1) * (p + 1),
            ;
            assert((p + 1) * (p + 1) < (p + 2) * (p + 2)) by (nonlinear_arith);
            assert(isqrt_spec(n) == p + 1);
            assert(isqrt_spec(n) * isqrt_spec(n) <= n);
            assert(n < (isqrt_spec(n) + 1) * (isqrt_spec(n) + 1));
        } else {
            assert(isqrt_spec(n) == p);
            assert(p * p <= (n - 1) as nat);
            assert(isqrt_spec(n) * isqrt_spec(n) <= n);
            assert(n < (isqrt_spec(n) + 1) * (isqrt_spec(n) + 1));
        }
    }
}

pub proof fn lemma_isqrt_unique(n: nat, r: nat)
    requires
        r * r <= n,
        n < (r + 1) * (r + 1),
    ensures
        r == isqrt_spec(n),
{
    lemma_isqrt_char(n);
    let s = isqrt_spec(n);
    if r < s {
        assert((r + 1) * (r + 1) <= s * s) by (nonlinear_arith)
            requires
                r + 1 <= s,
        ;
    } else if s < r {
        assert((s + 1) * (s + 1) <= r * r) by (nonlinear_arith)
            requires
                s + 1 <= r,
        ;
    }
}

pub proof fn lemma_sum_of_bounds(s: Seq<u8>)
    ensures
        0 <= sum_of(s) <= 255 * s.len(),
    decreases s.len(),
{
    if s.len() > 0 {
        lemma_sum_of_bounds(s.drop_last());
    }
}

pub proof fn lemma_sum_sq_bounds(s: Seq<u8>)
    ensures
        0 <= sum_sq(s) <= 65025 * s.len(),
    decreases s.len(),
{
    if s.len() > 0 {
        lemma_sum_sq_bounds(s.drop_last());
        assert(s.last() * s.last() <= 65025) by (nonlinear_arith)
            requires
                0 <= s.last() <= 255,
        ;
    }
}

pub proof fn lemma_sum_prod_bounds(a: Seq<u8>, b: Seq<u8>)
    requires
        a.len() == b.len(),
    ensures
        0 <= sum_prod(a, b) <= 65025 * a.len(),
    decreases a.len(),
{
    if a.len() > 0 {
        lemma_sum_prod_bounds(a.drop_last(), b.drop_last());
        assert(a.last() * b.last() <= 65025) by (nonlinear_arith)
            requires
                0 <= a.last() <= 255,
                0 <= b.last() <= 255,
        ;
        assert(a.last() * b.last() >= 0) by (nonlinear_arith)
            requires
                0 <= a.last(),
                0 <= b.last(),
        ;
    }
}

/// The cross term of a window with itself is its square sum.
pub proof fn lemma_sum_prod_self(a: Seq<u8>)
    ensures
        sum_prod(a, a) == sum_sq(a),
    decreases a.len(),
{
    if a.len() > 0 {
        lemma_sum_prod_self(a.drop_last());
    }
}

/// A constant window has zero variance.
pub proof fn lemma_constant_var(s: Seq<u8>, c: u8)
    requires
        forall|i: int| 0 <= i < s.len() ==> #[trigger] s[i] == c,
    ensures
        sum_of(s) == s.len() * c,
        sum_sq(s) == s.len() * (c * c),
        var_num(s) == 0,
    decreases s.len(),
{
    if s.len() == 0 {
        assert(var_num(s) == 0) by (nonlinear_arith)
            requires
                sum_of(s) == 0,
                sum_sq(s) == 0,
                s.len() == 0,
        ;
    } else {
        lemma_constant_var(s.drop_last(), c);
        assert(s.last() == c);
        assert((s.len() - 1) * c + c == s.len() * c) by (nonlinear_arith);
        assert((s.len() - 1) * (c * c) + c * c == s.len() * (c * c)) by (nonlinear_arith);
        assert(s.len() * (s.len() * (c * c)) - (s.len() * c) * (s.len() * c) == 0)
            by (nonlinear_arith);
    }
}

/// The self-match law at window level: a window with any variance at all
/// correlates with itself at exactly the full score.
pub proof fn lemma_self_score(a: Seq<u8>)
    requires
        var_num(a) > 0,
    ensures
        score_spec(a, a) == SCALE_PPM as int,
{
    lemma_sum_prod_self(a);
    assert(cov_num(a, a) == var_num(a));
    let v = var_num(a) as nat;
    lemma_isqrt_char(v);
    let r = isqrt_spec(v);
    assert(r >= 1) by (nonlinear_arith)
        requires
            v >= 1,
            v < (r + 1) * (r + 1),
    ;
    let rr = (r * r) as int;
    assert(rr >= 1) by (nonlinear_arith)
        requires
            r >= 1,
            rr == r * r,
    ;
    let scale = SCALE_PPM as int;
    let q = (v as int) * scale / rr;
    assert(rr * scale <= (v as int) * scale) by (nonlinear_arith)
        requires
            rr <= v as int,
            scale > 0,
    ;
    lemma_div_is_ordered(rr * scale, (v as int) * scale, rr);
    assert(rr * scale == rr * scale);
    lemma_div_multiples_vanish(scale, rr);
    assert((rr * scale) / rr == scale);
    assert(q >= scale);
    assert((v as int) * scale == cov_num(a, a) * scale);
}

/// One pass over two windows: their sums, square sums, and cross sum.
fn window_sums(a: &Vec<u8>, b: &Vec<u8>) -> (r: (u64, u64, u64, u64, u64))
    requires
        a@.len() == b@.len(),
        a@.len() <= MAX_PIXELS,
    ensures
        r.0 == sum_of(a@),
        r.1 == sum_of(b@),
        r.2 == sum_sq(a@),
        r.3 == sum_sq(b@),
        r.4 == sum_prod(a@, b@),
{
    let n = a.len();
    let mut sa: u64 = 0;
    let mut sb: u64 = 0;
    let mut saa: u64 = 0;
    let mut sbb: u64 = 0;
    let mut sab: u64 = 0;
    let mut i: usize = 0;
    while i < n
        invariant
            i <= n,
            n == a@.len(),
            n == b@.len(),
            n <= MAX_PIXELS,
            sa == sum_of(a@.subrange(0, i as int)),
            sb == sum_of(b@.subrange(0, i as int)),
            saa == sum_sq(a@.subrange(0, i as int)),
            sbb == sum_sq(b@.subrange(0, i as int)),
            sab == sum_prod(a@.subrange(0, i as int), b@.subrange(0, i as int)),
        decreases n - i,
    {
        proof {
            let ap = a@.subrange(0, i as int);
            let bp = b@.subrange(0, i as int);
            lemma_sum_of_bounds(ap);
            lemma_sum_of_bounds(bp);
            lemma_sum_sq_bounds(ap);
            lemma_sum_sq_bounds(bp);
            lemma_sum_prod_bounds(ap, bp);
            assert(a@.subrange(0, i + 1).drop_last() =~= ap);
            assert(b@.subrange(0, i + 1).drop_last() =~= bp);
            assert(255 * (i as int) <= 255 * MAX_PIXELS) by (nonlinear_arith)
                requires
                    i <= MAX_PIXELS,
            ;
            assert(65025 * (i as int) <= 65025 * MAX_PIXELS) by (nonlinear_arith)
                requires
                    i <= MAX_PIXELS,
            ;
        }
        let av = a[i] as u64;
        let bv = b[i] as u64;
        proof {
            assert(av * av <= 65025 && bv * bv <= 65025 && av * bv <= 65025)
                by (nonlinear_arith)
                requires
                    0 <= av <= 255,
                    0 <= bv <= 255,
            ;
        }
        sa = sa + av;
        sb = sb + bv;
        saa = saa + av * av;
        sbb = sbb + bv * bv;
        sab = sab + av * bv;
        i = i + 1;
    }
    proof {
        assert(a@.subrange(0, n as int) =~= a@);
        assert(b@.subrange(0, n as int) =~= b@);
    }
    (sa, sb, saa, sbb, sab)
}

/// The integer square root of a 128-bit value, by bisection.
fn isqrt_u128(n: u128) -> (r: u128)
    ensures
        r * r <= n,
        n < (r + 1) * (r + 1),
        r <= 0xffff_ffff_ffff_ffffu128,
{
    if n == 0 {
        return 0;
    }
    let mut lo: u128 = 0;
    let mut hi: u128 = 0x1_0000_0000_0000_0000u128;
    while lo + 1 < hi
        invariant
            lo < hi,
            hi <= 0x1_0000_0000_0000_0000u128,
            lo * lo <= n,
            n < hi * hi,
        decreases hi - lo,
    {
        let mid = lo + (hi - lo) / 2;
        proof {
            assert(mid * mid < 0x1_0000_0000_0000_0000_0000_0000_0000_0000)
                by (nonlinear_arith)
                requires
                    mid < 0x1_0000_0000_0000_0000u128,
            ;
        }
        if mid * mid <= n {
            lo = mid;
        } else {
            hi = mid;
        }
    }
    lo
}

/// The normalized cross-correlation of two equally sized windows, in parts
/// per million.
pub fn score_ppm(a: &Vec<u8>, b: &Vec<u8>) -> (r: u64)
    requires
        a@.len() == b@.len(),
        1 <= a@.len() <= MAX_PIXELS,
    ensures
        r == score_spec(a@, b@),
        r <= SCALE_PPM,
{
    let (sa, sb, saa, sbb, sab) = window_sums(a, b);
    let n = a.len();
    proof {
        lemma_sum_of_bounds(a@);
        lemma_sum_of_bounds(b@);
        lemma_sum_sq_bounds(a@);
        lemma_sum_sq_bounds(b@);
        lemma_sum_prod_bounds(a@, b@);
        assert(255 * (n as int) <= 255 * MAX_PIXELS && 65025 * (n as int) <= 65025
            * MAX_PIXELS) by (nonlinear_arith)
            requires
                n <= MAX_PIXELS,
        ;
        assert((n as int) * (saa as int) <= MAX_PIXELS * (65025 * MAX_PIXELS) && (n as int) * (
        sbb as int) <= MAX_PIXELS * (65025 * MAX_PIXELS) && (n as int) * (sab as int)
            <= MAX_PIXELS * (65025 * MAX_PIXELS)) by (nonlinear_arith)
            requires
                n <= MAX_PIXELS,
                saa <= 65025 * MAX_PIXELS,
                sbb <= 65025 * MAX_PIXELS,
                sab <= 65025 * MAX_PIXELS,
                0 <= saa,
                0 <= sbb,
                0 <= sab,
        ;
        assert((sa as int) * (sa as int) <= (255 * MAX_PIXELS) * (255 * MAX_PIXELS) && (
        sb as int) * (sb as int) <= (255 * MAX_PIXELS) * (255 * MAX_PIXELS) && (sa as int) * (
        sb as int) <= (255 * MAX_PIXELS) * (255 * MAX_PIXELS)) by (nonlinear_arith)
            requires
                0 <= sa <= 255 * MAX_PIXELS,
                0 <= sb <= 255 * MAX_PIXELS,
        ;
    }
    let var_a: i128 = (n as i128) * (saa as i128) - (sa as i128) * (sa as i128);
    let var_b: i128 = (n as i128) * (sbb as i128) - (sb as i128) * (sb as i128);
    let cov: i128 = (n as i128) * (sab as i128) - (sa as i128) * (sb as i128);
    if var_a <= 0 || var_b <= 0 || cov <= 0 {
        return 0;
    }
    let sq_a = isqrt_u128(var_a as u128);
    let sq_b = isqrt_u128(var_b as u128);
    proof {
        lemma_isqrt_unique(var_a as nat, sq_a as nat);
        lemma_isqrt_unique(var_b as nat, sq_b as nat);
        assert(sq_a >= 1 && sq_b >= 1) by (nonlinear_arith)
            requires
                (var_a as int) >= 1,
                (var_b as int) >= 1,
                (var_a as int) < (sq_a + 1) * (sq_a + 1),
                (var_b as int) < (sq_b + 1) * (sq_b + 1),
                sq_a >= 0,
                sq_b >= 0,
        ;
        assert(sq_a * sq_b < 0x1_0000_0000_0000_0000_0000_0000_0000_0000 && sq_a * sq_b >= 1)
            by (nonlinear_arith)
            requires
                1 <= sq_a <= 0xffff_ffff_ffff_ffffu128,
                1 <= sq_b <= 0xffff_ffff_ffff_ffffu128,
        ;
        assert((cov as int) * 1_000_000 < 0x1_0000_0000_0000_0000_0000_0000_0000_0000)
            by (nonlinear_arith)
            requires
                0 < (cov as int) <= MAX_PIXELS * (65025 * MAX_PIXELS),
        ;
    }
    let denom: u128 = sq_a * sq_b;
    let q: u128 = (cov as u128) * 1_000_000u128 / denom;
    if q > 1_000_000u128 {
        1_000_000u64
    } else {
        q as u64
    }
}

} // verus!
