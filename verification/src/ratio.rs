//! Split shares. A share is a double-precision number held as integers:
//! `mant / unit`, where `unit` is a power of two and `mant` carries at most 53
//! significant bits. Division and multiplication round to the nearest such
//! number, ties to even, so every pixel position derived from a share is exact.
use vstd::prelude::*;

verus! {

/// 2^52, the smallest mantissa with 53 significant bits.
pub const LOW: u64 = 0x10_0000_0000_0000;

/// 2^53, one more than the largest such mantissa.
pub const HIGH: u64 = 0x20_0000_0000_0000;

/// `n / d` rounded to the nearest integer, ties to even.
pub open spec fn nearest(n: int, d: int) -> int {
    let q = n / d;
    let r = n % d;
    if 2 * r < d || (2 * r == d && q % 2 == 0) {
        q
    } else {
        q + 1
    }
}

pub open spec fn power_of_two(n: int) -> bool
    decreases n,
{
    n == 1 || (n > 1 && n % 2 == 0 && power_of_two(n / 2))
}

/// The distance between neighbouring 53-bit numbers around `p`: the least
/// power of two `u` with `p / u` below 2^53.
pub open spec fn ulp(p: nat) -> nat
    decreases p,
{
    if p < HIGH {
        1
    } else {
        2 * ulp(p / 2)
    }
}

/// `p` rounded to 53 significant bits, ties to even.
pub open spec fn round53(p: nat) -> int {
    nearest(p as int, ulp(p) as int) * ulp(p)
}

/// A share of space between 0 and 1.
#[derive(Clone, Copy, Debug, PartialEq, Eq, Structural)]
pub struct Ratio {
    pub(crate) mant: u64,
    pub(crate) unit: u128,
}

impl Ratio {
    pub closed spec fn mant(self) -> nat {
        self.mant as nat
    }

    pub closed spec fn unit(self) -> nat {
        self.unit as nat
    }

    /// The share lies between 0 and 1 and is a double-precision number.
    pub open spec fn wf(self) -> bool {
        &&& self.mant() <= self.unit()
        &&& self.mant() <= HIGH
        &&& power_of_two(self.unit() as int)
    }

    #[verifier::type_invariant]
    closed spec fn inv(self) -> bool {
        &&& self.mant <= self.unit
        &&& self.mant <= HIGH
        &&& power_of_two(self.unit as int)
    }

    /// This share is `a / t` rounded to double precision.
    pub open spec fn is_quotient(self, a: int, t: int) -> bool {
        if a == 0 {
            self.mant() == 0 && self.unit() == 1
        } else {
            &&& power_of_two(self.unit() as int)
            &&& t * LOW <= a * self.unit() < t * HIGH
            &&& self.mant() == nearest(a * self.unit(), t)
        }
    }

    /// This share is `n / d` rounded to double precision, kept between 1/20
    /// and 19/20 (rounding is monotone, so the bounds apply to the exact
    /// quotient).
    pub open spec fn is_drag_share(self, n: int, d: int) -> bool {
        if 20 * n <= d {
            self.is_quotient(1, 20)
        } else if 20 * n >= 19 * d {
            self.is_quotient(19, 20)
        } else {
            self.is_quotient(n, d)
        }
    }

    /// The whole pixels that this share of `px` pixels covers: the product
    /// rounded to double precision, then cut to an integer.
    pub open spec fn of_pixels(self, px: int) -> int {
        round53((px * self.mant()) as nat) / self.unit() as int
    }

    /// The share `a / t`.
    pub fn of(a: u64, t: u64) -> (r: Ratio)
        requires
            a <= t,
            0 < t <= HIGH,
        ensures
            r.is_quotient(a as int, t as int),
            r.wf(),
    {
        if a == 0 {
            assert(power_of_two(1));
            return Ratio { mant: 0, unit: 1 };
        }
        assert(0 <= a * LOW <= t * LOW <= HIGH * LOW) by (nonlinear_arith)
            requires
                0 <= a <= t <= HIGH,
        ;
        assert(HIGH * LOW == 0x200_0000_0000_0000_0000_0000_0000u128);
        let low: u128 = t as u128 * LOW as u128;
        let mut unit: u128 = LOW as u128;
        let mut n: u128 = a as u128 * LOW as u128;
        proof {
            lemma_low();
        }
        while n < low
            invariant
                0 < a <= t <= HIGH,
                low == t * LOW,
                n == a * unit,
                power_of_two(unit as int),
                LOW <= unit,
                0 < n < t * HIGH,
            decreases t * HIGH - n,
        {
            assert(n * 2 == a * (unit * 2)) by (nonlinear_arith)
                requires
                    n == a * unit,
            ;
            assert(unit <= n) by (nonlinear_arith)
                requires
                    n == a * unit,
                    0 < a,
            ;
            assert(t * HIGH <= HIGH * HIGH) by (nonlinear_arith)
                requires
                    t <= HIGH,
            ;
            n = n * 2;
            unit = unit * 2;
            assert(power_of_two(unit as int / 2));
        }
        let t128: u128 = t as u128;
        let q: u128 = n / t128;
        let r: u128 = n % t128;
        proof {
            lemma_nearest_bound(n as int, t as int, HIGH as int);
            assert(n == t * q + r && 0 <= r < t) by {
                vstd::arithmetic::div_mod::lemma_fundamental_div_mod(n as int, t as int);
            }
            assert(t * HIGH == HIGH * t) by (nonlinear_arith);
            assert(n <= unit * t) by (nonlinear_arith)
                requires
                    n == a * unit,
                    a <= t,
            ;
            lemma_nearest_bound(n as int, t as int, unit as int);
        }
        let mant: u128 = if 2 * r < t128 || (2 * r == t128 && q % 2 == 0) {
            q
        } else {
            q + 1
        };
        assert(mant == nearest(n as int, t as int));
        Ratio { mant: mant as u64, unit }
    }

    /// The share for a divider dragged `n` pixels into a run of `d` pixels.
    pub fn of_drag(n: i64, d: i64) -> (r: Ratio)
        requires
            -0x1_0000_0000 <= n <= 0x1_0000_0000,
            0 < d <= 0x7fff_ffff,
        ensures
            r.is_drag_share(n as int, d as int),
            r.wf(),
    {
        if 20 * n <= d {
            Ratio::of(1, 20)
        } else if 20 * n >= 19 * d {
            Ratio::of(19, 20)
        } else {
            Ratio::of(n as u64, d as u64)
        }
    }

    /// One half.
    pub fn half() -> (r: Ratio)
        ensures
            r.is_quotient(1, 2),
            r.wf(),
    {
        Ratio::of(1, 2)
    }

    /// The whole pixels that this share of `px` pixels covers.
    pub fn pixels(self, px: i32) -> (r: i32)
        requires
            0 <= px,
        ensures
            r == self.of_pixels(px as int),
            0 <= r <= px,
            self.wf(),
    {
        proof {
            use_type_invariant(self);
            lemma_share_of_pixels(self, px as int);
            assert(px * self.mant <= 0x7fff_ffff * HIGH) by (nonlinear_arith)
                requires
                    0 <= px <= 0x7fff_ffff,
                    self.mant <= HIGH,
            ;
            assert(0 <= px * self.mant) by (nonlinear_arith)
                requires
                    0 <= px,
                    0 <= self.mant,
            ;
        }
        let p: u128 = px as u128 * self.mant as u128;
        let u: u128 = ulp_of(p);
        let q: u128 = p / u;
        let r: u128 = p % u;
        proof {
            lemma_ulp(p as nat);
            assert(p == u * q + r && 0 <= r < u) by {
                vstd::arithmetic::div_mod::lemma_fundamental_div_mod(p as int, u as int);
            }
            assert(u * (q + 1) == u * q + u) by (nonlinear_arith);
            assert(u * (q + 1) <= 2 * 0x7fff_ffff * HIGH + 1);
        }
        let m: u128 = if 2 * r < u || (2 * r == u && q % 2 == 0) {
            q
        } else {
            q + 1
        };
        proof {
            assert(m == nearest(p as int, u as int));
            assert(m * u == u * m) by (nonlinear_arith);
            assert(0 <= m * u <= u * (q + 1)) by (nonlinear_arith)
                requires
                    0 <= m <= q + 1,
                    0 < u,
            ;
            assert(self.unit > 0);
        }
        ((m * u) / self.unit) as i32
    }
}

/// Computes [`ulp`].
fn ulp_of(p: u128) -> (u: u128)
    ensures
        u == ulp(p as nat),
        1 <= u,
        u == 1 || u <= p,
    decreases p,
{
    if p < HIGH as u128 {
        1
    } else {
        2 * ulp_of(p / 2)
    }
}

proof fn lemma_low()
    ensures
        power_of_two(LOW as int),
{
    reveal_with_fuel(power_of_two, 54);
}

/// Rounding never passes an integer bound of the exact quotient.
proof fn lemma_nearest_bound(n: int, d: int, bound: int)
    requires
        0 <= n,
        0 < d,
        n <= bound * d,
    ensures
        0 <= nearest(n, d) <= bound,
        n / d <= nearest(n, d) <= n / d + 1,
{
    vstd::arithmetic::div_mod::lemma_fundamental_div_mod(n, d);
    let q = n / d;
    let r = n % d;
    assert(0 <= q) by (nonlinear_arith)
        requires
            q == n / d,
            0 <= n,
            0 < d,
    ;
    assert(q <= bound && (q == bound ==> r == 0)) by (nonlinear_arith)
        requires
            n == d * q + r,
            0 <= r < d,
            n <= bound * d,
            0 < d,
    ;
}

/// Rounding is off by one half at most.
pub proof fn lemma_nearest_error(n: int, d: int)
    requires
        0 <= n,
        0 < d,
    ensures
        -d <= 2 * (nearest(n, d) * d - n) <= d,
{
    vstd::arithmetic::div_mod::lemma_fundamental_div_mod(n, d);
    let q = n / d;
    assert((q + 1) * d == d * q + d) by (nonlinear_arith);
    assert(q * d == d * q) by (nonlinear_arith);
}

/// What [`ulp`] is: a power of two that leaves 53 significant bits.
pub proof fn lemma_ulp(p: nat)
    ensures
        power_of_two(ulp(p) as int),
        0 < ulp(p),
        p < HIGH * ulp(p),
        ulp(p) > 1 ==> p >= LOW * ulp(p),
    decreases p,
{
    assert(power_of_two(1));
    if p >= HIGH {
        lemma_ulp(p / 2);
        assert(power_of_two(2 * ulp(p / 2) as int));
    }
}

/// Of two powers of two the smaller divides the larger.
proof fn lemma_pow2_divides(a: int, b: int)
    requires
        power_of_two(a),
        power_of_two(b),
        a <= b,
    ensures
        0 < a,
        b % a == 0,
        a < b ==> 2 * a <= b,
    decreases b,
{
    if a == 1 {
        assert(b % 1 == 0);
    } else {
        lemma_pow2_divides(a / 2, b / 2);
        assert(a == 2 * (a / 2) && b == 2 * (b / 2));
        let k = (b / 2) / (a / 2);
        assert(b / 2 == (a / 2) * k) by {
            vstd::arithmetic::div_mod::lemma_fundamental_div_mod(b / 2, a / 2);
        }
        assert(b == a * k) by (nonlinear_arith)
            requires
                b == 2 * (b / 2),
                a == 2 * (a / 2),
                b / 2 == (a / 2) * k,
        ;
        vstd::arithmetic::div_mod::lemma_mod_multiples_basic(k, a);
        assert(k * a == a * k) by (nonlinear_arith);
    }
}

/// A share of some pixels is never negative and never more than all of them.
pub proof fn lemma_share_of_pixels(r: Ratio, px: int)
    requires
        r.wf(),
        0 <= px < HIGH,
    ensures
        0 <= r.of_pixels(px) <= px,
{
    let mant = r.mant() as int;
    let unit = r.unit() as int;
    let p = px * mant;
    let all = px * unit;
    assert(0 <= p <= all) by (nonlinear_arith)
        requires
            p == px * mant,
            all == px * unit,
            0 <= px,
            0 <= mant <= unit,
    ;
    lemma_ulp(p as nat);
    let u = ulp(p as nat) as int;
    if u <= unit {
        lemma_pow2_divides(u, unit);
        let k = unit / u;
        assert(unit == u * k) by {
            vstd::arithmetic::div_mod::lemma_fundamental_div_mod(unit, u);
        }
        assert(all == (px * k) * u) by (nonlinear_arith)
            requires
                all == px * unit,
                unit == u * k,
        ;
        lemma_nearest_bound(p, u, px * k);
        assert(nearest(p, u) * u <= (px * k) * u) by (nonlinear_arith)
            requires
                nearest(p, u) <= px * k,
                0 < u,
        ;
    } else {
        lemma_pow2_divides(unit, u);
        assert(all < HIGH * unit) by (nonlinear_arith)
            requires
                all == px * unit,
                px < HIGH,
                0 < unit,
        ;
        assert(false);
    }
    let v = round53(p as nat);
    assert(0 <= v) by (nonlinear_arith)
        requires
            v == nearest(p, u) * u,
            0 <= nearest(p, u),
            0 < u,
    ;
    assert(v <= px * unit);
    assert(0 <= v / unit <= px) by (nonlinear_arith)
        requires
            0 <= v <= px * unit,
            0 < unit,
    ;
}

/// A double-precision quotient is determined by what it is the quotient of.
pub proof fn lemma_quotient_unique(x: Ratio, y: Ratio, a: int, t: int)
    requires
        0 <= a,
        0 < t,
        x.is_quotient(a, t),
        y.is_quotient(a, t),
    ensures
        x == y,
{
    let ux = x.unit() as int;
    let uy = y.unit() as int;
    if a > 0 && ux < uy {
        lemma_pow2_divides(ux, uy);
        assert(a * uy >= 2 * (a * ux)) by (nonlinear_arith)
            requires
                2 * ux <= uy,
                0 < a,
        ;
    } else if a > 0 && uy < ux {
        lemma_pow2_divides(uy, ux);
        assert(a * ux >= 2 * (a * uy)) by (nonlinear_arith)
            requires
                2 * uy <= ux,
                0 < a,
        ;
    }
}

} // verus!
