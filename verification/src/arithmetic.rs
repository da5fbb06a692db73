//! Arithmetic with 53 bits of precision, as that of binary64 numbers, in integers.
//!
//! Sums and quotients are the exact ones, rounded to the nearest number of that
//! precision; of two that are equally near, the one with the even mantissa is taken.
//! Exponents have no limit here, so this is binary64's arithmetic as long as nothing
//! is infinite or too small to be normal.

use vstd::arithmetic::div_mod::*;
use vstd::arithmetic::power2::*;
use vstd::prelude::*;

verus! {

/// `m` times two to the power of `e`.
#[derive(Debug, Clone, Copy, PartialEq, Eq, Structural)]
pub struct Dyadic {
    pub m: u64,
    pub e: i32,
}

/// A number of this form.
pub struct Value {
    pub m: nat,
    pub e: int,
}

/// Two to the power of 52.
pub const TWO_52: u64 = 0x10_0000_0000_0000;

/// Two to the power of 53.
pub const TWO_53: u64 = 0x20_0000_0000_0000;

impl View for Dyadic {
    type V = Value;

    open spec fn view(&self) -> Value {
        Value { m: self.m as nat, e: self.e as int }
    }
}

/// `a / b` rounded to the nearest integer, halves to the even one.
pub open spec fn half_even(a: nat, b: nat) -> nat {
    let q = a / b;
    let r = a % b;
    if 2 * r < b || (2 * r == b && q % 2 == 0) {
        q
    } else {
        q + 1
    }
}

/// What to multiply a numerator by, to divide it by two to the power of `e` below zero.
pub open spec fn scale_up(e: int) -> nat {
    if e < 0 {
        pow2((-e) as nat)
    } else {
        1
    }
}

/// What to multiply a denominator by, to divide by two to the power of `e` above zero.
pub open spec fn scale_down(e: int) -> nat {
    if e > 0 {
        pow2(e as nat)
    } else {
        1
    }
}

/// `num / den` has 53 bits before the point in units of two to the power of `e`.
pub open spec fn has_53_bits(num: nat, den: nat, e: int) -> bool {
    TWO_52 * (den * scale_down(e)) <= num * scale_up(e) < TWO_53 * (den * scale_down(e))
}

/// `x` is `num / den`, rounded to 53 bits.
pub open spec fn is_nearest(x: Value, num: nat, den: nat) -> bool {
    has_53_bits(num, den, x.e) && x.m == half_even(num * scale_up(x.e), den * scale_down(x.e))
}

/// `num / den`, rounded to 53 bits.
pub open spec fn nearest(num: nat, den: nat) -> Value {
    choose|x: Value| is_nearest(x, num, den)
}

/// The number nearest to an integer.
pub open spec fn of_int(n: nat) -> Value {
    if n == 0 {
        Value { m: 0, e: 0 }
    } else {
        nearest(n, 1)
    }
}

/// The number nearest to `x / y`.
pub open spec fn quotient(x: Value, y: Value) -> Value {
    if x.m == 0 {
        x
    } else {
        let q = nearest(x.m, y.m);
        Value { m: q.m, e: q.e + x.e - y.e }
    }
}

/// The number nearest to `x + y`.
pub open spec fn sum(x: Value, y: Value) -> Value {
    if x.m == 0 {
        y
    } else if y.m == 0 {
        x
    } else {
        let e = if x.e < y.e {
            x.e
        } else {
            y.e
        };
        let s = nearest(x.m * pow2((x.e - e) as nat) + y.m * pow2((y.e - e) as nat), 1);
        Value { m: s.m, e: s.e + e }
    }
}

/// Eight times `x`, which needs no rounding.
pub open spec fn times_eight(x: Value) -> Value {
    Value { m: x.m, e: x.e + 3 }
}

/// The integer nearest to `x`, halves up.
pub open spec fn rounded(x: Value) -> nat {
    if x.e >= 0 {
        x.m * pow2(x.e as nat)
    } else {
        (2 * x.m + pow2((-x.e) as nat)) / (2 * pow2((-x.e) as nat))
    }
}

/// Rounding to 53 bits has one result.
pub proof fn nearest_is_unique(x: Value, num: nat, den: nat)
    requires
        den > 0,
        is_nearest(x, num, den),
    ensures
        nearest(num, den) == x,
{
    let y = nearest(num, den);
    if x.e < y.e {
        lemma_one_exponent(num, den, x.e, y.e);
    } else if y.e < x.e {
        lemma_one_exponent(num, den, y.e, x.e);
    }
}

proof fn lemma_scales(a: int, b: int)
    requires
        a < b,
    ensures
        scale_up(a) > 0,
        scale_up(b) > 0,
        scale_down(a) > 0,
        scale_down(b) > 0,
        scale_down(b) * scale_up(a) >= 2 * (scale_down(a) * scale_up(b)),
{
    let up_a = if a < 0 {
        (-a) as nat
    } else {
        0
    };
    let up_b = if b < 0 {
        (-b) as nat
    } else {
        0
    };
    let down_a = if a > 0 {
        a as nat
    } else {
        0
    };
    let down_b = if b > 0 {
        b as nat
    } else {
        0
    };
    lemma2_to64();
    lemma_pow2_pos(up_a);
    lemma_pow2_pos(up_b);
    lemma_pow2_pos(down_a);
    lemma_pow2_pos(down_b);
    lemma_pow2_adds(down_b, up_a);
    lemma_pow2_adds(down_a, up_b);
    let big = down_b + up_a;
    let small = down_a + up_b;
    lemma_pow2_unfold(small + 1);
    if big > small + 1 {
        lemma_pow2_strictly_increases(small + 1, big);
    }
}

proof fn lemma_one_exponent(num: nat, den: nat, a: int, b: int)
    requires
        den > 0,
        a < b,
        has_53_bits(num, den, a),
    ensures
        !has_53_bits(num, den, b),
{
    lemma_scales(a, b);
    let (ua, ub, da, db) = (scale_up(a), scale_up(b), scale_down(a), scale_down(b));
    assert(TWO_52 * (den * db) > num * ub) by (nonlinear_arith)
        requires
            den > 0,
            ua > 0,
            ub > 0,
            da > 0,
            db > 0,
            db * ua >= 2 * (da * ub),
            num * ua < TWO_53 * (den * da),
            TWO_53 == 2 * TWO_52,
            TWO_52 > 0,
    {
        assert(num * ua * ub < TWO_53 * (den * da) * ub);
        assert(num * ua * ub == num * ub * ua);
        assert(TWO_52 * (den * db) * ua == TWO_52 * den * (db * ua));
        assert(TWO_53 * (den * da) * ub == TWO_52 * den * (2 * (da * ub)));
        assert(TWO_52 * den * (db * ua) >= TWO_52 * den * (2 * (da * ub)));
    }
}

fn round_half_even(a: u128, b: u128) -> (r: u64)
    requires
        0 < b < 0x8000_0000_0000_0000_0000_0000_0000_0000,
        TWO_52 * b <= a < TWO_53 * b,
    ensures
        r == half_even(a as nat, b as nat),
        TWO_52 <= r <= TWO_53,
{
    let q: u128 = a / b;
    let r: u128 = a % b;
    proof {
        lemma_fundamental_div_mod(a as int, b as int);
        assert(TWO_52 <= q < TWO_53) by (nonlinear_arith)
            requires
                a == b * q + r,
                0 <= r < b,
                TWO_52 * b <= a,
                a < TWO_53 * b,
        ;
    }
    if 2 * r < b || (2 * r == b && q % 2 == 0) {
        q as u64
    } else {
        (q + 1) as u64
    }
}

/// A power of two that is below another has the smaller exponent.
proof fn lemma_exponent_below(k: nat, n: nat)
    requires
        pow2(k) < pow2(n),
    ensures
        k < n,
{
    if k > n {
        lemma_pow2_strictly_increases(n, k);
    }
}

proof fn lemma_large_powers()
    ensures
        pow2(106) == 0x400_0000_0000_0000_0000_0000_0000,
        pow2(126) == 0x4000_0000_0000_0000_0000_0000_0000_0000,
{
    lemma2_to64();
    lemma2_to64_rest();
    lemma_pow2_adds(53, 53);
    lemma_pow2_adds(63, 63);
    assert(pow2(53) == 0x20_0000_0000_0000);
    assert(pow2(63) == 0x8000_0000_0000_0000);
    assert(0x20_0000_0000_0000int * 0x20_0000_0000_0000 == 0x400_0000_0000_0000_0000_0000_0000)
        by (nonlinear_arith);
    assert(0x8000_0000_0000_0000int * 0x8000_0000_0000_0000
        == 0x4000_0000_0000_0000_0000_0000_0000_0000) by (nonlinear_arith);
}

impl Dyadic {
    /// The mantissa has 53 bits, or is the smallest with one more.
    pub open spec fn normal(self) -> bool {
        TWO_52 <= self.m <= TWO_53
    }

    /// `num / den`, rounded to 53 bits.
    pub(crate) fn nearest(num: u128, den: u64) -> (r: Dyadic)
        requires
            0 < num < 0x2000_0000_0000_0000_0000_0000_0000_0000,
            0 < den <= TWO_53,
        ensures
            r@ == nearest(num as nat, den as nat),
            r.normal(),
            -106 < r.e < 126,
    {
        proof {
            lemma_large_powers();
            lemma2_to64();
        }
        if num / TWO_53 as u128 >= den as u128 {
            let mut d: u128 = den as u128;
            assert(den * pow2(0) == den);
            let mut k: i32 = 0;
            while num / TWO_53 as u128 >= d
                invariant
                    0 < num < 0x2000_0000_0000_0000_0000_0000_0000_0000,
                    0 < den <= TWO_53,
                    0 <= k < 126,
                    d == den * pow2(k as nat),
                    0 < d < 0x4000_0000_0000_0000_0000_0000_0000_0000,
                    TWO_52 * d <= num,
                    k > 0 || num / TWO_53 as u128 >= d,
                    pow2(126) == 0x4000_0000_0000_0000_0000_0000_0000_0000,
                decreases 126 - k,
            {
                proof {
                    lemma_fundamental_div_mod(num as int, TWO_53 as int);
                    assert(TWO_53 * d <= num);
                    lemma_pow2_unfold((k + 1) as nat);
                    assert(den * pow2((k + 1) as nat) == 2 * (den * pow2(k as nat)))
                        by (nonlinear_arith)
                        requires
                            pow2((k + 1) as nat) == 2 * pow2(k as nat),
                    ;
                    assert(pow2((k + 1) as nat) <= den * pow2((k + 1) as nat)) by (nonlinear_arith)
                        requires
                            den > 0,
                    ;
                    lemma_exponent_below((k + 1) as nat, 126);
                }
                d = 2 * d;
                k = k + 1;
            }
            let m: u64 = round_half_even(num, d);
            let r = Dyadic { m, e: k };
            proof {
                assert(scale_down(r.e as int) == pow2(k as nat));
                assert(num * scale_up(r.e as int) == num);
                assert(is_nearest(r@, num as nat, den as nat));
                nearest_is_unique(r@, num as nat, den as nat);
            }
            r
        } else {
            let least: u128 = TWO_52 as u128 * den as u128;
            let mut n: u128 = num;
            let mut j: i32 = 0;
            assert(num * pow2(0) == num);
            while n < least
                invariant
                    0 < num,
                    0 < den <= TWO_53,
                    least == TWO_52 * den,
                    0 <= j < 106,
                    n == num * pow2(j as nat),
                    0 < n < TWO_53 * den,
                    pow2(106) == 0x400_0000_0000_0000_0000_0000_0000,
                decreases 106 - j,
            {
                proof {
                    lemma_pow2_unfold((j + 1) as nat);
                    assert(num * pow2((j + 1) as nat) == 2 * (num * pow2(j as nat)))
                        by (nonlinear_arith)
                        requires
                            pow2((j + 1) as nat) == 2 * pow2(j as nat),
                    ;
                    assert(pow2((j + 1) as nat) <= num * pow2((j + 1) as nat)) by (nonlinear_arith)
                        requires
                            num > 0,
                    ;
                    lemma_exponent_below((j + 1) as nat, 106);
                }
                n = 2 * n;
                j = j + 1;
            }
            let m: u64 = round_half_even(n, den as u128);
            let r = Dyadic { m, e: -j };
            proof {
                assert(scale_up(r.e as int) == pow2(j as nat));
                assert(den * scale_down(r.e as int) == den);
                assert(is_nearest(r@, num as nat, den as nat));
                nearest_is_unique(r@, num as nat, den as nat);
            }
            r
        }
    }

    /// The number nearest to an integer.
    pub(crate) fn of_int(n: u64) -> (r: Dyadic)
        requires
            n > 0,
        ensures
            r@ == of_int(n as nat),
            r.normal(),
            -106 < r.e < 126,
    {
        Self::nearest(n as u128, 1)
    }

    /// The number nearest to `self / other`.
    pub(crate) fn quotient(&self, other: &Dyadic) -> (r: Dyadic)
        requires
            self.normal(),
            other.normal(),
            -1000 < self.e < 1000,
            -1000 < other.e < 1000,
        ensures
            r@ == quotient(self@, other@),
            r.normal(),
            self.e - other.e - 106 < r.e < self.e - other.e + 126,
    {
        let q = Self::nearest(self.m as u128, other.m);
        Dyadic { m: q.m, e: q.e + self.e - other.e }
    }

    /// Eight times `self`.
    pub(crate) fn times_eight(&self) -> (r: Dyadic)
        requires
            self.e < 1000,
        ensures
            r@ == times_eight(self@),
            r.m == self.m,
    {
        Dyadic { m: self.m, e: self.e + 3 }
    }

    /// The number nearest to `self + other`, where `other` has no greater exponent.
    fn sum_ordered(&self, other: &Dyadic) -> (r: Dyadic)
        requires
            self.normal(),
            other.normal(),
            other.e <= self.e,
            -1000 < self.e < 1000,
            -1000 < other.e < 1000,
        ensures
            r@ == sum(self@, other@),
            r@ == sum(other@, self@),
            r.normal(),
            other.e - 106 < r.e < self.e + 126,
    {
        let d: i32 = self.e - other.e;
        let ghost total = self.m * pow2(d as nat) + other.m;
        proof {
            lemma2_to64();
            assert(other.m * pow2(0) == other.m);
            lemma_pow2_pos(d as nat);
        }
        if d <= 70 {
            let p: u128 = power_of_two(d as u32);
            proof {
                lemma_small_power(d as nat);
                assert(self.m * p <= TWO_53 * 0x40_0000_0000_0000_0000) by (nonlinear_arith)
                    requires
                        self.m <= TWO_53,
                        p <= 0x40_0000_0000_0000_0000,
                ;
                assert(self.m * p > 0) by (nonlinear_arith)
                    requires
                        self.m > 0,
                        p > 0,
                ;
            }
            let s = Self::nearest(self.m as u128 * p + other.m as u128, 1);
            Dyadic { m: s.m, e: s.e + other.e }
        } else {
            // The other one is too small to matter.
            let x = if self.m == TWO_53 {
                Dyadic { m: TWO_52, e: self.e + 1 }
            } else {
                *self
            };
            proof {
                let k = (x.e - other.e) as nat;
                if self.m == TWO_53 {
                    lemma_pow2_unfold(k);
                    assert(x.m * pow2(k) == self.m * pow2(d as nat)) by (nonlinear_arith)
                        requires
                            x.m * 2 == self.m,
                            pow2(k) == 2 * pow2(d as nat),
                    ;
                }
                lemma_too_small(x.m as nat, k, other.m as nat);
                nearest_is_unique(Value { m: x.m as nat, e: k as int }, total as nat, 1);
            }
            x
        }
    }

    /// The number nearest to `self + other`.
    pub(crate) fn sum(&self, other: &Dyadic) -> (r: Dyadic)
        requires
            self.normal(),
            other.normal(),
            -1000 < self.e < 1000,
            -1000 < other.e < 1000,
        ensures
            r@ == sum(self@, other@),
            r.normal(),
            self.e - 106 < r.e || other.e - 106 < r.e,
            r.e < self.e + 126 || r.e < other.e + 126,
    {
        if other.e <= self.e {
            self.sum_ordered(other)
        } else {
            other.sum_ordered(self)
        }
    }

    /// The integer nearest to `self`, halves up, but at most what 64 bits hold.
    pub(crate) fn rounded(&self) -> (r: u64)
        requires
            self.normal(),
            -1000 < self.e < 1000,
        ensures
            r == (if rounded(self@) > u64::MAX {
                u64::MAX as nat
            } else {
                rounded(self@)
            }),
    {
        proof {
            lemma2_to64();
        }
        if self.e > 11 {
            proof {
                let p = pow2(self.e as nat);
                if self.e > 12 {
                    lemma_pow2_strictly_increases(12, self.e as nat);
                }
                assert(self.m * p > u64::MAX) by (nonlinear_arith)
                    requires
                        self.m >= TWO_52,
                        TWO_52 * 4096 == u64::MAX + 1,
                        p >= 4096,
                ;
            }
            u64::MAX
        } else if self.e >= 0 {
            let p: u128 = power_of_two(self.e as u32);
            proof {
                lemma_small_power(self.e as nat);
                assert(self.m * p <= TWO_53 * 0x40_0000_0000_0000_0000) by (nonlinear_arith)
                    requires
                        self.m <= TWO_53,
                        p <= 0x40_0000_0000_0000_0000,
                ;
            }
            let v: u128 = self.m as u128 * p;
            if v > u64::MAX as u128 {
                u64::MAX
            } else {
                v as u64
            }
        } else if self.e < -70 {
            proof {
                let p = pow2((-self.e) as nat);
                lemma_small_power(70);
                lemma_pow2_strictly_increases(70, (-self.e) as nat);
                lemma_small_div((2 * self.m + p) as int, (2 * p) as int);
            }
            0
        } else {
            let p: u128 = power_of_two((-self.e) as u32);
            proof {
                lemma_small_power((-self.e) as nat);
            }
            let v: u128 = (2 * self.m as u128 + p) / (2 * p);
            proof {
                assert(v <= 2 * self.m + p) by (nonlinear_arith)
                    requires
                        v == (2 * self.m + p) / (2 * p),
                        p > 0,
                ;
                assert(v <= TWO_53 + 1) by (nonlinear_arith)
                    requires
                        v == (2 * self.m + p) / (2 * p),
                        p >= 1,
                        self.m <= TWO_53,
                ;
            }
            v as u64
        }
    }
}

/// Two to the power of `n`.
fn power_of_two(n: u32) -> (r: u128)
    requires
        n <= 70,
    ensures
        r == pow2(n as nat),
{
    let mut p: u128 = 1;
    proof {
        lemma2_to64();
    }
    for i in 0..n
        invariant
            n <= 70,
            p == pow2(i as nat),
    {
        proof {
            lemma_pow2_unfold((i + 1) as nat);
            lemma_small_power(i as nat);
        }
        p = 2 * p;
    }
    p
}

proof fn lemma_small_power(k: nat)
    requires
        k <= 70,
    ensures
        0 < pow2(k) <= 0x40_0000_0000_0000_0000,
        pow2(70) == 0x40_0000_0000_0000_0000,
{
    lemma2_to64();
    lemma2_to64_rest();
    lemma_pow2_adds(35, 35);
    assert(pow2(35) == 0x8_0000_0000);
    lemma_pow2_pos(k);
    if k < 70 {
        lemma_pow2_strictly_increases(k, 70);
    }
}

proof fn lemma_small_div(a: int, b: int)
    requires
        0 <= a < b,
    ensures
        a / b == 0,
{
    lemma_basic_div(a, b);
}

/// Adding less than half a unit does not change a number of 53 bits.
proof fn lemma_too_small(m: nat, k: nat, y: nat)
    requires
        TWO_52 <= m < TWO_53,
        k > 70,
        y <= TWO_53,
    ensures
        is_nearest(Value { m, e: k as int }, m * pow2(k) + y, 1),
{
    let p = pow2(k);
    lemma_small_power(70);
    lemma_pow2_strictly_increases(70, k);
    let n = m * p + y;
    assert(1 * scale_down(k as int) == p);
    assert(n * scale_up(k as int) == n);
    assert(TWO_52 * p <= n < TWO_53 * p) by (nonlinear_arith)
        requires
            n == m * p + y,
            TWO_52 <= m,
            m + 1 <= TWO_53,
            0 <= y < p,
    ;
    lemma_fundamental_div_mod_converse(n as int, p as int, m as int, y as int);
}

// ---------------------------------------------------------------------------
// Exact results
// ---------------------------------------------------------------------------

/// An integer of at most 53 bits can be shifted to exactly 53.
proof fn lemma_shift(n: nat) -> (k: nat)
    requires
        0 < n < TWO_53,
    ensures
        TWO_52 <= n * pow2(k) < TWO_53,
    decreases TWO_53 - n,
{
    lemma2_to64();
    if n >= TWO_52 {
        assert(n * pow2(0) == n);
        0
    } else {
        let j = lemma_shift(2 * n);
        lemma_pow2_unfold(j + 1);
        let p = pow2(j);
        assert(n * (2 * p) == (2 * n) * p) by (nonlinear_arith);
        j + 1
    }
}

/// An integer of at most 53 bits needs no rounding.
proof fn lemma_small_integer(n: nat) -> (k: nat)
    requires
        0 < n < TWO_53,
    ensures
        of_int(n) == (Value { m: n * pow2(k), e: -(k as int) }),
        TWO_52 <= n * pow2(k) < TWO_53,
{
    lemma2_to64();
    let k = lemma_shift(n);
    let x = Value { m: n * pow2(k), e: -(k as int) };
    assert(scale_up(x.e) == pow2(k));
    assert(scale_down(x.e) == 1);
    let a = n * pow2(k);
    assert(half_even(a, 1) == a);
    assert(is_nearest(x, n, 1));
    nearest_is_unique(x, n, 1);
    k
}

/// A quotient that is a whole number of units needs no rounding.
proof fn lemma_exact_half_even(m: nat, b: nat)
    requires
        b > 0,
    ensures
        half_even(m * b, b) == m,
{
    lemma_fundamental_div_mod_converse((m * b) as int, b as int, m as int, 0);
}

proof fn lemma_whole_quotient(d: nat, s: nat, r: nat, a: nat, b: nat, c: nat)
    requires
        d > 0,
        s > 0,
        r > 0,
        8 * d == s * r,
        TWO_52 <= r * pow2(c) < TWO_53,
    ensures
        nearest(d * pow2(a), s * pow2(b)) == (Value {
            m: r * pow2(c),
            e: a - b - 3 - c,
        }),
{
    lemma2_to64();
    lemma_pow2_pos(a);
    lemma_pow2_pos(b);
    lemma_pow2_pos(c);
    let (pa, pb, pc) = (pow2(a), pow2(b), pow2(c));
    let e = a - b - 3 - c;
    let m = r * pc;
    let num = d * pa;
    let den = s * pb;
    lemma_pow2_adds(b, 3);
    lemma_pow2_adds(b + 3, c);
    let base = pow2(b + 3 + c);
    assert(pow2(3) == 8);
    assert(base == pb * 8 * pc);
    let (u, w) = (scale_up(e), scale_down(e));
    if e <= 0 {
        let f = (-e) as nat;
        lemma_pow2_adds(a, f);
        lemma_pow2_pos(f);
        assert(a + f == b + 3 + c);
        assert(u == pow2(f));
        assert(w == 1);
        assert(num * u == m * (den * w)) by (nonlinear_arith)
            requires
                num == d * pa,
                den == s * pb,
                m == r * pc,
                w == 1,
                pa * u == pb * 8 * pc,
                8 * d == s * r,
        {
            assert((d * pa) * u == d * (pa * u));
            assert(d * (pb * 8 * pc) == (8 * d) * (pb * pc));
            assert((s * r) * (pb * pc) == (r * pc) * (s * pb));
        }
    } else {
        let f = e as nat;
        lemma_pow2_adds(b + 3 + c, f);
        lemma_pow2_pos(f);
        assert(b + 3 + c + f == a);
        assert(w == pow2(f));
        assert(u == 1);
        assert(num * u == m * (den * w)) by (nonlinear_arith)
            requires
                num == d * pa,
                den == s * pb,
                m == r * pc,
                u == 1,
                pa == (pb * 8 * pc) * w,
                8 * d == s * r,
        {
            assert(d * ((pb * 8 * pc) * w) == (8 * d) * (pb * pc * w));
            assert((s * r) * (pb * pc * w) == (r * pc) * ((s * pb) * w));
        }
    }
    let y = den * w;
    assert(den > 0) by (nonlinear_arith)
        requires
            s > 0,
            pb > 0,
            den == s * pb,
    ;
    assert(y > 0) by (nonlinear_arith)
        requires
            den > 0,
            w > 0,
            y == den * w,
    ;
    assert(TWO_52 * y <= m * y && m * y < TWO_53 * y) by (nonlinear_arith)
        requires
            TWO_52 <= m < TWO_53,
            y > 0,
    ;
    lemma_exact_half_even(m, y);
    let x = Value { m, e };
    assert(is_nearest(x, num, den));
    nearest_is_unique(x, num, den);
}

/// A number of whole units is rounded to itself.
proof fn lemma_rounded_whole(r: nat, c: nat)
    ensures
        rounded(Value { m: r * pow2(c), e: -(c as int) }) == r,
{
    lemma2_to64();
    let p = pow2(c);
    lemma_pow2_pos(c);
    if c == 0 {
        assert((r * p) * pow2(0) == r);
    } else {
        let n = 2 * (r * p) + p;
        let d = 2 * p;
        assert(n == r * d + p) by (nonlinear_arith)
            requires
                n == 2 * (r * p) + p,
                d == 2 * p,
        ;
        lemma_fundamental_div_mod_converse(n as int, d as int, r as int, p as int);
    }
}

/// Eight times an integer over another one is exact where it is an integer itself, and all
/// three have at most 53 bits.
pub proof fn whole_quotients_are_exact(d: nat, s: nat, r: nat)
    requires
        0 < d < TWO_53,
        0 < s < TWO_53,
        0 < r < TWO_53,
        8 * d == s * r,
    ensures
        of_int(s).m > 0,
        rounded(quotient(times_eight(of_int(d)), of_int(s))) == r,
{
    let a = lemma_small_integer(d);
    let b = lemma_small_integer(s);
    let c = lemma_shift(r);
    lemma_whole_quotient(d, s, r, a, b, c);
    lemma_rounded_whole(r, c);
    let q = Value { m: r * pow2(c), e: a - b - 3 - c };
    assert(quotient(times_eight(of_int(d)), of_int(s)) == (Value {
        m: q.m,
        e: q.e + (3 - a) - (-(b as int)),
    }));
}

} // verus!
