//! Unsigned 64.64 fixed-point numbers and the wide integers around them.

use vstd::prelude::*;

verus! {

/// Two to the power 64: the raw value of the fixed-point number one.
pub open spec fn unit() -> nat {
    0x1_0000_0000_0000_0000
}

/// An unsigned 128-bit integer as two 64-bit words.
#[derive(Clone, Copy, Debug, PartialEq, Eq, Structural)]
pub struct U128 {
    pub upper: u64,
    pub lower: u64,
}

/// An unsigned fixed-point number with 64 integer bits and 64 fractional bits.
#[derive(Clone, Copy, Debug, PartialEq, Eq, Structural)]
pub struct UFP128 {
    pub value: U128,
}

impl UFP128 {
    /// The number as an integer count of 2^-64 steps.
    pub open spec fn raw(self) -> nat {
        self.value.upper as nat * unit() + self.value.lower as nat
    }

    /// The number whose raw value is `raw`, for `raw` below 2^128.
    pub open spec fn from_raw(raw: nat) -> UFP128 {
        UFP128 { value: U128 { upper: (raw / unit()) as u64, lower: (raw % unit()) as u64 } }
    }

    /// A number is known by its raw value.
    pub proof fn lemma_raw_round_trip(self)
        ensures
            UFP128::from_raw(self.raw()) == self,
            self.raw() <= u128::MAX as nat,
    {
        let u = self.value.upper as nat;
        let l = self.value.lower as nat;
        assert((u * unit() + l) / unit() == u && (u * unit() + l) % unit() == l)
            by (nonlinear_arith)
            requires
                l < unit(),
                unit() > 0,
        ;
    }

    /// Below 2^128 every raw value is that of one number.
    pub proof fn lemma_from_raw(raw: nat)
        requires
            raw <= u128::MAX as nat,
        ensures
            UFP128::from_raw(raw).raw() == raw,
    {
    }
}

/// The fixed-point number that stands for the whole number `value`.
pub fn u64_to_fp(value: u64) -> (r: UFP128)
    ensures
        r.raw() == value as nat * unit(),
        r.value.upper == value,
        r.value.lower == 0,
{
    UFP128 { value: U128 { upper: value, lower: 0 } }
}

/// The whole part of a fixed-point number.
pub fn fp_to_u64(value: UFP128) -> (r: u64)
    ensures
        r as nat == value.raw() / unit(),
        r == value.value.upper,
{
    value.value.upper
}

/// Two to the power 128.
pub open spec fn unit_squared() -> nat {
    unit() * unit()
}

/// The raw value of a fixed-point number as one machine integer.
pub fn fp_to_u128(value: UFP128) -> (r: u128)
    ensures
        r as nat == value.raw(),
{
    let upper: u128 = value.value.upper as u128;
    let lower: u128 = value.value.lower as u128;
    upper * 0x1_0000_0000_0000_0000 + lower
}

/// The fixed-point number whose raw value is `value`.
pub fn u128_to_fp(value: u128) -> (r: UFP128)
    ensures
        r.raw() == value as nat,
        r == UFP128::from_raw(value as nat),
{
    let lower: u64 = (value % 0x1_0000_0000_0000_0000) as u64;
    let upper: u64 = (value / 0x1_0000_0000_0000_0000) as u64;
    UFP128 { value: U128 { upper, lower } }
}

proof fn lemma_limb_product(x: u128, y: u128)
    requires
        x < 0x1_0000_0000_0000_0000,
        y < 0x1_0000_0000_0000_0000,
    ensures
        x * y <= 0xffff_ffff_ffff_fffe_0000_0000_0000_0001,
{
    assert(x * y <= 0xffff_ffff_ffff_ffff * 0xffff_ffff_ffff_ffff) by (nonlinear_arith)
        requires
            x <= 0xffff_ffff_ffff_ffff,
            y <= 0xffff_ffff_ffff_ffff,
    ;
}

proof fn lemma_split_product(a: int, b: int, a1: int, a0: int, b1: int, b0: int, s: int)
    requires
        a == a1 * s + a0,
        b == b1 * s + b0,
    ensures
        a * b == (a1 * b1) * (s * s) + (a1 * b0) * s + (a0 * b1) * s + a0 * b0,
{
    let x = a1 * s;
    let y = b1 * s;
    assert((x + a0) * (y + b0) == x * y + x * b0 + a0 * y + a0 * b0) by (nonlinear_arith);
    assert(x * y == (a1 * b1) * (s * s)) by (nonlinear_arith)
        requires
            x == a1 * s,
            y == b1 * s,
    ;
    assert(x * b0 == (a1 * b0) * s) by (nonlinear_arith)
        requires
            x == a1 * s,
    ;
    assert(a0 * y == (a0 * b1) * s) by (nonlinear_arith)
        requires
            y == b1 * s,
    ;
}

/// The full 256-bit product of two 128-bit integers, as a high and a low
/// half.
pub fn wide_mul(a: u128, b: u128) -> (r: (u128, u128))
    ensures
        r.0 as nat * unit_squared() + r.1 as nat == a as nat * b as nat,
{
    let s: u128 = 0x1_0000_0000_0000_0000;
    let a1: u128 = a / s;
    let a0: u128 = a % s;
    let b1: u128 = b / s;
    let b0: u128 = b % s;
    proof {
        lemma_limb_product(a0, b0);
        lemma_limb_product(a0, b1);
        lemma_limb_product(a1, b0);
        lemma_limb_product(a1, b1);
        lemma_split_product(a as int, b as int, a1 as int, a0 as int, b1 as int, b0 as int, s as int);
    }
    let p00: u128 = a0 * b0;
    let p01: u128 = a0 * b1;
    let p10: u128 = a1 * b0;
    let p11: u128 = a1 * b1;
    let t: u128 = p00 / s + p01 % s + p10 % s;
    let lo: u128 = (t % s) * s + p00 % s;
    let hi: u128 = p11 + p01 / s + p10 / s + t / s;
    proof {
        let ss: int = s as int * s as int;
        assert(ss == unit_squared());
        assert((p11 as int) * ss + (p10 as int) * (s as int) + (p01 as int) * (s as int) + p00 as int
            == hi as int * ss + lo as int) by (nonlinear_arith)
            requires
                s == 0x1_0000_0000_0000_0000u128,
                ss == s as int * s as int,
                t == p00 / s + p01 % s + p10 % s,
                lo == (t % s) * s + p00 % s,
                hi == p11 + p01 / s + p10 / s + t / s,
        ;
    }
    (hi, lo)
}

/// The largest raw value of a fixed-point number.
pub open spec fn max_raw() -> nat {
    u128::MAX as nat
}

/// The largest raw value that is a whole number: 2^64 - 1 units.
pub open spec fn max_whole_raw() -> nat {
    0xffff_ffff_ffff_ffff_0000_0000_0000_0000
}

/// The whole part of a raw value.
pub open spec fn whole(raw: nat) -> nat {
    raw / unit()
}

/// The least whole number that is not below a raw value.
pub open spec fn whole_up(raw: nat) -> nat {
    (raw + unit() - 1) as nat / unit()
}

/// The least whole number that is not below `value`, for a value of at
/// most 2^64 - 1.
pub fn fp_to_u64_up(value: UFP128) -> (r: u64)
    requires
        value.raw() <= max_whole_raw(),
    ensures
        r as nat == whole_up(value.raw()),
{
    if value.value.lower > 0 {
        value.value.upper + 1
    } else {
        value.value.upper
    }
}

/// A whole number of units is below a raw value exactly when it is below
/// the value rounded up.
pub proof fn lemma_below_whole_up(n: nat, raw: nat)
    ensures
        n * unit() < raw <==> n < whole_up(raw),
{
    assert(n * unit() < raw <==> n < (raw + unit() - 1) / unit() as int) by (nonlinear_arith)
        requires
            unit() == 0x1_0000_0000_0000_0000,
    ;
}

/// The smaller of two natural numbers.
pub open spec fn least(a: nat, b: nat) -> nat {
    if a <= b {
        a
    } else {
        b
    }
}

/// The raw value of the product of two fixed-point numbers, rounded down.
pub open spec fn scaled(a: nat, b: nat) -> nat {
    a * b / unit()
}

/// The product of two raw fixed-point values, rounded down and held at the
/// largest raw value where it would pass it.
pub fn mul_floor(a: u128, b: u128) -> (r: u128)
    ensures
        r as nat == least(scaled(a as nat, b as nat), max_raw()),
{
    let s: u128 = 0x1_0000_0000_0000_0000;
    let (hi, lo) = wide_mul(a, b);
    proof {
        let p: nat = a as nat * b as nat;
        assert(p == (hi as nat * unit()) * unit() + lo as nat) by (nonlinear_arith)
            requires
                p == hi as nat * (unit() * unit()) + lo as nat,
        ;
        assert(p / unit() == hi as nat * unit() + lo as nat / unit());
    }
    if hi >= s {
        u128::MAX
    } else {
        hi * s + lo / s
    }
}

/// A raw fixed-point value times a whole number, held at the largest raw
/// value where it would pass it.
pub fn mul_whole(a: u128, n: u64) -> (r: u128)
    ensures
        r as nat == least(a as nat * n as nat, max_raw()),
{
    let (hi, lo) = wide_mul(a, n as u128);
    proof {
        let q: nat = unit_squared();
        assert(q > u128::MAX as nat);
        assert(hi > 0 ==> hi as nat * q >= q) by (nonlinear_arith);
        assert(hi == 0 ==> hi as nat * q == 0) by (nonlinear_arith);
    }
    if hi > 0 {
        u128::MAX
    } else {
        lo
    }
}

/// Whether `coll` units of collateral at the raw price `price` are worth at
/// least the raw debt `debt` times the raw ratio `ratio`. Both sides are
/// exact: nothing is rounded.
pub open spec fn covers(coll: nat, price: nat, debt: nat, ratio: nat) -> bool {
    coll * unit() * price >= debt * ratio
}

/// Decides `covers` on machine integers.
pub fn is_covered(coll: u64, price: u128, debt: u128, ratio: u128) -> (r: bool)
    ensures
        r == covers(coll as nat, price as nat, debt as nat, ratio as nat),
{
    let s: u128 = 0x1_0000_0000_0000_0000;
    let c: u128 = coll as u128 * s;
    let (lh, ll) = wide_mul(c, price);
    let (rh, rl) = wide_mul(debt, ratio);
    proof {
        let q: nat = unit_squared();
        assert(lh > rh ==> lh as nat * q >= rh as nat * q + q) by (nonlinear_arith);
        assert(lh < rh ==> rh as nat * q >= lh as nat * q + q) by (nonlinear_arith);
        assert(q > u128::MAX as nat);
    }
    lh > rh || (lh == rh && ll >= rl)
}

/// The raw value of `factor` to the power `n`, each of the `n` products
/// rounded down. `decay(factor, 0)` is one.
pub open spec fn decay(factor: nat, n: nat) -> nat
    decreases n,
{
    if n == 0 {
        unit()
    } else {
        scaled(decay(factor, (n - 1) as nat), factor)
    }
}

/// A product with a factor of at most one is at most the other factor.
pub proof fn lemma_scaled_shrinks(x: nat, factor: nat)
    requires
        factor <= unit(),
    ensures
        scaled(x, factor) <= x,
{
    assert(x * factor <= x * unit()) by (nonlinear_arith)
        requires
            factor <= unit(),
    ;
    assert(x * unit() / unit() == x) by (nonlinear_arith);
    assert(x * factor / unit() <= x * unit() / unit()) by (nonlinear_arith)
        requires
            x * factor <= x * unit(),
    ;
}

/// The rounded product grows with either factor.
pub proof fn lemma_scaled_monotone(x: nat, y: nat, factor: nat)
    requires
        x <= y,
    ensures
        scaled(x, factor) <= scaled(y, factor),
        scaled(factor, x) <= scaled(factor, y),
{
    assert(x * factor <= y * factor) by (nonlinear_arith)
        requires
            x <= y,
    ;
    assert(factor * x <= factor * y) by (nonlinear_arith)
        requires
            x <= y,
    ;
    assert(x * factor / unit() <= y * factor / unit()) by (nonlinear_arith)
        requires
            x * factor <= y * factor,
    ;
    assert(factor * x / unit() <= factor * y / unit()) by (nonlinear_arith)
        requires
            factor * x <= factor * y,
    ;
}

/// With a factor of at most one, a later power is never above an earlier
/// one, and none is above one.
pub proof fn lemma_decay_monotone(factor: nat, m: nat, n: nat)
    requires
        factor <= unit(),
        m <= n,
    ensures
        decay(factor, n) <= decay(factor, m),
        decay(factor, m) <= unit(),
    decreases n,
{
    if n == 0 {
    } else if m == n {
        lemma_decay_monotone(factor, 0, (n - 1) as nat);
        lemma_scaled_shrinks(decay(factor, (n - 1) as nat), factor);
    } else {
        lemma_decay_monotone(factor, m, (n - 1) as nat);
        lemma_scaled_shrinks(decay(factor, (n - 1) as nat), factor);
    }
}

/// Computes `decay`. The loop ends early once the power has reached zero,
/// where it stays.
pub fn decay_factor(factor: u128, n: u64) -> (r: u128)
    requires
        factor as nat <= unit(),
    ensures
        r as nat == decay(factor as nat, n as nat),
{
    let mut x: u128 = 0x1_0000_0000_0000_0000;
    let mut i: u64 = 0;
    while i < n && x > 0
        invariant
            i <= n,
            factor as nat <= unit(),
            x as nat == decay(factor as nat, i as nat),
        decreases n - i,
    {
        proof {
            lemma_decay_monotone(factor as nat, i as nat, (i + 1) as nat);
        }
        x = mul_floor(x, factor);
        i = i + 1;
    }
    proof {
        lemma_decay_monotone(factor as nat, i as nat, n as nat);
    }
    x
}

/// An unsigned 256-bit integer as four 64-bit words, `a` the highest.
#[derive(Clone, Copy, Debug, PartialEq, Eq, Structural)]
pub struct U256 {
    pub a: u64,
    pub b: u64,
    pub c: u64,
    pub d: u64,
}

impl U256 {
    /// The integer that the four words spell.
    pub open spec fn value(self) -> nat {
        ((self.a as nat * unit() + self.b as nat) * unit() + self.c as nat) * unit()
            + self.d as nat
    }
}

/// A signed 256-bit ledger amount. The stored word is the amount plus
/// 2^128, so that zero is stored as 2^128.
#[derive(Clone, Copy, Debug, PartialEq, Eq, Structural)]
pub struct I256 {
    pub underlying: U256,
}

impl I256 {
    /// The ledger amount that stands for the whole number `n`.
    pub open spec fn from_whole(n: u64) -> I256 {
        I256 { underlying: U256 { a: 0, b: 1, c: 0, d: n } }
    }

    /// The signed amount.
    pub open spec fn value(self) -> int {
        self.underlying.value() as int - unit_squared() as int
    }
}

/// The ledger amount that stands for the whole number `value`.
pub fn u64_to_i256(value: u64) -> (r: I256)
    ensures
        r.value() == value as int,
        r == I256::from_whole(value),
{
    let r = I256 { underlying: U256 { a: 0, b: 1, c: 0, d: value } };
    proof {
        assert(r.underlying.value() == unit() * unit() + value as nat) by (nonlinear_arith)
            requires
                r.underlying.value() == ((0 * unit() + 1) * unit() + 0) * unit() + value as nat,
        ;
    }
    r
}

} // verus!
