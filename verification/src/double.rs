//! Double-precision numbers, held as their IEEE 754 bit patterns.
//!
//! Arithmetic on them is the embedding program's; what this library decides of them is whether
//! one is finite and how two compare, which the bit patterns answer exactly.

use vstd::prelude::*;

verus! {

/// A double-precision number by its bit pattern.
#[derive(Clone, Copy, Debug, PartialEq, Eq, Structural)]
pub struct Real {
    /// Sign (one bit), exponent (eleven), fraction (fifty-two).
    pub bits: u64,
}

/// The sign bit.
pub const SIGN: u64 = 0x8000_0000_0000_0000;

/// The magnitude of the infinities; everything above it is not a number.
pub const INFINITE: u64 = 0x7ff0_0000_0000_0000;

/// The bits of zero.
pub const ZERO: u64 = 0;

/// The bits of one.
pub const ONE: u64 = 0x3ff0_0000_0000_0000;

/// The bit above the fraction.
pub const FRACTION: u64 = 0x0010_0000_0000_0000;

/// Every integer from zero up to this one is a double.
pub const EXACT: u64 = 0x0020_0000_0000_0000;

/// A number doubled `k` times.
pub open spec fn doubled(x: int, k: nat) -> int
    decreases k,
{
    if k == 0 {
        x
    } else {
        2 * doubled(x, (k - 1) as nat)
    }
}

impl Real {
    /// The bit pattern without its sign.
    pub open spec fn magnitude(self) -> nat {
        (if self.bits >= SIGN {
            self.bits - SIGN
        } else {
            self.bits as int
        }) as nat
    }

    /// Neither infinite nor a NaN.
    pub open spec fn finite(self) -> bool {
        self.magnitude() < INFINITE
    }

    /// Not a number.
    pub open spec fn nan(self) -> bool {
        self.magnitude() > INFINITE
    }

    /// Orders the numbers as their values do; both zeros stand at 0.
    pub open spec fn key(self) -> int {
        if self.bits >= SIGN {
            -(self.magnitude() as int)
        } else {
            self.magnitude() as int
        }
    }

    /// `self < other` as IEEE 754 compares: false where either is a NaN.
    pub open spec fn below(self, other: Real) -> bool {
        !self.nan() && !other.nan() && self.key() < other.key()
    }

    /// `self <= other` as IEEE 754 compares.
    pub open spec fn at_most(self, other: Real) -> bool {
        !self.nan() && !other.nan() && self.key() <= other.key()
    }

    /// The integer that a number between -1024 and 1024 is, where it is one. The fraction of a
    /// normal number stands in the low 52 bits with an implied one before it, and the exponent
    /// above it, 1023 for a number from one up to two.
    pub open spec fn small_whole(self) -> Option<int> {
        let m = self.magnitude() as int;
        let e = m / FRACTION as int;
        if m == 0 {
            Some(0)
        } else if e < 1023 || e > 1032 {
            None
        } else {
            let p = doubled(FRACTION + m % FRACTION as int, (e - 1023) as nat);
            if p % FRACTION as int == 0 {
                Some(
                    if self.bits >= SIGN {
                        -(p / FRACTION as int)
                    } else {
                        p / FRACTION as int
                    },
                )
            } else {
                None
            }
        }
    }

    /// [`Real::magnitude`].
    pub fn unsigned_bits(self) -> (r: u64)
        ensures
            r == self.magnitude(),
    {
        if self.bits >= SIGN {
            self.bits - SIGN
        } else {
            self.bits
        }
    }

    /// [`Real::finite`].
    pub fn is_finite(self) -> (r: bool)
        ensures
            r == self.finite(),
    {
        self.unsigned_bits() < INFINITE
    }

    /// [`Real::key`].
    pub fn order(self) -> (r: i128)
        ensures
            r == self.key(),
    {
        let m: i128 = self.unsigned_bits() as i128;
        if self.bits >= SIGN {
            -m
        } else {
            m
        }
    }

    /// [`Real::small_whole`].
    pub fn whole(self) -> (r: Option<i64>)
        ensures
            match r {
                Some(n) => self.small_whole() == Some(n as int),
                None => self.small_whole() is None,
            },
    {
        let m = self.unsigned_bits();
        if m == 0 {
            return Some(0);
        }
        let e: u64 = m / FRACTION;
        if e < 1023 || e > 1032 {
            return None;
        }
        let mut p: u64 = FRACTION + m % FRACTION;
        let ghost start = p as int;
        let mut k: u64 = 0;
        while k < e - 1023
            invariant
                1023 <= e <= 1032,
                k <= e - 1023,
                start < 2 * FRACTION,
                start >= FRACTION,
                p == doubled(start, k as nat),
                k == 0 ==> p < 0x0020_0000_0000_0000,
                k == 1 ==> p < 0x0040_0000_0000_0000,
                k == 2 ==> p < 0x0080_0000_0000_0000,
                k == 3 ==> p < 0x0100_0000_0000_0000,
                k == 4 ==> p < 0x0200_0000_0000_0000,
                k == 5 ==> p < 0x0400_0000_0000_0000,
                k == 6 ==> p < 0x0800_0000_0000_0000,
                k == 7 ==> p < 0x1000_0000_0000_0000,
                k == 8 ==> p < 0x2000_0000_0000_0000,
                k == 9 ==> p < 0x4000_0000_0000_0000,
            decreases e - 1023 - k,
        {
            p = 2 * p;
            k += 1;
        }
        if p % FRACTION != 0 {
            return None;
        }
        let n: i64 = (p / FRACTION) as i64;
        if self.bits >= SIGN {
            Some(-n)
        } else {
            Some(n)
        }
    }

    /// [`Real::below`].
    pub fn lt(self, other: Real) -> (r: bool)
        ensures
            r == self.below(other),
    {
        self.unsigned_bits() <= INFINITE && other.unsigned_bits() <= INFINITE && self.order()
            < other.order()
    }

    /// [`Real::at_most`].
    pub fn le(self, other: Real) -> (r: bool)
        ensures
            r == self.at_most(other),
    {
        self.unsigned_bits() <= INFINITE && other.unsigned_bits() <= INFINITE && self.order()
            <= other.order()
    }
}

/// How often a number can be halved, remainders dropped, before it is one: its exponent.
pub open spec fn halvings(n: nat) -> nat
    decreases n,
{
    if n < 2 {
        0
    } else {
        1 + halvings(n / 2)
    }
}

/// The bits of the double that an integer below [`EXACT`] is: its exponent above its digits, which
/// are shifted up until the leading one stands at [`FRACTION`] and is left out.
pub open spec fn whole_bits(n: nat) -> int {
    if n == 0 {
        0
    } else {
        (1022 + halvings(n)) * FRACTION + doubled(n as int, (52 - halvings(n)) as nat)
    }
}

proof fn doubled_adds(x: int, a: nat, b: nat)
    ensures
        doubled(doubled(x, a), b) == doubled(x, a + b),
    decreases b,
{
    if b > 0 {
        doubled_adds(x, a, (b - 1) as nat);
    }
}

proof fn doubled_scales(x: int, k: nat)
    ensures
        doubled(x, k) == x * doubled(1, k),
        doubled(1, k) >= 1,
    decreases k,
{
    if k > 0 {
        doubled_scales(x, (k - 1) as nat);
        let d = doubled(1, (k - 1) as nat);
        assert(2 * (x * d) == x * (2 * d)) by (nonlinear_arith);
    }
}

proof fn doubled_grows(x: int, y: int, k: nat)
    requires
        x < y,
    ensures
        doubled(x, k) < doubled(y, k),
    decreases k,
{
    if k > 0 {
        doubled_grows(x, y, (k - 1) as nat);
    }
}

proof fn halvings_bound(n: nat)
    requires
        n > 0,
    ensures
        doubled(1, halvings(n)) <= n < doubled(1, halvings(n) + 1),
    decreases n,
{
    if n >= 2 {
        halvings_bound(n / 2);
    }
}

/// Where the digits of an integer stand in its double.
proof fn digits_stand(n: nat)
    requires
        0 < n < EXACT,
    ensures
        halvings(n) <= 52,
        FRACTION <= doubled(n as int, (52 - halvings(n)) as nat) < 2 * FRACTION,
        doubled(doubled(n as int, (52 - halvings(n)) as nat), halvings(n)) == n * FRACTION,
{
    let e = halvings(n);
    halvings_bound(n);
    assert(doubled(1, 52) == FRACTION && doubled(1, 53) == EXACT) by {
        reveal_with_fuel(doubled, 54);
    }
    if e > 52 {
        doubled_adds(1, 53, (e - 53) as nat);
        doubled_scales(EXACT as int, (e - 53) as nat);
        let d = doubled(1, (e - 53) as nat);
        assert(EXACT * d >= EXACT) by (nonlinear_arith)
            requires
                d >= 1,
        ;
    }
    let k = (52 - e) as nat;
    let lo = doubled(1, e);
    let hi = doubled(1, e + 1);
    doubled_adds(1, e, k);
    doubled_adds(1, e + 1, k);
    doubled_grows(n as int, hi, k);
    if lo < n {
        doubled_grows(lo, n as int, k);
    }
    doubled_adds(n as int, k, e);
    doubled_scales(n as int, 52);
}

/// An integer below [`EXACT`] is a finite double that is whole, and integers stand in the order of
/// their doubles.
pub proof fn integers_are_doubles(m: nat, n: nat)
    requires
        m <= n < EXACT,
    ensures
        0 <= whole_bits(n) < INFINITE,
        m < n ==> whole_bits(m) < whole_bits(n),
        (Real { bits: whole_bits(n) as u64 }).small_whole() == (if n < 1024 {
            Some(n as int)
        } else {
            None
        }),
        n > 0 ==> (Real { bits: (SIGN + whole_bits(n)) as u64 }).small_whole() == (if n < 1024 {
            Some(-(n as int))
        } else {
            None
        }),
{
    if n > 0 {
        let e = halvings(n);
        let d = doubled(n as int, (52 - e) as nat);
        let b = whole_bits(n);
        digits_stand(n);
        halvings_bound(n);
        assert(b == (1023 + e) * FRACTION + (d - FRACTION)) by (nonlinear_arith)
            requires
                b == (1022 + e) * FRACTION + d,
        ;
        assert(b / FRACTION as int == 1023 + e && b % FRACTION as int == d - FRACTION)
            by (nonlinear_arith)
            requires
                b == (1023 + e) * FRACTION + (d - FRACTION),
                0 <= d - FRACTION < FRACTION,
        ;
        assert(b < 1076 * FRACTION) by (nonlinear_arith)
            requires
                b == (1022 + e) * FRACTION + d,
                e <= 52,
                d < 2 * FRACTION,
        ;
        assert((n * FRACTION) % FRACTION as int == 0 && (n * FRACTION) / FRACTION as int == n)
            by (nonlinear_arith);
        assert(doubled(1, 10) == 1024) by {
            reveal_with_fuel(doubled, 11);
        }
        if e <= 9 {
            doubled_adds(1, e + 1, (9 - e) as nat);
            doubled_scales(doubled(1, e + 1), (9 - e) as nat);
            let (x, y) = (doubled(1, e + 1), doubled(1, (9 - e) as nat));
            assert(x <= x * y) by (nonlinear_arith)
                requires
                    x >= 0,
                    y >= 1,
            ;
        } else {
            doubled_adds(1, 10, (e - 10) as nat);
            doubled_scales(1024, (e - 10) as nat);
        }
        if 0 < m < n {
            let f = halvings(m);
            let c = doubled(m as int, (52 - f) as nat);
            digits_stand(m);
            halvings_bound(m);
            if f == e {
                doubled_grows(m as int, n as int, (52 - e) as nat);
            } else if f > e {
                doubled_adds(1, e + 1, (f - e - 1) as nat);
                doubled_scales(doubled(1, e + 1), (f - e - 1) as nat);
                let (x, y) = (doubled(1, e + 1), doubled(1, (f - e - 1) as nat));
                assert(x <= x * y) by (nonlinear_arith)
                    requires
                        x >= 0,
                        y >= 1,
                ;
            } else {
                assert((1022 + f) * FRACTION + c < (1022 + e) * FRACTION + d) by (nonlinear_arith)
                    requires
                        f + 1 <= e,
                        c < 2 * FRACTION,
                        d >= FRACTION,
                ;
            }
        }
        if m == 0 {
            assert(b > 0);
        }
    }
}

/// The finite double that a text writes, by its bit pattern.
pub uninterp spec fn text_bits(text: Seq<char>) -> Option<u64>;

/// `str::parse` at double precision, kept only where `serde_json::Number::from_f64` takes the
/// result, that is where it is finite. `None` where the text is no number or not a finite one.
#[verifier::external_body]
fn parse_bits(text: &str) -> (r: Option<u64>)
    ensures
        r == text_bits(text@),
{
    let n = text.parse().ok().and_then(serde_json::Number::from_f64);
    n.and_then(|n| n.as_f64()).map(|x| x.to_bits())
}

/// The finite double that a text writes.
pub open spec fn text_real(text: Seq<char>) -> Option<Real> {
    match text_bits(text) {
        Some(bits) => finite_real(bits),
        None => None,
    }
}

/// The double of a bit pattern, where it is finite.
pub open spec fn finite_real(bits: u64) -> Option<Real> {
    let r = Real { bits };
    if r.finite() {
        Some(r)
    } else {
        None
    }
}

/// [`finite_real`].
pub fn keep_finite(bits: u64) -> (r: Option<Real>)
    ensures
        r == finite_real(bits),
{
    let r = Real { bits };
    if r.is_finite() {
        Some(r)
    } else {
        None
    }
}

/// [`text_real`].
pub fn parse_real(text: &str) -> (r: Option<Real>)
    ensures
        r == text_real(text@),
{
    match parse_bits(text) {
        Some(bits) => keep_finite(bits),
        None => None,
    }
}

/// The single-precision number that a text writes, by its bits.
pub uninterp spec fn single_bits(text: Seq<char>) -> Option<u32>;

/// A weight as HTTP writes it: a digit, and up to three more behind a point.
pub open spec fn is_weight(text: Seq<char>) -> bool {
    &&& 1 <= text.len() <= 5
    &&& '0' <= text[0] <= '9'
    &&& text.len() > 1 ==> text[1] == '.'
    &&& forall|i: int| 2 <= i < text.len() ==> '0' <= #[trigger] text[i] <= '9'
}

/// Zeros, and perhaps a point.
pub open spec fn only_zeros(text: Seq<char>) -> bool {
    forall|i: int| 0 <= i < text.len() ==> #[trigger] text[i] == '0' || text[i] == '.'
}

/// `str::parse` at single precision; infinities and NaN are numbers here. A weight is a number that
/// is not below zero, and is zero exactly where it is written with zeros alone.
/// `Duration::as_secs_f32` of nothing stands beside it only to fix the type that is parsed: its value
/// is dropped.
#[verifier::external_body]
fn parse_single(text: &str) -> (r: Option<u32>)
    ensures
        r == single_bits(text@),
        match r {
            Some(b) => is_weight(text@) ==> b < 0x7f80_0000 && (b == 0) == only_zeros(text@),
            None => !is_weight(text@),
        },
{
    let [_, x] = [std::time::Duration::ZERO.as_secs_f32(), text.parse().ok()?];
    Some(x.to_bits())
}

/// A single-precision number at or below zero, by its bits.
pub open spec fn single_at_most_zero(bits: u32) -> bool {
    bits == 0 || 0x8000_0000 <= bits <= 0xff80_0000
}

/// Whether a text writes a single-precision number at or below zero. A weight does where it is
/// written with zeros alone.
pub open spec fn writes_at_most_zero(text: Seq<char>) -> bool {
    if is_weight(text) {
        only_zeros(text)
    } else {
        match single_bits(text) {
            Some(b) => single_at_most_zero(b),
            None => false,
        }
    }
}

/// [`writes_at_most_zero`].
pub fn at_most_zero(text: &str) -> (r: bool)
    ensures
        r == writes_at_most_zero(text@),
{
    match parse_single(text) {
        Some(b) => b == 0 || (0x8000_0000 <= b && b <= 0xff80_0000),
        None => false,
    }
}

/// A number is at most itself and never below itself; where two are numbers, one is below the
/// other or they have the same place in the order.
pub proof fn reals_are_ordered(a: Real, b: Real)
    ensures
        !a.below(a),
        !a.nan() ==> a.at_most(a),
        !a.nan() && !b.nan() ==> a.below(b) || b.below(a) || a.key() == b.key(),
        a.below(b) ==> a.at_most(b) && !b.at_most(a),
{
}

/// Doubles of one sign are in the order of their bits, the other way round below zero; every one that
/// is below zero is below every other, and the two zeros are equal. Nothing is ordered with what is
/// no number, and the order is transitive.
pub proof fn bits_order_doubles(a: u64, b: u64, c: Real)
    requires
        a <= b < INFINITE,
    ensures
        a < b ==> (Real { bits: a }).below(Real { bits: b }),
        a < b ==> (Real { bits: (SIGN + b) as u64 }).below(Real { bits: (SIGN + a) as u64 }),
        b > 0 ==> (Real { bits: (SIGN + b) as u64 }).below(Real { bits: a }),
        (Real { bits: SIGN }).at_most(Real { bits: 0 }) && (Real { bits: 0 }).at_most(
            Real { bits: SIGN },
        ),
        (Real { bits: a }).finite() && !(Real { bits: INFINITE }).finite(),
        (Real { bits: b }).below(Real { bits: INFINITE }),
        c.nan() ==> !c.below(Real { bits: a }) && !(Real { bits: a }).below(c) && !c.at_most(c),
        c.nan() ==> !c.finite(),
        c.below(Real { bits: a }) ==> c.below(Real { bits: b }),
{
}

} // verus!
