//! Decimal amounts of money: an integer mantissa and a count of decimal
//! places, in the range of a 96-bit decimal. Arithmetic is exact; a result
//! that would leave the range is refused rather than rounded.

use vstd::prelude::*;

verus! {

/// The largest mantissa: 2^96 - 1.
pub const MAX_MANTISSA: i128 = 79228162514264337593543950335;

/// The largest number of decimal places.
pub const MAX_SCALE: u32 = 28;

pub open spec fn pow10(n: nat) -> nat
    decreases n,
{
    if n == 0 {
        1
    } else {
        10 * pow10((n - 1) as nat)
    }
}

pub proof fn lemma_pow10_positive(n: nat)
    ensures
        pow10(n) >= 1,
    decreases n,
{
    if n > 0 {
        lemma_pow10_positive((n - 1) as nat);
    }
}

pub proof fn lemma_pow10_adds(a: nat, b: nat)
    ensures
        pow10(a) * pow10(b) == pow10(a + b),
    decreases a,
{
    if a == 0 {
        assert(pow10(0) == 1);
    } else {
        let a1 = (a - 1) as nat;
        lemma_pow10_adds(a1, b);
        assert(a1 + b + 1 == a + b);
        assert(pow10(a + b) == 10 * pow10(a1 + b));
        assert(pow10(a) == 10 * pow10(a1));
        let x = pow10(a1);
        let y = pow10(b);
        assert((10 * x) * y == 10 * (x * y)) by (nonlinear_arith);
    }
}

pub proof fn lemma_pow10_monotone(a: nat, b: nat)
    requires
        a <= b,
    ensures
        pow10(a) <= pow10(b),
    decreases b,
{
    if a < b {
        lemma_pow10_monotone(a, (b - 1) as nat);
        lemma_pow10_positive((b - 1) as nat);
    }
}

pub proof fn lemma_pow10_28()
    ensures
        pow10(28) == 10000000000000000000000000000,
{
    reveal_with_fuel(pow10, 29);
}

/// `10^n`, for `n` up to 28.
pub fn pow10_exec(n: u32) -> (r: i128)
    requires
        n <= MAX_SCALE,
    ensures
        r == pow10(n as nat),
        r <= 10000000000000000000000000000,
{
    let mut r: i128 = 1;
    let mut i: u32 = 0;
    while i < n
        invariant
            i <= n <= MAX_SCALE,
            r == pow10(i as nat),
        decreases n - i,
    {
        proof {
            lemma_pow10_monotone((i + 1) as nat, 28);
            lemma_pow10_28();
        }
        r = r * 10;
        i = i + 1;
    }
    proof {
        lemma_pow10_monotone(n as nat, 28);
        lemma_pow10_28();
    }
    r
}

/// `n / 3`, rounded to the nearest integer (a third is never halfway).
pub open spec fn div3_nearest(n: int) -> int {
    if n % 3 == 2 {
        n / 3 + 1
    } else {
        n / 3
    }
}

/// The mantissa and scale of the decimal number that `s` spells, if it
/// spells one.
pub uninterp spec fn decimal_parse_of(s: Seq<char>) -> Option<(i128, u32)>;

/// Relies on `rust_decimal::Decimal`'s `FromStr` (reads a decimal number)
/// and on its `mantissa` and `scale`: the value is `mantissa / 10^scale`, the
/// mantissa below 2^96 in magnitude, the scale at most 28.
#[verifier::external_body]
fn parse_decimal(s: &str) -> (r: Option<(i128, u32)>)
    ensures
        r == decimal_parse_of(s@),
        r matches Some((m, sc)) ==> -MAX_MANTISSA <= m <= MAX_MANTISSA && sc <= MAX_SCALE,
{
    match s.parse::<rust_decimal::Decimal>() {
        Ok(d) => Some((d.mantissa(), d.scale())),
        Err(_) => None,
    }
}

/// A decimal amount: `mantissa / 10^scale`.
#[derive(Debug, Clone, Copy, PartialEq, Eq)]
pub struct Amount {
    mantissa: i128,
    scale: u32,
}

impl Amount {
    #[verifier::type_invariant]
    spec fn in_range(self) -> bool {
        -MAX_MANTISSA <= self.mantissa <= MAX_MANTISSA && self.scale <= MAX_SCALE
    }

    /// The mantissa.
    pub closed spec fn m(self) -> int {
        self.mantissa as int
    }

    /// The number of decimal places.
    pub closed spec fn s(self) -> nat {
        self.scale as nat
    }

    /// The amount in units of `10^-28`: two amounts are equal in value
    /// exactly when these are equal.
    pub open spec fn units(self) -> int {
        self.m() * pow10((MAX_SCALE - self.s()) as nat)
    }

    /// The amount `mantissa / 10^scale`, if it is in range.
    pub fn new(mantissa: i128, scale: u32) -> (r: Option<Amount>)
        ensures
            r is Some <==> (-MAX_MANTISSA <= mantissa <= MAX_MANTISSA && scale <= MAX_SCALE),
            r matches Some(a) ==> a.m() == mantissa && a.s() == scale,
    {
        if -MAX_MANTISSA <= mantissa && mantissa <= MAX_MANTISSA && scale <= MAX_SCALE {
            Some(Amount { mantissa, scale })
        } else {
            None
        }
    }

    /// The decimal number that `s` spells, if it spells one.
    pub fn parse(s: &str) -> (r: Option<Amount>)
        ensures
            r is Some <==> decimal_parse_of(s@) is Some,
            r matches Some(a) ==> decimal_parse_of(s@) == Some((a.m() as i128, a.s() as u32)),
    {
        match parse_decimal(s) {
            Some((m, sc)) => Some(Amount { mantissa: m, scale: sc }),
            None => None,
        }
    }

    /// Zero, with no decimal places.
    pub fn zero() -> (r: Amount)
        ensures
            r.m() == 0,
            r.s() == 0,
    {
        Amount { mantissa: 0, scale: 0 }
    }

    pub fn mantissa(&self) -> (r: i128)
        ensures
            r == self.m(),
            -MAX_MANTISSA <= r <= MAX_MANTISSA,
    {
        proof {
            use_type_invariant(self);
        }
        self.mantissa
    }

    pub fn scale(&self) -> (r: u32)
        ensures
            r == self.s(),
            r <= MAX_SCALE,
    {
        proof {
            use_type_invariant(self);
        }
        self.scale
    }

    /// The mantissa of the exact sum, at the larger of the two scales.
    pub open spec fn sum_mantissa(self, other: Amount) -> int {
        let s = if self.s() >= other.s() { self.s() } else { other.s() };
        self.m() * pow10((s - self.s()) as nat) + other.m() * pow10((s - other.s()) as nat)
    }

    /// The exact sum, at the larger of the two scales; `None` when its
    /// mantissa is out of range.
    pub fn checked_add(&self, other: &Amount) -> (r: Option<Amount>)
        ensures
            r is Some <==> -MAX_MANTISSA <= self.sum_mantissa(*other) <= MAX_MANTISSA,
            r matches Some(x) ==> x.m() == self.sum_mantissa(*other) && x.s() == (if self.s()
                >= other.s() {
                self.s()
            } else {
                other.s()
            }) && x.units() == self.units() + other.units(),
    {
        proof {
            use_type_invariant(self);
            use_type_invariant(other);
        }
        let (low, high) = if self.scale >= other.scale {
            (*other, *self)
        } else {
            (*self, *other)
        };
        let k = high.scale - low.scale;
        let f = pow10_exec(k);
        proof {
            use_type_invariant(low);
            use_type_invariant(high);
            assert(self.sum_mantissa(*other) == low.m() * f + high.m()) by {
                assert(pow10(0) == 1);
                if self.scale >= other.scale {
                    assert(low == *other && high == *self);
                    assert(self.sum_mantissa(*other) == self.m() * pow10(0) + other.m() * pow10(
                        k as nat,
                    ));
                } else {
                    assert(low == *self && high == *other);
                    assert(self.sum_mantissa(*other) == self.m() * pow10(k as nat) + other.m()
                        * pow10(0));
                }
            }
        }
        let scaled = match low.mantissa.checked_mul(f) {
            Some(v) => v,
            None => {
                proof {
                    let p = low.m() * f;
                    assert(p > i128::MAX || p < i128::MIN);
                }
                return None;
            },
        };
        let sum = match scaled.checked_add(high.mantissa) {
            Some(v) => v,
            None => return None,
        };
        if sum < -MAX_MANTISSA || sum > MAX_MANTISSA {
            return None;
        }
        let r = Amount { mantissa: sum, scale: high.scale };
        proof {
            let t = (MAX_SCALE - high.s()) as nat;
            lemma_pow10_adds(k as nat, t);
            assert(low.units() == low.m() * (pow10(k as nat) * pow10(t)));
            assert(r.units() == (low.m() * pow10(k as nat) + high.m()) * pow10(t));
            assert((low.m() * pow10(k as nat) + high.m()) * pow10(t) == low.m() * (pow10(
                k as nat,
            ) * pow10(t)) + high.m() * pow10(t)) by (nonlinear_arith);
        }
        Some(r)
    }

    /// The amount times `count`; `None` when out of range.
    pub fn checked_mul_count(&self, count: u32) -> (r: Option<Amount>)
        ensures
            r is Some <==> -MAX_MANTISSA <= self.m() * count <= MAX_MANTISSA,
            r matches Some(x) ==> x.m() == self.m() * count && x.s() == self.s() && x.units()
                == self.units() * count,
    {
        proof {
            use_type_invariant(self);
        }
        let p = match self.mantissa.checked_mul(count as i128) {
            Some(v) => v,
            None => return None,
        };
        if p < -MAX_MANTISSA || p > MAX_MANTISSA {
            return None;
        }
        let r = Amount { mantissa: p, scale: self.scale };
        proof {
            let f = pow10((MAX_SCALE - self.s()) as nat);
            assert(self.m() * count * f == self.m() * f * count) by (nonlinear_arith);
        }
        Some(r)
    }

    /// The amount times `minutes / 60`, with two more decimal places than
    /// `self`, rounded to the nearest; `None` when out of range.
    pub fn checked_mul_minutes(&self, minutes: u64) -> (r: Option<Amount>)
        requires
            minutes <= 0x10000000000,
        ensures
            r is Some <==> (self.s() + 2 <= MAX_SCALE && -MAX_MANTISSA <= div3_nearest(
                self.m() * minutes * 5,
            ) <= MAX_MANTISSA),
            r matches Some(x) ==> x.m() == div3_nearest(self.m() * minutes * 5) && x.s()
                == self.s() + 2,
    {
        proof {
            use_type_invariant(self);
        }
        if self.scale > MAX_SCALE - 2 {
            return None;
        }
        let n = match self.mantissa.checked_mul(minutes as i128 * 5) {
            Some(v) => v,
            None => {
                proof {
                    assert(self.m() * (minutes * 5) == self.m() * minutes * 5) by (nonlinear_arith);
                    let x = self.m() * minutes * 5;
                    assert(x > i128::MAX || x < i128::MIN);
                    assert(div3_nearest(x) > MAX_MANTISSA || div3_nearest(x) < -MAX_MANTISSA);
                }
                return None;
            },
        };
        proof {
            assert(self.m() * (minutes * 5) == self.m() * minutes * 5) by (nonlinear_arith);
        }
        let q0 = if n >= 0 {
            n / 3
        } else {
            -((-n + 2) / 3)
        };
        let r0 = n - q0 * 3;
        let q = if r0 == 2 {
            q0 + 1
        } else {
            q0
        };
        proof {
            assert(q0 == n / 3 && r0 == n % 3);
        }
        if q < -MAX_MANTISSA || q > MAX_MANTISSA {
            return None;
        }
        Some(Amount { mantissa: q, scale: self.scale + 2 })
    }
}

} // verus!
