//! Exact decimals: a whole number of units and the number of decimal places
//! those units count in. `Decimal { units: 150, places: 2 }` is 1.50.

use vstd::prelude::*;

verus! {

/// A decimal number, held exactly.
#[derive(Clone, Copy, Debug, PartialEq, Eq, Structural)]
pub struct Decimal {
    /// The number, in units of ten to the minus `places`.
    pub units: i128,
    /// The number of decimal places.
    pub places: u8,
}

/// Ten to the power `n`.
pub open spec fn pow10(n: nat) -> int
    decreases n,
{
    if n == 0 {
        1
    } else {
        10 * pow10((n - 1) as nat)
    }
}

/// Whether a number of units can be held.
pub open spec fn fits(x: int) -> bool {
    i128::MIN <= x <= i128::MAX
}

impl Decimal {
    /// The number itself, counted in the finest unit any decimal can have:
    /// ten to the minus 255.
    pub open spec fn value(self) -> int {
        self.units * pow10((255 - self.places) as nat)
    }

    /// The number counted with `places` places, which are no fewer than it has.
    pub open spec fn aligned(self, places: u8) -> int {
        self.units * pow10((places - self.places) as nat)
    }

    /// The larger of the two numbers of places.
    pub open spec fn wider(self, other: Decimal) -> u8 {
        if self.places >= other.places {
            self.places
        } else {
            other.places
        }
    }

    /// Whether the sum can be held: both numbers, counted with the larger
    /// number of places, and their sum fit.
    pub open spec fn can_add(self, other: Decimal) -> bool {
        let p = self.wider(other);
        fits(self.aligned(p)) && fits(other.aligned(p)) && fits(self.aligned(p) + other.aligned(p))
    }

    /// The sum, counted with the larger number of places.
    pub open spec fn plus(self, other: Decimal) -> Decimal {
        let p = self.wider(other);
        Decimal { units: (self.aligned(p) + other.aligned(p)) as i128, places: p }
    }

    /// Whether the opposite number can be held.
    pub open spec fn can_negate(self) -> bool {
        self.units != i128::MIN
    }

    /// The opposite number.
    pub open spec fn negated(self) -> Decimal {
        Decimal { units: (-self.units) as i128, places: self.places }
    }
}

/// A power of ten is at least one.
pub proof fn lemma_pow10_positive(n: nat)
    ensures
        pow10(n) >= 1,
    decreases n,
{
    if n > 0 {
        lemma_pow10_positive((n - 1) as nat);
    }
}

/// Ten to a sum is the product of the powers.
pub proof fn lemma_pow10_adds(a: nat, b: nat)
    ensures
        pow10(a + b) == pow10(a) * pow10(b),
    decreases a,
{
    if a > 0 {
        lemma_pow10_adds((a - 1) as nat, b);
        assert(pow10(a + b) == 10 * pow10((a - 1 + b) as nat));
        assert(10 * (pow10((a - 1) as nat) * pow10(b)) == (10 * pow10((a - 1) as nat)) * pow10(b))
            by (nonlinear_arith);
    } else {
        assert(pow10(a) * pow10(b) == pow10(b)) by (nonlinear_arith)
            requires
                pow10(a) == 1,
        ;
    }
}

/// A number counted with more places, then in the finest unit, is the number
/// in the finest unit.
pub proof fn lemma_aligned_value(d: Decimal, places: u8)
    requires
        d.places <= places,
    ensures
        d.value() == d.aligned(places) * pow10((255 - places) as nat),
{
    let a = (places - d.places) as nat;
    let b = (255 - places) as nat;
    lemma_pow10_adds(a, b);
    assert(d.units * (pow10(a) * pow10(b)) == (d.units * pow10(a)) * pow10(b)) by (nonlinear_arith);
}

/// A sum that can be held is the sum of the numbers.
pub proof fn lemma_plus_value(a: Decimal, b: Decimal)
    requires
        a.can_add(b),
    ensures
        a.plus(b).value() == a.value() + b.value(),
{
    let p = a.wider(b);
    let k = pow10((255 - p) as nat);
    lemma_aligned_value(a, p);
    lemma_aligned_value(b, p);
    assert((a.aligned(p) + b.aligned(p)) * k == a.aligned(p) * k + b.aligned(p) * k)
        by (nonlinear_arith);
}

/// An opposite that can be held is the opposite of the number.
pub proof fn lemma_negated_value(d: Decimal)
    requires
        d.can_negate(),
    ensures
        d.negated().value() == -d.value(),
{
    let k = pow10((255 - d.places) as nat);
    assert((-d.units) * k == -(d.units * k)) by (nonlinear_arith);
}

/// A number has the sign of its units.
pub proof fn lemma_value_sign(d: Decimal)
    ensures
        d.value() > 0 <==> d.units > 0,
        d.value() < 0 <==> d.units < 0,
        d.value() == 0 <==> d.units == 0,
{
    let k = pow10((255 - d.places) as nat);
    lemma_pow10_positive((255 - d.places) as nat);
    let u = d.units as int;
    assert((u > 0 ==> u * k > 0) && (u < 0 ==> u * k < 0) && (u == 0 ==> u * k == 0))
        by (nonlinear_arith)
        requires
            k >= 1,
    ;
}

/// Two numbers compare as they do when counted with the same places.
pub proof fn lemma_compare_aligned(a: Decimal, b: Decimal)
    ensures
        a.value() < b.value() <==> a.aligned(a.wider(b)) < b.aligned(a.wider(b)),
{
    let p = a.wider(b);
    let k = pow10((255 - p) as nat);
    lemma_pow10_positive((255 - p) as nat);
    lemma_aligned_value(a, p);
    lemma_aligned_value(b, p);
    let x = a.aligned(p);
    let y = b.aligned(p);
    assert((x < y ==> x * k < y * k) && (x >= y ==> x * k >= y * k)) by (nonlinear_arith)
        requires
            k >= 1,
    ;
}

/// A number counted with more places keeps its sign.
proof fn lemma_aligned_sign(d: Decimal, places: u8)
    requires
        d.places <= places,
    ensures
        d.units > 0 ==> d.aligned(places) > 0,
        d.units < 0 ==> d.aligned(places) < 0,
        d.units == 0 ==> d.aligned(places) == 0,
{
    let k = pow10((places - d.places) as nat);
    lemma_pow10_positive((places - d.places) as nat);
    let u = d.units as int;
    assert((u > 0 ==> u * k > 0) && (u < 0 ==> u * k < 0) && (u == 0 ==> u * k == 0))
        by (nonlinear_arith)
        requires
            k >= 1,
    ;
}

/// A number that is beyond what can be held stays beyond it when counted
/// with more places.
proof fn lemma_scaling_grows(x: int, k: int)
    requires
        k >= 1,
    ensures
        x > i128::MAX ==> x * k > i128::MAX,
        x < i128::MIN ==> x * k < i128::MIN,
{
    assert((x > 0 ==> x * k >= x) && (x < 0 ==> x * k <= x)) by (nonlinear_arith)
        requires
            k >= 1,
    ;
}

/// `units` times ten to the power `by`, if that can be held.
fn scaled(units: i128, by: u8) -> (r: Option<i128>)
    ensures
        match r {
            Some(x) => x == units * pow10(by as nat),
            None => !fits(units * pow10(by as nat)),
        },
{
    if units == 0 {
        assert(0 * pow10(by as nat) == 0) by (nonlinear_arith);
        return Some(0);
    }
    let mut current: i128 = units;
    let mut done: u8 = 0;
    assert(units * pow10(0) == units) by (nonlinear_arith)
        requires
            pow10(0) == 1,
    ;
    while done < by
        invariant
            done <= by,
            current == units * pow10(done as nat),
        decreases by - done,
    {
        proof {
            let step = pow10(done as nat);
            assert(units * (10 * step) == (units * step) * 10) by (nonlinear_arith);
            assert(pow10((done + 1) as nat) == 10 * step);
        }
        if current > 17014118346046923173168730371588410572 || current
            < -17014118346046923173168730371588410572 {
            proof {
                let rest = (by - done - 1) as nat;
                lemma_pow10_adds((done + 1) as nat, rest);
                lemma_pow10_positive(rest);
                let next = pow10((done + 1) as nat);
                let more = pow10(rest);
                assert(units * (next * more) == (units * next) * more) by (nonlinear_arith);
                assert(units * next == current * 10);
                lemma_scaling_grows(units * next, more);
            }
            return None;
        }
        current = current * 10;
        done = done + 1;
    }
    Some(current)
}

impl Decimal {
    /// The whole number `units`.
    pub fn whole(units: i128) -> (d: Decimal)
        ensures
            d == (Decimal { units, places: 0 }),
    {
        Decimal { units, places: 0 }
    }

    /// Zero.
    pub fn zero() -> (d: Decimal)
        ensures
            d == (Decimal { units: 0, places: 0 }),
    {
        Decimal { units: 0, places: 0 }
    }

    /// The sum, counted with the larger number of places, if it can be held.
    pub fn checked_add(self, other: Decimal) -> (r: Option<Decimal>)
        ensures
            r == if self.can_add(other) {
                Some(self.plus(other))
            } else {
                None::<Decimal>
            },
    {
        let places = if self.places >= other.places {
            self.places
        } else {
            other.places
        };
        let a = match scaled(self.units, places - self.places) {
            Some(a) => a,
            None => {
                return None;
            },
        };
        let b = match scaled(other.units, places - other.places) {
            Some(b) => b,
            None => {
                return None;
            },
        };
        match a.checked_add(b) {
            Some(units) => Some(Decimal { units, places }),
            None => None,
        }
    }

    /// The opposite number, if it can be held.
    pub fn checked_neg(self) -> (r: Option<Decimal>)
        ensures
            r == if self.can_negate() {
                Some(self.negated())
            } else {
                None::<Decimal>
            },
    {
        if self.units == i128::MIN {
            None
        } else {
            Some(Decimal { units: -self.units, places: self.places })
        }
    }

    /// Whether this number is less than the other.
    pub fn less_than(self, other: Decimal) -> (less: bool)
        ensures
            less == (self.value() < other.value()),
    {
        let places = if self.places >= other.places {
            self.places
        } else {
            other.places
        };
        proof {
            lemma_compare_aligned(self, other);
            assert(other.units * pow10(0) == other.units) by (nonlinear_arith)
                requires
                    pow10(0) == 1,
            ;
            assert(self.units * pow10(0) == self.units) by (nonlinear_arith)
                requires
                    pow10(0) == 1,
            ;
        }
        let a = match scaled(self.units, places - self.places) {
            Some(a) => a,
            None => {
                proof {
                    lemma_aligned_sign(self, places);
                }
                return self.units < 0;
            },
        };
        let b = match scaled(other.units, places - other.places) {
            Some(b) => b,
            None => {
                proof {
                    lemma_aligned_sign(other, places);
                }
                return other.units > 0;
            },
        };
        a < b
    }
}

} // verus!
