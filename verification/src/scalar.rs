//! Double-precision numbers, held by their IEEE 754 binary64 bit patterns.
//!
//! The kernel never computes with these numbers. It classifies them (zero,
//! not-a-number) and orders them, and both can be read off the bit pattern.

use vstd::prelude::*;
use vstd::arithmetic::power2::{lemma_pow2_pos, lemma_pow2_strictly_increases, lemma_pow2_unfold, pow2};

verus! {

/// The bit pattern in which only the sign bit is set.
pub const SIGN_BIT: u64 = 0x8000_0000_0000_0000;

/// The bit pattern of positive infinity: every exponent bit set, no fraction bit.
pub const INFINITY_BITS: u64 = 0x7ff0_0000_0000_0000;

/// The bit pattern of the smallest normal number: the lowest exponent bit
/// set, no fraction bit. The fraction lies below it, the exponent above.
pub const FRACTION_UNIT: u64 = 0x0010_0000_0000_0000;

/// The value that the sign-free bits `m` of a finite number encode, in
/// units of the smallest positive double. With exponent field `e` and
/// fraction field `f`, that is `f` when `e` is zero, and else
/// `(2^52 + f) * 2^(e - 1)`.
pub open spec fn units_of(m: int) -> int {
    let e = m / (FRACTION_UNIT as int);
    let f = m % (FRACTION_UNIT as int);
    if e == 0 {
        f
    } else {
        (FRACTION_UNIT + f) * pow2((e - 1) as nat)
    }
}

/// Among the sign-free bits of finite numbers, greater bits encode a
/// greater value.
pub proof fn lemma_units_increase(a: int, b: int)
    requires
        0 <= a < b < INFINITY_BITS,
    ensures
        0 <= units_of(a) < units_of(b),
{
    let unit = FRACTION_UNIT as int;
    let ea = a / unit;
    let fa = a % unit;
    let eb = b / unit;
    let fb = b % unit;
    assert(0 <= ea <= eb);
    if ea > 0 {
        lemma_pow2_pos((ea - 1) as nat);
        assert(0 <= (unit + fa) * pow2((ea - 1) as nat)) by (nonlinear_arith)
            requires
                unit + fa >= 0,
                pow2((ea - 1) as nat) > 0,
        ;
    }
    lemma_pow2_pos((eb - 1) as nat);
    let pb = pow2((eb - 1) as nat) as int;
    if ea == eb {
        if ea > 0 {
            assert((unit + fa) * pb < (unit + fb) * pb) by (nonlinear_arith)
                requires
                    fa < fb,
                    pb > 0,
            ;
        }
    } else {
        assert(unit * pb <= (unit + fb) * pb) by (nonlinear_arith)
            requires
                fb >= 0,
                pb > 0,
        ;
        if ea == 0 {
            assert(unit <= unit * pb) by (nonlinear_arith)
                requires
                    unit > 0,
                    pb >= 1,
            ;
        } else {
            let pa = pow2((ea - 1) as nat) as int;
            lemma_pow2_unfold(ea as nat);
            if ea < eb - 1 {
                lemma_pow2_strictly_increases(ea as nat, (eb - 1) as nat);
            }
            assert(2 * pa <= pb);
            assert((unit + fa) * pa < unit * pb) by (nonlinear_arith)
                requires
                    0 <= fa < unit,
                    pa > 0,
                    2 * pa <= pb,
            ;
        }
    }
}

/// A double-precision number. Two values are equal when their bits are.
#[derive(Clone, Copy, Debug, PartialEq, Eq, Structural)]
pub struct Real {
    pub bits: u64,
}

/// A complex number with double-precision parts.
#[derive(Clone, Copy, Debug, PartialEq, Eq, Structural)]
pub struct Complex {
    pub re: Real,
    pub im: Real,
}

impl Real {
    /// The bits without the sign: the rank of the absolute value among all
    /// non-negative doubles.
    pub open spec fn magnitude(self) -> int {
        if self.bits >= SIGN_BIT {
            self.bits - SIGN_BIT
        } else {
            self.bits as int
        }
    }

    /// Neither infinite nor not-a-number: the exponent is not all ones.
    pub open spec fn is_finite(self) -> bool {
        self.magnitude() < INFINITY_BITS
    }

    /// The value of a finite number in units of the smallest positive
    /// double, an integer.
    pub open spec fn units(self) -> int {
        if self.bits >= SIGN_BIT {
            -units_of(self.magnitude())
        } else {
            units_of(self.magnitude())
        }
    }

    /// Not a number: the exponent is all ones and the fraction is not zero.
    pub open spec fn spec_is_nan(self) -> bool {
        self.magnitude() > INFINITY_BITS
    }

    /// Positive or negative zero.
    pub open spec fn spec_is_zero(self) -> bool {
        self.magnitude() == 0
    }

    /// An integer that orders the numbers as their values do: for `x` and `y`
    /// that are numbers, `x <= y` exactly when `x.rank() <= y.rank()`.
    /// Both zeros have rank 0.
    pub open spec fn rank(self) -> int {
        if self.bits >= SIGN_BIT {
            -self.magnitude()
        } else {
            self.magnitude()
        }
    }

    /// The comparison `self <= other` of IEEE 754: false when either is not a number.
    pub open spec fn spec_le(self, other: Real) -> bool {
        &&& !self.spec_is_nan()
        &&& !other.spec_is_nan()
        &&& self.rank() <= other.rank()
    }

    /// The absolute value: the same bits with the sign cleared.
    pub open spec fn spec_abs(self) -> Real {
        Real { bits: self.magnitude() as u64 }
    }

    /// Positive zero.
    pub open spec fn spec_zero() -> Real {
        Real { bits: 0 }
    }

    /// Positive infinity.
    pub open spec fn infinity() -> Real {
        Real { bits: INFINITY_BITS }
    }

    /// Negative infinity.
    pub open spec fn negative_infinity() -> Real {
        Real { bits: (SIGN_BIT + INFINITY_BITS) as u64 }
    }

    /// Positive zero.
    #[verifier::when_used_as_spec(spec_zero)]
    pub fn zero() -> (r: Real)
        ensures
            r == Real::spec_zero(),
    {
        Real { bits: 0 }
    }

    /// The number with the given bit pattern.
    pub fn from_bits(bits: u64) -> (r: Real)
        ensures
            r.bits == bits,
    {
        Real { bits }
    }

    /// The bit pattern of the number.
    pub fn to_bits(self) -> (bits: u64)
        ensures
            bits == self.bits,
    {
        self.bits
    }

    /// The bits without the sign, as the machine holds them.
    fn magnitude_bits(self) -> (m: u64)
        ensures
            m == self.magnitude(),
    {
        if self.bits >= SIGN_BIT {
            self.bits - SIGN_BIT
        } else {
            self.bits
        }
    }

    /// Whether this is not a number.
    #[verifier::when_used_as_spec(spec_is_nan)]
    pub fn is_nan(self) -> (r: bool)
        ensures
            r == self.spec_is_nan(),
    {
        self.magnitude_bits() > INFINITY_BITS
    }

    /// Whether this is positive or negative zero.
    #[verifier::when_used_as_spec(spec_is_zero)]
    pub fn is_zero(self) -> (r: bool)
        ensures
            r == self.spec_is_zero(),
    {
        self.magnitude_bits() == 0
    }

    /// The absolute value.
    #[verifier::when_used_as_spec(spec_abs)]
    pub fn abs(self) -> (r: Real)
        ensures
            r == self.spec_abs(),
    {
        Real { bits: self.magnitude_bits() }
    }

    /// Whether `self <= other`, decided on the bits alone.
    #[verifier::when_used_as_spec(spec_le)]
    pub fn le(self, other: Real) -> (r: bool)
        ensures
            r == self.spec_le(other),
    {
        if self.is_nan() || other.is_nan() {
            return false;
        }
        let a: u64 = self.magnitude_bits();
        let b: u64 = other.magnitude_bits();
        if self.bits >= SIGN_BIT {
            if other.bits >= SIGN_BIT {
                b <= a
            } else {
                true
            }
        } else {
            if other.bits >= SIGN_BIT {
                a == 0 && b == 0
            } else {
                a <= b
            }
        }
    }
}

/// The rank orders the finite numbers as their values do, and the zeros are
/// the numbers of value zero. So the tests that the kernel makes on bits
/// are tests on values.
pub proof fn law_rank_orders_by_value(x: Real, y: Real)
    requires
        x.is_finite(),
        y.is_finite(),
    ensures
        (x.rank() <= y.rank()) == (x.units() <= y.units()),
        x.spec_le(y) == (x.units() <= y.units()),
        x.spec_is_zero() == (x.units() == 0),
        x.units() >= 0 ==> x.spec_abs().units() == x.units(),
        x.units() < 0 ==> x.spec_abs().units() == -x.units(),
{
    let mx = x.magnitude();
    let my = y.magnitude();
    assert(units_of(0) == 0);
    if mx > 0 {
        lemma_units_increase(0, mx);
    }
    if my > 0 {
        lemma_units_increase(0, my);
    }
    if mx < my {
        lemma_units_increase(mx, my);
    }
    if my < mx {
        lemma_units_increase(my, mx);
    }
}

/// In the order of `le`, every number is at most positive infinity and at
/// least negative infinity.
pub proof fn law_infinities_bound_every_number(x: Real)
    requires
        !x.spec_is_nan(),
    ensures
        x.spec_le(Real::infinity()),
        Real::negative_infinity().spec_le(x),
{
}

/// Every entry is a number that is at least zero, and no entry is greater
/// than one before it.
pub open spec fn descending_non_negative(s: Seq<Real>) -> bool {
    &&& forall|i: int| 0 <= i < s.len() ==> Real::spec_zero().spec_le(#[trigger] s[i])
    &&& forall|i: int, j: int| 0 <= i <= j < s.len() ==> (#[trigger] s[j]).spec_le(#[trigger] s[i])
}

/// Tests `descending_non_negative` by one pass over neighbouring entries.
pub fn is_descending_non_negative(s: &Vec<Real>) -> (ok: bool)
    ensures
        ok == descending_non_negative(s@),
{
    let mut k: usize = 0;
    while k < s.len()
        invariant
            k <= s.len(),
            descending_non_negative(s@.take(k as int)),
        decreases s.len() - k,
    {
        let x: Real = s[k];
        let fits = Real::zero().le(x) && (k == 0 || x.le(s[k - 1]));
        if !fits {
            proof {
                if descending_non_negative(s@) {
                    assert(Real::spec_zero().spec_le(s@[k as int]));
                    if k > 0 {
                        assert(s@[k as int].spec_le(s@[k - 1]));
                    }
                }
            }
            return false;
        }
        proof {
            let before = s@.take(k as int);
            let after = s@.take(k + 1);
            assert forall|i: int, j: int| 0 <= i <= j < after.len() implies (#[trigger] after[j]).spec_le(
                #[trigger] after[i],
            ) by {
                if j < k {
                    assert(before[j].spec_le(before[i]));
                } else if i < k {
                    assert(before[k - 1].spec_le(before[i]));
                }
            }
            assert forall|i: int| 0 <= i < after.len() implies Real::spec_zero().spec_le(
                #[trigger] after[i],
            ) by {
                if i < k {
                    assert(Real::spec_zero().spec_le(before[i]));
                }
            }
        }
        k += 1;
    }
    proof {
        assert(s@.take(s.len() as int) =~= s@);
    }
    true
}

} // verus!
