//! What a bit pattern stands for, and why the order of the patterns is the
//! order of the numbers.

use crate::scalar::Scalar;
use vstd::arithmetic::power2::lemma_pow2_pos;
use vstd::arithmetic::power2::lemma_pow2_strictly_increases;
use vstd::arithmetic::power2::lemma_pow2_unfold;
use vstd::arithmetic::power2::pow2;
use vstd::prelude::*;

verus! {

/// Two to the power 52: the weight of the exponent field in a bit pattern,
/// and the hidden leading bit of a normal number's significand.
pub const HIDDEN_BIT: u64 = 0x0010_0000_0000_0000;

/// The value that a binary64 bit pattern encodes.
pub enum Number {
    /// Not a number.
    Nan,
    NegInfinity,
    Infinity,
    /// A finite number, counted in units of two to the power -1074, the least
    /// positive binary64 number. Every finite binary64 number is a whole
    /// number of these units; both zeros are 0 units.
    Finite(int),
}

/// The strict order of the extended real line; a NaN is on neither side of
/// anything.
pub open spec fn number_lt(a: Number, b: Number) -> bool {
    match (a, b) {
        (Number::Nan, _) => false,
        (_, Number::Nan) => false,
        (_, Number::NegInfinity) => false,
        (Number::NegInfinity, _) => true,
        (Number::Infinity, _) => false,
        (_, Number::Infinity) => true,
        (Number::Finite(x), Number::Finite(y)) => x < y,
    }
}

/// The absolute value.
pub open spec fn number_abs(a: Number) -> Number {
    match a {
        Number::Nan => Number::Nan,
        Number::NegInfinity => Number::Infinity,
        Number::Infinity => Number::Infinity,
        Number::Finite(x) => Number::Finite(
            if x < 0 {
                -x
            } else {
                x
            },
        ),
    }
}

/// The opposite number.
pub open spec fn number_neg(a: Number) -> Number {
    match a {
        Number::Nan => Number::Nan,
        Number::NegInfinity => Number::Infinity,
        Number::Infinity => Number::NegInfinity,
        Number::Finite(x) => Number::Finite(-x),
    }
}

impl Scalar {
    /// The biased exponent: the eleven bits below the sign.
    pub open spec fn exponent_field(self) -> int {
        self.magnitude() / (HIDDEN_BIT as int)
    }

    /// The fraction: the lowest 52 bits.
    pub open spec fn fraction_field(self) -> int {
        self.magnitude() % (HIDDEN_BIT as int)
    }

    /// The absolute value of a finite number in units of two to the power
    /// -1074: the bare fraction of a subnormal number, and the fraction
    /// under its hidden bit, shifted by the exponent, of a normal one.
    pub open spec fn unit_count(self) -> int {
        if self.exponent_field() == 0 {
            self.fraction_field()
        } else {
            (HIDDEN_BIT + self.fraction_field()) * pow2((self.exponent_field() - 1) as nat)
        }
    }
}

impl View for Scalar {
    type V = Number;

    open spec fn view(&self) -> Number {
        if self.nan() {
            Number::Nan
        } else if self.infinite() {
            if self.negative() {
                Number::NegInfinity
            } else {
                Number::Infinity
            }
        } else if self.negative() {
            Number::Finite(-self.unit_count())
        } else {
            Number::Finite(self.unit_count())
        }
    }
}

/// Among finite numbers a larger magnitude of the bit pattern is a larger
/// absolute value.
pub proof fn lemma_magnitude_orders_units(a: Scalar, b: Scalar)
    requires
        a.finite(),
        b.finite(),
        a.magnitude() < b.magnitude(),
    ensures
        0 <= a.unit_count() < b.unit_count(),
{
    let h = HIDDEN_BIT as int;
    let ea = a.exponent_field();
    let eb = b.exponent_field();
    let fa = a.fraction_field();
    let fb = b.fraction_field();
    assert(a.magnitude() == ea * h + fa && 0 <= fa < h && 0 <= ea) by (nonlinear_arith)
        requires
            ea == a.magnitude() / h,
            fa == a.magnitude() % h,
            h == 0x0010_0000_0000_0000,
            a.magnitude() >= 0,
    ;
    assert(b.magnitude() == eb * h + fb && 0 <= fb < h && 0 <= eb) by (nonlinear_arith)
        requires
            eb == b.magnitude() / h,
            fb == b.magnitude() % h,
            h == 0x0010_0000_0000_0000,
            b.magnitude() >= 0,
    ;
    assert(ea < eb || (ea == eb && fa < fb)) by (nonlinear_arith)
        requires
            ea * h + fa < eb * h + fb,
            0 <= fa < h,
            0 <= fb < h,
    ;
    if ea == 0 {
        if eb > 0 {
            let pb = pow2((eb - 1) as nat) as int;
            lemma_pow2_pos((eb - 1) as nat);
            assert(fa < (h + fb) * pb) by (nonlinear_arith)
                requires
                    0 <= fa < h,
                    0 <= fb,
                    pb >= 1,
            ;
        }
    } else {
        let pa = pow2((ea - 1) as nat) as int;
        let pb = pow2((eb - 1) as nat) as int;
        lemma_pow2_pos((ea - 1) as nat);
        lemma_pow2_pos((eb - 1) as nat);
        if ea == eb {
            assert(0 <= (h + fa) * pa < (h + fb) * pa) by (nonlinear_arith)
                requires
                    0 <= fa < fb,
                    h > 0,
                    pa >= 1,
            ;
        } else {
            lemma_pow2_unfold(ea as nat);
            if ea < eb - 1 {
                lemma_pow2_strictly_increases(ea as nat, (eb - 1) as nat);
            }
            assert(0 <= (h + fa) * pa < (h + fb) * pb) by (nonlinear_arith)
                requires
                    0 <= fa < h,
                    0 <= fb,
                    pa >= 1,
                    2 * pa <= pb,
            ;
        }
    }
}

/// The order of ranks is the order of the numbers: for two bit patterns,
/// `spec_lt`, `spec_le` and `spec_eq`, which compare ranks, say what `<`,
/// `<=` and `==` say of the numbers that the patterns encode.
pub proof fn lemma_order_is_numeric(a: Scalar, b: Scalar)
    ensures
        a.spec_lt(b) <==> number_lt(a@, b@),
        a.spec_le(b) <==> number_lt(a@, b@) || (a@ == b@ && !(a@ is Nan)),
        a.spec_eq(b) <==> a@ == b@ && !(a@ is Nan),
{
    if a.finite() && b.finite() {
        if a.magnitude() < b.magnitude() {
            lemma_magnitude_orders_units(a, b);
        } else if b.magnitude() < a.magnitude() {
            lemma_magnitude_orders_units(b, a);
        }
        lemma_units_nonnegative(a);
        lemma_units_nonnegative(b);
    }
}

/// A finite number has a non-negative count of units, and none exactly
/// when it is a zero.
pub proof fn lemma_units_nonnegative(a: Scalar)
    requires
        a.finite(),
    ensures
        a.unit_count() >= 0,
        a.unit_count() == 0 <==> a.magnitude() == 0,
{
    if a.magnitude() > 0 {
        lemma_magnitude_orders_units(Scalar { bits: 0 }, a);
    }
}

/// Flipping the sign bit negates the number, and clearing it gives the
/// absolute value.
pub proof fn lemma_sign_is_numeric(a: Scalar)
    ensures
        a.spec_neg()@ == number_neg(a@),
        a.spec_abs()@ == number_abs(a@),
{
    if a.finite() {
        lemma_units_nonnegative(a);
    }
}

/// The numbers behind the bit patterns that the library names: the zeros,
/// the least positive number, one, the machine epsilon, the two bounds of a
/// segment parameter, the pull of gravity and the infinities.
pub proof fn lemma_named_patterns()
    ensures
        (Scalar { bits: 0 })@ == Number::Finite(0),
        (Scalar { bits: crate::scalar::SIGN_BIT })@ == Number::Finite(0),
        (Scalar { bits: 1 })@ == Number::Finite(1),
        (Scalar { bits: crate::scalar::ONE_BITS })@ == Number::Finite(pow2(1074) as int),
        (Scalar { bits: crate::scalar::EPSILON_BITS })@ == Number::Finite(pow2(1022) as int),
        (Scalar { bits: crate::collision::PARAMETER_MIN_BITS })@ == Number::Finite(
            -(pow2(1022) as int),
        ),
        (Scalar { bits: crate::collision::PARAMETER_MAX_BITS })@ == Number::Finite(
            (pow2(1074) + pow2(1022)) as int,
        ),
        (Scalar { bits: crate::step::GRAVITY_BITS })@ == Number::Finite(pow2(1076) as int),
        (Scalar { bits: crate::scalar::INFINITY_BITS })@ == Number::Infinity,
        (Scalar { bits: crate::scalar::NEG_INFINITY_BITS })@ == Number::NegInfinity,
{
    let h = HIDDEN_BIT as int;
    vstd::arithmetic::power2::lemma2_to64_rest();
    vstd::arithmetic::power2::lemma_pow2_adds(52, 1022);
    vstd::arithmetic::power2::lemma_pow2_adds(52, 970);
    vstd::arithmetic::power2::lemma_pow2_adds(52, 1024);
    assert((h + 1) * pow2(1022) == pow2(1074) + pow2(1022)) by (nonlinear_arith)
        requires
            h * pow2(1022) == pow2(1074),
    ;
}

} // verus!
