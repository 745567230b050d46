//! Reading single-precision numbers, given by their bits, as fixed point.
//!
//! The tessellator reports positions in single precision. A brush is evaluated
//! in fixed point, so each coordinate is read from its bit pattern: scaled by
//! `UNIT`, rounded towards zero, and held within the range of `i32`.

use vstd::prelude::*;
use vstd::arithmetic::power2::{lemma2_to64, lemma_pow2_strictly_increases, lemma_pow2_unfold, pow2};
use vstd::arithmetic::div_mod::{lemma_basic_div, lemma_div_denominator};
use vstd::arithmetic::mul::lemma_mul_inequality;

verus! {

/// Whether the sign bit is set.
pub open spec fn sign_of(bits: u32) -> bool {
    bits >= 0x8000_0000
}

/// The biased exponent: the eight bits below the sign.
pub open spec fn exponent_of(bits: u32) -> int {
    (bits as int / 0x80_0000) % 256
}

/// The fraction: the lowest twenty-three bits.
pub open spec fn fraction_of(bits: u32) -> int {
    bits as int % 0x80_0000
}

/// Whether the bits hold no number at all.
pub open spec fn not_a_number(bits: u32) -> bool {
    exponent_of(bits) == 255 && fraction_of(bits) != 0
}

/// The magnitude of the number times `UNIT`, rounded down. A normal number is
/// its twenty-four bit significand times two to the power of the exponent
/// less 150; times `UNIT` that power is the exponent less 134. Numbers below
/// the normal range round to zero.
pub open spec fn scaled_magnitude(bits: u32) -> int {
    let e = exponent_of(bits);
    let m = 0x80_0000 + fraction_of(bits);
    if e == 0 {
        0
    } else if e >= 134 {
        m * pow2((e - 134) as nat)
    } else {
        m / (pow2((134 - e) as nat) as int)
    }
}

/// The fixed-point reading of the bits: the scaled number rounded towards
/// zero, the nearest end of the range where it lies outside, and zero where
/// the bits hold no number.
pub open spec fn fixed_of_single(bits: u32) -> int {
    if not_a_number(bits) {
        0
    } else if sign_of(bits) {
        if scaled_magnitude(bits) > 0x8000_0000 {
            i32::MIN as int
        } else {
            -scaled_magnitude(bits)
        }
    } else {
        if scaled_magnitude(bits) > i32::MAX {
            i32::MAX as int
        } else {
            scaled_magnitude(bits)
        }
    }
}

/// Whether the bits hold a number that fixed point holds without reaching
/// the ends of its range: a number of magnitude below `32768`.
pub open spec fn on_canvas(bits: u32) -> bool {
    exponent_of(bits) < 142
}

/// Whether the bits hold a positive number of at least `floor` that fixed
/// point holds: not below two to the power of `floor` less 127, and below
/// `32768`.
pub open spec fn measure_from(bits: u32, floor: int) -> bool {
    !sign_of(bits) && floor <= exponent_of(bits) < 142
}

/// Tells whether fixed point holds the number without reaching the ends of
/// its range.
pub fn is_on_canvas(bits: u32) -> (r: bool)
    ensures
        r == on_canvas(bits),
{
    (bits / 0x80_0000) % 256 < 142
}

/// Tells whether the bits hold a positive number between the two bounds.
pub fn is_measure_from(bits: u32, floor: u32) -> (r: bool)
    ensures
        r == measure_from(bits, floor as int),
{
    let e: u32 = (bits / 0x80_0000) % 256;
    bits < 0x8000_0000 && floor <= e && e < 142
}

/// A number on the canvas is read without saturation, and is a number.
pub proof fn lemma_on_canvas_is_exact(bits: u32)
    requires
        on_canvas(bits),
    ensures
        !not_a_number(bits),
        scaled_magnitude(bits) < 0x8000_0000,
        fixed_of_single(bits) == if sign_of(bits) {
            -scaled_magnitude(bits)
        } else {
            scaled_magnitude(bits)
        },
{
    let e = exponent_of(bits);
    let m = 0x80_0000 + fraction_of(bits);
    lemma2_to64();
    if e >= 134 {
        let lift = (e - 134) as nat;
        if lift < 7 {
            lemma_pow2_strictly_increases(lift, 7);
        }
        lemma_mul_inequality(pow2(lift) as int, 128, m);
        assert(m * pow2(lift) == pow2(lift) * m) by (nonlinear_arith);
    } else if e > 0 {
        let drop = (134 - e) as nat;
        vstd::arithmetic::power2::lemma_pow2_pos(drop);
        assert(m / (pow2(drop) as int) <= m) by (nonlinear_arith)
            requires
                m >= 0,
                pow2(drop) >= 1,
        ;
    }
}

/// The bits of a single-precision number that is a number: what an offset
/// must be, since no order places anything else among the stops.
#[derive(Clone, Copy, Debug, PartialEq, Eq)]
pub struct NonNan(u32);

impl NonNan {
    /// The bits that were checked.
    pub closed spec fn bits(self) -> u32 {
        self.0
    }

    #[verifier::type_invariant]
    spec fn is_number(self) -> bool {
        !not_a_number(self.0)
    }

    /// Accepts the bits of every number, the infinities included, and
    /// refuses those that hold none.
    pub fn new_checked(bits: u32) -> (checked: Option<Self>)
        ensures
            checked is None <==> not_a_number(bits),
            checked matches Some(n) ==> n.bits() == bits,
    {
        if (bits / 0x80_0000) % 256 == 255 && bits % 0x80_0000 != 0 {
            None
        } else {
            Some(Self(bits))
        }
    }

    /// The number in fixed point.
    pub fn fixed(&self) -> (r: i32)
        ensures
            !not_a_number(self.bits()),
            r == fixed_of_single(self.bits()),
    {
        proof {
            use_type_invariant(self);
        }
        fixed_from_single(self.0)
    }
}

/// Reads a single-precision number, given by its bits, as fixed point.
pub fn fixed_from_single(bits: u32) -> (r: i32)
    ensures
        r == fixed_of_single(bits),
{
    let negative: bool = bits >= 0x8000_0000;
    let e: u32 = (bits / 0x80_0000) % 256;
    let f: u32 = bits % 0x80_0000;
    if e == 255 && f != 0 {
        return 0;
    }
    if e == 0 {
        return 0;
    }
    let m: u32 = 0x80_0000 + f;
    proof {
        lemma2_to64();
    }
    if e >= 142 {
        proof {
            let lift = (e - 134) as nat;
            if lift > 8 {
                lemma_pow2_strictly_increases(8, lift);
            }
            lemma_mul_inequality(256, pow2(lift) as int, m as int);
            assert(m * pow2(lift) == pow2(lift) * m) by (nonlinear_arith);
            assert(scaled_magnitude(bits) >= 256 * m);
        }
        return if negative {
            i32::MIN
        } else {
            i32::MAX
        };
    }
    let mut magnitude: u32 = m;
    if e >= 134 {
        let lift: u32 = e - 134;
        let mut k: u32 = 0;
        while k < lift
            invariant
                k <= lift <= 7,
                0x80_0000 <= m < 0x100_0000,
                magnitude == m * pow2(k as nat),
                magnitude < 0x100_0000 * pow2(k as nat),
            decreases lift - k,
        {
            proof {
                lemma_pow2_unfold((k + 1) as nat);
                lemma2_to64();
                if k < 7 {
                    lemma_pow2_strictly_increases(k as nat, 7);
                }
                assert(m * (2 * pow2(k as nat)) == 2 * (m * pow2(k as nat))) by (nonlinear_arith);
            }
            magnitude = magnitude * 2;
            k += 1;
        }
    } else if e <= 110 {
        proof {
            let drop = (134 - e) as nat;
            if drop > 24 {
                lemma_pow2_strictly_increases(24, drop);
            }
            lemma_basic_div(m as int, pow2(drop) as int);
        }
        return 0;
    } else {
        let drop: u32 = 134 - e;
        let mut k: u32 = 0;
        while k < drop
            invariant
                k <= drop,
                magnitude == m as int / (pow2(k as nat) as int),
            decreases drop - k,
        {
            proof {
                lemma_pow2_unfold((k + 1) as nat);
                vstd::arithmetic::power2::lemma_pow2_pos(k as nat);
                lemma_div_denominator(m as int, pow2(k as nat) as int, 2);
                assert(pow2(k as nat) * 2 == 2 * pow2(k as nat)) by (nonlinear_arith);
            }
            magnitude = magnitude / 2;
            k += 1;
        }
    }
    if negative {
        -(magnitude as i64) as i32
    } else {
        magnitude as i32
    }
}

} // verus!
