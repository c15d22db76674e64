use vstd::prelude::*;

verus! {

/// A signed decimal amount `mantissa / 10^scale`, in the range that
/// `rust_decimal::Decimal` holds.
#[derive(Clone, Copy, Debug, PartialEq, Eq, Structural)]
pub struct Amount {
    pub mantissa: i128,
    pub scale: u32,
}

pub const MAX_MANTISSA: i128 = 0xffff_ffff_ffff_ffff_ffff_ffff;

pub const MAX_SCALE: u32 = 28;

/// The positive part of an amount, with its scale.
pub open spec fn debit_of(a: Amount) -> Amount {
    Amount { mantissa: if a.mantissa > 0 { a.mantissa } else { 0 }, scale: a.scale }
}

/// The negative part of an amount, negated, with its scale.
pub open spec fn credit_of(a: Amount) -> Amount {
    Amount { mantissa: if a.mantissa < 0 { (-a.mantissa) as i128 } else { 0 }, scale: a.scale }
}

impl Amount {
    pub open spec fn wf(&self) -> bool {
        -MAX_MANTISSA <= self.mantissa <= MAX_MANTISSA && self.scale <= MAX_SCALE
    }

    /// Zero, written with `scale` decimals.
    pub fn zero(scale: u32) -> (r: Amount)
        ensures
            r.mantissa == 0,
            r.scale == scale,
    {
        Amount { mantissa: 0, scale }
    }

    /// The positive part: the amount itself when above zero, else zero.
    pub fn debit_part(&self) -> (r: Amount)
        requires
            self.wf(),
        ensures
            r.wf(),
            r == debit_of(*self),
    {
        if self.mantissa > 0 {
            *self
        } else {
            Amount::zero(self.scale)
        }
    }

    /// The negative part, as a non-negative amount: the amount negated when
    /// below zero, else zero.
    pub fn credit_part(&self) -> (r: Amount)
        requires
            self.wf(),
        ensures
            r.wf(),
            r == credit_of(*self),
    {
        if self.mantissa < 0 {
            Amount { mantissa: -self.mantissa, scale: self.scale }
        } else {
            Amount::zero(self.scale)
        }
    }
}

} // verus!
