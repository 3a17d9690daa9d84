//! Token amounts counted in attotokens, with checked and saturating arithmetic.

use vstd::prelude::*;

verus! {

/// Number of attotokens in one token (ten to the eighteenth).
pub const ATTOS_PER_TOKEN: u128 = 1_000_000_000_000_000_000u128;

/// An amount of native tokens, counted in attotokens.
#[derive(Clone, Copy, Debug, PartialEq, Eq, Structural)]
pub struct Amount {
    pub attos: u128,
}

/// The failure of a checked operation on amounts.
#[derive(Clone, Copy, Debug, PartialEq, Eq, Structural)]
pub enum ArithmeticError {
    Overflow,
    Underflow,
}

/// `x` capped at the largest `u128`.
pub open spec fn saturate(x: int) -> u128 {
    if x > u128::MAX { u128::MAX } else if x < 0 { 0 } else { x as u128 }
}

impl Amount {
    /// The amount holding no token.
    pub fn zero() -> (r: Amount)
        ensures
            r.attos == 0,
    {
        Amount { attos: 0 }
    }

    /// The amount of exactly `attos` attotokens.
    pub fn from_attos(attos: u128) -> (r: Amount)
        ensures
            r.attos == attos,
    {
        Amount { attos }
    }

    /// The number of attotokens in this amount.
    pub fn to_attos(self) -> (r: u128)
        ensures
            r == self.attos,
    {
        self.attos
    }

    /// The amount of `tokens` whole tokens, or the largest amount if that does not fit.
    pub fn from_tokens(tokens: u128) -> (r: Amount)
        ensures
            r.attos == saturate(ATTOS_PER_TOKEN * tokens),
    {
        Amount { attos: ATTOS_PER_TOKEN }.saturating_mul(tokens)
    }

    /// Whether this amount is zero.
    pub fn is_zero(&self) -> (r: bool)
        ensures
            r == (self.attos == 0),
    {
        self.attos == 0
    }

    /// Checked addition.
    pub fn try_add(self, other: Amount) -> (r: Result<Amount, ArithmeticError>)
        ensures
            self.attos + other.attos <= u128::MAX ==> r == Ok::<Amount, ArithmeticError>(
                Amount { attos: (self.attos + other.attos) as u128 },
            ),
            self.attos + other.attos > u128::MAX ==> r == Err::<Amount, ArithmeticError>(
                ArithmeticError::Overflow,
            ),
    {
        match self.attos.checked_add(other.attos) {
            Some(v) => Ok(Amount { attos: v }),
            None => Err(ArithmeticError::Overflow),
        }
    }

    /// Checked subtraction.
    pub fn try_sub(self, other: Amount) -> (r: Result<Amount, ArithmeticError>)
        ensures
            self.attos >= other.attos ==> r == Ok::<Amount, ArithmeticError>(
                Amount { attos: (self.attos - other.attos) as u128 },
            ),
            self.attos < other.attos ==> r == Err::<Amount, ArithmeticError>(
                ArithmeticError::Underflow,
            ),
    {
        if self.attos >= other.attos {
            Ok(Amount { attos: self.attos - other.attos })
        } else {
            Err(ArithmeticError::Underflow)
        }
    }

    /// Checked multiplication by a plain number.
    pub fn try_mul(self, other: u128) -> (r: Result<Amount, ArithmeticError>)
        ensures
            self.attos * other <= u128::MAX ==> r == Ok::<Amount, ArithmeticError>(
                Amount { attos: (self.attos * other) as u128 },
            ),
            self.attos * other > u128::MAX ==> r == Err::<Amount, ArithmeticError>(
                ArithmeticError::Overflow,
            ),
    {
        match self.attos.checked_mul(other) {
            Some(v) => Ok(Amount { attos: v }),
            None => Err(ArithmeticError::Overflow),
        }
    }

    /// Saturating addition.
    pub fn saturating_add(self, other: Amount) -> (r: Amount)
        ensures
            r.attos == saturate(self.attos + other.attos),
    {
        Amount { attos: self.attos.saturating_add(other.attos) }
    }

    /// Saturating multiplication by a plain number.
    pub fn saturating_mul(self, other: u128) -> (r: Amount)
        ensures
            r.attos == saturate(self.attos * other),
    {
        match self.attos.checked_mul(other) {
            Some(v) => Amount { attos: v },
            None => Amount { attos: u128::MAX },
        }
    }

    /// Checked in-place addition; the amount is left unchanged on overflow.
    pub fn try_add_assign(&mut self, other: Amount) -> (r: Result<(), ArithmeticError>)
        ensures
            old(self).attos + other.attos <= u128::MAX ==> r is Ok && final(self).attos
                == old(self).attos + other.attos,
            old(self).attos + other.attos > u128::MAX ==> r == Err::<(), ArithmeticError>(
                ArithmeticError::Overflow,
            ) && *final(self) == *old(self),
    {
        match self.attos.checked_add(other.attos) {
            Some(v) => {
                self.attos = v;
                Ok(())
            },
            None => Err(ArithmeticError::Overflow),
        }
    }

    /// Checked in-place subtraction; the amount is left unchanged on underflow.
    pub fn try_sub_assign(&mut self, other: Amount) -> (r: Result<(), ArithmeticError>)
        ensures
            old(self).attos >= other.attos ==> r is Ok && final(self).attos == old(self).attos
                - other.attos,
            old(self).attos < other.attos ==> r == Err::<(), ArithmeticError>(
                ArithmeticError::Underflow,
            ) && *final(self) == *old(self),
    {
        if self.attos >= other.attos {
            self.attos = self.attos - other.attos;
            Ok(())
        } else {
            Err(ArithmeticError::Underflow)
        }
    }

    /// Saturating in-place addition.
    pub fn saturating_add_assign(&mut self, other: Amount)
        ensures
            final(self).attos == saturate(old(self).attos + other.attos),
    {
        self.attos = self.attos.saturating_add(other.attos);
    }

    /// The smaller of two amounts.
    pub fn min(self, other: Amount) -> (r: Amount)
        ensures
            r.attos == if self.attos <= other.attos { self.attos } else { other.attos },
    {
        if self.attos <= other.attos { self } else { other }
    }
}

} // verus!
