use vstd::pervasive::arbitrary;
use vstd::prelude::*;

use crate::arithmetic::Arithmetic;
use crate::arithmetic::Promote;

verus! {

/// The unary operations a model function may ask of an engine scalar, on
/// top of the ring operations of `Arithmetic`. Implemented by `Dual` inside
/// this crate (propagating gradients by the chain rule) and by the caller's
/// base scalar outside it.
///
/// `abs` and `relu` have no abstract operation of their own: their meaning
/// is spelled out case by case over the order, the negation and zero, so
/// that every implementation computes the same function. The square is
/// spelled out as a product for the same reason.
pub trait ExtendedArithmetic: Arithmetic {
    /// Abstract square root.
    open spec fn sp_sqrt(x: Self::V) -> Self::V {
        arbitrary()
    }

    /// Abstract negation.
    open spec fn sp_neg(x: Self::V) -> Self::V {
        arbitrary()
    }

    /// Abstract logistic function.
    open spec fn sp_sigmoid(x: Self::V) -> Self::V {
        arbitrary()
    }

    fn sqrt(self) -> (r: Self)
        ensures
            r.v() == Self::sp_sqrt(self.v()),
    ;

    fn neg(self) -> (r: Self)
        ensures
            r.v() == Self::sp_neg(self.v()),
    ;

    fn sigmoid(self) -> (r: Self)
        ensures
            r.v() == Self::sp_sigmoid(self.v()),
    ;

    fn abs(self) -> (r: Self)
        ensures
            Self::sp_lt(self.v(), Self::sp_zero()) ==> r.v() == Self::sp_neg(self.v()),
            !Self::sp_lt(self.v(), Self::sp_zero()) ==> r.v() == self.v(),
    ;

    fn relu(self) -> (r: Self)
        ensures
            Self::sp_lt(self.v(), Self::sp_zero()) ==> r.v() == Self::sp_zero(),
            !Self::sp_lt(self.v(), Self::sp_zero()) ==> r.v() == self.v(),
    ;

    fn pow2(self) -> (r: Self)
        ensures
            r.v() == Self::sp_mul(self.v(), self.v()),
    {
        let a = self.dup();
        a.mul(self)
    }

    fn sqrt_on_mut(&mut self)
        ensures
            final(self).v() == Self::sp_sqrt(old(self).v()),
    {
        let a = self.dup();
        *self = a.sqrt();
    }

    fn neg_on_mut(&mut self)
        ensures
            final(self).v() == Self::sp_neg(old(self).v()),
    {
        let a = self.dup();
        *self = a.neg();
    }

    fn pow2_on_mut(&mut self)
        ensures
            final(self).v() == Self::sp_mul(old(self).v(), old(self).v()),
    {
        let a = self.dup();
        *self = a.pow2();
    }

    fn abs_on_mut(&mut self)
        ensures
            Self::sp_lt(old(self).v(), Self::sp_zero()) ==> final(self).v() == Self::sp_neg(
                old(self).v(),
            ),
            !Self::sp_lt(old(self).v(), Self::sp_zero()) ==> final(self).v() == old(self).v(),
    {
        let a = self.dup();
        *self = a.abs();
    }

    fn sigmoid_on_mut(&mut self)
        ensures
            final(self).v() == Self::sp_sigmoid(old(self).v()),
    {
        let a = self.dup();
        *self = a.sigmoid();
    }

    fn relu_on_mut(&mut self)
        ensures
            Self::sp_lt(old(self).v(), Self::sp_zero()) ==> final(self).v() == Self::sp_zero(),
            !Self::sp_lt(old(self).v(), Self::sp_zero()) ==> final(self).v() == old(self).v(),
    {
        let a = self.dup();
        *self = a.relu();
    }

    fn accumulate(&mut self, x: Self)
        ensures
            final(self).v() == Self::sp_add(old(self).v(), x.v()),
    {
        let a = self.dup();
        *self = a.add(x);
    }

}

/// The algebraic laws that the verified storage backends rest on, stated
/// over views. Only the crate's *base* scalars carry them: a floating-point
/// wrapper satisfies them in the numeric reading of its view on ordinary
/// values (NaN and infinities stay outside the contract), and every proof
/// in this crate that needs a law takes it from here. `Dual` itself does
/// not implement this trait: what holds of a dual number is derived from
/// the laws of its base scalar.
pub trait ArithmeticLaws: ExtendedArithmetic + Promote<Self> {
    /// A base scalar promotes to itself.
    proof fn lemma_promote_id(x: Self::V)
        ensures
            Self::sp_promote(x) == x,
    ;

    /// Zero is the additive identity.
    proof fn lemma_add_zero(x: Self::V)
        ensures
            Self::sp_add(x, Self::sp_zero()) == x,
            Self::sp_add(Self::sp_zero(), x) == x,
    ;

    /// Subtracting zero keeps a value.
    proof fn lemma_sub_zero(x: Self::V)
        ensures
            Self::sp_sub(x, Self::sp_zero()) == x,
    ;

    /// Scaling zero gives zero.
    proof fn lemma_mul_zero(k: Self::V)
        ensures
            Self::sp_mul(Self::sp_zero(), k) == Self::sp_zero(),
    ;

    /// Dividing zero gives zero.
    proof fn lemma_div_zero(k: Self::V)
        ensures
            Self::sp_div(Self::sp_zero(), k) == Self::sp_zero(),
    ;

    /// Negating zero gives zero.
    proof fn lemma_neg_zero()
        ensures
            Self::sp_neg(Self::sp_zero()) == Self::sp_zero(),
    ;

    /// Negation is subtraction from zero.
    proof fn lemma_neg_is_zero_sub(x: Self::V)
        ensures
            Self::sp_neg(x) == Self::sp_sub(Self::sp_zero(), x),
    ;

    /// Subtraction is addition of the negation.
    proof fn lemma_sub_is_add_neg(x: Self::V, y: Self::V)
        ensures
            Self::sp_sub(x, y) == Self::sp_add(x, Self::sp_neg(y)),
    ;

    /// Doubling then halving gives the value back: both are exact for
    /// ordinary binary floating-point values.
    proof fn lemma_half_double(x: Self::V)
        ensures
            Self::sp_div(
                Self::sp_add(x, x),
                Self::sp_add(Self::sp_one(), Self::sp_one()),
            ) == x,
    ;

    /// Halving then doubling gives the value back, for the same reason.
    proof fn lemma_double_half(x: Self::V)
        ensures
            Self::sp_add(
                Self::sp_div(x, Self::sp_add(Self::sp_one(), Self::sp_one())),
                Self::sp_div(x, Self::sp_add(Self::sp_one(), Self::sp_one())),
            ) == x,
    ;

    /// Parsing a rendered value gives the value back: the decimal form is
    /// faithful. (A float wrapper prints the shortest representation that
    /// parses back to the same float.)
    proof fn lemma_decimal_round_trip(x: Self::V)
        ensures
            Self::sp_parse(Self::sp_decimal(x)) == Some(x),
    ;
}

/// The absolute value that `abs` computes: negate exactly when the value is
/// numerically below zero.
pub open spec fn sp_abs<N: ExtendedArithmetic>(x: N::V) -> N::V {
    if N::sp_lt(x, N::sp_zero()) {
        N::sp_neg(x)
    } else {
        x
    }
}

/// The rectifier that `relu` computes: zero below zero, identity elsewhere.
pub open spec fn sp_relu<N: ExtendedArithmetic>(x: N::V) -> N::V {
    if N::sp_lt(x, N::sp_zero()) {
        N::sp_zero()
    } else {
        x
    }
}

} // verus!
