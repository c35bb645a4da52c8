use vstd::pervasive::arbitrary;
use vstd::prelude::*;

verus! {

/// Capability contract for the scalar type that the whole engine is generic
/// over.
///
/// The engine never fixes a concrete number type: every value that flows
/// through gradient vectors, dual numbers and the trainer is some
/// `Arithmetic` scalar. Callers instantiate it with their numeric type (a
/// plain float wrapper is the usual choice); inside this crate, `Dual`
/// implements it, so the same model function body serves both the inference
/// path (plain scalars) and the training path (dual numbers).
///
/// Contracts never speak about the machine representation of a scalar:
/// they speak about its *view* `v()`, an abstract value of type `V`, and
/// each executable operation is pinned to an abstract operation on views
/// (`sp_add`, `sp_mul`, ...). For a float wrapper the intended view is the
/// numeric value the float denotes; NaN and infinities are the usual
/// floating-point soft spot and are outside the laws stated over these
/// operations (see `ArithmeticLaws`).
///
/// The spec members default to an unconstrained value, so that an
/// implementation outside the verifier — which cannot write specification
/// functions — needs to provide the executable operations alone. Every
/// implementation inside this crate overrides all of them.
pub trait Arithmetic: Sized {
    /// The abstract value a scalar denotes.
    type V;

    /// The view: the abstract value of this scalar.
    open spec fn v(&self) -> Self::V {
        arbitrary()
    }

    /// The additive identity, as a view.
    open spec fn sp_zero() -> Self::V {
        arbitrary()
    }

    /// The multiplicative identity, as a view.
    open spec fn sp_one() -> Self::V {
        arbitrary()
    }

    /// Abstract addition.
    open spec fn sp_add(a: Self::V, b: Self::V) -> Self::V {
        arbitrary()
    }

    /// Abstract subtraction.
    open spec fn sp_sub(a: Self::V, b: Self::V) -> Self::V {
        arbitrary()
    }

    /// Abstract multiplication.
    open spec fn sp_mul(a: Self::V, b: Self::V) -> Self::V {
        arbitrary()
    }

    /// Abstract division. Scalars of this engine keep division total, as
    /// floats do; nothing is promised about a zero divisor.
    open spec fn sp_div(a: Self::V, b: Self::V) -> Self::V {
        arbitrary()
    }

    /// Numeric strict order. For a dual number this compares the value
    /// parts alone.
    open spec fn sp_lt(a: Self::V, b: Self::V) -> bool {
        arbitrary()
    }

    /// Numeric equality: the equality that `sp_lt` is the strict order of.
    /// For a dual number it compares the value parts alone.
    open spec fn sp_eq_num(a: Self::V, b: Self::V) -> bool {
        arbitrary()
    }

    /// The view of a small whole number, as used for averaging over a
    /// dataset of that many examples.
    open spec fn sp_from_usize(n: int) -> Self::V {
        arbitrary()
    }

    /// The decimal rendering of a value, one line of the parameter file.
    open spec fn sp_decimal(x: Self::V) -> Seq<char> {
        arbitrary()
    }

    /// What decimal parsing makes of a line: a value, or nothing for a
    /// malformed line.
    open spec fn sp_parse(s: Seq<char>) -> Option<Self::V> {
        arbitrary()
    }

    /// An exact copy. Generic code cannot rely on `Clone` preserving a
    /// value, so the capability set carries duplication itself.
    fn dup(&self) -> (r: Self)
        ensures
            r.v() == self.v(),
    ;

    fn zero() -> (r: Self)
        ensures
            r.v() == Self::sp_zero(),
    ;

    fn one() -> (r: Self)
        ensures
            r.v() == Self::sp_one(),
    ;

    fn add(self, rhs: Self) -> (r: Self)
        ensures
            r.v() == Self::sp_add(self.v(), rhs.v()),
    ;

    fn sub(self, rhs: Self) -> (r: Self)
        ensures
            r.v() == Self::sp_sub(self.v(), rhs.v()),
    ;

    fn mul(self, rhs: Self) -> (r: Self)
        ensures
            r.v() == Self::sp_mul(self.v(), rhs.v()),
    ;

    fn div(self, rhs: Self) -> (r: Self)
        ensures
            r.v() == Self::sp_div(self.v(), rhs.v()),
    ;

    fn lt(&self, rhs: &Self) -> (r: bool)
        ensures
            r == Self::sp_lt(self.v(), rhs.v()),
    ;

    fn eq_num(&self, rhs: &Self) -> (r: bool)
        ensures
            r == Self::sp_eq_num(self.v(), rhs.v()),
    ;

    fn from_usize(n: usize) -> (r: Self)
        ensures
            r.v() == Self::sp_from_usize(n as int),
    ;

    fn to_decimal(&self) -> (r: String)
        ensures
            r@ == Self::sp_decimal(self.v()),
    ;

    fn from_decimal(s: &str) -> (r: Option<Self>)
        ensures
            match r {
                Some(x) => Self::sp_parse(s@) == Some(x.v()),
                None => Self::sp_parse(s@) is None,
            },
    ;

}

/// Construction of an engine scalar from a base scalar: the generic form of
/// capability of being constructible from a plain number. A base
/// scalar promotes to itself; a dual number promotes a base scalar to a
/// constant (zero gradient).
pub trait Promote<B: Arithmetic>: Arithmetic {
    /// The view of the promoted value, as a function of the base view.
    open spec fn sp_promote(b: B::V) -> Self::V {
        arbitrary()
    }

    fn promote(b: &B) -> (r: Self)
        ensures
            r.v() == Self::sp_promote(b.v()),
    ;
}

} // verus!
