pub mod extended_arithmetic;

use vstd::prelude::*;

use crate::arithmetic::Arithmetic;
use crate::arithmetic::Promote;
use crate::dual::extended_arithmetic::ArithmeticLaws;
use crate::dual::extended_arithmetic::ExtendedArithmetic;
use crate::simd_arr::SimdArr;

verus! {

/// A dual number: a value paired with the gradient of that value with
/// respect to `P` parameters, stored in any gradient backend `S`. The
/// arithmetic operations propagate the gradient by the chain rule, so a
/// model function evaluated on parameter-seeded duals returns its value
/// together with its full gradient.
///
/// The view of a dual is the pair of the value view and the gradient
/// views; the chain rule lives in the `sp_*` definitions of the
/// `Arithmetic` and `ExtendedArithmetic` implementations below.
pub struct Dual<const P: usize, T: ArithmeticLaws, S: SimdArr<P, T>> {
    value: T,
    sigma: S,
}

impl<const P: usize, T: ArithmeticLaws, S: SimdArr<P, T>> Dual<P, T, S> {
    /// Every dual number carries a well-formed gradient of dimension `P`.
    /// This holds of every value of the type; `use_type_invariant` hands
    /// it to any holder of a dual.
    #[verifier::type_invariant]
    pub closed spec fn inv(&self) -> bool {
        self.sigma.wf()
    }

    /// The value part, as a view.
    pub closed spec fn sp_real(&self) -> T::V {
        self.value.v()
    }

    /// The gradient, as a sequence of views.
    pub closed spec fn sp_grad(&self) -> Seq<T::V> {
        self.sigma.model()
    }

    /// The gradient has one slot per parameter.
    pub proof fn lemma_grad_len(&self)
        requires
            self.inv(),
        ensures
            self.sp_grad().len() == P,
    {
        self.sigma.lemma_wf_model_len();
    }

    /// The constant zero: zero value, zero gradient.
    pub fn zero() -> (r: Self)
        ensures
            r.sp_real() == T::sp_zero(),
            r.sp_grad() =~= Seq::new(P as nat, |i: int| T::sp_zero()),
    {
        let sigma = S::zero();
        let r = Dual { value: T::zero(), sigma };
        proof {
            r.sigma.lemma_wf_model_len();
            assert(r.sp_grad() =~= Seq::new(P as nat, |i: int| T::sp_zero()));
        }
        r
    }

    /// A constant: the given value, zero gradient.
    pub fn new(value: T) -> (r: Self)
        ensures
            r.sp_real() == value.v(),
            r.sp_grad() =~= Seq::new(P as nat, |i: int| T::sp_zero()),
    {
        let sigma = S::zero();
        let r = Dual { value, sigma };
        proof {
            r.sigma.lemma_wf_model_len();
            assert(r.sp_grad() =~= Seq::new(P as nat, |i: int| T::sp_zero()));
        }
        r
    }

    /// The seed for parameter `i`: the given value, and a gradient that is
    /// one at `i` and zero everywhere else. All derived duals obtain their
    /// gradients from these seeds through arithmetic alone.
    pub fn new_param(value: T, i: usize) -> (r: Self)
        requires
            i < P,
        ensures
            r.sp_real() == value.v(),
            r.sp_grad().len() == P,
            r.sp_grad()[i as int] == T::sp_one(),
            forall|j: int| 0 <= j < P && j != i ==> r.sp_grad()[j] == T::sp_zero(),
    {
        let one = T::one();
        let sigma = S::new_from_value_and_pos(&one, i);
        let r = Dual { value, sigma };
        proof {
            r.sigma.lemma_wf_model_len();
        }
        r
    }

    /// A dual with the given value and the given gradient slots.
    pub fn new_full(value: T, sigma: &Vec<T>) -> (r: Self)
        requires
            sigma.len() == P,
        ensures
            r.sp_real() == value.v(),
            r.sp_grad().len() == P,
            forall|i: int|
                0 <= i < P ==> #[trigger] r.sp_grad()[i] == sigma@[i].v() || (T::sp_eq_num(
                    sigma@[i].v(),
                    T::sp_zero(),
                ) && r.sp_grad()[i] == T::sp_zero()),
    {
        let s = S::new_from_array(sigma);
        let r = Dual { value, sigma: s };
        proof {
            r.sigma.lemma_wf_model_len();
        }
        r
    }

    /// The value part.
    pub fn get_real(&self) -> (r: T)
        ensures
            r.v() == self.sp_real(),
    {
        self.value.dup()
    }

    /// Overwrite the value part, leaving the gradient untouched.
    pub fn set_real(&mut self, val: T)
        ensures
            final(self).sp_real() == val.v(),
            final(self).sp_grad() == old(self).sp_grad(),
    {
        proof {
            use_type_invariant(&*self);
        }
        self.value = val;
    }

    /// Add a plain scalar: the value moves, the gradient does not.
    pub fn add_scalar(self, rhs: T) -> (r: Self)
        ensures
            r.sp_real() == T::sp_add(self.sp_real(), rhs.v()),
            r.sp_grad() == self.sp_grad(),
    {
        proof {
            use_type_invariant(&self);
        }
        let Dual { value, sigma } = self;
        Dual { value: value.add(rhs), sigma }
    }

    /// Subtract a plain scalar: the value moves, the gradient does not.
    pub fn sub_scalar(self, rhs: T) -> (r: Self)
        ensures
            r.sp_real() == T::sp_sub(self.sp_real(), rhs.v()),
            r.sp_grad() == self.sp_grad(),
    {
        proof {
            use_type_invariant(&self);
        }
        let Dual { value, sigma } = self;
        Dual { value: value.sub(rhs), sigma }
    }

    /// Multiply by a plain scalar: value and every gradient slot scale.
    pub fn mul_scalar(self, rhs: T) -> (r: Self)
        ensures
            r.sp_real() == T::sp_mul(self.sp_real(), rhs.v()),
            r.sp_grad().len() == P,
            forall|i: int|
                0 <= i < P ==> #[trigger] r.sp_grad()[i] == T::sp_mul(
                    self.sp_grad()[i],
                    rhs.v(),
                ),
    {
        proof {
            use_type_invariant(&self);
        }
        let Dual { value, sigma: mut s } = self;
        s.multiply(&rhs);
        let r = Dual { value: value.mul(rhs), sigma: s };
        proof {
            r.sigma.lemma_wf_model_len();
        }
        r
    }

    /// Divide by a plain scalar: the value divides, every gradient slot
    /// scales by the reciprocal.
    pub fn div_scalar(self, rhs: T) -> (r: Self)
        ensures
            r.sp_real() == T::sp_div(self.sp_real(), rhs.v()),
            r.sp_grad().len() == P,
            forall|i: int|
                0 <= i < P ==> #[trigger] r.sp_grad()[i] == T::sp_mul(
                    self.sp_grad()[i],
                    T::sp_div(T::sp_one(), rhs.v()),
                ),
    {
        proof {
            use_type_invariant(&self);
        }
        let Dual { value, sigma: mut s } = self;
        let factor = T::one().div(rhs.dup());
        s.multiply(&factor);
        let r = Dual { value: value.div(rhs), sigma: s };
        proof {
            r.sigma.lemma_wf_model_len();
        }
        r
    }

    /// The gradient, read back as a full array.
    pub fn get_gradient(&self) -> (r: Vec<T>)
        ensures
            r.len() == P,
            forall|i: int| 0 <= i < P ==> #[trigger] r@[i].v() == self.sp_grad()[i],
    {
        proof {
            use_type_invariant(self);
        }
        self.sigma.to_array()
    }
}

impl<const P: usize, T: ArithmeticLaws, S: SimdArr<P, T>> Arithmetic for Dual<P, T, S> {
    type V = (T::V, Seq<T::V>);

    open spec fn v(&self) -> Self::V {
        (self.sp_real(), self.sp_grad())
    }

    open spec fn sp_zero() -> Self::V {
        (T::sp_zero(), Seq::new(P as nat, |i: int| T::sp_zero()))
    }

    open spec fn sp_one() -> Self::V {
        (T::sp_one(), Seq::new(P as nat, |i: int| T::sp_zero()))
    }

    /// Sum rule: the gradient of a sum is the sum of the gradients.
    open spec fn sp_add(a: Self::V, b: Self::V) -> Self::V {
        (T::sp_add(a.0, b.0), Seq::new(P as nat, |i: int| T::sp_add(a.1[i], b.1[i])))
    }

    /// Difference rule, computed as the accumulation of the negation.
    open spec fn sp_sub(a: Self::V, b: Self::V) -> Self::V {
        (T::sp_sub(a.0, b.0), Seq::new(P as nat, |i: int| T::sp_add(a.1[i], T::sp_neg(b.1[i]))))
    }

    /// Product rule: `(a·b)' = a'·b + b'·a`.
    open spec fn sp_mul(a: Self::V, b: Self::V) -> Self::V {
        (
            T::sp_mul(a.0, b.0),
            Seq::new(
                P as nat,
                |i: int| T::sp_add(T::sp_mul(a.1[i], b.0), T::sp_mul(b.1[i], a.0)),
            ),
        )
    }

    /// Quotient rule: `(a/b)' = (a'·b − b'·a) · (1/b²)`.
    open spec fn sp_div(a: Self::V, b: Self::V) -> Self::V {
        (
            T::sp_div(a.0, b.0),
            Seq::new(
                P as nat,
                |i: int|
                    T::sp_mul(
                        T::sp_add(T::sp_mul(a.1[i], b.0), T::sp_neg(T::sp_mul(b.1[i], a.0))),
                        T::sp_div(T::sp_one(), T::sp_mul(b.0, b.0)),
                    ),
            ),
        )
    }

    /// Duals compare by their value parts alone.
    open spec fn sp_lt(a: Self::V, b: Self::V) -> bool {
        T::sp_lt(a.0, b.0)
    }

    open spec fn sp_eq_num(a: Self::V, b: Self::V) -> bool {
        T::sp_eq_num(a.0, b.0)
    }

    fn dup(&self) -> (r: Self) {
        proof {
            use_type_invariant(self);
        }
        let r = Dual { value: self.value.dup(), sigma: self.sigma.dup() };
        r
    }

    fn zero() -> (r: Self) {
        let r = Self::zero();
        proof {
            use_type_invariant(&r);
            r.lemma_grad_len();
            assert(r.v().1 =~= Self::sp_zero().1);
        }
        r
    }

    fn one() -> (r: Self) {
        let sigma = S::zero();
        let r = Dual { value: T::one(), sigma };
        proof {
            r.sigma.lemma_wf_model_len();
            assert(r.v().1 =~= Self::sp_one().1);
        }
        r
    }

    fn add(self, rhs: Self) -> (r: Self) {
        proof {
            use_type_invariant(&self);
            use_type_invariant(&rhs);
        }
        let ghost av = self.v();
        let ghost bv = rhs.v();
        let Dual { value: ar, sigma: mut sa } = self;
        let Dual { value: br, sigma: sb } = rhs;
        sa.acumulate(&sb);
        let r = Dual { value: ar.add(br), sigma: sa };
        proof {
            r.sigma.lemma_wf_model_len();
            assert(r.v().1 =~= Self::sp_add(av, bv).1);
        }
        r
    }

    fn sub(self, rhs: Self) -> (r: Self) {
        proof {
            use_type_invariant(&self);
            use_type_invariant(&rhs);
        }
        let ghost av = self.v();
        let ghost bv = rhs.v();
        let Dual { value: ar, sigma: mut sa } = self;
        let Dual { value: br, sigma: mut sb } = rhs;
        sb.neg();
        sa.acumulate(&sb);
        let r = Dual { value: ar.sub(br), sigma: sa };
        proof {
            r.sigma.lemma_wf_model_len();
            assert(r.v().1 =~= Self::sp_sub(av, bv).1);
        }
        r
    }

    fn mul(self, rhs: Self) -> (r: Self) {
        proof {
            use_type_invariant(&self);
            use_type_invariant(&rhs);
        }
        let ghost av = self.v();
        let ghost bv = rhs.v();
        let Dual { value: ar, sigma: mut sa } = self;
        let Dual { value: br, sigma: mut sb } = rhs;
        sa.multiply(&br);
        sb.multiply(&ar);
        sa.acumulate(&sb);
        let r = Dual { value: ar.mul(br), sigma: sa };
        proof {
            r.sigma.lemma_wf_model_len();
            assert(r.v().1 =~= Self::sp_mul(av, bv).1);
        }
        r
    }

    fn div(self, rhs: Self) -> (r: Self) {
        proof {
            use_type_invariant(&self);
            use_type_invariant(&rhs);
        }
        let ghost av = self.v();
        let ghost bv = rhs.v();
        let Dual { value: ar, sigma: mut sa } = self;
        let Dual { value: br, sigma: mut sb } = rhs;
        sa.multiply(&br);
        sb.multiply(&ar);
        sb.neg();
        sa.acumulate(&sb);
        let b2 = br.dup().mul(br.dup());
        let factor = T::one().div(b2);
        sa.multiply(&factor);
        let r = Dual { value: ar.div(br), sigma: sa };
        proof {
            r.sigma.lemma_wf_model_len();
            assert(r.v().1 =~= Self::sp_div(av, bv).1);
        }
        r
    }

    fn lt(&self, rhs: &Self) -> (r: bool) {
        self.value.lt(&rhs.value)
    }

    fn eq_num(&self, rhs: &Self) -> (r: bool) {
        self.value.eq_num(&rhs.value)
    }

    open spec fn sp_from_usize(n: int) -> Self::V {
        (T::sp_from_usize(n), Seq::new(P as nat, |i: int| T::sp_zero()))
    }

    fn from_usize(n: usize) -> (r: Self) {
        let r = Self::new(T::from_usize(n));
        proof {
            use_type_invariant(&r);
            r.lemma_grad_len();
        }
        r
    }

    /// A dual is rendered by its value part alone.
    open spec fn sp_decimal(x: Self::V) -> Seq<char> {
        T::sp_decimal(x.0)
    }

    /// A parsed line becomes a constant dual: zero gradient.
    open spec fn sp_parse(s: Seq<char>) -> Option<Self::V> {
        match T::sp_parse(s) {
            Some(x) => Some((x, Seq::new(P as nat, |i: int| T::sp_zero()))),
            None => None,
        }
    }

    fn to_decimal(&self) -> (r: String) {
        self.value.to_decimal()
    }

    fn from_decimal(s: &str) -> (r: Option<Self>) {
        match T::from_decimal(s) {
            Some(x) => {
                let d = Self::new(x);
                proof {
                    use_type_invariant(&d);
                    d.lemma_grad_len();
                    assert(d.v().1 =~= Seq::new(P as nat, |i: int| T::sp_zero()));
                }
                Some(d)
            },
            None => None,
        }
    }
}

impl<const P: usize, T: ArithmeticLaws, S: SimdArr<P, T>> ExtendedArithmetic for Dual<
    P,
    T,
    S,
> {
    /// Root rule: `(√a)' = a' · (1/(2·√a))`.
    open spec fn sp_sqrt(x: Self::V) -> Self::V {
        (
            T::sp_sqrt(x.0),
            Seq::new(
                P as nat,
                |i: int|
                    T::sp_mul(
                        x.1[i],
                        T::sp_div(
                            T::sp_one(),
                            T::sp_mul(T::sp_add(T::sp_one(), T::sp_one()), T::sp_sqrt(x.0)),
                        ),
                    ),
            ),
        )
    }

    /// Negation flips the value and every gradient slot.
    open spec fn sp_neg(x: Self::V) -> Self::V {
        (T::sp_neg(x.0), Seq::new(P as nat, |i: int| T::sp_neg(x.1[i])))
    }

    /// Logistic rule: `σ(a)' = a' · σ(a)·(1−σ(a))`.
    open spec fn sp_sigmoid(x: Self::V) -> Self::V {
        (
            T::sp_sigmoid(x.0),
            Seq::new(
                P as nat,
                |i: int|
                    T::sp_mul(
                        x.1[i],
                        T::sp_mul(
                            T::sp_sigmoid(x.0),
                            T::sp_sub(T::sp_one(), T::sp_sigmoid(x.0)),
                        ),
                    ),
            ),
        )
    }

    fn sqrt(self) -> (r: Self) {
        proof {
            use_type_invariant(&self);
        }
        let ghost xv = self.v();
        let Dual { value: ar, sigma: mut sa } = self;
        let root = ar.sqrt();
        let two = T::one().add(T::one());
        let factor = T::one().div(two.mul(root.dup()));
        sa.multiply(&factor);
        let r = Dual { value: root, sigma: sa };
        proof {
            r.sigma.lemma_wf_model_len();
            assert(r.v().1 =~= Self::sp_sqrt(xv).1);
        }
        r
    }

    fn neg(self) -> (r: Self) {
        proof {
            use_type_invariant(&self);
        }
        let ghost xv = self.v();
        let Dual { value: ar, sigma: mut sa } = self;
        sa.neg();
        let r = Dual { value: ar.neg(), sigma: sa };
        proof {
            r.sigma.lemma_wf_model_len();
            assert(r.v().1 =~= Self::sp_neg(xv).1);
        }
        r
    }

    fn sigmoid(self) -> (r: Self) {
        proof {
            use_type_invariant(&self);
        }
        let ghost xv = self.v();
        let Dual { value: ar, sigma: mut sa } = self;
        let sig = ar.sigmoid();
        let factor = sig.dup().mul(T::one().sub(sig.dup()));
        sa.multiply(&factor);
        let r = Dual { value: sig, sigma: sa };
        proof {
            r.sigma.lemma_wf_model_len();
            assert(r.v().1 =~= Self::sp_sigmoid(xv).1);
        }
        r
    }

    /// Negate value and gradient exactly when the value part is below
    /// zero.
    fn abs(self) -> (r: Self) {
        proof {
            use_type_invariant(&self);
        }
        let neg = self.value.lt(&T::zero());
        if neg {
            let ghost xv = self.v();
            let Dual { value: ar, sigma: mut sa } = self;
            sa.neg();
            let r = Dual { value: ar.neg(), sigma: sa };
            proof {
                r.sigma.lemma_wf_model_len();
                assert(r.v().1 =~= Self::sp_neg(xv).1);
            }
            r
        } else {
            self
        }
    }

    /// Zero value and gradient below zero, identity elsewhere.
    fn relu(self) -> (r: Self) {
        proof {
            use_type_invariant(&self);
        }
        let neg = self.value.lt(&T::zero());
        if neg {
            let r = Self::zero();
            proof {
                use_type_invariant(&r);
                r.lemma_grad_len();
                assert(r.v().1 =~= Self::sp_zero().1);
            }
            r
        } else {
            self
        }
    }
}

impl<const P: usize, T: ArithmeticLaws, S: SimdArr<P, T>> Promote<T> for Dual<P, T, S> {
    /// A base scalar promotes to a constant dual: zero gradient.
    open spec fn sp_promote(b: T::V) -> Self::V {
        (b, Seq::new(P as nat, |i: int| T::sp_zero()))
    }

    fn promote(b: &T) -> (r: Self) {
        let r = Self::new(b.dup());
        proof {
            use_type_invariant(&r);
            r.lemma_grad_len();
        }
        r
    }
}

} // verus!
