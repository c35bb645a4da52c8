pub mod dense_simd;
pub mod hybrid_simd;
pub mod sparse_simd;

use vstd::prelude::*;

use crate::arithmetic::Arithmetic;
use crate::dual::extended_arithmetic::ArithmeticLaws;

verus! {

/// A gradient vector of fixed dimension `S`: the storage that a dual number
/// keeps its partial derivatives in. Implemented by a dense backend, a
/// sparse backend and a hybrid of the two; a `Dual` works through this
/// contract alone, so the backends are interchangeable.
///
/// `model` is the dense reading of the stored value: one scalar view per
/// parameter index, implicit zeros spelled out as the zero view.
pub trait SimdArr<const S: usize, T: ArithmeticLaws>: Sized {
    /// The dense reading of the stored gradient.
    spec fn model(&self) -> Seq<T::V>;

    /// The backend's own well-formedness: every operation preserves it.
    spec fn wf(&self) -> bool;

    /// A well-formed value models exactly `S` slots.
    proof fn lemma_wf_model_len(&self)
        requires
            self.wf(),
        ensures
            self.model().len() == S,
    ;

    /// The all-zero gradient.
    fn zero() -> (r: Self)
        ensures
            r.wf(),
            forall|i: int| 0 <= i < S ==> r.model()[i] == T::sp_zero(),
    ;

    /// An exact copy, slot for slot.
    fn dup(&self) -> (r: Self)
        requires
            self.wf(),
        ensures
            r.wf(),
            r.model() == self.model(),
    ;

    /// Build from a full array. A backend may normalize a slot that is
    /// numerically zero to the zero view; every other slot is kept.
    fn new_from_array(src: &Vec<T>) -> (r: Self)
        requires
            src.len() == S,
        ensures
            r.wf(),
            forall|i: int|
                0 <= i < S ==> #[trigger] r.model()[i] == src@[i].v() || (T::sp_eq_num(
                    src@[i].v(),
                    T::sp_zero(),
                ) && r.model()[i] == T::sp_zero()),
    ;

    /// The seed gradient: `val` at `pos`, zero elsewhere.
    fn new_from_value_and_pos(val: &T, pos: usize) -> (r: Self)
        requires
            pos < S,
        ensures
            r.wf(),
            r.model()[pos as int] == val.v(),
            forall|i: int| 0 <= i < S && i != pos ==> r.model()[i] == T::sp_zero(),
    ;

    /// Read the gradient back as a full array.
    fn to_array(&self) -> (r: Vec<T>)
        requires
            self.wf(),
        ensures
            r.len() == S,
            forall|i: int| 0 <= i < S ==> #[trigger] r@[i].v() == self.model()[i],
    ;

    /// Negate every slot.
    fn neg(&mut self)
        requires
            old(self).wf(),
        ensures
            final(self).wf(),
            forall|i: int|
                0 <= i < S ==> final(self).model()[i] == T::sp_neg(#[trigger] old(
                    self,
                ).model()[i]),
    ;

    /// Add `rhs` slot by slot.
    fn acumulate(&mut self, rhs: &Self)
        requires
            old(self).wf(),
            rhs.wf(),
        ensures
            final(self).wf(),
            forall|i: int|
                0 <= i < S ==> final(self).model()[i] == T::sp_add(
                    #[trigger] old(self).model()[i],
                    rhs.model()[i],
                ),
    ;

    /// Scale every slot by `rhs`.
    fn multiply(&mut self, rhs: &T)
        requires
            old(self).wf(),
        ensures
            final(self).wf(),
            forall|i: int|
                0 <= i < S ==> final(self).model()[i] == T::sp_mul(
                    #[trigger] old(self).model()[i],
                    rhs.v(),
                ),
    ;
}

/// Round trip: reading a gradient vector back after building it from an
/// array restores every slot. A backend may normalize a slot whose value
/// compares numerically equal to zero to the zero view — the one slot
/// value the sparse representation cannot keep apart from an implicit
/// zero — and every other slot comes back exactly.
pub proof fn lemma_round_trip<const S: usize, T: ArithmeticLaws, A: SimdArr<S, T>>(
    src: Vec<T>,
    stored: A,
    out: Vec<T>,
)
    requires
        src.len() == S,
        stored.wf(),
        forall|i: int|
            0 <= i < S ==> #[trigger] stored.model()[i] == src@[i].v() || (T::sp_eq_num(
                src@[i].v(),
                T::sp_zero(),
            ) && stored.model()[i] == T::sp_zero()),
        out.len() == S,
        forall|i: int| 0 <= i < S ==> #[trigger] out@[i].v() == stored.model()[i],
    ensures
        forall|i: int|
            0 <= i < S ==> #[trigger] out@[i].v() == src@[i].v() || (T::sp_eq_num(
                src@[i].v(),
                T::sp_zero(),
            ) && out@[i].v() == T::sp_zero()),
{
}

} // verus!
