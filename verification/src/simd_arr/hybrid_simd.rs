use vstd::prelude::*;

use crate::arithmetic::Arithmetic;
use crate::dual::extended_arithmetic::ArithmeticLaws;
use crate::simd_arr::dense_simd::DenseSimd;
use crate::simd_arr::sparse_simd::sp_nonzero_count;
use crate::simd_arr::sparse_simd::SparseSimd;
use crate::simd_arr::SimdArr;

verus! {

/// The hybrid gradient backend: a tagged union of the dense and the sparse
/// representation, with a criticality threshold `C`. A value starts sparse;
/// after an accumulating operation whose result stores more than `C`
/// explicit entries it is converted to dense, and no operation ever
/// converts a dense value back — the decay is one-way by construction.
/// A mixed accumulation (dense with sparse) always materializes the sparse
/// operand into a dense one first; there is no sparse-plus-dense fast path.
pub enum HybridSimd<const S: usize, const C: usize, T> {
    Dense(DenseSimd<S, T>),
    Sparse(SparseSimd<S, T>),
}

impl<const S: usize, const C: usize, T: ArithmeticLaws> HybridSimd<S, C, T> {
    /// Which representation is active.
    pub open spec fn is_dense(&self) -> bool {
        match self {
            HybridSimd::Dense(_) => true,
            HybridSimd::Sparse(_) => false,
        }
    }

    /// How many explicit entries the active representation stores: all `S`
    /// slots for a dense value, the entry count for a sparse one.
    pub open spec fn stored_entries(&self) -> int {
        match self {
            HybridSimd::Dense(_) => S as int,
            HybridSimd::Sparse(s) => s.idxs().len() as int,
        }
    }

    /// Well-formedness of the active representation alone, without the
    /// threshold bound: what holds between an accumulation and the decay
    /// check that follows it.
    pub open spec fn raw_wf(&self) -> bool {
        match self {
            HybridSimd::Dense(d) => d.wf(),
            HybridSimd::Sparse(s) => s.wf(),
        }
    }

    /// The dense reading of the active representation.
    pub open spec fn hmodel(&self) -> Seq<T::V> {
        match self {
            HybridSimd::Dense(d) => d.model(),
            HybridSimd::Sparse(s) => s.model(),
        }
    }

    /// A well-formed sparse value stays within the threshold: more than
    /// `C` explicit entries can only be held by the dense representation.
    pub proof fn lemma_sparse_bounded(&self)
        requires
            self.wf(),
        ensures
            !self.is_dense() ==> self.stored_entries() <= C,
    {
    }

    /// Whether the dense representation is the active one: the observable
    /// side of the decay.
    pub fn currently_dense(&self) -> (r: bool)
        ensures
            r == self.is_dense(),
    {
        match self {
            HybridSimd::Dense(_) => true,
            HybridSimd::Sparse(_) => false,
        }
    }

    /// The active representation, materialized as a dense value.
    fn materialized(&self) -> (r: DenseSimd<S, T>)
        requires
            self.raw_wf(),
        ensures
            r.wf(),
            forall|i: int| 0 <= i < S ==> #[trigger] r.model()[i] == self.hmodel()[i],
    {
        match self {
            HybridSimd::Dense(d) => d.dup(),
            HybridSimd::Sparse(s) => {
                let arr = s.to_array();
                DenseSimd::new_from_array(&arr)
            },
        }
    }

    /// The decay check that follows every accumulating operation: a sparse
    /// value that has outgrown the threshold is converted to dense, and
    /// nothing else changes. A dense value is left alone, so the decay
    /// never reverts.
    fn spontaneous_decay(&mut self)
        requires
            old(self).raw_wf(),
        ensures
            final(self).wf(),
            forall|i: int| 0 <= i < S ==> #[trigger] final(self).hmodel()[i] == old(
                self,
            ).hmodel()[i],
            old(self).is_dense() ==> final(self).is_dense(),
            old(self).wf() ==> *final(self) == *old(self),
    {
        let needs_decay = match &*self {
            HybridSimd::Dense(_) => false,
            HybridSimd::Sparse(s) => s.non_zero_count() > C,
        };
        if needs_decay {
            let d = self.materialized();
            *self = HybridSimd::Dense(d);
        }
    }
}

impl<const S: usize, const C: usize, T: ArithmeticLaws> SimdArr<S, T> for HybridSimd<
    S,
    C,
    T,
> {
    open spec fn model(&self) -> Seq<T::V> {
        self.hmodel()
    }

    open spec fn wf(&self) -> bool {
        &&& self.raw_wf()
        &&& !self.is_dense() ==> self.stored_entries() <= C
    }

    proof fn lemma_wf_model_len(&self) {
        match self {
            HybridSimd::Dense(d) => d.lemma_wf_model_len(),
            HybridSimd::Sparse(s) => s.lemma_wf_model_len(),
        }
    }

    fn zero() -> (r: Self)
        // A fresh value starts in the sparse representation.
        ensures
            !r.is_dense(),
    {
        HybridSimd::Sparse(SparseSimd::zero())
    }

    fn dup(&self) -> (r: Self)
        // The copy keeps the active representation.
        ensures
            r.is_dense() == self.is_dense(),
    {
        match self {
            HybridSimd::Dense(d) => HybridSimd::Dense(d.dup()),
            HybridSimd::Sparse(s) => HybridSimd::Sparse(s.dup()),
        }
    }

    fn new_from_array(src: &Vec<T>) -> (r: Self)
        // Construction falls back to the dense representation, rather than
        // failing, exactly when the non-zero count exceeds the threshold.
        ensures
            r.is_dense() <==> sp_nonzero_count::<T>(src@, S as int) > C,
    {
        let s = SparseSimd::<S, T>::new_from_array(src);
        if s.non_zero_count() > C {
            // Too many entries for the sparse side: fall back to dense
            // rather than fail.
            let d = DenseSimd::new_from_array(src);
            HybridSimd::Dense(d)
        } else {
            HybridSimd::Sparse(s)
        }
    }

    fn new_from_value_and_pos(val: &T, pos: usize) -> (r: Self) {
        let h = HybridSimd::Sparse(SparseSimd::new_from_value_and_pos(val, pos));
        let mut r = h;
        r.spontaneous_decay();
        r
    }

    fn to_array(&self) -> (r: Vec<T>) {
        match self {
            HybridSimd::Dense(d) => d.to_array(),
            HybridSimd::Sparse(s) => s.to_array(),
        }
    }

    fn neg(&mut self)
        // Negation keeps the active representation.
        ensures
            final(self).is_dense() == old(self).is_dense(),
    {
        let r: HybridSimd<S, C, T> = match &*self {
            HybridSimd::Dense(d) => {
                let mut d2 = d.dup();
                d2.neg();
                HybridSimd::Dense(d2)
            },
            HybridSimd::Sparse(s) => {
                let mut s2 = s.dup();
                s2.neg();
                HybridSimd::Sparse(s2)
            },
        };
        *self = r;
    }

    fn acumulate(&mut self, rhs: &Self)
        // The decay is one-way, and a mixed accumulation materializes the
        // sparse operand: a dense operand on either side makes the result
        // dense, and it never becomes sparse again.
        ensures
            old(self).is_dense() || rhs.is_dense() ==> final(self).is_dense(),
    {
        let ghost ma = old(self).hmodel();
        let ghost mb = rhs.hmodel();
        let r: HybridSimd<S, C, T> = match (&*self, rhs) {
            (HybridSimd::Dense(a), HybridSimd::Dense(b)) => {
                let mut d = a.dup();
                d.acumulate(b);
                proof {
                    assert(a.model() == ma);
                    assert(b.model() == mb);
                    assert forall|i: int| 0 <= i < S implies d.model()[i] == T::sp_add(
                        ma[i],
                        mb[i],
                    ) by {
                    }
                }
                HybridSimd::Dense(d)
            },
            (HybridSimd::Dense(a), HybridSimd::Sparse(_)) => {
                let bm = rhs.materialized();
                let mut d = a.dup();
                d.acumulate(&bm);
                proof {
                    assert(a.model() == ma);
                    assert forall|i: int| 0 <= i < S implies d.model()[i] == T::sp_add(
                        ma[i],
                        mb[i],
                    ) by {
                        assert(bm.model()[i] == mb[i]);
                    }
                }
                HybridSimd::Dense(d)
            },
            (HybridSimd::Sparse(_), HybridSimd::Dense(b)) => {
                let am = self.materialized();
                let mut d = am;
                let ghost m0 = d.model();
                d.acumulate(b);
                proof {
                    assert(b.model() == mb);
                    assert forall|i: int| 0 <= i < S implies d.model()[i] == T::sp_add(
                        ma[i],
                        mb[i],
                    ) by {
                        assert(m0[i] == ma[i]);
                    }
                }
                HybridSimd::Dense(d)
            },
            (HybridSimd::Sparse(a), HybridSimd::Sparse(b)) => {
                let mut s2 = a.dup();
                s2.acumulate(b);
                proof {
                    assert(a.model() == ma);
                    assert(b.model() == mb);
                    assert forall|i: int| 0 <= i < S implies s2.model()[i] == T::sp_add(
                        ma[i],
                        mb[i],
                    ) by {
                    }
                }
                HybridSimd::Sparse(s2)
            },
        };
        proof {
            assert forall|i: int| 0 <= i < S implies r.hmodel()[i] == T::sp_add(
                ma[i],
                mb[i],
            ) by {
            }
        }
        *self = r;
        let ghost mr = self.hmodel();
        self.spontaneous_decay();
        proof {
            assert forall|i: int| 0 <= i < S implies self.hmodel()[i] == T::sp_add(
                ma[i],
                mb[i],
            ) by {
                assert(self.hmodel()[i] == mr[i]);
            }
        }
    }

    fn multiply(&mut self, rhs: &T)
        // Scaling keeps the active representation.
        ensures
            final(self).is_dense() == old(self).is_dense(),
    {
        let r: HybridSimd<S, C, T> = match &*self {
            HybridSimd::Dense(d) => {
                let mut d2 = d.dup();
                d2.multiply(rhs);
                HybridSimd::Dense(d2)
            },
            HybridSimd::Sparse(s) => {
                let mut s2 = s.dup();
                s2.multiply(rhs);
                HybridSimd::Sparse(s2)
            },
        };
        *self = r;
    }
}

} // verus!
