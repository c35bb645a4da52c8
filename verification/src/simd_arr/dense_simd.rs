use vstd::prelude::*;

use crate::arithmetic::Arithmetic;
use crate::dual::extended_arithmetic::ArithmeticLaws;
use crate::simd_arr::SimdArr;

verus! {

/// The dense gradient backend: a literal array of `S` scalars. Every
/// operation touches every slot.
pub struct DenseSimd<const S: usize, T> {
    data: Vec<T>,
}

impl<const S: usize, T: ArithmeticLaws> DenseSimd<S, T> {
    /// Read one slot.
    pub fn index(&self, i: usize) -> (r: &T)
        requires
            self.wf(),
            i < S,
        ensures
            r.v() == self.model()[i as int],
    {
        &self.data[i]
    }
}

impl<const S: usize, T: ArithmeticLaws> SimdArr<S, T> for DenseSimd<S, T> {
    closed spec fn model(&self) -> Seq<T::V> {
        self.data@.map_values(|x: T| x.v())
    }

    closed spec fn wf(&self) -> bool {
        self.data.len() == S
    }

    proof fn lemma_wf_model_len(&self) {
    }

    fn zero() -> (r: Self) {
        let mut data: Vec<T> = Vec::new();
        let mut k: usize = 0;
        while k < S
            invariant
                k <= S,
                data@.len() == k,
                forall|i: int| 0 <= i < k ==> #[trigger] data@[i].v() == T::sp_zero(),
            decreases S - k,
        {
            data.push(T::zero());
            k += 1;
        }
        DenseSimd { data }
    }

    fn dup(&self) -> (r: Self) {
        let mut data: Vec<T> = Vec::new();
        let mut k: usize = 0;
        while k < S
            invariant
                k <= S,
                self.wf(),
                data@.len() == k,
                forall|i: int| 0 <= i < k ==> #[trigger] data@[i].v() == self.data@[i].v(),
            decreases S - k,
        {
            data.push(self.data[k].dup());
            k += 1;
        }
        let r = DenseSimd { data };
        proof {
            assert(r.model() =~= self.model());
        }
        r
    }

    fn new_from_array(src: &Vec<T>) -> (r: Self)
        // The dense backend never normalizes: every slot is kept as given.
        ensures
            forall|i: int| 0 <= i < S ==> #[trigger] r.model()[i] == src@[i].v(),
    {
        let mut data: Vec<T> = Vec::new();
        let mut k: usize = 0;
        while k < S
            invariant
                k <= S,
                src.len() == S,
                data@.len() == k,
                forall|i: int| 0 <= i < k ==> #[trigger] data@[i].v() == src@[i].v(),
            decreases S - k,
        {
            data.push(src[k].dup());
            k += 1;
        }
        DenseSimd { data }
    }

    fn new_from_value_and_pos(val: &T, pos: usize) -> (r: Self) {
        let mut ret = Self::zero();
        let ghost zm = ret.model();
        proof {
            ret.lemma_wf_model_len();
        }
        ret.data.set(pos, val.dup());
        proof {
            assert(forall|i: int|
                0 <= i < S && i != pos ==> #[trigger] ret.model()[i] == zm[i]);
        }
        ret
    }

    fn to_array(&self) -> (r: Vec<T>) {
        let mut data: Vec<T> = Vec::new();
        let mut k: usize = 0;
        while k < S
            invariant
                k <= S,
                self.wf(),
                data@.len() == k,
                forall|i: int| 0 <= i < k ==> #[trigger] data@[i].v() == self.model()[i],
            decreases S - k,
        {
            data.push(self.data[k].dup());
            k += 1;
        }
        data
    }

    fn neg(&mut self) {
        let mut k: usize = 0;
        while k < S
            invariant
                k <= S,
                self.wf(),
                self.model().len() == S,
                forall|i: int|
                    0 <= i < k ==> self.model()[i] == T::sp_neg(#[trigger] old(self).model()[i]),
                forall|i: int| k <= i < S ==> self.model()[i] == old(self).model()[i],
            decreases S - k,
        {
            let v = self.data[k].dup();
            let nv = v.neg();
            self.data.set(k, nv);
            k += 1;
        }
    }

    fn acumulate(&mut self, rhs: &Self) {
        let mut k: usize = 0;
        proof {
            rhs.lemma_wf_model_len();
        }
        while k < S
            invariant
                k <= S,
                self.wf(),
                rhs.wf(),
                self.model().len() == S,
                rhs.model().len() == S,
                forall|i: int|
                    0 <= i < k ==> self.model()[i] == T::sp_add(
                        #[trigger] old(self).model()[i],
                        rhs.model()[i],
                    ),
                forall|i: int| k <= i < S ==> self.model()[i] == old(self).model()[i],
            decreases S - k,
        {
            let a = self.data[k].dup();
            let b = rhs.data[k].dup();
            let s = a.add(b);
            self.data.set(k, s);
            k += 1;
        }
    }

    fn multiply(&mut self, rhs: &T) {
        let mut k: usize = 0;
        while k < S
            invariant
                k <= S,
                self.wf(),
                self.model().len() == S,
                forall|i: int|
                    0 <= i < k ==> self.model()[i] == T::sp_mul(
                        #[trigger] old(self).model()[i],
                        rhs.v(),
                    ),
                forall|i: int| k <= i < S ==> self.model()[i] == old(self).model()[i],
            decreases S - k,
        {
            let a = self.data[k].dup();
            let b = rhs.dup();
            let s = a.mul(b);
            self.data.set(k, s);
            k += 1;
        }
    }
}

} // verus!
