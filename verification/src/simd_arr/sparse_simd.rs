use vstd::prelude::*;

use crate::arithmetic::Arithmetic;
use crate::dual::extended_arithmetic::ArithmeticLaws;
use crate::simd_arr::SimdArr;

verus! {

/// Does the sorted index list `s` mention `i`?
pub open spec fn seq_has(s: Seq<usize>, i: int) -> bool {
    exists|k: int| 0 <= k < s.len() && s[k] == i
}

/// The position of `i` in the index list `s` (meaningful when `seq_has`).
pub open spec fn seq_find(s: Seq<usize>, i: int) -> int {
    choose|k: int| 0 <= k < s.len() && s[k] == i
}

/// Strictly increasing: the sparse invariant on the index list.
pub open spec fn strictly_sorted(s: Seq<usize>) -> bool {
    forall|a: int, b: int| 0 <= a < b < s.len() ==> s[a] < s[b]
}

/// How many of the first `n` scalars are not numerically zero: the count
/// the sparse constructor stores, and the count the hybrid's construction
/// fallback compares against its threshold.
pub open spec fn sp_nonzero_count<T: Arithmetic>(s: Seq<T>, n: int) -> int
    decreases n,
{
    if n <= 0 {
        0
    } else {
        sp_nonzero_count::<T>(s, n - 1) + (if !T::sp_eq_num(s[n - 1].v(), T::sp_zero()) {
            1int
        } else {
            0int
        })
    }
}

/// In a strictly sorted list every index occurs at one position only, so
/// `seq_find` returns the position one asks about.
pub proof fn lemma_sorted_find(s: Seq<usize>, k: int)
    requires
        strictly_sorted(s),
        0 <= k < s.len(),
    ensures
        seq_has(s, s[k] as int),
        seq_find(s, s[k] as int) == k,
{
    let i = s[k] as int;
    assert(seq_has(s, i));
    let k2 = seq_find(s, i);
    if k2 < k {
        assert(s[k2] < s[k]);
    } else if k2 > k {
        assert(s[k] < s[k2]);
    }
}

/// In a strictly increasing list the value at position `k` is at least `k`.
pub proof fn lemma_sorted_position_ge(s: Seq<usize>, k: int)
    requires
        strictly_sorted(s),
        0 <= k < s.len(),
    ensures
        s[k] >= k,
    decreases k,
{
    if k > 0 {
        lemma_sorted_position_ge(s, k - 1);
        assert(s[k - 1] < s[k]);
    }
}

/// In a strictly increasing list the last value exceeds the value at
/// position `k` by at least the distance between them.
pub proof fn lemma_sorted_tail_gap(s: Seq<usize>, k: int)
    requires
        strictly_sorted(s),
        0 <= k < s.len(),
    ensures
        s[s.len() - 1] >= s[k] + (s.len() - 1 - k),
    decreases s.len() - k,
{
    if k < s.len() - 1 {
        lemma_sorted_tail_gap(s, k + 1);
        assert(s[k] < s[k + 1]);
    }
}

/// Membership in a pushed list: the old members and the new value.
pub proof fn lemma_has_push(s: Seq<usize>, v: usize, i: int)
    ensures
        seq_has(s.push(v), i) == (seq_has(s, i) || i == v),
{
    let t = s.push(v);
    if seq_has(s, i) {
        let k = seq_find(s, i);
        assert(t[k] == i);
        assert(seq_has(t, i));
    }
    if i == v {
        assert(t[s.len() as int] == i);
        assert(seq_has(t, i));
    }
    if seq_has(t, i) {
        let k = seq_find(t, i);
        if k < s.len() {
            assert(s[k] == i);
            assert(seq_has(s, i));
        }
    }
}

/// The sparse gradient backend: parallel lists of strictly increasing
/// indices and of the values stored at them; every index not listed holds
/// an implicit zero.
///
/// Policy on zeros: construction from an array skips slots that are
/// numerically zero, but a merged slot whose sum happens to be zero is
/// kept as an explicit entry. The stored-entry count (`non_zero_count`)
/// therefore counts explicit entries, and it is that count that the hybrid
/// backend's decay threshold watches.
pub struct SparseSimd<const S: usize, T> {
    data_index: Vec<usize>,
    data: Vec<T>,
}

impl<const S: usize, T: ArithmeticLaws> SparseSimd<S, T> {
    /// The index list, for specification purposes.
    pub closed spec fn idxs(&self) -> Seq<usize> {
        self.data_index@
    }

    /// The stored values, for specification purposes.
    pub closed spec fn vals(&self) -> Seq<T> {
        self.data@
    }

    /// Is an explicit entry stored for slot `i`?
    pub open spec fn has(&self, i: int) -> bool {
        seq_has(self.idxs(), i)
    }

    /// The value stored for slot `i` (meaningful when `self.has(i)`).
    pub open spec fn entry(&self, i: int) -> T {
        self.vals()[seq_find(self.idxs(), i)]
    }

    /// The sparse invariant: parallel lists, strictly increasing indices,
    /// all below the dimension.
    pub open spec fn swf(&self) -> bool {
        &&& self.idxs().len() == self.vals().len()
        &&& self.idxs().len() <= S
        &&& strictly_sorted(self.idxs())
        &&& forall|k: int| 0 <= k < self.idxs().len() ==> self.idxs()[k] < S
    }

    /// The dense reading: stored entries where present, zero elsewhere.
    pub open spec fn smodel(&self) -> Seq<T::V> {
        Seq::new(
            S as nat,
            |i: int|
                if self.has(i) {
                    self.entry(i).v()
                } else {
                    T::sp_zero()
                },
        )
    }

    /// How many explicit entries are stored.
    pub fn non_zero_count(&self) -> (r: usize)
        ensures
            r == self.idxs().len(),
    {
        self.data_index.len()
    }

    /// Positions `k` of the index list and slots `i = idxs()[k]` match up.
    pub proof fn lemma_entry_at(&self, k: int)
        requires
            self.swf(),
            0 <= k < self.idxs().len(),
        ensures
            self.has(self.idxs()[k] as int),
            seq_find(self.idxs(), self.idxs()[k] as int) == k,
            self.entry(self.idxs()[k] as int) == self.vals()[k],
    {
        lemma_sorted_find(self.idxs(), k);
    }

    /// A slot below the frontier position `p` is absent when `p` does not
    /// name it: everything before `p` is smaller and everything after is
    /// larger.
    proof fn lemma_absent(&self, p: int, i: int)
        requires
            self.swf(),
            0 <= p <= self.idxs().len(),
            forall|k: int| 0 <= k < p ==> self.idxs()[k] < i,
            p < self.idxs().len() ==> self.idxs()[p] != i,
            p < self.idxs().len() ==> self.idxs()[p] >= i,
        ensures
            !self.has(i),
    {
        if self.has(i) {
            let k = seq_find(self.idxs(), i);
            assert(0 <= k < self.idxs().len() && self.idxs()[k] == i);
            if k < p {
                assert(self.idxs()[k] < i);
            } else {
                assert(k > p);
                assert(self.idxs()[p] < self.idxs()[k]);
            }
        }
    }

    /// The first position whose index is at least `i`: the insertion point
    /// that the shifting insert and the lookup share.
    fn partition_point(&self, i: usize) -> (r: usize)
        requires
            self.swf(),
        ensures
            r <= self.idxs().len(),
            forall|k: int| 0 <= k < r ==> self.idxs()[k] < i,
            forall|k: int| r <= k < self.idxs().len() ==> self.idxs()[k] >= i,
    {
        let mut lo: usize = 0;
        let mut hi: usize = self.data_index.len();
        while lo < hi
            invariant
                self.swf(),
                lo <= hi <= self.idxs().len(),
                forall|k: int| 0 <= k < lo ==> self.idxs()[k] < i,
                forall|k: int| hi <= k < self.idxs().len() ==> self.idxs()[k] >= i,
            decreases hi - lo,
        {
            let mid = lo + (hi - lo) / 2;
            if self.data_index[mid] < i {
                assert(forall|k: int|
                    0 <= k <= mid ==> self.idxs()[k] <= self.idxs()[mid as int]);
                lo = mid + 1;
            } else {
                assert(forall|k: int|
                    mid <= k < self.idxs().len() ==> self.idxs()[mid as int] <= self.idxs()[k]);
                hi = mid;
            }
        }
        lo
    }

    /// Read slot `i`: the stored value where an entry exists, zero where
    /// none does.
    pub fn index(&self, i: usize) -> (r: T)
        requires
            self.swf(),
            i < S,
        ensures
            r.v() == self.smodel()[i as int],
    {
        let p = self.partition_point(i);
        if p < self.data_index.len() && self.data_index[p] == i {
            let r = self.data[p].dup();
            proof {
                self.lemma_entry_at(p as int);
            }
            r
        } else {
            let r = T::zero();
            proof {
                self.lemma_absent(p as int, i as int);
            }
            r
        }
    }

    /// Write slot `i`: overwrite the entry where one exists, else shift the
    /// tails of both lists right by one and insert. Every other slot keeps
    /// its state, so the entry count grows exactly on a fresh index.
    pub fn set(&mut self, i: usize, value: T)
        requires
            old(self).swf(),
            i < S,
        ensures
            final(self).swf(),
            forall|j: int| final(self).has(j) == (old(self).has(j) || j == i),
            final(self).entry(i as int) == value,
            forall|j: int|
                old(self).has(j) && j != i ==> final(self).entry(j) == old(self).entry(j),
            final(self).idxs().len() == old(self).idxs().len() + (if old(self).has(i as int) {
                0int
            } else {
                1int
            }),
    {
        let p = self.partition_point(i);
        if p < self.data_index.len() && self.data_index[p] == i {
            proof {
                self.lemma_entry_at(p as int);
            }
            self.data.set(p, value);
            proof {
                let os = *old(self);
                let ns = *self;
                assert(ns.idxs() == os.idxs());
                assert forall|j: int| os.has(j) && j != i implies ns.entry(j) == os.entry(j) by {
                    let k = seq_find(os.idxs(), j);
                    assert(k != p);
                }
                assert(ns.entry(i as int) == value);
            }
        } else {
            proof {
                self.lemma_absent(p as int, i as int);
                // A full list would mention every slot, `i` among them.
                if self.idxs().len() == S as int {
                    lemma_sorted_position_ge(self.idxs(), i as int);
                    lemma_sorted_tail_gap(self.idxs(), i as int);
                    lemma_sorted_find(self.idxs(), i as int);
                    assert(false);
                }
            }
            self.data_index.insert(p, i);
            self.data.insert(p, value);
            proof {
                let os = *old(self);
                let ns = *self;
                let oi = os.idxs();
                let ni = ns.idxs();
                assert(ni == oi.insert(p as int, i));
                assert forall|a: int, b: int| 0 <= a < b < ni.len() implies ni[a] < ni[b] by {
                    if b < p {
                        assert(ni[a] == oi[a] && ni[b] == oi[b]);
                    } else if a > p {
                        assert(ni[a] == oi[a - 1] && ni[b] == oi[b - 1]);
                    } else if a == p {
                        assert(ni[a] == i && ni[b] == oi[b - 1] && oi[b - 1] >= i);
                        assert(oi[b - 1] != i);
                    } else if b == p {
                        assert(ni[b] == i && ni[a] == oi[a] && oi[a] < i);
                    } else {
                        assert(a < p && b > p);
                        assert(ni[a] == oi[a] && oi[a] < i && ni[b] == oi[b - 1]);
                        assert(oi[b - 1] >= i && oi[b - 1] != i);
                    }
                }
                assert(ns.swf());
                lemma_sorted_find(ni, p as int);
                assert(ns.entry(i as int) == value);
                assert forall|j: int| os.has(j) && j != i implies ns.has(j) && ns.entry(j)
                    == os.entry(j) by {
                    let k = seq_find(oi, j);
                    lemma_sorted_find(oi, k);
                    if k < p {
                        assert(ni[k] == oi[k]);
                        lemma_sorted_find(ni, k);
                    } else {
                        assert(ni[k + 1] == oi[k]);
                        lemma_sorted_find(ni, k + 1);
                    }
                }
                assert forall|j: int| ns.has(j) implies (os.has(j) || j == i) by {
                    let k = seq_find(ni, j);
                    if k < p {
                        assert(ni[k] == oi[k]);
                        lemma_sorted_find(oi, k);
                    } else if k > p {
                        assert(ni[k] == oi[k - 1]);
                        lemma_sorted_find(oi, k - 1);
                    }
                }
            }
        }
    }
}

impl<const S: usize, T: ArithmeticLaws> SparseSimd<S, T> {
    /// Merge with `rhs` by walking both sorted index lists once: the sum of
    /// the two gradients. An index present in either operand is present in
    /// the result; a slot present in both holds the sum, a slot present in
    /// one alone keeps its value (explicit zeros are kept, never pruned).
    pub fn add(&self, rhs: &Self) -> (r: Self)
        requires
            self.swf(),
            rhs.swf(),
        ensures
            r.swf(),
            forall|i: int| #[trigger] r.has(i) == (self.has(i) || rhs.has(i)),
            forall|i: int|
                self.has(i) && rhs.has(i) ==> #[trigger] r.entry(i).v() == T::sp_add(
                    self.entry(i).v(),
                    rhs.entry(i).v(),
                ),
            forall|i: int|
                self.has(i) && !rhs.has(i) ==> #[trigger] r.entry(i).v() == self.entry(i).v(),
            forall|i: int|
                !self.has(i) && rhs.has(i) ==> #[trigger] r.entry(i).v() == rhs.entry(i).v(),
    {
        let mut ri: Vec<usize> = Vec::new();
        let mut rv: Vec<T> = Vec::new();
        let mut a: usize = 0;
        let mut b: usize = 0;
        let alen = self.data_index.len();
        let blen = rhs.data_index.len();
        while a < alen || b < blen
            invariant
                self.swf(),
                rhs.swf(),
                alen == self.idxs().len(),
                blen == rhs.idxs().len(),
                a <= alen,
                b <= blen,
                ri@.len() == rv@.len(),
                strictly_sorted(ri@),
                forall|k: int| 0 <= k < ri@.len() ==> ri@[k] < S,
                forall|k: int| 0 <= k < ri@.len() && a < alen ==> ri@[k] < self.idxs()[a as int],
                forall|k: int| 0 <= k < ri@.len() && b < blen ==> ri@[k] < rhs.idxs()[b as int],
                forall|k: int| 0 <= k < a ==> seq_has(ri@, #[trigger] self.idxs()[k] as int),
                forall|k: int| 0 <= k < b ==> seq_has(ri@, #[trigger] rhs.idxs()[k] as int),
                forall|k: int|
                    0 <= k < ri@.len() ==> self.has(#[trigger] ri@[k] as int) || rhs.has(
                        ri@[k] as int,
                    ),
                forall|k: int|
                    0 <= k < ri@.len() && self.has(ri@[k] as int) && rhs.has(ri@[k] as int)
                        ==> #[trigger] rv@[k].v() == T::sp_add(
                        self.entry(ri@[k] as int).v(),
                        rhs.entry(ri@[k] as int).v(),
                    ),
                forall|k: int|
                    0 <= k < ri@.len() && self.has(ri@[k] as int) && !rhs.has(ri@[k] as int)
                        ==> #[trigger] rv@[k].v() == self.entry(ri@[k] as int).v(),
                forall|k: int|
                    0 <= k < ri@.len() && !self.has(ri@[k] as int) && rhs.has(ri@[k] as int)
                        ==> #[trigger] rv@[k].v() == rhs.entry(ri@[k] as int).v(),
            decreases alen - a + blen - b,
        {
            let ghost ri0 = ri@;
            if b == blen || (a < alen && self.data_index[a] < rhs.data_index[b]) {
                let i0 = self.data_index[a];
                let v = self.data[a].dup();
                proof {
                    self.lemma_entry_at(a as int);
                    if rhs.has(i0 as int) {
                        let k2 = seq_find(rhs.idxs(), i0 as int);
                        if k2 < b {
                            assert(seq_has(ri0, i0 as int));
                            let k3 = seq_find(ri0, i0 as int);
                            assert(ri0[k3] < self.idxs()[a as int]);
                        } else {
                            assert(b < blen);
                            assert(rhs.idxs()[b as int] <= rhs.idxs()[k2]);
                        }
                        assert(false);
                    }
                }
                ri.push(i0);
                rv.push(v);
                a = a + 1;
                proof {
                    assert forall|j: int| 0 <= j < a implies seq_has(
                        ri@,
                        #[trigger] self.idxs()[j] as int,
                    ) by {
                        lemma_has_push(ri0, i0, self.idxs()[j] as int);
                    }
                    assert forall|j: int| 0 <= j < b implies seq_has(
                        ri@,
                        #[trigger] rhs.idxs()[j] as int,
                    ) by {
                        lemma_has_push(ri0, i0, rhs.idxs()[j] as int);
                    }
                }
            } else if a == alen || rhs.data_index[b] < self.data_index[a] {
                let i0 = rhs.data_index[b];
                let v = rhs.data[b].dup();
                proof {
                    rhs.lemma_entry_at(b as int);
                    if self.has(i0 as int) {
                        let k2 = seq_find(self.idxs(), i0 as int);
                        if k2 < a {
                            assert(seq_has(ri0, i0 as int));
                            let k3 = seq_find(ri0, i0 as int);
                            assert(ri0[k3] < rhs.idxs()[b as int]);
                        } else {
                            assert(a < alen);
                            assert(self.idxs()[a as int] <= self.idxs()[k2]);
                        }
                        assert(false);
                    }
                }
                ri.push(i0);
                rv.push(v);
                b = b + 1;
                proof {
                    assert forall|j: int| 0 <= j < a implies seq_has(
                        ri@,
                        #[trigger] self.idxs()[j] as int,
                    ) by {
                        lemma_has_push(ri0, i0, self.idxs()[j] as int);
                    }
                    assert forall|j: int| 0 <= j < b implies seq_has(
                        ri@,
                        #[trigger] rhs.idxs()[j] as int,
                    ) by {
                        lemma_has_push(ri0, i0, rhs.idxs()[j] as int);
                    }
                }
            } else {
                let i0 = self.data_index[a];
                let x = self.data[a].dup();
                let y = rhs.data[b].dup();
                let v = x.add(y);
                proof {
                    self.lemma_entry_at(a as int);
                    rhs.lemma_entry_at(b as int);
                }
                ri.push(i0);
                rv.push(v);
                a = a + 1;
                b = b + 1;
                proof {
                    assert forall|j: int| 0 <= j < a implies seq_has(
                        ri@,
                        #[trigger] self.idxs()[j] as int,
                    ) by {
                        lemma_has_push(ri0, i0, self.idxs()[j] as int);
                    }
                    assert forall|j: int| 0 <= j < b implies seq_has(
                        ri@,
                        #[trigger] rhs.idxs()[j] as int,
                    ) by {
                        lemma_has_push(ri0, i0, rhs.idxs()[j] as int);
                    }
                }
            }
        }
        let r = SparseSimd { data_index: ri, data: rv };
        proof {
            if r.idxs().len() > S {
                lemma_sorted_position_ge(r.idxs(), r.idxs().len() - 1);
                assert(false);
            }
            assert forall|i: int| #[trigger] r.has(i) == (self.has(i) || rhs.has(i)) by {
                if r.has(i) {
                    let k = seq_find(r.idxs(), i);
                    assert(r.idxs()[k] == i);
                    assert(self.has(i) || rhs.has(i));
                }
                if self.has(i) {
                    let k = seq_find(self.idxs(), i);
                    assert(seq_has(r.idxs(), self.idxs()[k] as int));
                }
                if rhs.has(i) {
                    let k = seq_find(rhs.idxs(), i);
                    assert(seq_has(r.idxs(), rhs.idxs()[k] as int));
                }
            }
            assert forall|i: int| r.has(i) implies {
                &&& (self.has(i) && rhs.has(i) ==> r.entry(i).v() == T::sp_add(
                    self.entry(i).v(),
                    rhs.entry(i).v(),
                ))
                &&& (self.has(i) && !rhs.has(i) ==> r.entry(i).v() == self.entry(i).v())
                &&& (!self.has(i) && rhs.has(i) ==> r.entry(i).v() == rhs.entry(i).v())
            } by {
                let k = seq_find(r.idxs(), i);
                lemma_sorted_find(r.idxs(), k);
            }
        }
        r
    }

    /// Entrywise negation, returned as a new value: presence is kept, every
    /// stored value is negated.
    pub fn negated(&self) -> (r: Self)
        requires
            self.swf(),
        ensures
            r.swf(),
            r.idxs() == self.idxs(),
            forall|i: int| #[trigger] r.has(i) == self.has(i),
            forall|i: int|
                self.has(i) ==> #[trigger] r.entry(i).v() == T::sp_neg(self.entry(i).v()),
    {
        let mut rv: Vec<T> = Vec::new();
        let mut ri: Vec<usize> = Vec::new();
        let mut k: usize = 0;
        let n = self.data.len();
        while k < n
            invariant
                self.swf(),
                n == self.vals().len(),
                k <= n,
                ri@ == self.idxs().take(k as int),
                rv@.len() == k,
                forall|j: int|
                    0 <= j < k ==> #[trigger] rv@[j].v() == T::sp_neg(self.vals()[j].v()),
            decreases n - k,
        {
            let v = self.data[k].dup();
            let nv = v.neg();
            proof {
                assert(self.idxs().take(k as int + 1) =~= self.idxs().take(k as int).push(
                    self.idxs()[k as int],
                ));
            }
            ri.push(self.data_index[k]);
            rv.push(nv);
            k += 1;
        }
        proof {
            assert(self.idxs().take(n as int) =~= self.idxs());
        }
        let r = SparseSimd { data_index: ri, data: rv };
        proof {
            assert forall|i: int| self.has(i) implies #[trigger] r.entry(i).v() == T::sp_neg(
                self.entry(i).v(),
            ) by {
                let j = seq_find(self.idxs(), i);
            }
        }
        r
    }

    /// Merge with `rhs` as `add` does, subtracting instead: a slot present
    /// in both holds the difference, one present in `self` alone keeps its
    /// value, one present in `rhs` alone holds the negated value.
    pub fn sub(&self, rhs: &Self) -> (r: Self)
        requires
            self.swf(),
            rhs.swf(),
        ensures
            r.swf(),
            forall|i: int| #[trigger] r.has(i) == (self.has(i) || rhs.has(i)),
            forall|i: int|
                self.has(i) && rhs.has(i) ==> #[trigger] r.entry(i).v() == T::sp_sub(
                    self.entry(i).v(),
                    rhs.entry(i).v(),
                ),
            forall|i: int|
                self.has(i) && !rhs.has(i) ==> #[trigger] r.entry(i).v() == self.entry(i).v(),
            forall|i: int|
                !self.has(i) && rhs.has(i) ==> #[trigger] r.entry(i).v() == T::sp_neg(
                    rhs.entry(i).v(),
                ),
    {
        let nb = rhs.negated();
        let r = self.add(&nb);
        proof {
            assert forall|i: int| self.has(i) && rhs.has(i) implies #[trigger] r.entry(i).v()
                == T::sp_sub(self.entry(i).v(), rhs.entry(i).v()) by {
                T::lemma_sub_is_add_neg(self.entry(i).v(), rhs.entry(i).v());
            }
        }
        r
    }

    /// Scale every stored value by `1 / rhs`, presence kept.
    pub fn div(&self, rhs: &T) -> (r: Self)
        requires
            self.swf(),
        ensures
            r.swf(),
            r.idxs() == self.idxs(),
            forall|i: int| #[trigger] r.has(i) == self.has(i),
            forall|i: int|
                self.has(i) ==> #[trigger] r.entry(i).v() == T::sp_div(
                    self.entry(i).v(),
                    rhs.v(),
                ),
    {
        let mut rv: Vec<T> = Vec::new();
        let mut ri: Vec<usize> = Vec::new();
        let mut k: usize = 0;
        let n = self.data.len();
        while k < n
            invariant
                self.swf(),
                n == self.vals().len(),
                k <= n,
                ri@ == self.idxs().take(k as int),
                rv@.len() == k,
                forall|j: int|
                    0 <= j < k ==> #[trigger] rv@[j].v() == T::sp_div(
                        self.vals()[j].v(),
                        rhs.v(),
                    ),
            decreases n - k,
        {
            let v = self.data[k].dup();
            let d = rhs.dup();
            let nv = v.div(d);
            proof {
                assert(self.idxs().take(k as int + 1) =~= self.idxs().take(k as int).push(
                    self.idxs()[k as int],
                ));
            }
            ri.push(self.data_index[k]);
            rv.push(nv);
            k += 1;
        }
        proof {
            assert(self.idxs().take(n as int) =~= self.idxs());
        }
        let r = SparseSimd { data_index: ri, data: rv };
        proof {
            assert forall|i: int| self.has(i) implies #[trigger] r.entry(i).v() == T::sp_div(
                self.entry(i).v(),
                rhs.v(),
            ) by {
                let j = seq_find(self.idxs(), i);
            }
        }
        r
    }
}

impl<const S: usize, T: ArithmeticLaws> SimdArr<S, T> for SparseSimd<S, T> {
    open spec fn model(&self) -> Seq<T::V> {
        self.smodel()
    }

    open spec fn wf(&self) -> bool {
        self.swf()
    }

    proof fn lemma_wf_model_len(&self) {
    }

    fn zero() -> (r: Self)
        // Nothing is stored: the zero gradient has no explicit entry.
        ensures
            r.idxs().len() == 0,
    {
        SparseSimd { data_index: Vec::new(), data: Vec::new() }
    }

    fn dup(&self) -> (r: Self)
        // The copy stores entries at exactly the same indices.
        ensures
            r.idxs() == self.idxs(),
    {
        let mut rv: Vec<T> = Vec::new();
        let mut ri: Vec<usize> = Vec::new();
        let mut k: usize = 0;
        let n = self.data.len();
        while k < n
            invariant
                self.swf(),
                n == self.vals().len(),
                k <= n,
                ri@ == self.idxs().take(k as int),
                rv@.len() == k,
                forall|j: int| 0 <= j < k ==> #[trigger] rv@[j].v() == self.vals()[j].v(),
            decreases n - k,
        {
            let v = self.data[k].dup();
            proof {
                assert(self.idxs().take(k as int + 1) =~= self.idxs().take(k as int).push(
                    self.idxs()[k as int],
                ));
            }
            ri.push(self.data_index[k]);
            rv.push(v);
            k += 1;
        }
        proof {
            assert(self.idxs().take(n as int) =~= self.idxs());
        }
        let r = SparseSimd { data_index: ri, data: rv };
        proof {
            assert forall|i: int| 0 <= i < S implies r.smodel()[i] == self.smodel()[i] by {
                if self.has(i) {
                    let j = seq_find(self.idxs(), i);
                }
            }
            assert(r.smodel() =~= self.smodel());
        }
        r
    }

    fn new_from_array(src: &Vec<T>) -> (r: Self)
        // An explicit entry is stored exactly for the slots that are not
        // numerically zero, so the entry count is the non-zero count.
        ensures
            forall|i: int|
                0 <= i < S ==> (#[trigger] r.has(i) <==> !T::sp_eq_num(
                    src@[i].v(),
                    T::sp_zero(),
                )),
            r.idxs().len() == sp_nonzero_count::<T>(src@, S as int),
    {
        let zchk = T::zero();
        let mut rv: Vec<T> = Vec::new();
        let mut ri: Vec<usize> = Vec::new();
        let mut k: usize = 0;
        while k < S
            invariant
                src.len() == S,
                k <= S,
                zchk.v() == T::sp_zero(),
                ri@.len() == rv@.len(),
                ri@.len() == sp_nonzero_count::<T>(src@, k as int),
                strictly_sorted(ri@),
                forall|j: int| 0 <= j < ri@.len() ==> ri@[j] < k,
                forall|i: int|
                    #[trigger] seq_has(ri@, i) == (0 <= i < k && !T::sp_eq_num(
                        src@[i].v(),
                        T::sp_zero(),
                    )),
                forall|j: int|
                    0 <= j < ri@.len() ==> #[trigger] rv@[j].v() == src@[ri@[j] as int].v(),
            decreases S - k,
        {
            let ghost ri0 = ri@;
            let keep = !src[k].eq_num(&zchk);
            if keep {
                ri.push(k);
                rv.push(src[k].dup());
            }
            proof {
                assert forall|i: int| #[trigger] seq_has(ri@, i) == (0 <= i < k + 1
                    && !T::sp_eq_num(src@[i].v(), T::sp_zero())) by {
                    if keep {
                        lemma_has_push(ri0, k, i);
                    }
                }
            }
            k += 1;
        }
        let r = SparseSimd { data_index: ri, data: rv };
        proof {
            if r.idxs().len() > S {
                lemma_sorted_position_ge(r.idxs(), r.idxs().len() - 1);
                assert(false);
            }
            assert forall|i: int| 0 <= i < S implies #[trigger] r.smodel()[i] == src@[i].v() || (
            T::sp_eq_num(src@[i].v(), T::sp_zero()) && r.smodel()[i] == T::sp_zero()) by {
                if r.has(i) {
                    let j = seq_find(r.idxs(), i);
                    lemma_sorted_find(r.idxs(), j);
                }
            }
        }
        r
    }

    fn new_from_value_and_pos(val: &T, pos: usize) -> (r: Self)
        // The seed stores its one entry explicitly, whatever its value.
        ensures
            r.idxs().len() == 1,
    {
        let mut ri: Vec<usize> = Vec::new();
        let mut rv: Vec<T> = Vec::new();
        ri.push(pos);
        rv.push(val.dup());
        let r = SparseSimd { data_index: ri, data: rv };
        proof {
            lemma_sorted_find(r.idxs(), 0);
            assert forall|i: int| 0 <= i < S && i != pos implies r.smodel()[i]
                == T::sp_zero() by {
                if r.has(i) {
                    let j = seq_find(r.idxs(), i);
                }
            }
        }
        r
    }

    fn to_array(&self) -> (r: Vec<T>) {
        let mut out: Vec<T> = Vec::new();
        let mut cursor: usize = 0;
        let mut i: usize = 0;
        let n = self.data.len();
        while i < S
            invariant
                self.swf(),
                n == self.vals().len(),
                i <= S,
                cursor <= n,
                out@.len() == i,
                forall|k: int| 0 <= k < cursor ==> self.idxs()[k] < i,
                forall|k: int| cursor <= k < n ==> self.idxs()[k] >= i,
                forall|j: int| 0 <= j < i ==> #[trigger] out@[j].v() == self.smodel()[j],
            decreases S - i,
        {
            if cursor < n && self.data_index[cursor] == i {
                let v = self.data[cursor].dup();
                proof {
                    self.lemma_entry_at(cursor as int);
                }
                out.push(v);
                cursor += 1;
            } else {
                let v = T::zero();
                proof {
                    self.lemma_absent(cursor as int, i as int);
                }
                out.push(v);
            }
            i += 1;
        }
        out
    }

    fn neg(&mut self)
        // Negation keeps the set of explicit entries.
        ensures
            final(self).idxs() == old(self).idxs(),
    {
        let r = self.negated();
        *self = r;
        proof {
            let os = *old(self);
            T::lemma_neg_zero();
            assert forall|i: int| 0 <= i < S implies self.smodel()[i] == T::sp_neg(
                #[trigger] os.smodel()[i],
            ) by {
                if os.has(i) {
                    let j = seq_find(os.idxs(), i);
                }
            }
        }
    }

    fn acumulate(&mut self, rhs: &Self)
        // The merged entry set is the union of the operands' entry sets.
        ensures
            forall|i: int| final(self).has(i) == (old(self).has(i) || rhs.has(i)),
    {
        let r = self.add(rhs);
        *self = r;
        proof {
            let os = *old(self);
            assert forall|i: int| 0 <= i < S implies self.smodel()[i] == T::sp_add(
                #[trigger] os.smodel()[i],
                rhs.smodel()[i],
            ) by {
                let ea = os.smodel()[i];
                let eb = rhs.smodel()[i];
                if os.has(i) && rhs.has(i) {
                } else if os.has(i) && !rhs.has(i) {
                    T::lemma_add_zero(ea);
                } else if !os.has(i) && rhs.has(i) {
                    T::lemma_add_zero(eb);
                } else {
                    T::lemma_add_zero(T::sp_zero());
                }
            }
        }
    }

    fn multiply(&mut self, rhs: &T)
        // Scaling keeps the set of explicit entries.
        ensures
            final(self).idxs() == old(self).idxs(),
    {
        let mut k: usize = 0;
        let n = self.data.len();
        while k < n
            invariant
                self.swf(),
                n == self.vals().len(),
                k <= n,
                self.idxs() == old(self).idxs(),
                self.vals().len() == old(self).vals().len(),
                forall|j: int|
                    0 <= j < k ==> #[trigger] self.vals()[j].v() == T::sp_mul(
                        old(self).vals()[j].v(),
                        rhs.v(),
                    ),
                forall|j: int| k <= j < n ==> self.vals()[j] == old(self).vals()[j],
            decreases n - k,
        {
            let v = self.data[k].dup();
            let d = rhs.dup();
            let nv = v.mul(d);
            self.data.set(k, nv);
            k += 1;
        }
        proof {
            let os = *old(self);
            T::lemma_mul_zero(rhs.v());
            assert forall|i: int| 0 <= i < S implies self.smodel()[i] == T::sp_mul(
                #[trigger] os.smodel()[i],
                rhs.v(),
            ) by {
                if os.has(i) {
                    let j = seq_find(os.idxs(), i);
                }
            }
        }
    }
}

/// The merge is the elementwise sum in the dense reading: adding two
/// sparse gradients and reading the result densely gives, slot for slot,
/// the sum of the dense readings — explicit entries or not.
pub proof fn lemma_add_is_elementwise<const S: usize, T: ArithmeticLaws>(
    a: SparseSimd<S, T>,
    b: SparseSimd<S, T>,
    r: SparseSimd<S, T>,
)
    requires
        a.swf(),
        b.swf(),
        r.swf(),
        forall|i: int| #[trigger] r.has(i) == (a.has(i) || b.has(i)),
        forall|i: int|
            a.has(i) && b.has(i) ==> #[trigger] r.entry(i).v() == T::sp_add(
                a.entry(i).v(),
                b.entry(i).v(),
            ),
        forall|i: int| a.has(i) && !b.has(i) ==> #[trigger] r.entry(i).v() == a.entry(i).v(),
        forall|i: int| !a.has(i) && b.has(i) ==> #[trigger] r.entry(i).v() == b.entry(i).v(),
    ensures
        forall|i: int|
            0 <= i < S ==> #[trigger] r.smodel()[i] == T::sp_add(a.smodel()[i], b.smodel()[i]),
{
    assert forall|i: int| 0 <= i < S implies #[trigger] r.smodel()[i] == T::sp_add(
        a.smodel()[i],
        b.smodel()[i],
    ) by {
        if a.has(i) && !b.has(i) {
            T::lemma_add_zero(a.entry(i).v());
        } else if !a.has(i) && b.has(i) {
            T::lemma_add_zero(b.entry(i).v());
        } else if !a.has(i) && !b.has(i) {
            T::lemma_add_zero(T::sp_zero());
        }
    }
}

/// The subtracting merge is the elementwise difference in the dense
/// reading, the same way.
pub proof fn lemma_sub_is_elementwise<const S: usize, T: ArithmeticLaws>(
    a: SparseSimd<S, T>,
    b: SparseSimd<S, T>,
    r: SparseSimd<S, T>,
)
    requires
        a.swf(),
        b.swf(),
        r.swf(),
        forall|i: int| #[trigger] r.has(i) == (a.has(i) || b.has(i)),
        forall|i: int|
            a.has(i) && b.has(i) ==> #[trigger] r.entry(i).v() == T::sp_sub(
                a.entry(i).v(),
                b.entry(i).v(),
            ),
        forall|i: int| a.has(i) && !b.has(i) ==> #[trigger] r.entry(i).v() == a.entry(i).v(),
        forall|i: int|
            !a.has(i) && b.has(i) ==> #[trigger] r.entry(i).v() == T::sp_neg(b.entry(i).v()),
    ensures
        forall|i: int|
            0 <= i < S ==> #[trigger] r.smodel()[i] == T::sp_sub(a.smodel()[i], b.smodel()[i]),
{
    assert forall|i: int| 0 <= i < S implies #[trigger] r.smodel()[i] == T::sp_sub(
        a.smodel()[i],
        b.smodel()[i],
    ) by {
        if a.has(i) && !b.has(i) {
            T::lemma_sub_zero(a.entry(i).v());
        } else if !a.has(i) && b.has(i) {
            T::lemma_neg_is_zero_sub(b.entry(i).v());
        } else if !a.has(i) && !b.has(i) {
            T::lemma_sub_zero(T::sp_zero());
        }
    }
}

/// Scaling the stored entries by a reciprocal is the elementwise division
/// in the dense reading.
pub proof fn lemma_div_is_elementwise<const S: usize, T: ArithmeticLaws>(
    a: SparseSimd<S, T>,
    k: T,
    r: SparseSimd<S, T>,
)
    requires
        a.swf(),
        r.swf(),
        forall|i: int| #[trigger] r.has(i) == a.has(i),
        forall|i: int|
            a.has(i) ==> #[trigger] r.entry(i).v() == T::sp_div(a.entry(i).v(), k.v()),
    ensures
        forall|i: int|
            0 <= i < S ==> #[trigger] r.smodel()[i] == T::sp_div(a.smodel()[i], k.v()),
{
    assert forall|i: int| 0 <= i < S implies #[trigger] r.smodel()[i] == T::sp_div(
        a.smodel()[i],
        k.v(),
    ) by {
        if !a.has(i) {
            T::lemma_div_zero(k.v());
        }
    }
}

} // verus!
