use ia_engine::arithmetic::{Arithmetic, Promote};
use ia_engine::dual::extended_arithmetic::{ArithmeticLaws, ExtendedArithmetic};

/// A plain float wrapper: the base scalar the engine is instantiated with.
#[derive(Clone, Copy, Debug, PartialEq)]
struct Sc(f32);

impl Arithmetic for Sc {
    type V = Sc;

    fn dup(&self) -> Sc {
        *self
    }

    fn zero() -> Sc {
        Sc(0.0)
    }

    fn one() -> Sc {
        Sc(1.0)
    }

    fn add(self, rhs: Sc) -> Sc {
        Sc(self.0 + rhs.0)
    }

    fn sub(self, rhs: Sc) -> Sc {
        Sc(self.0 - rhs.0)
    }

    fn mul(self, rhs: Sc) -> Sc {
        Sc(self.0 * rhs.0)
    }

    fn div(self, rhs: Sc) -> Sc {
        Sc(self.0 / rhs.0)
    }

    fn lt(&self, rhs: &Sc) -> bool {
        self.0 < rhs.0
    }

    fn eq_num(&self, rhs: &Sc) -> bool {
        self.0 == rhs.0
    }

    fn from_usize(n: usize) -> Sc {
        Sc(n as f32)
    }

    fn to_decimal(&self) -> String {
        format!("{}", self.0)
    }

    fn from_decimal(s: &str) -> Option<Sc> {
        s.parse::<f32>().ok().map(Sc)
    }
}

impl ExtendedArithmetic for Sc {
    fn sqrt(self) -> Sc {
        Sc(self.0.sqrt())
    }

    fn neg(self) -> Sc {
        Sc(-self.0)
    }

    fn sigmoid(self) -> Sc {
        Sc(1.0 / (1.0 + (-self.0).exp()))
    }

    fn abs(self) -> Sc {
        Sc(self.0.abs())
    }

    fn relu(self) -> Sc {
        Sc(self.0.max(0.0))
    }
}

impl Promote<Sc> for Sc {
    fn promote(b: &Sc) -> Sc {
        *b
    }
}

impl ArithmeticLaws for Sc {
    fn lemma_promote_id(_: Sc) {}

    fn lemma_add_zero(_: Sc) {}

    fn lemma_sub_zero(_: Sc) {}

    fn lemma_mul_zero(_: Sc) {}

    fn lemma_div_zero(_: Sc) {}

    fn lemma_neg_zero() {}

    fn lemma_neg_is_zero_sub(_: Sc) {}

    fn lemma_sub_is_add_neg(_: Sc, _: Sc) {}

    fn lemma_half_double(_: Sc) {}

    fn lemma_double_half(_: Sc) {}

    fn lemma_decimal_round_trip(_: Sc) {}
}


use ia_engine::dual::Dual;
use ia_engine::simd_arr::dense_simd::DenseSimd;
use ia_engine::simd_arr::hybrid_simd::HybridSimd;
use ia_engine::simd_arr::sparse_simd::SparseSimd;
use ia_engine::simd_arr::SimdArr;

type D2 = Dual<2, Sc, DenseSimd<2, Sc>>;
type D2s = Dual<2, Sc, SparseSimd<2, Sc>>;

fn sc_vec(xs: &[f32]) -> Vec<Sc> {
    xs.iter().copied().map(Sc).collect()
}

fn to_f(v: Vec<Sc>) -> Vec<f32> {
    v.into_iter().map(|x| x.0).collect()
}

/// The expression the chain rule is checked on: built from the operations
/// the dual number supports.
fn expression<N: ExtendedArithmetic>(a: N, b: N) -> N {
    // sqrt(|a * b|) + a / b - b * b
    let prod = a.dup().mul(b.dup());
    let quot = a.div(b.dup());
    let sq = b.dup().mul(b);
    prod.abs().sqrt().add(quot).sub(sq)
}

#[test]
fn chain_rule_matches_finite_differences() {
    let cases: [(f32, f32); 4] = [(1.5, 2.0), (3.0, 0.7), (-2.0, 1.3), (0.8, -0.9)];
    let h = 1e-3_f32;
    for (av, bv) in cases {
        let a: D2 = Dual::new_param(Sc(av), 0);
        let b: D2 = Dual::new_param(Sc(bv), 1);
        let out = expression(a, b);
        let grad = to_f(out.get_gradient());

        let f = |x: f32, y: f32| expression(Sc(x), Sc(y)).0;
        let da = (f(av + h, bv) - f(av - h, bv)) / (2.0 * h);
        let db = (f(av, bv + h) - f(av, bv - h)) / (2.0 * h);

        assert!((grad[0] - da).abs() <= 1e-3 * (1.0 + da.abs()));
        assert!((grad[1] - db).abs() <= 1e-3 * (1.0 + db.abs()));
    }
}

#[test]
fn chain_rule_same_on_sparse_backend() {
    let a_d: D2 = Dual::new_param(Sc(1.25), 0);
    let b_d: D2 = Dual::new_param(Sc(-0.5), 1);
    let a_s: D2s = Dual::new_param(Sc(1.25), 0);
    let b_s: D2s = Dual::new_param(Sc(-0.5), 1);
    let dense_out = expression(a_d, b_d);
    let sparse_out = expression(a_s, b_s);
    assert_eq!(dense_out.get_real(), sparse_out.get_real());
    assert_eq!(to_f(dense_out.get_gradient()), to_f(sparse_out.get_gradient()));
}

#[test]
fn dual_basic_operations() {
    let x: D2 = Dual::new_param(Sc(3.0), 0);
    let y: D2 = Dual::new_param(Sc(4.0), 1);

    let s = x.dup().add(y.dup());
    assert_eq!(s.get_real(), Sc(7.0));
    assert_eq!(to_f(s.get_gradient()), vec![1.0, 1.0]);

    let p = x.dup().mul(y.dup());
    assert_eq!(p.get_real(), Sc(12.0));
    assert_eq!(to_f(p.get_gradient()), vec![4.0, 3.0]);

    let q = x.dup().div(y.dup());
    assert_eq!(q.get_real(), Sc(0.75));
    // (x/y)' = (x'·y − y'·x) / y² = (4, −3)/16
    assert_eq!(to_f(q.get_gradient()), vec![0.25, -3.0 / 16.0]);

    let sq = x.dup().pow2();
    assert_eq!(sq.get_real(), Sc(9.0));
    assert_eq!(to_f(sq.get_gradient()), vec![6.0, 0.0]);

    let r = x.dup().sub(y.dup()).relu();
    assert_eq!(r.get_real(), Sc(0.0));
    assert_eq!(to_f(r.get_gradient()), vec![0.0, 0.0]);

    let sig = Dual::<1, Sc, DenseSimd<1, Sc>>::new_param(Sc(0.0), 0).sigmoid();
    assert_eq!(sig.get_real(), Sc(0.5));
    assert_eq!(to_f(sig.get_gradient()), vec![0.25]);

    let full: D2 = Dual::new_full(Sc(2.0), &sc_vec(&[5.0, 0.0]));
    assert_eq!(full.get_real(), Sc(2.0));
    assert_eq!(to_f(full.get_gradient()), vec![5.0, 0.0]);

    let z: D2 = Dual::zero();
    assert_eq!(z.get_real(), Sc(0.0));
    assert_eq!(to_f(z.get_gradient()), vec![0.0, 0.0]);

    let c: D2 = Dual::new(Sc(42.0));
    assert_eq!(c.get_real(), Sc(42.0));
    assert_eq!(to_f(c.get_gradient()), vec![0.0, 0.0]);
}

#[test]
fn dual_scalar_arithmetic() {
    let x: D2 = Dual::new_param(Sc(3.0), 0);

    let a = x.dup().add_scalar(Sc(10.0));
    assert_eq!(a.get_real(), Sc(13.0));
    assert_eq!(to_f(a.get_gradient()), vec![1.0, 0.0]);

    let s = x.dup().sub_scalar(Sc(1.0));
    assert_eq!(s.get_real(), Sc(2.0));
    assert_eq!(to_f(s.get_gradient()), vec![1.0, 0.0]);

    let m = x.dup().mul_scalar(Sc(4.0));
    assert_eq!(m.get_real(), Sc(12.0));
    assert_eq!(to_f(m.get_gradient()), vec![4.0, 0.0]);

    let d = x.mul_scalar(Sc(4.0)).div_scalar(Sc(2.0));
    assert_eq!(d.get_real(), Sc(6.0));
    assert_eq!(to_f(d.get_gradient()), vec![2.0, 0.0]);
}

#[test]
fn round_trip_dense_and_sparse_and_hybrid() {
    let cases: Vec<Vec<f32>> = vec![
        vec![0., 0., 0., 0.],
        vec![1., 2., 3., 4.],
        vec![0., 5., 0., -7.],
    ];
    for a in cases {
        let sv = sc_vec(&a);
        let d: DenseSimd<4, Sc> = DenseSimd::new_from_array(&sv);
        assert_eq!(to_f(d.to_array()), a);
        let s: SparseSimd<4, Sc> = SparseSimd::new_from_array(&sv);
        assert_eq!(to_f(s.to_array()), a);
        let h: HybridSimd<4, 2, Sc> = HybridSimd::new_from_array(&sv);
        assert_eq!(to_f(h.to_array()), a);
    }
}

#[test]
fn sparse_arithmetic_matches_elementwise() {
    let a = [0., 2., 0., -3., 5.];
    let b = [1., 0., 0., 4., -5.];
    let sa: SparseSimd<5, Sc> = SparseSimd::new_from_array(&sc_vec(&a));
    let sb: SparseSimd<5, Sc> = SparseSimd::new_from_array(&sc_vec(&b));

    let sum = sa.add(&sb);
    let diff = sa.sub(&sb);
    for i in 0..5 {
        assert_eq!(sum.index(i), Sc(a[i] + b[i]));
        assert_eq!(diff.index(i), Sc(a[i] - b[i]));
    }
    // The slot where the sum is exactly zero keeps its explicit entry.
    assert_eq!(sum.non_zero_count(), 4);
    assert_eq!(diff.non_zero_count(), 4);
}

#[test]
fn hybrid_monotonic_decay() {
    // Threshold 1: a second explicit entry forces the dense form.
    let seed: HybridSimd<4, 1, Sc> = HybridSimd::new_from_value_and_pos(&Sc(1.0), 0);
    assert!(!seed.currently_dense());

    let other: HybridSimd<4, 1, Sc> = HybridSimd::new_from_value_and_pos(&Sc(2.0), 2);
    let mut h = seed;
    h.acumulate(&other);
    assert!(h.currently_dense());
    assert_eq!(to_f(h.to_array()), vec![1., 0., 2., 0.]);

    // Once dense, it stays dense whatever follows — even an operation
    // that zeroes every slot.
    h.multiply(&Sc(0.0));
    assert!(h.currently_dense());
    h.neg();
    assert!(h.currently_dense());
    let single: HybridSimd<4, 1, Sc> = HybridSimd::new_from_value_and_pos(&Sc(1.0), 1);
    h.acumulate(&single);
    assert!(h.currently_dense());

    // Below the threshold the sparse form is kept.
    let mut small: HybridSimd<4, 3, Sc> = HybridSimd::new_from_value_and_pos(&Sc(1.0), 0);
    small.multiply(&Sc(2.0));
    assert!(!small.currently_dense());

    // Construction with too many explicit entries falls back to dense.
    let wide: HybridSimd<4, 2, Sc> = HybridSimd::new_from_array(&sc_vec(&[1., 2., 3., 0.]));
    assert!(wide.currently_dense());
    let narrow: HybridSimd<4, 2, Sc> = HybridSimd::new_from_array(&sc_vec(&[1., 0., 3., 0.]));
    assert!(!narrow.currently_dense());
}
