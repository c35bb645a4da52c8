use ia_engine::arithmetic::{Arithmetic, Promote};
use ia_engine::dual::extended_arithmetic::{ArithmeticLaws, ExtendedArithmetic};

/// A plain float wrapper: the base scalar the engine is instantiated with.
#[derive(Clone, Copy, Debug, PartialEq)]
struct Sc(f32);

impl Arithmetic for Sc {
    type V = Sc;

    fn dup(&self) -> Sc {
        *self
    }

    fn zero() -> Sc {
        Sc(0.0)
    }

    fn one() -> Sc {
        Sc(1.0)
    }

    fn add(self, rhs: Sc) -> Sc {
        Sc(self.0 + rhs.0)
    }

    fn sub(self, rhs: Sc) -> Sc {
        Sc(self.0 - rhs.0)
    }

    fn mul(self, rhs: Sc) -> Sc {
        Sc(self.0 * rhs.0)
    }

    fn div(self, rhs: Sc) -> Sc {
        Sc(self.0 / rhs.0)
    }

    fn lt(&self, rhs: &Sc) -> bool {
        self.0 < rhs.0
    }

    fn eq_num(&self, rhs: &Sc) -> bool {
        self.0 == rhs.0
    }

    fn from_usize(n: usize) -> Sc {
        Sc(n as f32)
    }

    fn to_decimal(&self) -> String {
        format!("{}", self.0)
    }

    fn from_decimal(s: &str) -> Option<Sc> {
        s.parse::<f32>().ok().map(Sc)
    }
}

impl ExtendedArithmetic for Sc {
    fn sqrt(self) -> Sc {
        Sc(self.0.sqrt())
    }

    fn neg(self) -> Sc {
        Sc(-self.0)
    }

    fn sigmoid(self) -> Sc {
        Sc(1.0 / (1.0 + (-self.0).exp()))
    }

    fn abs(self) -> Sc {
        Sc(self.0.abs())
    }

    fn relu(self) -> Sc {
        Sc(self.0.max(0.0))
    }
}

impl Promote<Sc> for Sc {
    fn promote(b: &Sc) -> Sc {
        *b
    }
}

impl ArithmeticLaws for Sc {
    fn lemma_promote_id(_: Sc) {}

    fn lemma_add_zero(_: Sc) {}

    fn lemma_sub_zero(_: Sc) {}

    fn lemma_mul_zero(_: Sc) {}

    fn lemma_div_zero(_: Sc) {}

    fn lemma_neg_zero() {}

    fn lemma_neg_is_zero_sub(_: Sc) {}

    fn lemma_sub_is_add_neg(_: Sc, _: Sc) {}

    fn lemma_half_double(_: Sc) {}

    fn lemma_double_half(_: Sc) {}

    fn lemma_decimal_round_trip(_: Sc) {}
}


use ia_engine::simd_arr::sparse_simd::SparseSimd;
use ia_engine::simd_arr::SimdArr;
use rand::seq::SliceRandom;
use rand_chacha::rand_core::SeedableRng;

fn sc_vec(xs: &[f32]) -> Vec<Sc> {
    xs.iter().copied().map(Sc).collect()
}

fn to_f(v: Vec<Sc>) -> Vec<f32> {
    v.into_iter().map(|x| x.0).collect()
}

#[test]
fn sparse_simd_test_create() {
    let x: SparseSimd<4, Sc> = SparseSimd::new_from_array(&sc_vec(&[1., 4., 2., 4.]));
    assert_eq!(x.non_zero_count(), 4);
    assert_eq!(to_f(x.to_array()), vec![1., 4., 2., 4.]);

    let y: SparseSimd<7, Sc> = SparseSimd::new_from_array(&sc_vec(&[1., 4., 0., 0., 0., 2., 4.]));
    assert_eq!(y.non_zero_count(), 4);
    assert_eq!(to_f(y.to_array()), vec![1., 4., 0., 0., 0., 2., 4.]);
}

fn test_add<const N: usize>(a: [f32; N], b: [f32; N]) {
    let res: Vec<f32> = a.iter().zip(b).map(|(a_elm, b_elm)| a_elm + b_elm).collect();

    let sa: SparseSimd<N, Sc> = SparseSimd::new_from_array(&sc_vec(&a));
    let sb: SparseSimd<N, Sc> = SparseSimd::new_from_array(&sc_vec(&b));
    assert_eq!(to_f(sa.add(&sb).to_array()), res);
}

fn test_sub<const N: usize>(a: [f32; N], b: [f32; N]) {
    let res: Vec<f32> = a.iter().zip(b).map(|(a_elm, b_elm)| a_elm - b_elm).collect();

    let sa: SparseSimd<N, Sc> = SparseSimd::new_from_array(&sc_vec(&a));
    let sb: SparseSimd<N, Sc> = SparseSimd::new_from_array(&sc_vec(&b));
    assert_eq!(to_f(sa.sub(&sb).to_array()), res);
}

#[test]
fn arithmetic_stress_test() {
    for _ in 0..1000 {
        let cero_ratio: f32 = rand::random();
        let a: [f32; 32] = rand::random::<[f32; 32]>().map(|x| (x - cero_ratio).max(0.));
        let b: [f32; 32] = rand::random::<[f32; 32]>().map(|x| (x - cero_ratio).max(0.));

        test_add(a, b);
        test_sub(a, b);

        let sa: SparseSimd<32, Sc> = SparseSimd::new_from_array(&sc_vec(&a));
        assert_eq!(a.to_vec(), to_f(sa.to_array()));
    }
}

#[test]
fn consistency_stress_test() {
    for _ in 0..1000 {
        let cero_ratio: f32 = rand::random();
        let a: [f32; 32] = rand::random::<[f32; 32]>().map(|x| (x - cero_ratio).max(0.));

        let sa: SparseSimd<32, Sc> = SparseSimd::new_from_array(&sc_vec(&a));
        assert_eq!(a.to_vec(), to_f(sa.to_array()));
    }
}

fn test_mul_scalar<const N: usize>(a: [f32; N], b: f32) {
    let res: Vec<f32> = a.iter().map(|a_elm| a_elm * b).collect();

    let mut sa: SparseSimd<N, Sc> = SparseSimd::new_from_array(&sc_vec(&a));
    sa.multiply(&Sc(b));
    assert_eq!(to_f(sa.to_array()), res);
}

fn test_div_scalar<const N: usize>(a: [f32; N], b: f32) {
    let res: Vec<f32> = a.iter().map(|a_elm| a_elm / b).collect();

    let sa: SparseSimd<N, Sc> = SparseSimd::new_from_array(&sc_vec(&a));
    assert_eq!(to_f(sa.div(&Sc(b)).to_array()), res);
}

#[test]
fn stress_test_scalar() {
    for _ in 0..1000 {
        let cero_ratio: f32 = rand::random();
        let a: [f32; 32] = rand::random::<[f32; 32]>().map(|x| (x - cero_ratio).max(0.));
        let b = rand::random();
        test_mul_scalar(a, b);
        test_div_scalar(a, b);
    }
}

#[test]
fn test_indexing() {
    for i in 0..10 {
        let mut test_arr = [0.; 10];
        test_arr[i] = 1.;
        let x: SparseSimd<10, Sc> = SparseSimd::new_from_array(&sc_vec(&test_arr));

        for j in 0..10 {
            if i == j {
                assert_eq!(Sc(1.), x.index(j));
                assert_eq!(Sc(1.), x.to_array()[j]);
            } else {
                assert_eq!(Sc(0.), x.index(j));
                assert_eq!(Sc(0.), x.to_array()[j]);
            }
        }
    }
}

#[test]
fn stress_test_to_array() {
    let mut rng = rand_chacha::ChaCha8Rng::seed_from_u64(2);
    for _ in 0..1000 {
        let cero_ratio: f32 = rand::random();
        let a: [f32; 4] = rand::random::<[f32; 4]>().map(|x| (x - cero_ratio).max(0.));

        let mut x: SparseSimd<4, Sc> = SparseSimd::zero();
        let mut order = (0..4).collect::<Vec<_>>();
        order.shuffle(&mut rng);
        for i in order {
            x.set(i, Sc(a[i]));
            assert_eq!(x.to_array()[i], Sc(a[i]));
        }

        for i in 0..4 {
            assert_eq!(x.to_array()[i], Sc(a[i]));
        }
    }
}

#[test]
fn stress_test_to_array_overriding() {
    let mut rng = rand_chacha::ChaCha8Rng::seed_from_u64(2);
    for _ in 0..1000 {
        let cero_ratio: f32 = rand::random();
        let a: [f32; 4] = rand::random::<[f32; 4]>().map(|x| (x - cero_ratio).max(0.));
        let b: [f32; 4] = rand::random::<[f32; 4]>().map(|x| (x - cero_ratio).max(0.));

        let mut y: SparseSimd<4, Sc> = SparseSimd::new_from_array(&sc_vec(&b));
        let mut order = (0..4).collect::<Vec<_>>();
        order.shuffle(&mut rng);
        for i in order {
            y.set(i, Sc(a[i]));
            assert_eq!(y.to_array()[i], Sc(a[i]));
        }

        for i in 0..4 {
            assert_eq!(y.to_array()[i], Sc(a[i]));
        }
    }
}

#[test]
fn stress_test_indexing() {
    let mut rng = rand_chacha::ChaCha8Rng::seed_from_u64(2);
    for _ in 0..1000 {
        let cero_ratio: f32 = rand::random();
        let a: [f32; 32] = rand::random::<[f32; 32]>().map(|x| (x - cero_ratio).max(0.));
        let b: [f32; 32] = rand::random::<[f32; 32]>().map(|x| (x - cero_ratio).max(0.));

        let mut x: SparseSimd<32, Sc> = SparseSimd::zero();
        let mut y: SparseSimd<32, Sc> = SparseSimd::new_from_array(&sc_vec(&b));
        let mut order = (0..32).collect::<Vec<_>>();
        order.shuffle(&mut rng);
        for i in order {
            x.set(i, Sc(a[i]));
            y.set(i, Sc(a[i]));
        }

        for i in 0..32 {
            assert_eq!(x.index(i), Sc(a[i]));
            assert_eq!(y.index(i), Sc(a[i]));
        }
    }
}

#[test]
fn test_indexing_mut() {
    for i in 0..10 {
        let mut x: SparseSimd<10, Sc> = SparseSimd::new_from_array(&sc_vec(&[0.; 10]));
        x.set(i, Sc(1.));

        for j in 0..10 {
            if i == j {
                assert_eq!(Sc(1.), x.index(j));
            } else {
                assert_eq!(Sc(0.), x.index(j));
            }
        }
    }
}
