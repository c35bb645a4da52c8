use ia_engine::arithmetic::{Arithmetic, Promote};
use ia_engine::dual::extended_arithmetic::{ArithmeticLaws, ExtendedArithmetic};

/// A plain float wrapper: the base scalar the engine is instantiated with.
#[derive(Clone, Copy, Debug, PartialEq)]
struct Sc(f32);

impl Arithmetic for Sc {
    type V = Sc;

    fn dup(&self) -> Sc {
        *self
    }

    fn zero() -> Sc {
        Sc(0.0)
    }

    fn one() -> Sc {
        Sc(1.0)
    }

    fn add(self, rhs: Sc) -> Sc {
        Sc(self.0 + rhs.0)
    }

    fn sub(self, rhs: Sc) -> Sc {
        Sc(self.0 - rhs.0)
    }

    fn mul(self, rhs: Sc) -> Sc {
        Sc(self.0 * rhs.0)
    }

    fn div(self, rhs: Sc) -> Sc {
        Sc(self.0 / rhs.0)
    }

    fn lt(&self, rhs: &Sc) -> bool {
        self.0 < rhs.0
    }

    fn eq_num(&self, rhs: &Sc) -> bool {
        self.0 == rhs.0
    }

    fn from_usize(n: usize) -> Sc {
        Sc(n as f32)
    }

    fn to_decimal(&self) -> String {
        format!("{}", self.0)
    }

    fn from_decimal(s: &str) -> Option<Sc> {
        s.parse::<f32>().ok().map(Sc)
    }
}

impl ExtendedArithmetic for Sc {
    fn sqrt(self) -> Sc {
        Sc(self.0.sqrt())
    }

    fn neg(self) -> Sc {
        Sc(-self.0)
    }

    fn sigmoid(self) -> Sc {
        Sc(1.0 / (1.0 + (-self.0).exp()))
    }

    fn abs(self) -> Sc {
        Sc(self.0.abs())
    }

    fn relu(self) -> Sc {
        Sc(self.0.max(0.0))
    }
}

impl Promote<Sc> for Sc {
    fn promote(b: &Sc) -> Sc {
        *b
    }
}

impl ArithmeticLaws for Sc {
    fn lemma_promote_id(_: Sc) {}

    fn lemma_add_zero(_: Sc) {}

    fn lemma_sub_zero(_: Sc) {}

    fn lemma_mul_zero(_: Sc) {}

    fn lemma_div_zero(_: Sc) {}

    fn lemma_neg_zero() {}

    fn lemma_neg_is_zero_sub(_: Sc) {}

    fn lemma_sub_is_add_neg(_: Sc, _: Sc) {}

    fn lemma_half_double(_: Sc) {}

    fn lemma_double_half(_: Sc) {}

    fn lemma_decimal_round_trip(_: Sc) {}
}

use ia_engine::matrix::Matrix;
use rand::Rng;
use rand_chacha::rand_core::SeedableRng;
use rand_chacha::ChaChaRng;

fn mat<const R: usize, const C: usize>(cells: Vec<Vec<f32>>) -> Matrix<R, C, Sc> {
    let rows: Vec<Vec<Sc>> = cells.into_iter().map(|r| r.into_iter().map(Sc).collect()).collect();
    Matrix::new(rows)
}

fn rand_matrix<const R: usize, const C: usize>(rng: &mut ChaChaRng) -> Matrix<R, C, Sc> {
    let mut rows: Vec<Vec<Sc>> = Vec::new();
    for _ in 0..R {
        let mut row: Vec<Sc> = Vec::new();
        for _ in 0..C {
            row.push(Sc(rng.gen::<f32>()));
        }
        rows.push(row);
    }
    Matrix::new(rows)
}

#[test]
fn test_multiplication_a() {
    let a: Matrix<3, 3, Sc> = mat(vec![
        vec![1., 2., 3.],
        vec![1., 0., 3.],
        vec![0., 2., 3.],
    ]);
    let b: Matrix<3, 3, Sc> = mat(vec![
        vec![3., 2., 3.],
        vec![1., 3., 2.],
        vec![7., 6., 3.],
    ]);

    let ab: Matrix<3, 3, Sc> = mat(vec![
        vec![26., 26., 16.],
        vec![24., 20., 12.],
        vec![23., 24., 13.],
    ]);

    assert!(a.mul(&b).eq_num(&ab));
}

#[test]
fn test_multiplication_b() {
    let a: Matrix<3, 2, Sc> = mat(vec![vec![1., 2.], vec![3., 4.], vec![5., 6.]]);
    let b: Matrix<2, 4, Sc> = mat(vec![
        vec![7., 8., 9., 10.],
        vec![11., 12., 13., 14.],
    ]);

    let ab: Matrix<3, 4, Sc> = mat(vec![
        vec![29., 32., 35., 38.],
        vec![65., 72., 79., 86.],
        vec![101., 112., 123., 134.],
    ]);

    assert!(a.mul(&b).eq_num(&ab));
}

#[test]
fn test_multiplication_papa() {
    let a: Matrix<2, 3, Sc> = mat(vec![vec![1., 2., 3.], vec![3., 4., 0.]]);
    let b: Matrix<3, 2, Sc> = mat(vec![vec![7., 8.], vec![7., 9.], vec![9., 8.]]);

    let ab: Matrix<2, 2, Sc> = mat(vec![vec![48., 50.], vec![49., 60.]]);

    assert!(a.mul(&b).eq_num(&ab));
}

#[test]
fn stress_test_multiplication() {
    let mut rand = ChaChaRng::seed_from_u64(0);

    for _ in 0..100 {
        let unit3: Matrix<3, 3, Sc> = Matrix::unit();
        let unit4: Matrix<3, 3, Sc> = Matrix::unit();
        let a: Matrix<3, 3, Sc> = rand_matrix(&mut rand);
        let b: Matrix<3, 3, Sc> = rand_matrix(&mut rand);

        assert!(a.eq_num(&a.mul(&unit3)));
        assert!(a.eq_num(&unit4.mul(&a)));

        let ab = a.mul(&b);

        assert!(ab.eq_num(&a.mul(&unit3.mul(&b))));
        assert!(ab.eq_num(&a.mul(&unit3).mul(&b)));
    }
}

#[test]
fn matrix_add_and_accessors() {
    let a: Matrix<2, 2, Sc> = mat(vec![vec![1., 2.], vec![3., 4.]]);
    let b: Matrix<2, 2, Sc> = mat(vec![vec![10., 20.], vec![30., 40.]]);
    let s = a.add(&b);
    assert_eq!(*s.get(0, 0), Sc(11.));
    assert_eq!(*s.get(1, 1), Sc(44.));
    assert_eq!(a.hola(), 0);

    let flat: Vec<Sc> = vec![Sc(1.), Sc(2.), Sc(3.), Sc(4.), Sc(5.), Sc(6.)];
    let m: Matrix<2, 3, Sc> = Matrix::from_flat(&flat);
    assert_eq!(*m.get(1, 0), Sc(4.));

    let col: Matrix<3, 1, Sc> = mat(vec![vec![5.], vec![6.], vec![7.]]);
    let arr = col.as_array();
    assert_eq!(arr, vec![Sc(5.), Sc(6.), Sc(7.)]);

    let mut d: Matrix<2, 2, Sc> = mat(vec![vec![1., -2.], vec![-3., 4.]]);
    d.delinearize(|x: Sc| x.relu());
    assert_eq!(*d.get(0, 1), Sc(0.));
    assert_eq!(*d.get(1, 1), Sc(4.));
}
