use ia_engine::arithmetic::{Arithmetic, Promote};
use ia_engine::dual::extended_arithmetic::{ArithmeticLaws, ExtendedArithmetic};

/// A plain float wrapper: the base scalar the engine is instantiated with.
#[derive(Clone, Copy, Debug, PartialEq)]
struct Sc(f32);

impl Arithmetic for Sc {
    type V = Sc;

    fn dup(&self) -> Sc {
        *self
    }

    fn zero() -> Sc {
        Sc(0.0)
    }

    fn one() -> Sc {
        Sc(1.0)
    }

    fn add(self, rhs: Sc) -> Sc {
        Sc(self.0 + rhs.0)
    }

    fn sub(self, rhs: Sc) -> Sc {
        Sc(self.0 - rhs.0)
    }

    fn mul(self, rhs: Sc) -> Sc {
        Sc(self.0 * rhs.0)
    }

    fn div(self, rhs: Sc) -> Sc {
        Sc(self.0 / rhs.0)
    }

    fn lt(&self, rhs: &Sc) -> bool {
        self.0 < rhs.0
    }

    fn eq_num(&self, rhs: &Sc) -> bool {
        self.0 == rhs.0
    }

    fn from_usize(n: usize) -> Sc {
        Sc(n as f32)
    }

    fn to_decimal(&self) -> String {
        format!("{}", self.0)
    }

    fn from_decimal(s: &str) -> Option<Sc> {
        s.parse::<f32>().ok().map(Sc)
    }
}

impl ExtendedArithmetic for Sc {
    fn sqrt(self) -> Sc {
        Sc(self.0.sqrt())
    }

    fn neg(self) -> Sc {
        Sc(-self.0)
    }

    fn sigmoid(self) -> Sc {
        Sc(1.0 / (1.0 + (-self.0).exp()))
    }

    fn abs(self) -> Sc {
        Sc(self.0.abs())
    }

    fn relu(self) -> Sc {
        Sc(self.0.max(0.0))
    }
}

impl Promote<Sc> for Sc {
    fn promote(b: &Sc) -> Sc {
        *b
    }
}

impl ArithmeticLaws for Sc {
    fn lemma_promote_id(_: Sc) {}

    fn lemma_add_zero(_: Sc) {}

    fn lemma_sub_zero(_: Sc) {}

    fn lemma_mul_zero(_: Sc) {}

    fn lemma_div_zero(_: Sc) {}

    fn lemma_neg_zero() {}

    fn lemma_neg_is_zero_sub(_: Sc) {}

    fn lemma_sub_is_add_neg(_: Sc, _: Sc) {}

    fn lemma_half_double(_: Sc) {}

    fn lemma_double_half(_: Sc) {}

    fn lemma_decimal_round_trip(_: Sc) {}
}


use ia_engine::matrix_shape::MatrixShape;
use ia_engine::tiler::color::{get_color, mix, Color};
use ia_engine::tiler::vec2::{dot, normalize, project_point_to_vector, Vec2};

#[test]
fn vec2_lengths_and_dot() {
    let v: Vec2<Sc> = Vec2::new(Sc(3.0), Sc(4.0));
    assert_eq!(v.dup().length2(), Sc(25.0));
    assert_eq!(v.dup().length(), Sc(5.0));

    let z: Vec2<Sc> = Vec2::zero();
    assert_eq!(z.x, Sc(0.0));
    assert_eq!(z.y, Sc(0.0));

    let p: Vec2<Sc> = Vec2::new(Sc(2.0), Sc(-1.0));
    assert_eq!(dot(p, v), Sc(2.0));
}

#[test]
fn vec2_projection() {
    let p: Vec2<Sc> = Vec2::new(Sc(2.0), Sc(7.0));
    let v: Vec2<Sc> = Vec2::new(Sc(10.0), Sc(0.0));
    let proj = project_point_to_vector(p, v);
    assert_eq!(proj.x, Sc(2.0));
    assert_eq!(proj.y, Sc(0.0));

    // A zero direction is left as it is rather than divided by.
    let z: Vec2<Sc> = Vec2::new(Sc(0.0), Sc(0.0));
    let n = normalize(z);
    assert_eq!(n.x, Sc(0.0));
    assert_eq!(n.y, Sc(0.0));
}

#[test]
fn color_channels_and_mix() {
    let tile: Vec<Sc> = vec![Sc(0.1), Sc(0.2), Sc(1.0), Sc(0.0), Sc(0.5)];
    let c = get_color(&tile);
    assert_eq!(c.r, Sc(1.0));
    assert_eq!(c.g, Sc(0.0));
    assert_eq!(c.b, Sc(0.5));

    let a = Color { r: Sc(1.0), g: Sc(0.0), b: Sc(0.0) };
    let b = Color { r: Sc(0.0), g: Sc(1.0), b: Sc(0.0) };
    let m = mix(a, b, Sc(0.25));
    assert_eq!(m.r, Sc(0.25));
    assert_eq!(m.g, Sc(0.75));
    assert_eq!(m.b, Sc(0.0));

    let arr = m.into_array();
    assert_eq!(arr, vec![Sc(0.25), Sc(0.75), Sc(0.0)]);
}

#[test]
fn matrix_shape_size() {
    let shape = MatrixShape::new(3, 4);
    assert_eq!(shape.size(), 12);
}
