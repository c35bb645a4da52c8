use vstd::prelude::*;

use crate::arithmetic::Arithmetic;
use crate::dual::extended_arithmetic::ExtendedArithmetic;

verus! {

/// A two-dimensional point or direction over an engine scalar: what the
/// tiler model moves its seed points with.
pub struct Vec2<N> {
    pub x: N,
    pub y: N,
}

/// The squared length of the components `(x, y)`.
pub open spec fn sp_length2<N: ExtendedArithmetic>(x: N::V, y: N::V) -> N::V {
    N::sp_add(N::sp_mul(x, x), N::sp_mul(y, y))
}

/// The dot product of two component pairs.
pub open spec fn sp_dot2<N: ExtendedArithmetic>(px: N::V, py: N::V, vx: N::V, vy: N::V) -> N::V {
    N::sp_add(N::sp_mul(px, vx), N::sp_mul(py, vy))
}

impl<N: ExtendedArithmetic> Vec2<N> {
    pub fn zero() -> (r: Self)
        ensures
            r.x.v() == N::sp_zero(),
            r.y.v() == N::sp_zero(),
    {
        Vec2 { x: N::zero(), y: N::zero() }
    }

    pub fn new(x: N, y: N) -> (r: Self)
        ensures
            r.x.v() == x.v(),
            r.y.v() == y.v(),
    {
        Vec2 { x, y }
    }

    /// A copy of the point.
    pub fn dup(&self) -> (r: Self)
        ensures
            r.x.v() == self.x.v(),
            r.y.v() == self.y.v(),
    {
        Vec2 { x: self.x.dup(), y: self.y.dup() }
    }

    /// The squared Euclidean length.
    pub fn length2(self) -> (r: N)
        ensures
            r.v() == sp_length2::<N>(self.x.v(), self.y.v()),
    {
        self.x.pow2().add(self.y.pow2())
    }

    /// The Euclidean length: the root of the squared length.
    pub fn length(self) -> (r: N)
        ensures
            r.v() == N::sp_sqrt(sp_length2::<N>(self.x.v(), self.y.v())),
    {
        self.length2().sqrt()
    }

    /// Scale both components.
    pub fn mul(self, rhs: &N) -> (r: Self)
        ensures
            r.x.v() == N::sp_mul(self.x.v(), rhs.v()),
            r.y.v() == N::sp_mul(self.y.v(), rhs.v()),
    {
        Vec2 { x: self.x.mul(rhs.dup()), y: self.y.mul(rhs.dup()) }
    }

    /// Componentwise difference.
    pub fn sub(self, rhs: Self) -> (r: Self)
        ensures
            r.x.v() == N::sp_sub(self.x.v(), rhs.x.v()),
            r.y.v() == N::sp_sub(self.y.v(), rhs.y.v()),
    {
        Vec2 { x: self.x.sub(rhs.x), y: self.y.sub(rhs.y) }
    }
}

/// The dot product of a point and a direction.
pub fn dot<N: ExtendedArithmetic>(p: Vec2<N>, v: Vec2<N>) -> (r: N)
    ensures
        r.v() == sp_dot2::<N>(p.x.v(), p.y.v(), v.x.v(), v.y.v()),
{
    p.x.mul(v.x).add(p.y.mul(v.y))
}

/// The direction `v` scaled to unit length — or kept as it is when its
/// length compares numerically equal to zero, to avoid dividing by it.
pub fn normalize<N: ExtendedArithmetic>(v: Vec2<N>) -> (r: Vec2<N>)
    ensures
        ({
            let len = N::sp_sqrt(sp_length2::<N>(v.x.v(), v.y.v()));
            if N::sp_eq_num(len, N::sp_zero()) {
                r.x.v() == v.x.v() && r.y.v() == v.y.v()
            } else {
                r.x.v() == N::sp_div(v.x.v(), len) && r.y.v() == N::sp_div(v.y.v(), len)
            }
        }),
{
    let length = v.dup().length();
    if length.eq_num(&N::zero()) {
        v
    } else {
        Vec2 { x: v.x.div(length.dup()), y: v.y.div(length) }
    }
}

/// Project the point `p` onto the direction of `v`: normalize `v`, then
/// scale it by the dot product with `p`.
pub fn project_point_to_vector<N: ExtendedArithmetic>(p: Vec2<N>, v: Vec2<N>) -> (r: Vec2<N>)
    ensures
        ({
            let len = N::sp_sqrt(sp_length2::<N>(v.x.v(), v.y.v()));
            let nx = if N::sp_eq_num(len, N::sp_zero()) {
                v.x.v()
            } else {
                N::sp_div(v.x.v(), len)
            };
            let ny = if N::sp_eq_num(len, N::sp_zero()) {
                v.y.v()
            } else {
                N::sp_div(v.y.v(), len)
            };
            let l = sp_dot2::<N>(p.x.v(), p.y.v(), nx, ny);
            r.x.v() == N::sp_mul(nx, l) && r.y.v() == N::sp_mul(ny, l)
        }),
{
    let normalized = normalize(v);
    let projection_length = dot(p, normalized.dup());
    normalized.mul(&projection_length)
}

} // verus!
