use vstd::prelude::*;

use crate::arithmetic::Arithmetic;

verus! {

/// An RGB color over an engine scalar: the value part of a tile.
pub struct Color<N> {
    pub r: N,
    pub g: N,
    pub b: N,
}

impl<N: Arithmetic> Color<N> {
    /// The three channels, in order.
    pub fn into_array(self) -> (r: Vec<N>)
        ensures
            r@.len() == 3,
            r@[0].v() == self.r.v(),
            r@[1].v() == self.g.v(),
            r@[2].v() == self.b.v(),
    {
        let mut out: Vec<N> = Vec::new();
        out.push(self.r);
        out.push(self.g);
        out.push(self.b);
        out
    }

    /// A copy of the color.
    pub fn dup(&self) -> (c: Self)
        ensures
            c.r.v() == self.r.v(),
            c.g.v() == self.g.v(),
            c.b.v() == self.b.v(),
    {
        Color { r: self.r.dup(), g: self.g.dup(), b: self.b.dup() }
    }

    /// Scale every channel.
    pub fn mul(self, rhs: &N) -> (c: Self)
        ensures
            c.r.v() == N::sp_mul(self.r.v(), rhs.v()),
            c.g.v() == N::sp_mul(self.g.v(), rhs.v()),
            c.b.v() == N::sp_mul(self.b.v(), rhs.v()),
    {
        Color { r: self.r.mul(rhs.dup()), g: self.g.mul(rhs.dup()), b: self.b.mul(rhs.dup()) }
    }

    /// Add another color, channel by channel.
    pub fn add(self, rhs: Self) -> (c: Self)
        ensures
            c.r.v() == N::sp_add(self.r.v(), rhs.r.v()),
            c.g.v() == N::sp_add(self.g.v(), rhs.g.v()),
            c.b.v() == N::sp_add(self.b.v(), rhs.b.v()),
    {
        Color { r: self.r.add(rhs.r), g: self.g.add(rhs.g), b: self.b.add(rhs.b) }
    }
}

/// The color channels of a five-scalar tile `[x, y, r, g, b]`.
pub fn get_color<N: Arithmetic>(tile: &Vec<N>) -> (c: Color<N>)
    requires
        tile.len() == 5,
    ensures
        c.r.v() == tile@[2].v(),
        c.g.v() == tile@[3].v(),
        c.b.v() == tile@[4].v(),
{
    Color { r: tile[2].dup(), g: tile[3].dup(), b: tile[4].dup() }
}

/// Blend two colors: `a` weighted by `factor`, `b` by one minus it.
pub fn mix<N: Arithmetic>(a: Color<N>, b: Color<N>, factor: N) -> (c: Color<N>)
    ensures
        ({
            let anti = N::sp_sub(N::sp_one(), factor.v());
            &&& c.r.v() == N::sp_add(N::sp_mul(a.r.v(), factor.v()), N::sp_mul(b.r.v(), anti))
            &&& c.g.v() == N::sp_add(N::sp_mul(a.g.v(), factor.v()), N::sp_mul(b.g.v(), anti))
            &&& c.b.v() == N::sp_add(N::sp_mul(a.b.v(), factor.v()), N::sp_mul(b.b.v(), anti))
        }),
{
    let anti_factor = N::one().sub(factor.dup());
    a.mul(&factor).add(b.mul(&anti_factor))
}

} // verus!
