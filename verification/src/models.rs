use vstd::prelude::*;

use crate::arithmetic::Arithmetic;
use crate::arithmetic::Promote;
use crate::dual::extended_arithmetic::ArithmeticLaws;
use crate::trainer::views;

verus! {

/// The polynomial accumulator after `n` coefficients: the pair of the
/// partial sum and the running power of `x`.
pub open spec fn sp_poly_acc<N: Arithmetic>(ps: Seq<N::V>, x: N::V, n: int) -> (N::V, N::V)
    decreases n,
{
    if n <= 0 {
        (N::sp_zero(), N::sp_one())
    } else {
        let prev = sp_poly_acc::<N>(ps, x, n - 1);
        (N::sp_add(prev.0, N::sp_mul(prev.1, ps[n - 1])), N::sp_mul(prev.1, x))
    }
}

/// The polynomial model: coefficients as parameters, one input, one
/// output. The value is the sum of `params[n] · x^n`, accumulated with a
/// running power exactly as written here.
pub fn polinomial<B: ArithmeticLaws, N: Arithmetic + Promote<B>>(
    params: &Vec<N>,
    input: &Vec<B>,
    _extra: &(),
) -> (r: Vec<N>)
    requires
        input.len() == 1,
    ensures
        r@.len() == 1,
        r@[0].v() == sp_poly_acc::<N>(
            views(params@),
            N::sp_promote(input@[0].v()),
            params@.len() as int,
        ).0,
{
    let mut ret = N::zero();
    let mut x_to_the_nth = N::one();
    let mut n: usize = 0;
    let g = params.len();
    while n < g
        invariant
            g == params.len(),
            input.len() == 1,
            n <= g,
            ret.v() == sp_poly_acc::<N>(
                views(params@),
                N::sp_promote(input@[0].v()),
                n as int,
            ).0,
            x_to_the_nth.v() == sp_poly_acc::<N>(
                views(params@),
                N::sp_promote(input@[0].v()),
                n as int,
            ).1,
        decreases g - n,
    {
        ret = ret.add(x_to_the_nth.dup().mul(params[n].dup()));
        x_to_the_nth = x_to_the_nth.mul(N::promote(&input[0]));
        n += 1;
    }
    let mut r: Vec<N> = Vec::new();
    r.push(ret);
    r
}

/// The simplest model there is: the output is the parameter vector itself.
pub fn direct<B: ArithmeticLaws, N: Arithmetic>(
    parameters: &Vec<N>,
    _input: &Vec<B>,
    _extra: &(),
) -> (r: Vec<N>)
    ensures
        r@.len() == parameters@.len(),
        views(r@) == views(parameters@),
{
    let mut r: Vec<N> = Vec::new();
    let mut i: usize = 0;
    let n = parameters.len();
    while i < n
        invariant
            n == parameters.len(),
            i <= n,
            r@.len() == i,
            forall|k: int| 0 <= k < i ==> #[trigger] r@[k].v() == parameters@[k].v(),
        decreases n - i,
    {
        r.push(parameters[i].dup());
        i += 1;
    }
    proof {
        assert(views(r@) =~= views(parameters@));
    }
    r
}

} // verus!
