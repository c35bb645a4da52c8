use vstd::prelude::*;

use crate::arithmetic::Arithmetic;
use crate::arithmetic::Promote;
use crate::dual::extended_arithmetic::sp_abs;
use crate::dual::extended_arithmetic::ArithmeticLaws;
use crate::dual::extended_arithmetic::ExtendedArithmetic;
use crate::dual::Dual;
use crate::simd_arr::dense_simd::DenseSimd;
use crate::simd_arr::hybrid_simd::HybridSimd;
use crate::simd_arr::SimdArr;

verus! {

/// What a training thread sends its consumer: a message, or the request to
/// shut down.
pub enum TrainerComunicationCodes<T> {
    Die,
    Msg(T),
}

/// One example: an input of `I` scalars and the target output of `O`
/// scalars. Owned by the caller; the engine only reads it.
pub struct DataPoint<const I: usize, const O: usize, B: ArithmeticLaws> {
    pub input: Vec<B>,
    pub output: Vec<B>,
}

impl<const I: usize, const O: usize, B: ArithmeticLaws> DataPoint<I, O, B> {
    /// The declared widths hold.
    pub open spec fn wf(&self) -> bool {
        self.input.len() == I && self.output.len() == O
    }

    /// A copy of the example, slot for slot.
    pub fn dup(&self) -> (r: Self)
        ensures
            r.input@.len() == self.input@.len(),
            r.output@.len() == self.output@.len(),
            views(r.input@) == views(self.input@),
            views(r.output@) == views(self.output@),
    {
        let mut input: Vec<B> = Vec::new();
        let mut i: usize = 0;
        let ni = self.input.len();
        while i < ni
            invariant
                ni == self.input.len(),
                i <= ni,
                input@.len() == i,
                forall|k: int| 0 <= k < i ==> #[trigger] input@[k].v() == self.input@[k].v(),
            decreases ni - i,
        {
            input.push(self.input[i].dup());
            i += 1;
        }
        let mut output: Vec<B> = Vec::new();
        let mut j: usize = 0;
        let no = self.output.len();
        while j < no
            invariant
                no == self.output.len(),
                j <= no,
                output@.len() == j,
                forall|k: int| 0 <= k < j ==> #[trigger] output@[k].v() == self.output@[k].v(),
            decreases no - j,
        {
            output.push(self.output[j].dup());
            j += 1;
        }
        let r = DataPoint { input, output };
        proof {
            assert(views(r.input@) =~= views(self.input@));
            assert(views(r.output@) =~= views(self.output@));
        }
        r
    }
}

/// A marker carrying the criticality threshold for the hybrid gradient
/// backend, handed to `Trainer::new_hybrid`.
pub struct CriticalityCue<const CRITICALITY: usize>();

/// The views of a sequence of scalars.
pub open spec fn views<A: Arithmetic>(s: Seq<A>) -> Seq<A::V> {
    s.map_values(|x: A| x.v())
}

/// The cost of one example over its first `n` output slots: the sum of the
/// absolute differences between prediction and target (an L1 cost).
pub open spec fn sp_point_cost<B: ArithmeticLaws, N: ExtendedArithmetic + Promote<B>>(
    out: Seq<B::V>,
    pred: Seq<N::V>,
    n: int,
) -> N::V
    decreases n,
{
    if n <= 0 {
        N::sp_zero()
    } else {
        N::sp_add(
            sp_point_cost::<B, N>(out, pred, n - 1),
            sp_abs::<N>(N::sp_sub(pred[n - 1], N::sp_promote(out[n - 1]))),
        )
    }
}

/// The sum of the first `n` of a sequence of cost views.
pub open spec fn sp_cost_sum<N: Arithmetic>(costs: Seq<N::V>, n: int) -> N::V
    decreases n,
{
    if n <= 0 {
        N::sp_zero()
    } else {
        N::sp_add(sp_cost_sum::<N>(costs, n - 1), costs[n - 1])
    }
}

/// The sum of squares of the first `n` gradient slots.
pub open spec fn sp_sum_squares<B: Arithmetic>(g: Seq<B::V>, n: int) -> B::V
    decreases n,
{
    if n <= 0 {
        B::sp_zero()
    } else {
        B::sp_add(sp_sum_squares::<B>(g, n - 1), B::sp_mul(g[n - 1], g[n - 1]))
    }
}

/// The model is callable on any parameter vector of length `plen` and any
/// input of length `I`.
pub open spec fn model_callable<
    const I: usize,
    B: ArithmeticLaws,
    N: Arithmetic,
    E,
    F: Fn(&Vec<N>, &Vec<B>, &E) -> Vec<N>,
>(f: F, plen: int) -> bool {
    forall|p: &Vec<N>, x: &Vec<B>, c: &E|
        p@.len() == plen && x@.len() == I ==> call_requires(f, (p, x, c))
}

/// Whatever the model returns has `O` output slots.
pub open spec fn model_sized<
    const O: usize,
    B: ArithmeticLaws,
    N: Arithmetic,
    E,
    F: Fn(&Vec<N>, &Vec<B>, &E) -> Vec<N>,
>(f: F) -> bool {
    forall|p: &Vec<N>, x: &Vec<B>, c: &E, ret: Vec<N>|
        call_ensures(f, (p, x, c), ret) ==> ret@.len() == O
}

/// The parameter translator is callable on vectors of length `plen` and
/// returns a vector of that length.
pub open spec fn translator_ok<B: ArithmeticLaws, PT: Fn(&Vec<B>, &Vec<B>) -> Vec<B>>(
    f: PT,
    plen: int,
) -> bool {
    &&& forall|a: &Vec<B>, b: &Vec<B>|
        a@.len() == plen && b@.len() == plen ==> call_requires(f, (a, b))
    &&& forall|a: &Vec<B>, b: &Vec<B>, r: Vec<B>| call_ensures(f, (a, b), r) ==> r@.len() == plen
}

/// The costs `costs` are, example by example, the cost of some prediction
/// the model can return for that example under the parameters `params`.
pub open spec fn costs_consistent<
    const I: usize,
    const O: usize,
    B: ArithmeticLaws,
    N: ExtendedArithmetic + Promote<B>,
    E,
    F: Fn(&Vec<N>, &Vec<B>, &E) -> Vec<N>,
>(model: F, params: &Vec<N>, dataset: Seq<DataPoint<I, O, B>>, extra: &E, costs: Seq<N::V>) -> bool {
    &&& costs.len() == dataset.len()
    &&& forall|i: int|
        #![trigger dataset[i]]
        0 <= i < dataset.len() ==> exists|pred: Vec<N>|
            {
                &&& #[trigger] call_ensures(model, (params, &dataset[i].input, extra), pred)
                &&& pred@.len() == O
                &&& costs[i] == sp_point_cost::<B, N>(
                    views(dataset[i].output@),
                    views(pred@),
                    O as int,
                )
            }
}

/// The value `c` is a mean cost of the dataset under `params` that the
/// model can produce: the contract of `dataset_cost`.
pub open spec fn is_dataset_cost<
    const I: usize,
    const O: usize,
    B: ArithmeticLaws,
    N: ExtendedArithmetic + Promote<B>,
    E,
    F: Fn(&Vec<N>, &Vec<B>, &E) -> Vec<N>,
>(model: F, params: &Vec<N>, dataset: Seq<DataPoint<I, O, B>>, extra: &E, c: N::V) -> bool {
    exists|costs: Seq<N::V>|
        #[trigger] costs_consistent::<I, O, B, N, E, F>(model, params, dataset, extra, costs)
            && c == N::sp_div(
            sp_cost_sum::<N>(costs, dataset.len() as int),
            N::sp_from_usize(dataset.len() as int),
        )
}

/// The cost sum over a prefix depends only on that prefix.
pub proof fn lemma_cost_sum_prefix<N: Arithmetic>(c1: Seq<N::V>, c2: Seq<N::V>, n: int)
    requires
        forall|k: int| 0 <= k < n ==> c1[k] == c2[k],
    ensures
        sp_cost_sum::<N>(c1, n) == sp_cost_sum::<N>(c2, n),
    decreases n,
{
    if n > 0 {
        lemma_cost_sum_prefix::<N>(c1, c2, n - 1);
    }
}

/// How many chunks of size `sub` a dataset of `n` examples decomposes
/// into: full chunks, plus one shorter final chunk for the remainder.
pub open spec fn sp_chunk_count(n: int, sub: int) -> int {
    if n <= 0 {
        0
    } else {
        (n - 1) / sub + 1
    }
}

/// `chunk` is, example for example in the view reading, the `k`-th
/// consecutive piece of `dataset` under chunk size `sub` (the last piece
/// may be shorter).
pub open spec fn chunk_matches<const I: usize, const O: usize, B: ArithmeticLaws>(
    chunk: Seq<DataPoint<I, O, B>>,
    dataset: Seq<DataPoint<I, O, B>>,
    sub: int,
    k: int,
) -> bool {
    let start = k * sub;
    let end = if start + sub <= dataset.len() {
        start + sub
    } else {
        dataset.len() as int
    };
    &&& chunk.len() == end - start
    &&& forall|j: int|
        #![trigger chunk[j]]
        0 <= j < chunk.len() ==> {
            &&& chunk[j].input@.len() == dataset[start + j].input@.len()
            &&& chunk[j].output@.len() == dataset[start + j].output@.len()
            &&& views(chunk[j].input@) == views(dataset[start + j].input@)
            &&& views(chunk[j].output@) == views(dataset[start + j].output@)
        }
}

/// The cost of one example: the sum over output slots of the absolute
/// difference between prediction and target.
pub fn datapoint_cost<
    const I: usize,
    const O: usize,
    B: ArithmeticLaws,
    N: ExtendedArithmetic + Promote<B>,
>(goal: &DataPoint<I, O, B>, prediction: Vec<N>) -> (r: N)
    requires
        goal.wf(),
        prediction.len() == O,
    ensures
        r.v() == sp_point_cost::<B, N>(views(goal.output@), views(prediction@), O as int),
{
    let mut ret = N::zero();
    let mut j: usize = 0;
    while j < O
        invariant
            goal.wf(),
            prediction.len() == O,
            j <= O,
            ret.v() == sp_point_cost::<B, N>(views(goal.output@), views(prediction@), j as int),
        decreases O - j,
    {
        let cost = prediction[j].dup().sub(N::promote(&goal.output[j]));
        let a = cost.abs();
        ret = ret.add(a);
        j += 1;
    }
    ret
}

/// The mean cost of a whole dataset: per-example costs from the model's
/// predictions, summed and divided by the example count.
pub fn dataset_cost<
    const I: usize,
    const O: usize,
    B: ArithmeticLaws,
    N: ExtendedArithmetic + Promote<B>,
    E,
    F: Fn(&Vec<N>, &Vec<B>, &E) -> Vec<N>,
>(dataset: &Vec<DataPoint<I, O, B>>, params: &Vec<N>, model: &F, extra: &E) -> (r: N)
    requires
        forall|i: int| 0 <= i < dataset.len() ==> (#[trigger] dataset@[i]).wf(),
        model_callable::<I, B, N, E, F>(*model, params@.len() as int),
        model_sized::<O, B, N, E, F>(*model),
    ensures
        is_dataset_cost::<I, O, B, N, E, F>(*model, params, dataset@, extra, r.v()),
{
    let ghost mut costs: Seq<N::V> = Seq::empty();
    let ghost mut preds: Seq<Vec<N>> = Seq::empty();
    let mut accumulator = N::zero();
    let mut i: usize = 0;
    let n = dataset.len();
    while i < n
        invariant
            n == dataset.len(),
            i <= n,
            forall|k: int| 0 <= k < dataset.len() ==> (#[trigger] dataset@[k]).wf(),
            model_callable::<I, B, N, E, F>(*model, params@.len() as int),
            model_sized::<O, B, N, E, F>(*model),
            costs.len() == i,
            preds.len() == i,
            forall|k: int|
                0 <= k < i ==> call_ensures(
                    *model,
                    (params, &dataset@[k].input, extra),
                    #[trigger] preds[k],
                ),
            forall|k: int| 0 <= k < i ==> (#[trigger] preds[k])@.len() == O,
            forall|k: int|
                0 <= k < i ==> #[trigger] costs[k] == sp_point_cost::<B, N>(
                    views(dataset@[k].output@),
                    views(preds[k]@),
                    O as int,
                ),
            accumulator.v() == sp_cost_sum::<N>(costs, i as int),
        decreases n - i,
    {
        let prediction = (model)(params, &dataset[i].input, extra);
        let ghost predg = prediction;
        let point = datapoint_cost::<I, O, B, N>(&dataset[i], prediction);
        proof {
            let costs0 = costs;
            costs = costs.push(point.v());
            preds = preds.push(predg);
            lemma_cost_sum_prefix::<N>(costs, costs0, i as int);
        }
        accumulator = accumulator.add(point);
        i += 1;
    }
    let count = N::from_usize(n);
    let r = accumulator.div(count);
    proof {
        assert forall|k: int| #![trigger dataset@[k]] 0 <= k < dataset@.len() implies exists|
            pred: Vec<N>,
        |
            {
                &&& #[trigger] call_ensures(*model, (params, &dataset@[k].input, extra), pred)
                &&& pred@.len() == O
                &&& costs[k] == sp_point_cost::<B, N>(
                    views(dataset@[k].output@),
                    views(pred@),
                    O as int,
                )
            } by {
            assert(call_ensures(*model, (params, &dataset@[k].input, extra), preds[k]));
        }
        assert(costs_consistent::<I, O, B, N, E, F>(*model, params, dataset@, extra, costs));
    }
    r
}

/// The smaller of two values in the numeric order.
pub open spec fn sp_min<B: Arithmetic>(a: B::V, b: B::V) -> B::V {
    if B::sp_lt(a, b) {
        a
    } else {
        b
    }
}

/// The larger of two values in the numeric order.
pub open spec fn sp_max<B: Arithmetic>(a: B::V, b: B::V) -> B::V {
    if B::sp_lt(a, b) {
        b
    } else {
        a
    }
}

/// The identity parameter update: add the step to the parameters.
pub fn default_param_translator<B: ArithmeticLaws>(params: &Vec<B>, vector: &Vec<B>) -> (r: Vec<
    B,
>)
    requires
        params.len() == vector.len(),
    ensures
        r.len() == params.len(),
        forall|i: int|
            0 <= i < params.len() ==> #[trigger] r@[i].v() == B::sp_add(
                params@[i].v(),
                vector@[i].v(),
            ),
{
    let mut r: Vec<B> = Vec::new();
    let mut i: usize = 0;
    let n = params.len();
    while i < n
        invariant
            n == params.len(),
            params.len() == vector.len(),
            i <= n,
            r@.len() == i,
            forall|k: int|
                0 <= k < i ==> #[trigger] r@[k].v() == B::sp_add(
                    params@[k].v(),
                    vector@[k].v(),
                ),
        decreases n - i,
    {
        r.push(params[i].dup().add(vector[i].dup()));
        i += 1;
    }
    r
}

/// The clamping parameter update: add the step, then keep each parameter
/// between `lower` and `upper`.
pub fn param_translator_with_bounds<B: ArithmeticLaws>(
    params: &Vec<B>,
    vector: &Vec<B>,
    upper: &B,
    lower: &B,
) -> (r: Vec<B>)
    requires
        params.len() == vector.len(),
    ensures
        r.len() == params.len(),
        forall|i: int|
            0 <= i < params.len() ==> #[trigger] r@[i].v() == sp_max::<B>(
                sp_min::<B>(B::sp_add(params@[i].v(), vector@[i].v()), upper.v()),
                lower.v(),
            ),
{
    let mut r: Vec<B> = Vec::new();
    let mut i: usize = 0;
    let n = params.len();
    while i < n
        invariant
            n == params.len(),
            params.len() == vector.len(),
            i <= n,
            r@.len() == i,
            forall|k: int|
                0 <= k < i ==> #[trigger] r@[k].v() == sp_max::<B>(
                    sp_min::<B>(B::sp_add(params@[k].v(), vector@[k].v()), upper.v()),
                    lower.v(),
                ),
        decreases n - i,
    {
        let x = params[i].dup().add(vector[i].dup());
        let capped = if x.lt(upper) {
            x
        } else {
            upper.dup()
        };
        let clamped = if capped.lt(lower) {
            lower.dup()
        } else {
            capped
        };
        r.push(clamped);
        i += 1;
    }
    r
}

/// The step factor that the line search carries between calls, as a power
/// of two of the scalar: doublings above one, halvings below it.
pub open spec fn sp_step_factor<B: Arithmetic>(e: int) -> B::V
    decreases (if e >= 0 {
        e
    } else {
        -e
    }),
{
    if e == 0 {
        B::sp_one()
    } else if e > 0 {
        B::sp_add(sp_step_factor::<B>(e - 1), sp_step_factor::<B>(e - 1))
    } else {
        B::sp_div(sp_step_factor::<B>(e + 1), B::sp_add(B::sp_one(), B::sp_one()))
    }
}

/// A parameter-seed dual for index `i`: gradient one at `i`, zero
/// elsewhere.
pub open spec fn is_seed_dual<const P: usize, B: ArithmeticLaws, S: SimdArr<P, B>>(
    d: Dual<P, B, S>,
    i: int,
) -> bool {
    &&& d.sp_grad().len() == P
    &&& d.sp_grad()[i] == B::sp_one()
    &&& forall|j: int| 0 <= j < P && j != i ==> d.sp_grad()[j] == B::sp_zero()
}

/// The trainer: owns the parameter vector (as seeded duals), the model in
/// its two readings (over duals for gradients, over plain scalars for
/// evaluation), the parameter-update hook, and the carried step factor of
/// the halving line search.
#[verifier::reject_recursive_types(P)]
#[verifier::reject_recursive_types(B)]
#[verifier::reject_recursive_types(E)]
#[verifier::reject_recursive_types(S)]
#[verifier::reject_recursive_types(FG)]
#[verifier::reject_recursive_types(F)]
#[verifier::reject_recursive_types(PT)]
pub struct Trainer<
    const P: usize,
    const I: usize,
    const O: usize,
    B: ArithmeticLaws,
    E,
    S: SimdArr<P, B>,
    FG: Fn(&Vec<Dual<P, B, S>>, &Vec<B>, &E) -> Vec<Dual<P, B, S>>,
    F: Fn(&Vec<B>, &Vec<B>, &E) -> Vec<B>,
    PT: Fn(&Vec<B>, &Vec<B>) -> Vec<B>,
> {
    model_gradient: FG,
    model: F,
    params: Vec<Dual<P, B, S>>,
    param_translator: PT,
    extra_data: E,
    last_cost: Option<B>,
    factor: B,
    factor_exp: i8,
}

impl<
    const P: usize,
    const I: usize,
    const O: usize,
    B: ArithmeticLaws,
    E,
    S: SimdArr<P, B>,
    FG: Fn(&Vec<Dual<P, B, S>>, &Vec<B>, &E) -> Vec<Dual<P, B, S>>,
    F: Fn(&Vec<B>, &Vec<B>, &E) -> Vec<B>,
    PT: Fn(&Vec<B>, &Vec<B>) -> Vec<B>,
> Trainer<P, I, O, B, E, S, FG, F, PT> {
    /// The parameter duals, for specification purposes.
    pub closed spec fn sp_params(&self) -> Seq<Dual<P, B, S>> {
        self.params@
    }

    /// The current parameter values, as views.
    pub open spec fn sp_param_reals(&self) -> Seq<B::V> {
        Seq::new(P as nat, |i: int| self.sp_params()[i].sp_real())
    }

    /// The gradient seeds of the parameters, as views.
    pub open spec fn sp_param_grads(&self) -> Seq<Seq<B::V>> {
        Seq::new(P as nat, |i: int| self.sp_params()[i].sp_grad())
    }

    /// The stored model closures and update hook.
    pub closed spec fn sp_model(&self) -> F {
        self.model
    }

    pub closed spec fn sp_model_gradient(&self) -> FG {
        self.model_gradient
    }

    pub closed spec fn sp_translator(&self) -> PT {
        self.param_translator
    }

    pub closed spec fn sp_extra(&self) -> E {
        self.extra_data
    }

    /// The cost recorded by the latest evaluation, as a view.
    pub closed spec fn sp_last_cost(&self) -> Option<B::V> {
        match self.last_cost {
            Some(c) => Some(c.v()),
            None => None,
        }
    }

    /// The carried step factor, as its exponent.
    pub closed spec fn sp_factor_exp(&self) -> int {
        self.factor_exp as int
    }

    /// The carried factor scalar matches its exponent.
    pub closed spec fn sp_factor_ok(&self) -> bool {
        self.factor.v() == sp_step_factor::<B>(self.factor_exp as int)
    }

    /// The trainer's invariant: `P` seeded parameters, closures that are
    /// callable and dimension that is respected, and a carried factor within
    /// the search window.
    pub open spec fn wf(&self) -> bool {
        &&& self.sp_params().len() == P
        &&& forall|i: int| 0 <= i < P ==> is_seed_dual(#[trigger] self.sp_params()[i], i)
        &&& model_callable::<I, B, Dual<P, B, S>, E, FG>(self.sp_model_gradient(), P as int)
        &&& model_sized::<O, B, Dual<P, B, S>, E, FG>(self.sp_model_gradient())
        &&& model_callable::<I, B, B, E, F>(self.sp_model(), P as int)
        &&& model_sized::<O, B, B, E, F>(self.sp_model())
        &&& translator_ok::<B, PT>(self.sp_translator(), P as int)
        &&& self.sp_factor_ok()
        &&& -9 <= self.sp_factor_exp() <= 62
    }

    /// Shared constructor body: seed one dual per parameter.
    fn new_core(
        trainable: F,
        trainable_gradient: FG,
        param_translator: PT,
        extra_data: E,
        initial_params: Vec<B>,
    ) -> (r: Self)
        requires
            initial_params.len() == P,
            model_callable::<I, B, Dual<P, B, S>, E, FG>(trainable_gradient, P as int),
            model_sized::<O, B, Dual<P, B, S>, E, FG>(trainable_gradient),
            model_callable::<I, B, B, E, F>(trainable, P as int),
            model_sized::<O, B, B, E, F>(trainable),
            translator_ok::<B, PT>(param_translator, P as int),
        ensures
            r.wf(),
            r.sp_param_reals() == views(initial_params@),
            r.sp_last_cost() is None,
            r.sp_factor_exp() == 0,
    {
        let mut params: Vec<Dual<P, B, S>> = Vec::new();
        let mut i: usize = 0;
        while i < P
            invariant
                initial_params.len() == P,
                i <= P,
                params@.len() == i,
                forall|k: int| 0 <= k < i ==> is_seed_dual(#[trigger] params@[k], k),
                forall|k: int|
                    0 <= k < i ==> (#[trigger] params@[k]).sp_real() == initial_params@[k].v(),
            decreases P - i,
        {
            params.push(Dual::new_param(initial_params[i].dup(), i));
            i += 1;
        }
        let r = Trainer {
            model_gradient: trainable_gradient,
            model: trainable,
            params,
            param_translator,
            extra_data,
            last_cost: None,
            factor: B::one(),
            factor_exp: 0,
        };
        proof {
            assert(r.sp_param_reals() =~= views(initial_params@));
        }
        r
    }

    /// The current parameter values.
    pub fn get_model_params(&self) -> (r: Vec<B>)
        requires
            self.wf(),
        ensures
            r.len() == P,
            views(r@) == self.sp_param_reals(),
    {
        let mut r: Vec<B> = Vec::new();
        let mut i: usize = 0;
        while i < P
            invariant
                self.wf(),
                i <= P,
                r@.len() == i,
                forall|k: int| 0 <= k < i ==> #[trigger] r@[k].v() == self.sp_param_reals()[k],
            decreases P - i,
        {
            r.push(self.params[i].get_real());
            i += 1;
        }
        proof {
            assert(views(r@) =~= self.sp_param_reals());
        }
        r
    }

    /// The cost recorded by the latest evaluation.
    pub fn get_last_cost(&self) -> (r: Option<B>)
        ensures
            r is Some <==> self.sp_last_cost() is Some,
            r is Some ==> r.unwrap().v() == self.sp_last_cost().unwrap(),
    {
        match &self.last_cost {
            Some(c) => Some(c.dup()),
            None => None,
        }
    }

    /// Run the plain model on an input under the current parameters.
    pub fn eval(&self, input: &Vec<B>) -> (r: Vec<B>)
        requires
            self.wf(),
            input.len() == I,
        ensures
            exists|ps: Vec<B>|
                views(ps@) == self.sp_param_reals() && #[trigger] call_ensures(
                    self.sp_model(),
                    (&ps, input, &self.sp_extra()),
                    r,
                ),
    {
        let ps = self.get_model_params();
        let r = (self.model)(&ps, input, &self.extra_data);
        proof {
            assert(call_ensures(self.sp_model(), (&ps, input, &self.sp_extra()), r));
        }
        r
    }

    /// The parameter duals as the vector the gradient model is called on.
    pub closed spec fn sp_params_vec(&self) -> Vec<Dual<P, B, S>> {
        self.params
    }

    /// What a `true` outcome of `train_step` means: for some step factor
    /// `2^e` that the halving search reached, the parameters moved through
    /// the translator along the unit gradient of a cost the gradient model
    /// produced at the old parameters, and the plain model's cost at the
    /// new parameters improved strictly on the old cost.
    pub open spec fn accepted_step(
        self,
        post: Self,
        dataset: Seq<DataPoint<I, O, B>>,
        og: Vec<B>,
        step: Vec<B>,
        cand: Vec<B>,
        e: int,
        gcost: (B::V, Seq<B::V>),
        c: B::V,
    ) -> bool {
        let nrm = B::sp_sqrt(sp_sum_squares::<B>(gcost.1, P as int));
        &&& is_dataset_cost::<I, O, B, Dual<P, B, S>, E, FG>(
            self.sp_model_gradient(),
            &self.sp_params_vec(),
            dataset,
            &self.sp_extra(),
            gcost,
        )
        &&& !B::sp_eq_num(nrm, B::sp_zero())
        &&& step@.len() == P
        &&& forall|j: int|
            0 <= j < P ==> #[trigger] step@[j].v() == B::sp_mul(
                B::sp_neg(B::sp_div(gcost.1[j], nrm)),
                sp_step_factor::<B>(e),
            )
        &&& -9 <= e <= self.sp_factor_exp()
        &&& views(og@) == self.sp_param_reals()
        &&& call_ensures(self.sp_translator(), (&og, &step), cand)
        &&& cand@.len() == P
        &&& post.sp_param_reals() == views(cand@)
        &&& is_dataset_cost::<I, O, B, B, E, F>(
            self.sp_model(),
            &cand,
            dataset,
            &self.sp_extra(),
            c,
        )
        &&& B::sp_lt(c, gcost.0)
        &&& post.sp_last_cost() == Some(c)
    }

    /// One rejected probe of the line search, with its witnesses: at step
    /// factor `2^e` the translator produced the candidate `cand` from the
    /// parameter values `og`, the plain model's mean cost over the dataset
    /// came out as `c`, and `c` was no improvement on the base cost.
    pub open spec fn failed_trial(
        self,
        dataset: Seq<DataPoint<I, O, B>>,
        gcost: (B::V, Seq<B::V>),
        e: int,
        og: Vec<B>,
        step: Vec<B>,
        cand: Vec<B>,
        c: B::V,
    ) -> bool {
        let nrm = B::sp_sqrt(sp_sum_squares::<B>(gcost.1, P as int));
        &&& step@.len() == P
        &&& forall|j: int|
            0 <= j < P ==> #[trigger] step@[j].v() == B::sp_mul(
                B::sp_neg(B::sp_div(gcost.1[j], nrm)),
                sp_step_factor::<B>(e),
            )
        &&& views(og@) == self.sp_param_reals()
        &&& call_ensures(self.sp_translator(), (&og, &step), cand)
        &&& is_dataset_cost::<I, O, B, B, E, F>(
            self.sp_model(),
            &cand,
            dataset,
            &self.sp_extra(),
            c,
        )
        &&& !B::sp_lt(c, gcost.0)
    }

    /// The halving at exponent `e` was probed and did not improve the
    /// cost: what a plateau asserts of every factor it visited.
    pub open spec fn halving_failed(
        self,
        dataset: Seq<DataPoint<I, O, B>>,
        gcost: (B::V, Seq<B::V>),
        e: int,
    ) -> bool {
        exists|og: Vec<B>, step: Vec<B>, cand: Vec<B>, c: B::V|
            #[trigger] self.failed_trial(dataset, gcost, e, og, step, cand, c)
    }

    /// One training step: evaluate cost and gradient at the current
    /// parameters, then search step sizes along the negated unit gradient,
    /// starting from the carried factor and halving, until the cost
    /// improves strictly or the factor falls below the minimum (ten
    /// halvings under one). On success the step is committed and the
    /// carried factor doubled; on a plateau — a vanishing gradient, or no
    /// improving halving — the parameters are left untouched, the carried
    /// factor is reset, and `false` signals the caller.
    pub fn train_step(&mut self, dataset: &Vec<DataPoint<I, O, B>>) -> (r: bool)
        requires
            old(self).wf(),
            forall|i: int| 0 <= i < dataset.len() ==> (#[trigger] dataset@[i]).wf(),
        ensures
            final(self).wf(),
            final(self).sp_param_grads() == old(self).sp_param_grads(),
            final(self).sp_model() == old(self).sp_model(),
            final(self).sp_model_gradient() == old(self).sp_model_gradient(),
            final(self).sp_translator() == old(self).sp_translator(),
            final(self).sp_extra() == old(self).sp_extra(),
            !r ==> final(self).sp_param_reals() == old(self).sp_param_reals(),
            !r ==> final(self).sp_factor_exp() == 0,
            // The plateau signal is exact: either the gradient vanished,
            // or every halving of the carried factor down to the minimum
            // was probed without improving the cost.
            !r ==> exists|gcost: (B::V, Seq<B::V>)|
                #[trigger] is_dataset_cost::<I, O, B, Dual<P, B, S>, E, FG>(
                    old(self).sp_model_gradient(),
                    &old(self).sp_params_vec(),
                    dataset@,
                    &old(self).sp_extra(),
                    gcost,
                ) && (B::sp_eq_num(
                    B::sp_sqrt(sp_sum_squares::<B>(gcost.1, P as int)),
                    B::sp_zero(),
                ) || (forall|e: int|
                    -9 <= e <= old(self).sp_factor_exp() ==> #[trigger] old(self).halving_failed(
                        dataset@,
                        gcost,
                        e,
                    ))),
            // An accepted step comes with witnesses, its factor is the
            // first improving one — every larger halving in the carried
            // window was probed and failed — and the carried factor grows
            // for the next call.
            r ==> exists|
                og: Vec<B>,
                step: Vec<B>,
                cand: Vec<B>,
                e: int,
                gcost: (B::V, Seq<B::V>),
                c: B::V,
            |
                {
                    &&& #[trigger] old(self).accepted_step(
                        *final(self),
                        dataset@,
                        og,
                        step,
                        cand,
                        e,
                        gcost,
                        c,
                    )
                    &&& forall|e2: int|
                        e < e2 <= old(self).sp_factor_exp() ==> #[trigger] old(
                            self,
                        ).halving_failed(dataset@, gcost, e2)
                    &&& final(self).sp_factor_exp() == (if e < 62 {
                        e + 1
                    } else {
                        e
                    })
                },
    {
        let cost = dataset_cost::<I, O, B, Dual<P, B, S>, E, FG>(
            dataset,
            &self.params,
            &self.model_gradient,
            &self.extra_data,
        );
        let ghost gcost = cost.v();
        let base = cost.get_real();
        let raw = cost.get_gradient();
        proof {
            use_type_invariant(&cost);
            cost.lemma_grad_len();
            assert(views(raw@) =~= gcost.1);
        }
        let mut gs = B::zero();
        let mut j: usize = 0;
        while j < P
            invariant
                raw.len() == P,
                views(raw@) == gcost.1,
                j <= P,
                gs.v() == sp_sum_squares::<B>(gcost.1, j as int),
            decreases P - j,
        {
            gs = gs.add(raw[j].dup().mul(raw[j].dup()));
            j += 1;
        }
        let nrm = gs.sqrt();
        if nrm.eq_num(&B::zero()) {
            // A vanishing gradient: nothing to descend along.
            self.factor = B::one();
            self.factor_exp = 0;
            self.last_cost = Some(base);
            proof {
                assert(is_dataset_cost::<I, O, B, Dual<P, B, S>, E, FG>(
                    old(self).sp_model_gradient(),
                    &old(self).sp_params_vec(),
                    dataset@,
                    &old(self).sp_extra(),
                    gcost,
                ));
            }
            return false;
        }
        let mut unit: Vec<B> = Vec::new();
        let mut j2: usize = 0;
        while j2 < P
            invariant
                raw.len() == P,
                views(raw@) == gcost.1,
                j2 <= P,
                unit@.len() == j2,
                forall|k: int|
                    0 <= k < j2 ==> #[trigger] unit@[k].v() == B::sp_div(gcost.1[k], nrm.v()),
            decreases P - j2,
        {
            unit.push(raw[j2].dup().div(nrm.dup()));
            j2 += 1;
        }
        let og = self.get_model_params();
        let ghost e0 = self.sp_factor_exp();
        let ghost mut trials: Seq<(Vec<B>, Vec<B>, B::V)> = Seq::empty();
        let mut cur_factor = self.factor.dup();
        let mut cur_exp: i8 = self.factor_exp;
        loop
            invariant
                e0 == old(self).sp_factor_exp(),
                trials.len() == e0 - cur_exp,
                forall|k: int|
                    0 <= k < trials.len() ==> old(self).failed_trial(
                        dataset@,
                        gcost,
                        e0 - k,
                        og,
                        (#[trigger] trials[k]).0,
                        trials[k].1,
                        trials[k].2,
                    ),
                self.wf(),
                *self == *old(self) || (self.sp_params() == old(self).sp_params()
                    && self.sp_model() == old(self).sp_model() && self.sp_model_gradient()
                    == old(self).sp_model_gradient() && self.sp_translator() == old(
                    self,
                ).sp_translator() && self.sp_extra() == old(self).sp_extra() && self.sp_factor_exp()
                    == old(self).sp_factor_exp() && self.sp_factor_ok()),
                dataset.len() == dataset@.len(),
                forall|i: int| 0 <= i < dataset.len() ==> (#[trigger] dataset@[i]).wf(),
                is_dataset_cost::<I, O, B, Dual<P, B, S>, E, FG>(
                    old(self).sp_model_gradient(),
                    &old(self).sp_params_vec(),
                    dataset@,
                    &old(self).sp_extra(),
                    gcost,
                ),
                nrm.v() == B::sp_sqrt(sp_sum_squares::<B>(gcost.1, P as int)),
                !B::sp_eq_num(nrm.v(), B::sp_zero()),
                unit@.len() == P,
                forall|k: int|
                    0 <= k < P ==> #[trigger] unit@[k].v() == B::sp_div(gcost.1[k], nrm.v()),
                og@.len() == P,
                views(og@) == old(self).sp_param_reals(),
                -9 <= cur_exp <= 62,
                cur_exp <= old(self).sp_factor_exp(),
                cur_factor.v() == sp_step_factor::<B>(cur_exp as int),
                base.v() == gcost.0,
            decreases cur_exp + 9,
        {
            let mut step: Vec<B> = Vec::new();
            let mut k: usize = 0;
            while k < P
                invariant
                    unit@.len() == P,
                    forall|k2: int|
                        0 <= k2 < P ==> #[trigger] unit@[k2].v() == B::sp_div(
                            gcost.1[k2],
                            nrm.v(),
                        ),
                    k <= P,
                    step@.len() == k,
                    forall|k2: int|
                        0 <= k2 < k ==> #[trigger] step@[k2].v() == B::sp_mul(
                            B::sp_neg(B::sp_div(gcost.1[k2], nrm.v())),
                            cur_factor.v(),
                        ),
                decreases P - k,
            {
                step.push(unit[k].dup().neg().mul(cur_factor.dup()));
                k += 1;
            }
            let cand = (self.param_translator)(&og, &step);
            let trial = dataset_cost::<I, O, B, B, E, F>(
                dataset,
                &cand,
                &self.model,
                &self.extra_data,
            );
            let improved = trial.lt(&base);
            let ghost trial_v = trial.v();
            self.last_cost = Some(trial.dup());
            if improved {
                let mut newp: Vec<Dual<P, B, S>> = Vec::new();
                let mut i: usize = 0;
                while i < P
                    invariant
                        cand@.len() == P,
                        i <= P,
                        newp@.len() == i,
                        forall|k2: int| 0 <= k2 < i ==> is_seed_dual(#[trigger] newp@[k2], k2),
                        forall|k2: int|
                            0 <= k2 < i ==> (#[trigger] newp@[k2]).sp_real() == cand@[k2].v(),
                    decreases P - i,
                {
                    newp.push(Dual::new_param(cand[i].dup(), i));
                    i += 1;
                }
                self.params = newp;
                if cur_exp < 62 {
                    let doubled = cur_factor.dup().add(cur_factor);
                    proof {
                        if cur_exp < 0 {
                            B::lemma_double_half(sp_step_factor::<B>(cur_exp as int + 1));
                        }
                    }
                    self.factor = doubled;
                    self.factor_exp = cur_exp + 1;
                } else {
                    self.factor = cur_factor;
                    self.factor_exp = cur_exp;
                }
                proof {
                    assert(self.sp_param_reals() =~= views(cand@));
                    assert forall|i2: int| 0 <= i2 < P implies self.sp_param_grads()[i2] =~= old(
                        self,
                    ).sp_param_grads()[i2] by {}
                    assert(self.sp_param_grads() =~= old(self).sp_param_grads());
                    assert(old(self).accepted_step(
                        *self,
                        dataset@,
                        og,
                        step,
                        cand,
                        cur_exp as int,
                        gcost,
                        trial_v,
                    ));
                    assert forall|e2: int|
                        cur_exp < e2 <= e0 implies #[trigger] old(self).halving_failed(
                        dataset@,
                        gcost,
                        e2,
                    ) by {
                        let k = e0 - e2;
                        assert(old(self).failed_trial(
                            dataset@,
                            gcost,
                            e2,
                            og,
                            trials[k].0,
                            trials[k].1,
                            trials[k].2,
                        ));
                    }
                }
                return true;
            } else {
                proof {
                    assert(old(self).failed_trial(
                        dataset@,
                        gcost,
                        cur_exp as int,
                        og,
                        step,
                        cand,
                        trial_v,
                    ));
                    trials = trials.push((step, cand, trial_v));
                }
                if cur_exp == -9 {
                    // The next halving would fall below the minimum step:
                    // give up, leaving the parameters untouched.
                    self.factor = B::one();
                    self.factor_exp = 0;
                    proof {
                        assert forall|e: int| -9 <= e <= e0 implies #[trigger] old(
                            self,
                        ).halving_failed(dataset@, gcost, e) by {
                            let k = e0 - e;
                            assert(old(self).failed_trial(
                                dataset@,
                                gcost,
                                e,
                                og,
                                trials[k].0,
                                trials[k].1,
                                trials[k].2,
                            ));
                        }
                        assert(is_dataset_cost::<I, O, B, Dual<P, B, S>, E, FG>(
                            old(self).sp_model_gradient(),
                            &old(self).sp_params_vec(),
                            dataset@,
                            &old(self).sp_extra(),
                            gcost,
                        ));
                    }
                    return false;
                }
                let two = B::one().add(B::one());
                proof {
                    if cur_exp > 0 {
                        B::lemma_half_double(sp_step_factor::<B>(cur_exp as int - 1));
                    }
                }
                cur_factor = cur_factor.div(two);
                cur_exp = cur_exp - 1;
            }
        }
    }

    /// Persistence round trip: loading what was saved restores the
    /// parameter values exactly. `saved` is the trainer the lines were
    /// rendered from, and `post` any trainer state whose parameters came
    /// out of loading those lines; the decimal form is faithful, so the
    /// restored values are the saved ones, whatever they were before.
    pub proof fn lemma_persistence_round_trip(
        saved: Self,
        pre: Self,
        post: Self,
        lines: Vec<String>,
    )
        requires
            lines@.len() == P,
            forall|i: int|
                0 <= i < P ==> (#[trigger] lines@[i])@ == B::sp_decimal(
                    saved.sp_param_reals()[i],
                ),
            forall|i: int|
                0 <= i < P ==> #[trigger] post.sp_param_reals()[i] == (if i < lines@.len() {
                    match B::sp_parse(lines@[i]@) {
                        Some(x) => x,
                        None => pre.sp_param_reals()[i],
                    }
                } else {
                    pre.sp_param_reals()[i]
                }),
        ensures
            post.sp_param_reals() == saved.sp_param_reals(),
    {
        assert forall|i: int| 0 <= i < P implies #[trigger] post.sp_param_reals()[i]
            == saved.sp_param_reals()[i] by {
            B::lemma_decimal_round_trip(saved.sp_param_reals()[i]);
        }
        assert(post.sp_param_reals() =~= saved.sp_param_reals());
    }

    /// The parameter values, rendered one decimal line per parameter, in
    /// index order: the persisted form. Writing the lines out is the
    /// caller's affair.
    pub fn save(&self) -> (r: Vec<String>)
        requires
            self.wf(),
        ensures
            r@.len() == P,
            forall|i: int|
                0 <= i < P ==> (#[trigger] r@[i])@ == B::sp_decimal(self.sp_param_reals()[i]),
    {
        let mut r: Vec<String> = Vec::new();
        let mut i: usize = 0;
        while i < P
            invariant
                self.wf(),
                i <= P,
                r@.len() == i,
                forall|k: int|
                    0 <= k < P ==> is_seed_dual(#[trigger] self.sp_params()[k], k),
                forall|k: int|
                    0 <= k < i ==> (#[trigger] r@[k])@ == B::sp_decimal(
                        self.sp_param_reals()[k],
                    ),
            decreases P - i,
        {
            r.push(self.params[i].get_real().to_decimal());
            i += 1;
        }
        r
    }

    /// Restore parameter values from persisted lines, line `i` to
    /// parameter `i`. A line that does not parse leaves its parameter at
    /// the previous value, and so do parameters past the end of the lines;
    /// the gradient seeds are untouched either way.
    pub fn load(&mut self, lines: &Vec<String>)
        requires
            old(self).wf(),
        ensures
            final(self).wf(),
            final(self).sp_param_grads() == old(self).sp_param_grads(),
            final(self).sp_model() == old(self).sp_model(),
            final(self).sp_model_gradient() == old(self).sp_model_gradient(),
            final(self).sp_translator() == old(self).sp_translator(),
            final(self).sp_extra() == old(self).sp_extra(),
            final(self).sp_factor_exp() == old(self).sp_factor_exp(),
            forall|i: int|
                0 <= i < P ==> #[trigger] final(self).sp_param_reals()[i] == (if i
                    < lines@.len() {
                    match B::sp_parse(lines@[i]@) {
                        Some(x) => x,
                        None => old(self).sp_param_reals()[i],
                    }
                } else {
                    old(self).sp_param_reals()[i]
                }),
    {
        let mut newp: Vec<Dual<P, B, S>> = Vec::new();
        let mut i: usize = 0;
        while i < P
            invariant
                self.wf(),
                *self == *old(self),
                i <= P,
                newp@.len() == i,
                forall|k: int| 0 <= k < i ==> is_seed_dual(#[trigger] newp@[k], k),
                forall|k: int|
                    0 <= k < i ==> (#[trigger] newp@[k]).sp_real() == (if k < lines@.len() {
                        match B::sp_parse(lines@[k]@) {
                            Some(x) => x,
                            None => old(self).sp_param_reals()[k],
                        }
                    } else {
                        old(self).sp_param_reals()[k]
                    }),
            decreases P - i,
        {
            let prev = self.params[i].get_real();
            let val = if i < lines.len() {
                match B::from_decimal(lines[i].as_str()) {
                    Some(x) => x,
                    None => prev,
                }
            } else {
                prev
            };
            newp.push(Dual::new_param(val, i));
            i += 1;
        }
        self.params = newp;
        proof {
            assert forall|i2: int| 0 <= i2 < P implies self.sp_param_grads()[i2] =~= old(
                self,
            ).sp_param_grads()[i2] by {}
            assert(self.sp_param_grads() =~= old(self).sp_param_grads());
        }
    }

    /// Perturb every parameter by the given offset, a small random nudge
    /// that the caller draws to escape a plateau. The gradient seeds are
    /// untouched.
    pub fn shake(&mut self, offsets: &Vec<B>)
        requires
            old(self).wf(),
            offsets.len() == P,
        ensures
            final(self).wf(),
            final(self).sp_param_grads() == old(self).sp_param_grads(),
            final(self).sp_model() == old(self).sp_model(),
            final(self).sp_model_gradient() == old(self).sp_model_gradient(),
            final(self).sp_translator() == old(self).sp_translator(),
            final(self).sp_extra() == old(self).sp_extra(),
            final(self).sp_factor_exp() == old(self).sp_factor_exp(),
            forall|i: int|
                0 <= i < P ==> #[trigger] final(self).sp_param_reals()[i] == B::sp_add(
                    old(self).sp_param_reals()[i],
                    offsets@[i].v(),
                ),
    {
        let mut newp: Vec<Dual<P, B, S>> = Vec::new();
        let mut i: usize = 0;
        while i < P
            invariant
                self.wf(),
                *self == *old(self),
                offsets.len() == P,
                i <= P,
                newp@.len() == i,
                forall|k: int| 0 <= k < i ==> is_seed_dual(#[trigger] newp@[k], k),
                forall|k: int|
                    0 <= k < i ==> (#[trigger] newp@[k]).sp_real() == B::sp_add(
                        old(self).sp_param_reals()[k],
                        offsets@[k].v(),
                    ),
            decreases P - i,
        {
            let nudged = self.params[i].get_real().add(offsets[i].dup());
            newp.push(Dual::new_param(nudged, i));
            i += 1;
        }
        self.params = newp;
        proof {
            assert forall|i2: int| 0 <= i2 < P implies self.sp_param_grads()[i2] =~= old(
                self,
            ).sp_param_grads()[i2] by {}
            assert(self.sp_param_grads() =~= old(self).sp_param_grads());
        }
    }

    /// What one `train_step` call relates: `post` and `r` stand to `self`
    /// and `dataset` exactly as that function's contract states.
    pub open spec fn train_step_rel(
        self,
        post: Self,
        dataset: Seq<DataPoint<I, O, B>>,
        r: bool,
    ) -> bool {
        &&& post.wf()
        &&& post.sp_param_grads() == self.sp_param_grads()
        &&& post.sp_model() == self.sp_model()
        &&& post.sp_model_gradient() == self.sp_model_gradient()
        &&& post.sp_translator() == self.sp_translator()
        &&& post.sp_extra() == self.sp_extra()
        &&& !r ==> post.sp_param_reals() == self.sp_param_reals()
        &&& !r ==> post.sp_factor_exp() == 0
        &&& !r ==> exists|gcost: (B::V, Seq<B::V>)|
            #[trigger] is_dataset_cost::<I, O, B, Dual<P, B, S>, E, FG>(
                self.sp_model_gradient(),
                &self.sp_params_vec(),
                dataset,
                &self.sp_extra(),
                gcost,
            ) && (B::sp_eq_num(
                B::sp_sqrt(sp_sum_squares::<B>(gcost.1, P as int)),
                B::sp_zero(),
            ) || (forall|e: int|
                -9 <= e <= self.sp_factor_exp() ==> #[trigger] self.halving_failed(
                    dataset,
                    gcost,
                    e,
                )))
        &&& r ==> exists|
            og: Vec<B>,
            step: Vec<B>,
            cand: Vec<B>,
            e: int,
            gcost: (B::V, Seq<B::V>),
            c: B::V,
        |
            {
                &&& #[trigger] self.accepted_step(post, dataset, og, step, cand, e, gcost, c)
                &&& forall|e2: int|
                    e < e2 <= self.sp_factor_exp() ==> #[trigger] self.halving_failed(
                        dataset,
                        gcost,
                        e2,
                    )
                &&& post.sp_factor_exp() == (if e < 62 {
                    e + 1
                } else {
                    e
                })
            }
    }

    /// What a whole stochastic pass relates: the dataset decomposes into
    /// its consecutive chunks, a `train_step` relates each intermediate
    /// state to the next over its chunk, the callback was called once
    /// after each chunk with the chunk index and the state it left, and
    /// the outcome is whether any chunk accepted a step.
    pub open spec fn chunked_run<CB: Fn(usize, &Self)>(
        self,
        post: Self,
        dataset: Seq<DataPoint<I, O, B>>,
        sub: int,
        cb: CB,
        r: bool,
        states: Seq<Self>,
        outs: Seq<bool>,
        chunks: Seq<Vec<DataPoint<I, O, B>>>,
    ) -> bool {
        let nchunks = sp_chunk_count(dataset.len() as int, sub);
        &&& states.len() == nchunks + 1
        &&& outs.len() == nchunks
        &&& chunks.len() == nchunks
        &&& states[0] == self
        &&& states[nchunks] == post
        &&& forall|k: int|
            0 <= k < nchunks ==> chunk_matches((#[trigger] chunks[k])@, dataset, sub, k)
        &&& forall|k: int|
            0 <= k < nchunks ==> (#[trigger] states[k]).train_step_rel(
                states[k + 1],
                chunks[k]@,
                outs[k],
            )
        &&& forall|k: int|
            #![trigger states[k + 1]]
            0 <= k < nchunks ==> call_ensures(cb, ((k as usize), &states[k + 1]), ())
        &&& r == exists|k: int| 0 <= k < nchunks && outs[k]
    }

    /// Run `train_step` over the dataset in consecutive chunks of at most
    /// `subdataset_size` examples, calling back after each chunk; the
    /// outcome is whether any chunk accepted a step.
    pub fn train_stocastic_step<CB: Fn(usize, &Self)>(
        &mut self,
        dataset: &Vec<DataPoint<I, O, B>>,
        subdataset_size: usize,
        inter_step_callback: CB,
    ) -> (r: bool)
        requires
            old(self).wf(),
            subdataset_size > 0,
            forall|i: int| 0 <= i < dataset.len() ==> (#[trigger] dataset@[i]).wf(),
            forall|a: usize, b: &Self| call_requires(inter_step_callback, (a, b)),
        ensures
            final(self).wf(),
            final(self).sp_model() == old(self).sp_model(),
            final(self).sp_model_gradient() == old(self).sp_model_gradient(),
            final(self).sp_translator() == old(self).sp_translator(),
            final(self).sp_extra() == old(self).sp_extra(),
            final(self).sp_param_grads() == old(self).sp_param_grads(),
            // When no chunk accepted a step, the parameters never moved.
            !r ==> final(self).sp_param_reals() == old(self).sp_param_reals(),
            // The pass decomposes into consecutive chunks, each stepped
            // once and reported to the callback; the outcome is the
            // disjunction of the chunk outcomes.
            exists|states: Seq<Self>, outs: Seq<bool>, chunks: Seq<Vec<DataPoint<I, O, B>>>|
                #[trigger] old(self).chunked_run(
                    *final(self),
                    dataset@,
                    subdataset_size as int,
                    inter_step_callback,
                    r,
                    states,
                    outs,
                    chunks,
                ),
    {
        let mut ret = false;
        let mut start: usize = 0;
        let mut chunk_index: usize = 0;
        let n = dataset.len();
        let ghost mut states: Seq<Self> = seq![*old(self)];
        let ghost mut outs: Seq<bool> = Seq::empty();
        let ghost mut chunks: Seq<Vec<DataPoint<I, O, B>>> = Seq::empty();
        while start < n
            invariant
                self.wf(),
                self.sp_model() == old(self).sp_model(),
                self.sp_model_gradient() == old(self).sp_model_gradient(),
                self.sp_translator() == old(self).sp_translator(),
                self.sp_extra() == old(self).sp_extra(),
                self.sp_param_grads() == old(self).sp_param_grads(),
                !ret ==> self.sp_param_reals() == old(self).sp_param_reals(),
                n == dataset.len(),
                subdataset_size > 0,
                forall|i: int| 0 <= i < dataset.len() ==> (#[trigger] dataset@[i]).wf(),
                forall|a: usize, b: &Self| call_requires(inter_step_callback, (a, b)),
                chunk_index == outs.len(),
                states.len() == outs.len() + 1,
                chunks.len() == outs.len(),
                states[0] == *old(self),
                states[outs.len() as int] == *self,
                outs.len() <= start <= n,
                start == outs.len() * subdataset_size || (start == n && outs.len() >= 1 && (
                outs.len() - 1) * subdataset_size < n <= outs.len() * subdataset_size),
                forall|k: int|
                    0 <= k < outs.len() ==> chunk_matches(
                        (#[trigger] chunks[k])@,
                        dataset@,
                        subdataset_size as int,
                        k,
                    ),
                forall|k: int|
                    0 <= k < outs.len() ==> (#[trigger] states[k]).train_step_rel(
                        states[k + 1],
                        chunks[k]@,
                        outs[k],
                    ),
                forall|k: int|
                    #![trigger states[k + 1]]
                    0 <= k < outs.len() ==> call_ensures(
                        inter_step_callback,
                        ((k as usize), &states[k + 1]),
                        (),
                    ),
                ret == exists|k: int| 0 <= k < outs.len() && outs[k],
            decreases n - start,
        {
            proof {
                assert(start == outs.len() * subdataset_size);
            }
            let mut chunk: Vec<DataPoint<I, O, B>> = Vec::new();
            let mut j = start;
            let end = if n - start < subdataset_size {
                n
            } else {
                start + subdataset_size
            };
            while j < end
                invariant
                    n == dataset.len(),
                    start <= j <= end <= n,
                    chunk@.len() == j - start,
                    forall|i: int| 0 <= i < dataset.len() ==> (#[trigger] dataset@[i]).wf(),
                    forall|t: int| 0 <= t < chunk@.len() ==> (#[trigger] chunk@[t]).wf(),
                    forall|t: int|
                        #![trigger chunk@[t]]
                        0 <= t < chunk@.len() ==> {
                            &&& chunk@[t].input@.len() == dataset@[start + t].input@.len()
                            &&& chunk@[t].output@.len() == dataset@[start + t].output@.len()
                            &&& views(chunk@[t].input@) == views(dataset@[start + t].input@)
                            &&& views(chunk@[t].output@) == views(dataset@[start + t].output@)
                        },
                decreases end - j,
            {
                chunk.push(dataset[j].dup());
                j += 1;
            }
            proof {
                assert(chunk_matches(
                    chunk@,
                    dataset@,
                    subdataset_size as int,
                    outs.len() as int,
                ));
            }
            let ghost pre = *self;
            let accepted = self.train_step(&chunk);
            proof {
                assert(pre.train_step_rel(*self, chunk@, accepted));
            }
            (inter_step_callback)(chunk_index, &*self);
            let ghost states0 = states;
            let ghost outs0 = outs;
            let ghost chunks0 = chunks;
            proof {
                states = states.push(*self);
                outs = outs.push(accepted);
                chunks = chunks.push(chunk);
                let len0 = outs0.len() as int;
                assert forall|k: int| 0 <= k < outs.len() implies chunk_matches(
                    (#[trigger] chunks[k])@,
                    dataset@,
                    subdataset_size as int,
                    k,
                ) by {
                    if k < len0 {
                        assert(chunks[k] == chunks0[k]);
                    }
                }
                assert forall|k: int| 0 <= k < outs.len() implies (
                #[trigger] states[k]).train_step_rel(states[k + 1], chunks[k]@, outs[k]) by {
                    if k < len0 {
                        assert(states[k] == states0[k]);
                        assert(states[k + 1] == states0[k + 1]);
                        assert(chunks[k] == chunks0[k]);
                        assert(outs[k] == outs0[k]);
                    } else {
                        assert(states[k] == pre);
                        assert(states[k + 1] == *self);
                    }
                }
                assert forall|k: int| #![trigger states[k + 1]] 0 <= k < outs.len()
                    implies call_ensures(
                    inter_step_callback,
                    ((k as usize), &states[k + 1]),
                    (),
                ) by {
                    if k < len0 {
                        assert(states[k + 1] == states0[k + 1]);
                    } else {
                        assert(states[k + 1] == *self);
                    }
                }
                let sub = subdataset_size as int;
                assert((len0 + 1) * sub == len0 * sub + sub) by (nonlinear_arith);
                assert((ret || accepted) == exists|k: int| 0 <= k < outs.len() && outs[k]) by {
                    if ret {
                        let kw = choose|k: int| 0 <= k < outs0.len() && outs0[k];
                        assert(outs[kw]);
                    }
                    if accepted {
                        assert(outs[len0]);
                    }
                    if exists|k: int| 0 <= k < outs.len() && outs[k] {
                        let kw = choose|k: int| 0 <= k < outs.len() && outs[k];
                        if kw < len0 {
                            assert(outs0[kw]);
                        }
                    }
                }
            }
            ret = ret || accepted;
            chunk_index = chunk_index + 1;
            start = end;
        }
        proof {
            let n_i = n as int;
            let sub = subdataset_size as int;
            let k = outs.len() as int;
            assert(start == n);
            if start == k * sub {
                if n_i > 0 {
                    assert(k >= 1) by (nonlinear_arith)
                        requires
                            k * sub == n_i,
                            n_i > 0,
                            sub > 0,
                            k >= 0,
                    ;
                    assert((n_i - 1) / sub + 1 == k) by (nonlinear_arith)
                        requires
                            k * sub == n_i,
                            n_i > 0,
                            sub > 0,
                            k >= 1,
                    ;
                } else {
                    assert(k * sub == 0 && k >= 0);
                    assert(k == 0) by (nonlinear_arith)
                        requires
                            k * sub == 0,
                            sub > 0,
                            k >= 0,
                    ;
                }
            } else {
                assert((n_i - 1) / sub + 1 == k) by (nonlinear_arith)
                    requires
                        (k - 1) * sub < n_i <= k * sub,
                        n_i > 0,
                        sub > 0,
                        k >= 1,
                ;
            }
            assert(outs.len() == sp_chunk_count(n_i, sub));
            assert(old(self).chunked_run(
                *self,
                dataset@,
                subdataset_size as int,
                inter_step_callback,
                ret,
                states,
                outs,
                chunks,
            ));
        }
        ret
    }
}

/// The trainer over the dense gradient backend.
impl<
    const P: usize,
    const I: usize,
    const O: usize,
    B: ArithmeticLaws,
    E,
    FG: Fn(&Vec<Dual<P, B, DenseSimd<P, B>>>, &Vec<B>, &E) -> Vec<Dual<P, B, DenseSimd<P, B>>>,
    F: Fn(&Vec<B>, &Vec<B>, &E) -> Vec<B>,
    PT: Fn(&Vec<B>, &Vec<B>) -> Vec<B>,
> Trainer<P, I, O, B, E, DenseSimd<P, B>, FG, F, PT> {
    /// A trainer whose dual numbers keep their gradients densely, started
    /// at the given parameter values.
    pub fn new_dense(
        trainable: F,
        trainable_gradient: FG,
        param_translator: PT,
        extra_data: E,
        initial_params: Vec<B>,
    ) -> (r: Self)
        requires
            initial_params.len() == P,
            model_callable::<I, B, Dual<P, B, DenseSimd<P, B>>, E, FG>(
                trainable_gradient,
                P as int,
            ),
            model_sized::<O, B, Dual<P, B, DenseSimd<P, B>>, E, FG>(trainable_gradient),
            model_callable::<I, B, B, E, F>(trainable, P as int),
            model_sized::<O, B, B, E, F>(trainable),
            translator_ok::<B, PT>(param_translator, P as int),
        ensures
            r.wf(),
            r.sp_param_reals() == views(initial_params@),
            r.sp_last_cost() is None,
            r.sp_factor_exp() == 0,
    {
        Self::new_core(trainable, trainable_gradient, param_translator, extra_data, initial_params)
    }
}

/// The trainer over the hybrid gradient backend with threshold
/// `CRITICALITY`.
impl<
    const P: usize,
    const I: usize,
    const O: usize,
    const CRITICALITY: usize,
    B: ArithmeticLaws,
    E,
    FG: Fn(
        &Vec<Dual<P, B, HybridSimd<P, CRITICALITY, B>>>,
        &Vec<B>,
        &E,
    ) -> Vec<Dual<P, B, HybridSimd<P, CRITICALITY, B>>>,
    F: Fn(&Vec<B>, &Vec<B>, &E) -> Vec<B>,
    PT: Fn(&Vec<B>, &Vec<B>) -> Vec<B>,
> Trainer<P, I, O, B, E, HybridSimd<P, CRITICALITY, B>, FG, F, PT> {
    /// A trainer whose dual numbers keep their gradients in the hybrid
    /// backend, started at the given parameter values.
    pub fn new_hybrid(
        _cue: CriticalityCue<CRITICALITY>,
        trainable: F,
        trainable_gradient: FG,
        param_translator: PT,
        extra_data: E,
        initial_params: Vec<B>,
    ) -> (r: Self)
        requires
            initial_params.len() == P,
            model_callable::<I, B, Dual<P, B, HybridSimd<P, CRITICALITY, B>>, E, FG>(
                trainable_gradient,
                P as int,
            ),
            model_sized::<O, B, Dual<P, B, HybridSimd<P, CRITICALITY, B>>, E, FG>(
                trainable_gradient,
            ),
            model_callable::<I, B, B, E, F>(trainable, P as int),
            model_sized::<O, B, B, E, F>(trainable),
            translator_ok::<B, PT>(param_translator, P as int),
        ensures
            r.wf(),
            r.sp_param_reals() == views(initial_params@),
            r.sp_last_cost() is None,
            r.sp_factor_exp() == 0,
    {
        Self::new_core(trainable, trainable_gradient, param_translator, extra_data, initial_params)
    }
}

} // verus!
