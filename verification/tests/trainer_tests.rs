use ia_engine::arithmetic::{Arithmetic, Promote};
use ia_engine::dual::extended_arithmetic::{ArithmeticLaws, ExtendedArithmetic};

/// A plain float wrapper: the base scalar the engine is instantiated with.
#[derive(Clone, Copy, Debug, PartialEq)]
struct Sc(f32);

impl Arithmetic for Sc {
    type V = Sc;

    fn dup(&self) -> Sc {
        *self
    }

    fn zero() -> Sc {
        Sc(0.0)
    }

    fn one() -> Sc {
        Sc(1.0)
    }

    fn add(self, rhs: Sc) -> Sc {
        Sc(self.0 + rhs.0)
    }

    fn sub(self, rhs: Sc) -> Sc {
        Sc(self.0 - rhs.0)
    }

    fn mul(self, rhs: Sc) -> Sc {
        Sc(self.0 * rhs.0)
    }

    fn div(self, rhs: Sc) -> Sc {
        Sc(self.0 / rhs.0)
    }

    fn lt(&self, rhs: &Sc) -> bool {
        self.0 < rhs.0
    }

    fn eq_num(&self, rhs: &Sc) -> bool {
        self.0 == rhs.0
    }

    fn from_usize(n: usize) -> Sc {
        Sc(n as f32)
    }

    fn to_decimal(&self) -> String {
        format!("{}", self.0)
    }

    fn from_decimal(s: &str) -> Option<Sc> {
        s.parse::<f32>().ok().map(Sc)
    }
}

impl ExtendedArithmetic for Sc {
    fn sqrt(self) -> Sc {
        Sc(self.0.sqrt())
    }

    fn neg(self) -> Sc {
        Sc(-self.0)
    }

    fn sigmoid(self) -> Sc {
        Sc(1.0 / (1.0 + (-self.0).exp()))
    }

    fn abs(self) -> Sc {
        Sc(self.0.abs())
    }

    fn relu(self) -> Sc {
        Sc(self.0.max(0.0))
    }
}

impl Promote<Sc> for Sc {
    fn promote(b: &Sc) -> Sc {
        *b
    }
}

impl ArithmeticLaws for Sc {
    fn lemma_promote_id(_: Sc) {}

    fn lemma_add_zero(_: Sc) {}

    fn lemma_sub_zero(_: Sc) {}

    fn lemma_mul_zero(_: Sc) {}

    fn lemma_div_zero(_: Sc) {}

    fn lemma_neg_zero() {}

    fn lemma_neg_is_zero_sub(_: Sc) {}

    fn lemma_sub_is_add_neg(_: Sc, _: Sc) {}

    fn lemma_half_double(_: Sc) {}

    fn lemma_double_half(_: Sc) {}

    fn lemma_decimal_round_trip(_: Sc) {}
}


use ia_engine::dual::Dual;
use ia_engine::models::{direct, polinomial};
use ia_engine::simd_arr::dense_simd::DenseSimd;
use ia_engine::simd_arr::hybrid_simd::HybridSimd;
use ia_engine::trainer::{
    default_param_translator, param_translator_with_bounds, CriticalityCue, DataPoint, Trainer,
    TrainerComunicationCodes,
};
use std::cell::Cell;

type D1 = Dual<1, Sc, DenseSimd<1, Sc>>;
type H1 = Dual<1, Sc, HybridSimd<1, 1, Sc>>;

fn goal_dataset(target: f32) -> Vec<DataPoint<0, 1, Sc>> {
    vec![DataPoint::<0, 1, Sc> { input: vec![], output: vec![Sc(target)] }]
}

#[test]
fn convergence_on_identity_model() {
    let dataset = goal_dataset(200.0);

    let mut trainer = Trainer::<1, 0, 1, Sc, (), DenseSimd<1, Sc>, _, _, _>::new_dense(
        direct::<Sc, Sc>,
        direct::<Sc, D1>,
        default_param_translator::<Sc>,
        (),
        vec![Sc(0.0)],
    );

    for _ in 0..100 {
        trainer.train_step(&dataset);
    }

    let p = trainer.get_model_params()[0].0;
    assert!((p - 200.0).abs() < 0.01);
    let last = trainer.get_last_cost().unwrap().0;
    assert!(last < 0.01);
}

#[test]
fn convergence_on_hybrid_backend() {
    let dataset = goal_dataset(-3.0);

    let mut trainer = Trainer::<1, 0, 1, Sc, (), HybridSimd<1, 1, Sc>, _, _, _>::new_hybrid(
        CriticalityCue::<1>(),
        direct::<Sc, Sc>,
        direct::<Sc, H1>,
        default_param_translator::<Sc>,
        (),
        vec![Sc(5.0)],
    );

    for _ in 0..100 {
        trainer.train_step(&dataset);
    }

    let p = trainer.get_model_params()[0].0;
    assert!((p + 3.0).abs() < 0.01);
}

#[test]
fn plateau_leaves_parameters_untouched() {
    // At the optimum the cost is zero: no step of any size can improve
    // it, and the signal must be `false` with the parameters unchanged.
    let dataset = goal_dataset(0.0);

    let mut trainer = Trainer::<1, 0, 1, Sc, (), DenseSimd<1, Sc>, _, _, _>::new_dense(
        direct::<Sc, Sc>,
        direct::<Sc, D1>,
        default_param_translator::<Sc>,
        (),
        vec![Sc(0.0)],
    );

    let before = trainer.get_model_params();
    let moved = trainer.train_step(&dataset);
    assert!(!moved);
    assert_eq!(trainer.get_model_params(), before);

    // Repeating the call changes nothing either.
    let moved_again = trainer.train_step(&dataset);
    assert!(!moved_again);
    assert_eq!(trainer.get_model_params(), before);
}

#[test]
fn accepted_step_reports_true_and_improves() {
    let dataset = goal_dataset(10.0);

    let mut trainer = Trainer::<1, 0, 1, Sc, (), DenseSimd<1, Sc>, _, _, _>::new_dense(
        direct::<Sc, Sc>,
        direct::<Sc, D1>,
        default_param_translator::<Sc>,
        (),
        vec![Sc(0.0)],
    );

    let moved = trainer.train_step(&dataset);
    assert!(moved);
    let p = trainer.get_model_params()[0].0;
    assert!(p > 0.0);
    let cost = trainer.get_last_cost().unwrap().0;
    assert!(cost < 10.0);
}

#[test]
fn persistence_round_trip() {
    let mut first = Trainer::<2, 0, 2, Sc, (), DenseSimd<2, Sc>, _, _, _>::new_dense(
        direct::<Sc, Sc>,
        direct::<Sc, Dual<2, Sc, DenseSimd<2, Sc>>>,
        default_param_translator::<Sc>,
        (),
        vec![Sc(123.456), Sc(-0.0078125)],
    );

    let lines = first.save();
    assert_eq!(lines.len(), 2);

    let mut second = Trainer::<2, 0, 2, Sc, (), DenseSimd<2, Sc>, _, _, _>::new_dense(
        direct::<Sc, Sc>,
        direct::<Sc, Dual<2, Sc, DenseSimd<2, Sc>>>,
        default_param_translator::<Sc>,
        (),
        vec![Sc(0.0), Sc(0.0)],
    );
    second.load(&lines);

    assert_eq!(second.get_model_params(), first.get_model_params());

    // A line that does not parse leaves its parameter alone, and so do
    // parameters past the end of the lines.
    let partial = vec![String::from("not a number")];
    first.load(&partial);
    assert_eq!(first.get_model_params(), vec![Sc(123.456), Sc(-0.0078125)]);
}

#[test]
fn shake_moves_each_parameter_by_its_offset() {
    let mut trainer = Trainer::<2, 0, 2, Sc, (), DenseSimd<2, Sc>, _, _, _>::new_dense(
        direct::<Sc, Sc>,
        direct::<Sc, Dual<2, Sc, DenseSimd<2, Sc>>>,
        default_param_translator::<Sc>,
        (),
        vec![Sc(1.0), Sc(2.0)],
    );
    trainer.shake(&vec![Sc(0.5), Sc(-0.25)]);
    assert_eq!(trainer.get_model_params(), vec![Sc(1.5), Sc(1.75)]);
}

#[test]
fn stochastic_step_calls_back_once_per_chunk() {
    // Five examples in chunks of two: three chunks, three callbacks, with
    // the chunk indices in order.
    let dataset: Vec<DataPoint<0, 1, Sc>> = (0..5)
        .map(|_| DataPoint { input: vec![], output: vec![Sc(30.0)] })
        .collect();

    let mut trainer = Trainer::<1, 0, 1, Sc, (), DenseSimd<1, Sc>, _, _, _>::new_dense(
        direct::<Sc, Sc>,
        direct::<Sc, D1>,
        default_param_translator::<Sc>,
        (),
        vec![Sc(0.0)],
    );

    let calls = Cell::new(0usize);
    let last_index = Cell::new(usize::MAX);
    let any = trainer.train_stocastic_step(&dataset, 2, |i, _t: &_| {
        assert_eq!(i, calls.get());
        calls.set(calls.get() + 1);
        last_index.set(i);
    });
    assert!(any);
    assert_eq!(calls.get(), 3);
    assert_eq!(last_index.get(), 2);
}

#[test]
fn stochastic_step_walks_chunks() {
    let mut dataset = goal_dataset(50.0);
    dataset.push(DataPoint::<0, 1, Sc> { input: vec![], output: vec![Sc(50.0)] });
    dataset.push(DataPoint::<0, 1, Sc> { input: vec![], output: vec![Sc(50.0)] });

    let mut trainer = Trainer::<1, 0, 1, Sc, (), DenseSimd<1, Sc>, _, _, _>::new_dense(
        direct::<Sc, Sc>,
        direct::<Sc, D1>,
        default_param_translator::<Sc>,
        (),
        vec![Sc(0.0)],
    );

    let any = trainer.train_stocastic_step(&dataset, 2, |_i, _t: &_| {});
    assert!(any);
    assert!(trainer.get_model_params()[0].0 > 0.0);
}

#[test]
fn eval_runs_the_plain_model() {
    let trainer = Trainer::<2, 0, 2, Sc, (), DenseSimd<2, Sc>, _, _, _>::new_dense(
        direct::<Sc, Sc>,
        direct::<Sc, Dual<2, Sc, DenseSimd<2, Sc>>>,
        default_param_translator::<Sc>,
        (),
        vec![Sc(4.0), Sc(9.0)],
    );
    assert_eq!(trainer.eval(&vec![]), vec![Sc(4.0), Sc(9.0)]);
}

#[test]
fn polinomial_evaluates_coefficients() {
    let params: Vec<Sc> = vec![Sc(8.0), Sc(7.0), Sc(6.0)];
    let out = polinomial::<Sc, Sc>(&params, &vec![Sc(2.0)], &());
    // 8 + 7·2 + 6·4
    assert_eq!(out, vec![Sc(46.0)]);
}

#[test]
fn polinomial_fit_converges() {
    // Fit a line y = 3 + 2x through two of its points.
    let dataset: Vec<DataPoint<1, 1, Sc>> = vec![
        DataPoint { input: vec![Sc(0.0)], output: vec![Sc(3.0)] },
        DataPoint { input: vec![Sc(1.0)], output: vec![Sc(5.0)] },
    ];

    let mut trainer = Trainer::<2, 1, 1, Sc, (), DenseSimd<2, Sc>, _, _, _>::new_dense(
        polinomial::<Sc, Sc>,
        polinomial::<Sc, Dual<2, Sc, DenseSimd<2, Sc>>>,
        default_param_translator::<Sc>,
        (),
        vec![Sc(0.0), Sc(0.0)],
    );

    let mut plateaus = 0;
    for _ in 0..500 {
        if !trainer.train_step(&dataset) {
            plateaus += 1;
            if plateaus > 20 {
                break;
            }
        }
    }

    let cost = trainer.get_last_cost().unwrap().0;
    assert!(cost < 0.05);
}

#[test]
fn bounded_translator_clamps() {
    let params: Vec<Sc> = vec![Sc(0.5), Sc(-0.5)];
    let step: Vec<Sc> = vec![Sc(10.0), Sc(-10.0)];
    let out = param_translator_with_bounds(&params, &step, &Sc(1.0), &Sc(-1.0));
    assert_eq!(out, vec![Sc(1.0), Sc(-1.0)]);
}

#[test]
fn trainer_messages_carry_payloads() {
    let msg: TrainerComunicationCodes<u32> = TrainerComunicationCodes::Msg(7);
    match msg {
        TrainerComunicationCodes::Msg(v) => assert_eq!(v, 7),
        TrainerComunicationCodes::Die => unreachable!(),
    }
}
