//! A small numerical-optimization core: forward-mode automatic
//! differentiation over interchangeable dense, sparse and hybrid gradient
//! storage, and a line-search gradient-descent trainer built on top of it.
//!
//! The crate never names a concrete number type. Every value is a scalar
//! behind the capability traits of [`arithmetic`] — the ring operations,
//! the unary extensions, and the algebraic laws — and every contract
//! speaks about abstract *views* of those scalars. Callers instantiate
//! the engine with their own scalar (typically a float wrapper, whose
//! view is read as the numeric value of the float), and the same model
//! function body then serves both plain evaluation and gradient
//! propagation through [`dual::Dual`].
//!
//! The laws of [`dual::extended_arithmetic::ArithmeticLaws`] are the one
//! assumption the verified code rests on: they are proved nowhere in this
//! crate and hold of a floating-point scalar only in the numeric reading
//! on ordinary values. Everything else — the sorted sparse storage and
//! its merges, the one-way hybrid decay, the chain rule of the dual
//! numbers, the cost evaluation and the trainer's halving line search —
//! is proved from the contracts stated here.
//!
//! Layout: [`simd_arr`] holds the gradient backends, [`dual`] the dual
//! number, [`trainer`] the cost evaluation and the trainer, [`matrix`],
//! [`matrix_shape`], [`tiler`] and [`models`] the generic helpers that
//! model functions are built from.

pub mod arithmetic;
pub mod dual;
pub mod matrix;
pub mod matrix_shape;
pub mod models;
pub mod simd_arr;
pub mod tiler;
pub mod trainer;
