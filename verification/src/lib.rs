//! The arithmetic and raster kernel of a ray tracer.
//!
//! The kernel works in fixed point: a [`scalar::Scalar`] counts billionths,
//! and every operation on scalars is total and exact up to one stated
//! rounding. On top of the scalars stand tuples in homogeneous coordinates
//! ([`tuple`]), square matrices with determinants and inverses by cofactor
//! expansion ([`matrix`]), rays ([`ray`]), colors ([`color`]) and a canvas
//! that writes itself as plain PPM text ([`canvas`]).
//!
//! Every type has a view, a value of plain mathematics (integers and
//! sequences of integers), and every function says in its contract what it
//! returns in terms of the views of its arguments. The modules whose names
//! end in `_laws` hold theorems that relate several functions: what the
//! identity and the inverse of a matrix do, when adding, normalizing and
//! crossing tuples give what they promise, and the laws of exact
//! determinants that stand behind them.
pub mod canvas;
pub mod color;
pub mod determinant_laws;
pub mod inverse_laws;
pub mod matrix;
pub mod matrix_laws;
pub mod ray;
pub mod root;
pub mod scalar;
pub mod scalar_laws;
pub mod text;
pub mod tuple;
pub mod tuple_laws;
