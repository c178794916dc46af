//! Exact least-squares fitting of a straight line to integer samples.
//!
//! A series is a pair of integer sequences `x` (the time index) and `y` (the
//! observed values). Every quantity derived from a series is a ratio of two
//! integers, so the fitted coefficients, the predictions and the two
//! goodness-of-fit measures are computed without rounding.
//!
//! The arithmetic is done in machine integers. Each operation asks of its
//! input what its own values take to fit; a series of up to
//! `somas::MAX_AMOSTRAS` samples of absolute value up to `somas::MAX_VALOR`
//! meets what all of them take, as `limites` shows.

pub mod algebra;
pub mod somas;
pub mod dispersao;
pub mod razao;
pub mod modelo;
pub mod limites;
pub mod leis;
pub mod otimo;
