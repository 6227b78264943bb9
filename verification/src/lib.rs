//! Building blocks for differentially private computations: domains, metrics
//! and measures, functions, the relations that bound how far outputs can move
//! when inputs move, the transformations and measurements that bundle them,
//! and the combinators that chain and compose those.
//!
//! Beside them stand the samplers that turn random bytes into uniform and
//! geometric draws, the mechanisms that select a candidate by its perturbed
//! score, and the transformations that score candidates for a quantile.

pub mod chain;
pub mod dist;
pub mod dom;
pub mod error;
pub mod exponential;
pub mod function;
pub mod laws;
pub mod measurement;
pub mod order;
pub mod pairing;
pub mod quantile;
pub mod relation;
pub mod samplers;
pub mod sorting;
pub mod stability;
pub mod traits;
pub mod utility;
