//! Pooling of per-token encoder embeddings into one embedding per sequence.

use vstd::prelude::*;

pub mod pool;
pub mod tensor;

pub use pool::{cls, mean_divisors, PoolError, Pooling};
pub use tensor::{Tensor2, Tensor3};
