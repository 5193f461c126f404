//! Euclidean distance between two equal-length sequences of scalars, computed
//! either element by element or in fixed-width lane vectors.
//!
//! [`scalar_euclidean`] adds the squared differences up in sequence order.
//! [`vector_euclidean`] takes the sequences in chunks of as many elements as a
//! lane vector has lanes, picks the lane width by the length of the input, and
//! adds what is left behind the last full chunk element by element. Both are
//! generic over the [`Scalar`] that the sequences hold, and what each returns
//! is fixed by the order in which it applies the scalar's operations. Over an
//! [`ExactScalar`] the two agree.

pub mod dispatch;
pub mod distance;
pub mod integer;
pub mod lanes;
pub mod laws;
pub mod scalar;

pub use dispatch::{lane_width, scalar_euclidean, vector_euclidean, Naive, Vectorized};
pub use lanes::{I32x4, I32x8, I64x2, I64x4, Lanes};
pub use scalar::{ExactScalar, Precision, Scalar};
