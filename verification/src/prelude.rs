//! The items that most callers need.

pub use crate::config::{PadMode, ShortTimeFourierTransform, StftBuilder, WindowingAlgorithm};
pub use crate::matrix::Matrix;
pub use crate::metrics::{power, rms};
pub use crate::numeric::{Complex, Numerics};
pub use crate::preemphasis::PreemphasisExt;
pub use crate::spectrum::{FrequencyComponents, SpectrumExt};
