//! Sample-history delay lines, transform sizing, filter-design codes and
//! channel buffers for audio processing.

pub mod dsp;
pub mod util;
