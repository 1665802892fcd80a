//! Multi-channel sample buffers.

pub mod buffer;
