pub mod buffer;
pub mod codec;
pub mod framing;
pub mod geometry;
