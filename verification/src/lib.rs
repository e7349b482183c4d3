//! Chroma-key video streaming core: a pixel codec for the capture device's
//! raw byte order, a per-pixel chroma-key filter, a connection registry with
//! collect-then-prune broadcast, and the per-frame processing pipeline.

pub mod codec;
pub mod filter;
pub mod payload;
pub mod pipeline;
pub mod pixel;
pub mod registry;

pub use filter::FilterType;
pub use pixel::Color;
