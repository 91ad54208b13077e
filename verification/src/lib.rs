//! An image-effects engine: a fixed catalogue of visual effects applied to
//! either a decoded raster pixel buffer or a vector (SVG) document tree,
//! together with the byte-level argument codec of the call boundary.

pub mod args;
pub mod error;
pub mod mask;
pub mod ops;
pub mod pixel;
pub mod raster;
pub mod ratio;
pub mod resolver;
pub mod vector;
pub mod xml;

pub use error::EngineError;
