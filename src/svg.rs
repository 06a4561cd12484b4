//! The SVG builders.
pub use crate::path::Path;
pub use crate::tags::Tag;
