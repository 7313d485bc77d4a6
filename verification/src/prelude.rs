//! Crate prelude

pub use super::builder::{Builder, NoOutputPin};
pub use super::displayrotation::DisplayRotation;
pub use super::displaysize::DisplaySize;
pub use super::graphics::GraphicsMode;
pub use super::interface::DisplayInterface;
pub use super::properties::DisplayProperties;
pub use super::raw::RawMode;
