//! The window configuration types, under the module name that the
//! configuration code uses for them.

pub use crate::widget::{Anchor, Layer, WindowConfig};
