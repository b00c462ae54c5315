//! Colour values, blend modes and colour gradients.
//!
//! The verified core holds the parts of the library that decide rather than
//! compute with floating point: the ordered stop store of a gradient and its
//! bracket search, the terminal palette, the channel-count rules for building a
//! colour from a sequence, and the set of blend modes.
pub mod blend;
pub mod channels;
pub mod gradient;
pub mod palette;
pub mod position;

pub use blend::BlendMode;
pub use channels::{split_channels, ChannelCountError, Channels};
pub use gradient::{Gradient, GradientStop};
pub use palette::{indexed_rgb, terminal_rgb, TerminalColour};
pub use position::position_key;
