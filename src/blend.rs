//! The blend modes of the compositing engine.
use vstd::prelude::*;

verus! {

/// Selects the formula that combines the colour channels of a base layer and
/// a blend layer before the two are alpha composited.
#[derive(Clone, Copy, Debug, PartialEq, Eq, Structural)]
pub enum BlendMode {
    /// Do not blend, just compose the colours.
    Normal,
    Multiply,
    Divide,
    Addition,
    Subtract,
    Screen,
    Overlay,
    HardLight,
    SoftLight,
    Darken,
    Lighten,
}

} // verus!
