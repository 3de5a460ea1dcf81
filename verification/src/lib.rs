//! Escape-time fractal rendering support: hex color parsing, gradient
//! tables built by piecewise linear interpolation, and mapping of
//! per-pixel escape counts to colors.

use vstd::prelude::*;

pub mod color;
pub mod gradient;
pub mod render;

verus! {

/// Failures reported while building a color gradient.
#[derive(Clone, Copy, Debug, PartialEq, Eq, Structural)]
pub enum GradientError {
    /// A color stop is not exactly six hex digits after an optional `#`,
    /// or holds a character that is not a hex digit.
    InvalidColorFormat,
    /// Fewer than two color stops were supplied, so there is no segment
    /// to interpolate over.
    TooFewColorStops,
}

} // verus!
