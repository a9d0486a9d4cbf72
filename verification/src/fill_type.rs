//! Fill classifications for shapes and backgrounds.

use vstd::prelude::*;

verus! {

/// How a shape or background is filled.
#[derive(Debug, Clone, Copy, PartialEq, Eq, Structural)]
pub enum FillType {
    NoFill,
    Solid,
    Gradient,
    Image,
    Pattern,
}

/// The shape of a gradient fill.
#[derive(Debug, Clone, Copy, PartialEq, Eq, Structural)]
pub enum GradientType {
    Linear,
    Radial,
    Conical,
    Square,
}

/// The stroke pattern of a pattern fill.
#[derive(Debug, Clone, Copy, PartialEq, Eq, Structural)]
pub enum PatternType {
    Horizontal,
    Vertical,
    BackSlash,
    Slash,
    Cross,
    CrossDiagonal,
}

/// How an image fill is placed.
#[derive(Debug, Clone, Copy, PartialEq, Eq, Structural)]
pub enum ImageFillMode {
    Tile,
    TileHorizontal,
    TileVertical,
    Fit,
    Center,
    CenterTop,
    CenterBottom,
    LeftCenter,
    LeftTop,
    LeftBottom,
    RightCenter,
    RightTop,
    RightBottom,
    Zoom,
}

} // verus!
