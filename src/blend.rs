//! Per-corner blending classes.
use vstd::prelude::*;

use crate::kernel::Rotation;

verus! {

/// How strongly the corner between four pixels asks for blending.
#[derive(Clone, Copy, Debug, PartialEq, Eq, Structural)]
pub enum BlendType {
    NoBlend,
    Normal,
    Dominant,
}

/// The blending classes of the four corners around one pixel.
#[derive(Clone, Copy, Debug, PartialEq, Eq, Structural)]
pub struct Blend2x2 {
    pub top_left: BlendType,
    pub top_right: BlendType,
    pub bottom_left: BlendType,
    pub bottom_right: BlendType,
}

/// No corner blends.
pub open spec fn blend_none() -> Blend2x2 {
    Blend2x2 {
        top_left: BlendType::NoBlend,
        top_right: BlendType::NoBlend,
        bottom_left: BlendType::NoBlend,
        bottom_right: BlendType::NoBlend,
    }
}

/// The corners as seen after turning the pixel by `rotation`: each field is
/// taken from the corner that the turn brings to its place.
pub open spec fn rotate_spec(b: Blend2x2, rotation: Rotation) -> Blend2x2 {
    match rotation {
        Rotation::Identity => b,
        Rotation::Clockwise90 => Blend2x2 {
            top_left: b.bottom_left,
            top_right: b.top_left,
            bottom_left: b.bottom_right,
            bottom_right: b.top_right,
        },
        Rotation::Clockwise180 => Blend2x2 {
            top_left: b.bottom_right,
            top_right: b.bottom_left,
            bottom_left: b.top_right,
            bottom_right: b.top_left,
        },
        Rotation::Clockwise270 => Blend2x2 {
            top_left: b.top_right,
            top_right: b.bottom_right,
            bottom_left: b.top_left,
            bottom_right: b.bottom_left,
        },
    }
}

impl Blend2x2 {
    /// Every corner `NoBlend`.
    pub fn none() -> (r: Blend2x2)
        ensures
            r == blend_none(),
    {
        Blend2x2 {
            top_left: BlendType::NoBlend,
            top_right: BlendType::NoBlend,
            bottom_left: BlendType::NoBlend,
            bottom_right: BlendType::NoBlend,
        }
    }

    /// Resets every corner to `NoBlend`.
    pub fn clear(&mut self)
        ensures
            *final(self) == blend_none(),
    {
        *self = Blend2x2::none();
    }

    /// Whether any corner blends.
    pub fn blending_needed(&self) -> (r: bool)
        ensures
            r == (*self != blend_none()),
    {
        !(self.top_left == BlendType::NoBlend && self.top_right == BlendType::NoBlend
            && self.bottom_left == BlendType::NoBlend && self.bottom_right == BlendType::NoBlend)
    }

    /// The corners as seen after turning the pixel by `rotation`.
    pub fn rotate(self, rotation: Rotation) -> (r: Blend2x2)
        ensures
            r == rotate_spec(self, rotation),
    {
        match rotation {
            Rotation::Identity => self,
            Rotation::Clockwise90 => Blend2x2 {
                top_left: self.bottom_left,
                top_right: self.top_left,
                bottom_left: self.bottom_right,
                bottom_right: self.top_right,
            },
            Rotation::Clockwise180 => Blend2x2 {
                top_left: self.bottom_right,
                top_right: self.bottom_left,
                bottom_left: self.top_right,
                bottom_right: self.top_left,
            },
            Rotation::Clockwise270 => Blend2x2 {
                top_left: self.top_right,
                top_right: self.bottom_right,
                bottom_left: self.top_left,
                bottom_right: self.bottom_left,
            },
        }
    }
}

} // verus!
