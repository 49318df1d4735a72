//! A drawable mesh: geometry plus draw-time state.
//!
//! The transform matrix and the GPU handles live in the embedding; the
//! mesh records everything the draw dispatch decides on — which shader
//! family to use, the anchor offset, scale, rotation, color and texture.

use crate::color::Color;
use crate::geometry::Geometry;
use crate::rat::{q_int, rat_small, Rat};
use vstd::prelude::*;

verus! {

/// Which shader family a mesh is drawn with.
#[derive(Clone, Copy, Debug, PartialEq, Eq, Structural)]
pub enum ShaderKind {
    Shape,
    Point,
    Image,
    Text,
}

/// A drawable mesh.
pub struct Mesh {
    pub geometry: Geometry,
    pub shader: ShaderKind,
    pub screen_offset: Option<(Rat, Rat)>,
    pub scale: Rat,
    pub rotation: Rat,
    pub color: Option<Color>,
    pub texture: Option<u32>,
}

impl Mesh {
    /// A mesh with neither color nor texture.
    pub fn new(shader: ShaderKind, geometry: Geometry) -> (m: Mesh)
        ensures
            m.geometry == geometry,
            m.shader == shader,
            m.screen_offset is None,
            m.scale@ == q_int(1),
            m.rotation@ == q_int(0),
            m.color is None,
            m.texture is None,
    {
        Mesh {
            geometry,
            shader,
            screen_offset: None,
            scale: Rat::one(),
            rotation: Rat::zero(),
            color: None,
            texture: None,
        }
    }

    /// A mesh drawn in a flat color.
    pub fn with_color(shader: ShaderKind, geometry: Geometry, color: Option<Color>) -> (m: Mesh)
        ensures
            m.geometry == geometry,
            m.shader == shader,
            m.screen_offset is None,
            m.scale@ == q_int(1),
            m.rotation@ == q_int(0),
            m.color == color,
            m.texture is None,
    {
        Mesh {
            geometry,
            shader,
            screen_offset: None,
            scale: Rat::one(),
            rotation: Rat::zero(),
            color,
            texture: None,
        }
    }

    /// A mesh drawn with a texture.
    pub fn with_texture(shader: ShaderKind, geometry: Geometry, texture: Option<u32>) -> (m: Mesh)
        ensures
            m.geometry == geometry,
            m.shader == shader,
            m.screen_offset is None,
            m.scale@ == q_int(1),
            m.rotation@ == q_int(0),
            m.color is None,
            m.texture == texture,
    {
        Mesh {
            geometry,
            shader,
            screen_offset: None,
            scale: Rat::one(),
            rotation: Rat::zero(),
            color: None,
            texture,
        }
    }

    pub fn set_screen_offset(&mut self, x: Rat, y: Rat)
        requires
            rat_small(x),
            rat_small(y),
        ensures
            *final(self) == (Mesh { screen_offset: Some((x, y)), ..*old(self) }),
    {
        self.screen_offset = Some((x, y));
    }

    /// The anchor offset, defaulting to the origin.
    pub fn screen_offset(&self) -> (r: (Rat, Rat))
        ensures
            r == match self.screen_offset {
                Some(o) => o,
                None => (Rat { num: 0, den: 1 }, Rat { num: 0, den: 1 }),
            },
    {
        match self.screen_offset {
            Some(o) => o,
            None => (Rat::zero(), Rat::zero()),
        }
    }

    pub fn set_scale(&mut self, scale: Rat)
        requires
            rat_small(scale),
        ensures
            *final(self) == (Mesh { scale, ..*old(self) }),
    {
        self.scale = scale;
    }

    pub fn scale(&self) -> (r: Rat)
        ensures
            r == self.scale,
    {
        self.scale
    }

    pub fn set_rotation(&mut self, angle: Rat)
        requires
            rat_small(angle),
        ensures
            *final(self) == (Mesh { rotation: angle, ..*old(self) }),
    {
        self.rotation = angle;
    }

    pub fn rotation(&self) -> (r: Rat)
        ensures
            r == self.rotation,
    {
        self.rotation
    }
}

} // verus!
