//! Sprite descriptions: a rectangle on a texture sheet, and a named
//! sprite referring to its texture by handle.

use vstd::prelude::*;

use crate::storage::ResourceID;
use crate::texture::Texture;

verus! {

/// A sprite's rectangle on its texture sheet, with its drawing origin.
pub struct SpriteBounds {
    pub x: u32,
    pub y: u32,
    pub w: u32,
    pub h: u32,
    pub ox: u32,
    pub oy: u32,
}

impl SpriteBounds {
    pub fn new(x: u32, y: u32, w: u32, h: u32, ox: u32, oy: u32) -> (r: Self)
        ensures
            r == (SpriteBounds { x, y, w, h, ox, oy }),
    {
        SpriteBounds { x, y, w, h, ox, oy }
    }
}

/// A named sprite: a rectangle of a texture, addressed by handle.
pub struct SpriteData {
    pub name: String,
    pub texture: ResourceID<Texture>,
    pub rect: SpriteBounds,
}

impl SpriteData {
    pub fn new(name: String, texture: ResourceID<Texture>, rect: SpriteBounds) -> (r: Self)
        ensures
            r.name == name,
            r.texture == texture,
            r.rect == rect,
    {
        SpriteData { name, texture, rect }
    }
}

} // verus!
