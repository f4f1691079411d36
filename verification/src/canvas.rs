//! Tile-map data for the canvas layer.
//!
//! The canvas's vertex buffers, uniforms and draw calls belong to the
//! graphics layer; the library holds what the tile map is made of — a
//! name and the handles of its sprite sheet and texture.

use vstd::prelude::*;

use crate::sprite::SpriteData;
use crate::storage::ResourceID;
use crate::texture::Texture;

verus! {

/// A tile map: its name and the handles of its sprite sheet and texture.
pub struct TileMap {
    pub name: String,
    pub sprites: ResourceID<SpriteData>,
    pub texture: ResourceID<Texture>,
}

impl TileMap {
    pub fn new(name: String, sprites: ResourceID<SpriteData>, texture: ResourceID<Texture>) -> (r:
        Self)
        ensures
            r.name == name,
            r.sprites == sprites,
            r.texture == texture,
    {
        TileMap { name, sprites, texture }
    }
}

} // verus!
