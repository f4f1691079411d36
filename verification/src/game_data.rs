//! The engine's resource stores, bundled.
//!
//! Persisting the stores to disk and reloading them is the embedding
//! program's business; the library builds the fresh bundle.

use vstd::prelude::*;

use crate::shader::Shader;
use crate::sprite::SpriteData;
use crate::storage::Storage;
use crate::texture::Texture;

verus! {

/// The three resource stores of a running game.
pub struct GameData {
    pub sprites: Storage<SpriteData>,
    pub textures: Storage<Texture>,
    pub shaders: Storage<Shader>,
}

impl GameData {
    /// Fresh, empty stores, each with sixteen slots.
    pub fn create_new() -> (r: Self)
        ensures
            r.sprites.wf() && r.sprites.spec_capacity() == 16 && r.sprites.spec_size() == 0,
            r.textures.wf() && r.textures.spec_capacity() == 16 && r.textures.spec_size() == 0,
            r.shaders.wf() && r.shaders.spec_capacity() == 16 && r.shaders.spec_size() == 0,
    {
        let sprites = match Storage::new(16) {
            Ok(s) => s,
            Err(_) => vstd::pervasive::unreached(),
        };
        let textures = match Storage::new(16) {
            Ok(s) => s,
            Err(_) => vstd::pervasive::unreached(),
        };
        let shaders = match Storage::new(16) {
            Ok(s) => s,
            Err(_) => vstd::pervasive::unreached(),
        };
        GameData { sprites, textures, shaders }
    }
}

} // verus!
