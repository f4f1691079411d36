//! The type tags of the engine's resource families.

use vstd::prelude::*;

use crate::node::Script;
use crate::shader::Shader;
use crate::sprite::SpriteData;
use crate::storage::Resource;
use crate::texture::Texture;

verus! {

impl Resource for Shader {
    fn tid() -> u16 {
        1
    }
}

impl Resource for Texture {
    fn tid() -> u16 {
        2
    }
}

impl Resource for SpriteData {
    fn tid() -> u16 {
        3
    }
}

impl Resource for Script {
    fn tid() -> u16 {
        4
    }
}

} // verus!
