//! The asset registry: names of shaders, textures and scripts mapped to
//! the paths they load from.

use vstd::prelude::*;

verus! {

/// Three name-to-path tables, one per asset kind.
pub struct AssetManager {
    pub shaders: Vec<(String, String)>,
    pub textures: Vec<(String, String)>,
    pub scripts: Vec<(String, String)>,
}

impl AssetManager {
    /// An empty registry.
    pub fn new() -> (r: AssetManager)
        ensures
            r.shaders@.len() == 0,
            r.textures@.len() == 0,
            r.scripts@.len() == 0,
    {
        AssetManager { shaders: Vec::new(), textures: Vec::new(), scripts: Vec::new() }
    }
}

} // verus!
