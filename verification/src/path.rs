//! The engine's two well-known directories, as relative paths.
//!
//! Locating the directories on disk is the embedding program's business;
//! the library only forms the relative path of a file inside each.

use vstd::prelude::*;

verus! {

/// The path of `path` inside the asset directory.
pub fn asset_path(path: &str) -> (r: String)
    ensures
        r@ == "assets/"@ + path@,
{
    let mut s = String::from_str("assets/");
    s.append(path);
    s
}

/// The path of `path` inside the storage directory.
pub fn storage_path(path: &str) -> (r: String)
    ensures
        r@ == "storage/"@ + path@,
{
    let mut s = String::from_str("storage/");
    s.append(path);
    s
}

} // verus!
