//! Scene nodes: identities, the base every node carries, and typed node
//! stores.

use vstd::prelude::*;

use crate::canvas::TileMap;
use crate::storage::ResourceID;

verus! {

/// A script attached to a node; scripts are engine resources addressed by
/// handle.
pub struct Script {
    pub source: String,
}

/// A copyable identity of one scene node: slot index, generation and node
/// type tag.
pub struct NodeID {
    pub index: u32,
    pub generation: u16,
    pub ntid: u16,
}

/// What every scene node carries.
pub struct NodeBase {
    pub script: Option<ResourceID<Script>>,
    pub parent: NodeID,
    pub children: Vec<NodeID>,
}

/// A scene node: anything that carries a [`NodeBase`].
pub trait Node {
    fn base(&self) -> &NodeBase;
}

/// What every typed node store can answer without knowing the node type.
pub trait NodeStorageBase {
    /// How many nodes the store holds.
    fn count(&self) -> usize;
}

/// A store of nodes of one type.
pub struct NodeStorage<T: Node> {
    nodes: Vec<T>,
}

impl<T: Node> NodeStorage<T> {
    /// The nodes held, in insertion order.
    pub closed spec fn spec_nodes(&self) -> Seq<T> {
        self.nodes@
    }

    /// An empty store, sized for about `size` nodes.
    pub fn new(size: u32) -> (r: Self)
        ensures
            r.spec_nodes().len() == 0,
    {
        NodeStorage { nodes: Vec::with_capacity(size as usize) }
    }
}

impl<T: Node> NodeStorageBase for NodeStorage<T> {
    fn count(&self) -> usize {
        self.nodes.len()
    }
}

/// A player-controlled node.
pub struct PlayerNode {
    pub base: NodeBase,
}

impl Node for PlayerNode {
    fn base(&self) -> &NodeBase {
        &self.base
    }
}

/// A node drawing a tile map.
pub struct TileMapNode {
    pub tilemap: TileMap,
    pub base: NodeBase,
}

impl Node for TileMapNode {
    fn base(&self) -> &NodeBase {
        &self.base
    }
}

} // verus!
