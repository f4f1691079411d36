//! A generational slot-map resource store for a small game engine.
//!
//! The core hands out stable, copyable handles to heap-resident values.
//! A handle carries a slot index, a generation counter that detects stale
//! handles after the slot is reused, and a type tag. Two stores share the
//! design: [`storage::Storage`], a named, typed slot map for engine-level
//! resources, and [`comp_storage::ComponentStorage`], a densely packed
//! variant for high-volume per-entity component records. Handles
//! serialize as fixed-width tokens ([`token`]), and [`world::World`] ties
//! component stores to entities.

pub mod asset_manager;
pub mod bit_array;
pub mod canvas;
pub mod comp_storage;
pub mod game_data;
pub mod input_manager;
pub mod name_index;
pub mod node;
pub mod path;
pub mod resource_tids;
pub mod shader;
pub mod sprite;
pub mod storage;
pub mod texture;
pub mod token;
pub mod world;
