//! The logical keys the engine reacts to.
//!
//! Polling the windowing system's keyboard and mouse state, and the
//! binding from physical scancodes to these keys, live with the
//! embedding program; the library owns the logical key alphabet.

use vstd::prelude::*;

verus! {

/// A logical input key.
#[derive(Clone, Copy, PartialEq, Eq, Structural, Hash, Debug)]
pub enum Key {
    Left,
    Right,
    Up,
    Down,
}

} // verus!
