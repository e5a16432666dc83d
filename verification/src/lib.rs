//! Support routines for a set of small game prototypes: an ASCII dungeon-map
//! generator built around rejection-sampled room placement, a coordinate
//! pair type shared by the games, mesh indices for a laser beam, decimal
//! text rendering, and a tiny grid world.

pub mod dungeon;
pub mod laser;
pub mod pair;
pub mod text;
pub mod wumpus;
mod rng;
