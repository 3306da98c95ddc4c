//! An arena of slots that hands out one unique, non-copyable `Index` per
//! stored element. Freed slots are reused, and every index carries the tag of
//! the arena that issued it, so an index from another arena is never accepted.

pub mod arena;
pub mod instance;
pub mod laws;
pub mod model;

pub use arena::{Index, IndexedVec, DEFAULT_CAPACITY};
pub use instance::InstanceCounter;
pub use model::ArenaView;
