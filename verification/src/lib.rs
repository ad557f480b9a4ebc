//! Event and packet dispatch for an entity-component world: registries of
//! systems per input slot, the order in which a sent event reaches them, and
//! the guards that keep a dispatch well formed.

pub mod additions;
pub mod dispatch;
pub mod error;
pub mod event;
pub mod packet;
pub mod properties;
pub mod small;
pub mod world;
