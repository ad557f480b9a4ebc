//! Errors that occur when fetching entities and their components.

use vstd::prelude::*;

verus! {

/// The identifier of a component type in a world.
#[derive(Clone, Copy, Debug, PartialEq, Eq, Structural)]
pub struct ComponentId(pub usize);

/// An entity: its index and the generation of that index.
#[derive(Clone, Copy, Debug, PartialEq, Eq, Structural)]
pub struct Entity {
    pub index: u32,
    pub generation: u32,
}

/// An error that occurs when dynamically retrieving components from an entity.
#[derive(Clone, Copy, Debug, PartialEq, Eq, Structural)]
pub enum EntityComponentError {
    /// The component with the given id does not exist on the entity.
    MissingComponent(ComponentId),
    /// The component with the given id was requested mutably more than once.
    AliasedMutability(ComponentId),
}

/// An error that occurs when fetching entities mutably from a world.
#[derive(Clone, Copy, Debug, PartialEq, Eq, Structural)]
pub enum EntityFetchError {
    /// The entity does not exist.
    NoSuchEntity(Entity),
    /// The entity was requested mutably more than once.
    AliasedMutability(Entity),
}

} // verus!
