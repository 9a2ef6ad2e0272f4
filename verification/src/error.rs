//! Engine-wide error type.

use vstd::prelude::*;

verus! {

#[verifier::external_type_specification]
#[verifier::external_body]
pub struct ExEntity(hecs::Entity);

#[verifier::external_type_specification]
#[verifier::external_body]
pub struct ExIoError(std::io::Error);

/// The canonical error type for engine operations.
#[derive(Debug)]
pub enum EngineError {
    /// A system attempted to access an entity that does not exist.
    NoSuchEntity(hecs::Entity),
    /// A component query failed because the entity lacks a required component.
    MissingComponent { entity: hecs::Entity, component: &'static str },
    /// An asset failed to load.
    AssetLoad { path: String, reason: String },
    /// A plugin with this name is already registered.
    DuplicatePlugin(&'static str),
    /// A system stage (or a system within a stage) was not found.
    UnknownStage(String),
    /// An event channel is disconnected.
    EventChannelDisconnected(String),
    /// A serialization or deserialization error occurred.
    Serialization(String),
    /// A generic I/O error.
    Io(std::io::Error),
    /// Catch-all for errors from elsewhere, with their message.
    Other(String),
}

/// Convenience alias used throughout the engine.
pub type EngineResult<T> = Result<T, EngineError>;

} // verus!
