//! GUR engine core library: event bus, frame clock, scheduling, narrative state
//! and the other deterministic pieces of the engine, with their contracts.

pub mod event;
pub mod time;
pub mod error;
pub mod scheduler;
pub mod table;
pub mod narrative;
pub mod tools;
pub mod assets;
pub mod scene;
pub mod platform;
pub mod actors;
pub mod input;
pub mod plugin;
pub mod audio;
pub mod combat;
pub mod physics;
pub mod render;
pub mod world;
pub mod save;
pub mod scripting;
