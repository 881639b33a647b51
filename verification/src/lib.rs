//! Core of a foreign-function binding layer for a game engine: interned
//! string values backed by a deduplicating table, owned text values, structured
//! path values, and a class-registration mechanism with base-object embedding
//! and virtual hook dispatch.

pub mod classes;
pub mod decimal;
pub mod intern;
pub mod path;
pub mod registry;
pub mod text;
