//! The cache's own terms: keys, values, spans of time, entries and events.

pub mod entities;
pub mod events;
pub mod text;
pub mod time;
pub mod value_objects;
