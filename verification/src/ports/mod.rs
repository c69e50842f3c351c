//! Ports: the interfaces between the cache's domain and the world.

pub mod driven;
pub mod driving;
