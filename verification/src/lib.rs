//! A personal media library: records for anime, TV shows and games, an
//! in-memory store over them, a substring-and-attribute search engine, and a
//! byte-level codec for the persisted snapshot of the store.

pub mod codec;
pub mod media;
pub mod search;
pub mod store;
