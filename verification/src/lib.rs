//! Moving Habitat builder data from its Redis store to its Postgres store.
//!
//! The library holds the parts of the migration that decide: how ids are read
//! out of Redis keys, how records are shaped for the Postgres data stores, and
//! the step-by-step migrators that say which store operation comes next.
pub mod text;
pub mod redis_extraction;
pub mod model;
pub mod postgres_lib;
pub mod migrators;
pub mod redis_lib;
