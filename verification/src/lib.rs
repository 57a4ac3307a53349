//! A chess position that many callers share, and a cache of search results
//! beside it.
//!
//! `state` holds the position and the operations on it; `manager` and
//! `cache` remember which move a search found for a position; `notation`
//! and `soundness` decide which position texts are taken; `engine` is the one place where the
//! chess engine is called; `route` is the record of a server's routes.
pub mod cache;
pub mod engine;
pub mod manager;
pub mod notation;
pub mod route;
pub mod soundness;
pub mod state;

pub use crate::cache::{BoundKind, CacheEntry, SearchCache};
pub use crate::manager::Manager;
pub use crate::route::{def_route, Route};
pub use crate::state::{GameError, State};
