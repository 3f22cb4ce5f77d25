//! Graph search.

pub mod bfs;
