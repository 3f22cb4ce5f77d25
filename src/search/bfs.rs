//! Breadth-first search.

use vstd::prelude::*;

verus! {

/// A breadth-first search, tagged by the vertex it starts from.
#[derive(Debug, Clone, Copy, PartialEq, Eq)]
pub struct BFS(pub usize);

} // verus!
