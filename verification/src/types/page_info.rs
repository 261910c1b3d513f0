//! The forward pagination envelope.

use vstd::prelude::*;

verus! {

/// Where a page starts and whether another one follows.
#[derive(Debug)]
pub struct ForwardPageInfo {
    pub start_cursor: String,
    pub has_next_page: bool,
}

/// One page of nodes.
#[derive(Debug)]
pub struct ForwardPageOf<T> {
    pub page_info: ForwardPageInfo,
    pub edges: Vec<EdgeOf<T>>,
}

/// One entry of a page.
#[derive(Debug)]
pub struct EdgeOf<T> {
    pub node: T,
}

} // verus!
