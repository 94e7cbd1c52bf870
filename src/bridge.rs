//! The shapes that a binding layer for another runtime hands out.

use vstd::prelude::*;

verus! {

/// The entry point that a binding layer exposes.
#[derive(Debug)]
pub struct ContextfyKit;

impl ContextfyKit {
    /// A new instance.
    pub fn new() -> (r: ContextfyKit)
        ensures
            r == ContextfyKit,
    {
        ContextfyKit
    }
}

impl Default for ContextfyKit {
    fn default() -> (r: ContextfyKit)
        ensures
            r == ContextfyKit,
    {
        ContextfyKit::new()
    }
}

/// A search result as the binding layer shows it.
#[derive(Debug, Clone)]
pub struct Brief {
    pub id: String,
    pub title: String,
    pub summary: String,
}

/// A record in full, as the binding layer shows it.
#[derive(Debug, Clone)]
pub struct Details {
    pub id: String,
    pub title: String,
    pub content: String,
}

impl Brief {
    /// The listing item for a search result of the store.
    pub fn from_result(b: &crate::retriever::Brief) -> (r: Brief)
        ensures
            r.id@ == b.id@,
            r.title@ == b.title@,
            r.summary@ == b.summary@,
    {
        Brief { id: b.id.clone(), title: b.title.clone(), summary: b.summary.clone() }
    }
}

impl Details {
    /// The full view of a record of the store.
    pub fn from_result(d: &crate::retriever::Details) -> (r: Details)
        ensures
            r.id@ == d.id@,
            r.title@ == d.title@,
            r.content@ == d.content@,
    {
        Details { id: d.id.clone(), title: d.title.clone(), content: d.content.clone() }
    }
}

} // verus!
