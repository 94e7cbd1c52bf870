//! The retrieval façade: search results as brief listing items, and a
//! record's full detail, projected from the store's records.

use vstd::prelude::*;
use crate::storage::{find_by_id, matching, views, KnowledgeRecord, KnowledgeStore, RecordView};

verus! {

/// A search result as a listing shows it.
#[derive(Debug, Clone)]
pub struct Brief {
    pub id: String,
    pub title: String,
    pub parent_doc_title: String,
    pub summary: String,
}

/// A record in full.
#[derive(Debug, Clone)]
pub struct Details {
    pub id: String,
    pub title: String,
    pub content: String,
}

/// `b` shows the record `r`.
pub open spec fn brief_of(b: Brief, r: RecordView) -> bool {
    b.id@ == r.id && b.title@ == r.title && b.parent_doc_title@ == r.parent && b.summary@
        == r.summary
}

/// `d` holds the record `r`.
pub open spec fn details_of(d: Details, r: RecordView) -> bool {
    d.id@ == r.id && d.title@ == r.title && d.content@ == r.content
}

/// Searches and fetches records of one store.
pub struct Retriever<'a> {
    store: &'a KnowledgeStore,
}

impl<'a> Retriever<'a> {
    /// The directory of the store searched.
    pub closed spec fn dir(&self) -> Seq<char> {
        self.store.dir()
    }

    /// A retriever over `store`.
    pub fn new(store: &'a KnowledgeStore) -> (r: Retriever<'a>)
        ensures
            r.dir() == store.dir(),
    {
        Retriever { store }
    }

    /// The records among `records` (the store's records, as read from its
    /// record files in listing order) that match `query`, as listing items.
    pub fn scout(&self, records: &Vec<KnowledgeRecord>, query: &str) -> (r: Vec<Brief>)
        ensures
            r@.len() == matching(views(records@), query@).len(),
            forall|i: int| 0 <= i < r@.len() ==> brief_of(#[trigger] r@[i], matching(views(records@), query@)[i]),
    {
        let found = self.store.search(records, query);
        let mut r: Vec<Brief> = Vec::new();
        let mut i: usize = 0;
        while i < found.len()
            invariant
                i <= found@.len(),
                r@.len() == i,
                views(found@) == matching(views(records@), query@),
                forall|j: int| 0 <= j < i ==> brief_of(#[trigger] r@[j], views(found@)[j]),
            decreases found@.len() - i,
        {
            let x = &found[i];
            r.push(
                Brief {
                    id: x.id.clone(),
                    title: x.title.clone(),
                    parent_doc_title: x.parent_doc_title.clone(),
                    summary: x.summary.clone(),
                },
            );
            i = i + 1;
        }
        r
    }

    /// The record among `records` with identifier `id`, in full.
    pub fn inspect(&self, records: &Vec<KnowledgeRecord>, id: &str) -> (r: Option<Details>)
        ensures
            r is None <==> find_by_id(views(records@), id@) is None,
            r matches Some(d) ==> details_of(d, find_by_id(views(records@), id@)->0),
    {
        match self.store.get(records, id) {
            Some(x) => Some(Details { id: x.id, title: x.title, content: x.content }),
            None => None,
        }
    }
}

} // verus!
