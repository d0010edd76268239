//! The records the store keeps, the queries it answers and the filters by
//! which it forgets.

use vstd::prelude::*;

verus! {

/// The views of a sequence of strings.
pub open spec fn strings_view(v: Seq<String>) -> Seq<Seq<char>> {
    v.map_values(|t: String| t@)
}

/// The view of an optional string.
pub open spec fn opt_view(o: Option<String>) -> Option<Seq<char>> {
    match o {
        Some(s) => Some(s@),
        None => None,
    }
}

/// One stored memory. `id` is the 128-bit value of its UUID and
/// `created_at` the number of microseconds since the Unix epoch (UTC); the
/// embedding vector travels beside the record, outside this library.
#[derive(Debug, Clone)]
pub struct MemoryRecord {
    pub id: u128,
    pub content: String,
    pub created_at: i64,
    pub tags: Vec<String>,
    pub source: Option<String>,
}

/// What a record holds, as plain values.
pub struct RecordView {
    pub id: u128,
    pub content: Seq<char>,
    pub created_at: i64,
    pub tags: Seq<Seq<char>>,
    pub source: Option<Seq<char>>,
}

impl View for MemoryRecord {
    type V = RecordView;

    open spec fn view(&self) -> RecordView {
        RecordView {
            id: self.id,
            content: self.content@,
            created_at: self.created_at,
            tags: strings_view(self.tags@),
            source: opt_view(self.source),
        }
    }
}

/// A semantic search request.
#[derive(Debug, Clone)]
pub struct Query {
    pub text: String,
    pub top_k: usize,
    pub tag_filter: Vec<String>,
    pub source_filter: Option<String>,
}

impl Default for Query {
    /// An empty query for the five best matches, with no filter.
    fn default() -> (q: Self)
        ensures
            q.text@ == Seq::<char>::empty(),
            q.top_k == 5,
            q.tag_filter@.len() == 0,
            q.source_filter is None,
    {
        Query { text: String::new(), top_k: 5, tag_filter: Vec::new(), source_filter: None }
    }
}

/// Criteria for deleting memories; all that are given must hold. `older_than`
/// is a time in microseconds since the Unix epoch.
#[derive(Debug, Clone)]
pub struct ForgetFilter {
    pub older_than: Option<i64>,
    pub tags: Vec<String>,
    pub source: Option<String>,
}

impl Default for ForgetFilter {
    /// A filter with no criterion.
    fn default() -> (f: Self)
        ensures
            f.older_than is None,
            f.tags@.len() == 0,
            f.source is None,
    {
        ForgetFilter { older_than: None, tags: Vec::new(), source: None }
    }
}

/// Clones a string, keeping its view.
pub fn clone_string(s: &String) -> (c: String)
    ensures
        c@ == s@,
{
    s.clone()
}

/// Clones an optional string, keeping its view.
pub fn clone_opt(o: &Option<String>) -> (c: Option<String>)
    ensures
        opt_view(c) == opt_view(*o),
{
    match o {
        Some(s) => Some(s.clone()),
        None => None,
    }
}

} // verus!
