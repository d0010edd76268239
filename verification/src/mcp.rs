//! The arguments of the four tools that the server offers to AI clients, and
//! what each tool makes of them before calling the store.

use vstd::prelude::*;

use crate::cli::{duration_ago_in_range, duration_error_text, duration_seconds, parse_duration_ago, seconds_as_i64};
use crate::ids::{parse_uuid, uuid_parsed};
use crate::ipc::server::{clamp, clamp_spec};
use crate::model::{ForgetFilter, Query};

verus! {

/// Arguments of the `store` tool.
#[derive(Debug)]
pub struct StoreArgs {
    /// The textual memory to persist.
    pub content: String,
    /// Optional tags for filtering.
    pub tags: Vec<String>,
    /// Optional source agent identifier.
    pub source: Option<String>,
}

/// Arguments of the `recall` tool.
#[derive(Debug)]
pub struct RecallArgs {
    /// Free-text query to search memories.
    pub query: String,
    /// Number of results to return (default 5, max 25).
    pub top_k: Option<usize>,
    /// Filter results to memories with these tags.
    pub tag_filter: Vec<String>,
}

/// Arguments of the `list` tool.
#[derive(Debug)]
pub struct ListArgs {
    /// Max results per page (default 20, max 100).
    pub limit: Option<usize>,
    /// Pagination cursor from previous response.
    pub cursor: Option<String>,
    pub tag_filter: Vec<String>,
    pub source_filter: Option<String>,
}

/// Arguments of the `forget` tool.
#[derive(Debug)]
pub struct ForgetArgs {
    /// Delete a specific memory by UUID.
    pub id: Option<String>,
    /// Delete memories older than this (e.g. "7d", "24h").
    pub older_than: Option<String>,
    /// Delete memories with these tags.
    pub tags: Vec<String>,
    /// Delete memories from this source.
    pub source: Option<String>,
}

impl RecallArgs {
    /// The query the tool runs: 5 results unless told otherwise, clamped to
    /// 1..=25, and no source filter.
    pub fn into_query(self) -> (q: Query)
        ensures
            q == (Query {
                text: self.query,
                top_k: clamp_spec(
                    match self.top_k {
                        Some(k) => k,
                        None => 5,
                    },
                    1,
                    25,
                ),
                tag_filter: self.tag_filter,
                source_filter: None,
            }),
    {
        let k = match self.top_k {
            Some(k) => k,
            None => 5,
        };
        Query { text: self.query, top_k: clamp(k, 1, 25), tag_filter: self.tag_filter, source_filter: None }
    }
}

impl ListArgs {
    /// The page size the tool asks for: 20 unless told otherwise.
    pub fn page_limit(&self) -> (n: usize)
        ensures
            n == match self.limit {
                Some(l) => l,
                None => 20,
            },
    {
        match self.limit {
            Some(l) => l,
            None => 20,
        }
    }
}

/// Whether forget arguments name a filter criterion.
pub open spec fn has_filter(args: ForgetArgs) -> bool {
    args.older_than is Some || args.tags@.len() > 0 || args.source is Some
}

impl ForgetArgs {
    /// What the tool deletes: by id or by filter, never both and never
    /// neither; the id must be a UUID and `older_than` a duration such as
    /// `7d`, taken back from `now` (microseconds since the epoch).
    pub fn plan(self, now: i64) -> (r: Result<(Option<u128>, Option<ForgetFilter>), String>)
        requires
            self.id is None && self.older_than is Some ==> duration_ago_in_range(
                self.older_than->Some_0@,
                now as int,
            ),
        ensures
            match (self.id, has_filter(self)) {
                (None, false) => r matches Err(m) && m@ == "must supply id or filter"@,
                (Some(_), true) => r matches Err(m) && m@ == "supply id or filter, not both"@,
                (Some(s), false) => match uuid_parsed(s@) {
                    Some(u) => r == Ok::<(Option<u128>, Option<ForgetFilter>), String>((Some(u), None)),
                    None => r matches Err(m) && m@ == "id is not a valid UUID"@,
                },
                (None, true) => match self.older_than {
                    None => r == Ok::<(Option<u128>, Option<ForgetFilter>), String>(
                        (None, Some(ForgetFilter { older_than: None, tags: self.tags, source: self.source })),
                    ),
                    Some(t) => match duration_seconds(t@) {
                        Some(secs) => r == Ok::<(Option<u128>, Option<ForgetFilter>), String>(
                            (
                                None,
                                Some(
                                    ForgetFilter {
                                        older_than: Some((now - seconds_as_i64(secs) * 1_000_000) as i64),
                                        tags: self.tags,
                                        source: self.source,
                                    },
                                ),
                            ),
                        ),
                        None => r matches Err(m) && m@ == duration_error_text(t@),
                    },
                },
            },
    {
        let has_id = self.id.is_some();
        let filter_given = self.older_than.is_some() || self.tags.len() > 0 || self.source.is_some();
        if !has_id && !filter_given {
            return Err("must supply id or filter".to_owned());
        }
        if has_id && filter_given {
            return Err("supply id or filter, not both".to_owned());
        }
        match self.id {
            Some(s) => match parse_uuid(s.as_str()) {
                Some(u) => Ok((Some(u), None)),
                None => Err("id is not a valid UUID".to_owned()),
            },
            None => {
                let older = match self.older_than {
                    None => None,
                    Some(t) => Some(parse_duration_ago(t.as_str(), now)?),
                };
                Ok((None, Some(ForgetFilter { older_than: older, tags: self.tags, source: self.source })))
            },
        }
    }
}

} // verus!
