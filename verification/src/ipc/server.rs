//! How the server turns a request into a call on the store: the defaults it
//! fills in and the ids and times it reads, or the message it answers with
//! when it cannot.

use vstd::prelude::*;

use crate::datetime::{micros_in_range, parse_rfc3339, rfc3339_micros};
use crate::ids::{parse_uuid, uuid_parsed};
use crate::ipc::proto::Request;
use crate::model::{ForgetFilter, Query};

verus! {

/// A call on the store that serves a request.
#[derive(Debug)]
#[allow(inconsistent_fields)]
pub enum Call {
    List { limit: usize, cursor: Option<String>, tags: Vec<String>, source: Option<String> },
    /// Look a memory up among the first hundred listed.
    Get { id_prefix: String },
    Recall { query: Query },
    Update { id: u128, content: String },
    Store { content: String, tags: Vec<String>, source: Option<String> },
    Forget { id: Option<u128>, filter: Option<ForgetFilter> },
}

/// `x` clamped to `[lo, hi]`.
pub open spec fn clamp_spec(x: usize, lo: usize, hi: usize) -> usize {
    if x < lo {
        lo
    } else if x > hi {
        hi
    } else {
        x
    }
}

/// `x.clamp(lo, hi)`.
pub fn clamp(x: usize, lo: usize, hi: usize) -> (r: usize)
    requires
        lo <= hi,
    ensures
        r == clamp_spec(x, lo, hi),
{
    if x < lo {
        lo
    } else if x > hi {
        hi
    } else {
        x
    }
}

/// The answer to an id that does not parse as a UUID.
pub open spec fn bad_uuid_text() -> Seq<char> {
    "id is not a valid UUID"@
}

/// The answer to a time that does not parse as RFC 3339.
pub open spec fn bad_time_text() -> Seq<char> {
    "older_than is not a valid RFC-3339 timestamp"@
}

/// Decides the call that serves `req`: a listing of size 0 lists 50, a
/// search asks for 1 to 25 results and filters by no source, an update
/// needs a UUID, and a request to forget deletes by id when it names one
/// (its other criteria are then dropped) and by filter otherwise.
pub fn plan_request(req: Request) -> (r: Result<Call, String>)
    ensures
        match req {
            Request::List { limit, cursor, tags, source } => r == Ok::<Call, String>(
                Call::List {
                    limit: if limit == 0 {
                        50
                    } else {
                        limit
                    },
                    cursor,
                    tags,
                    source,
                },
            ),
            Request::Get { id_prefix } => r == Ok::<Call, String>(Call::Get { id_prefix }),
            Request::Recall { query, top_k, tags } => r == Ok::<Call, String>(
                Call::Recall {
                    query: Query {
                        text: query,
                        top_k: clamp_spec(top_k, 1, 25),
                        tag_filter: tags,
                        source_filter: None,
                    },
                },
            ),
            Request::Store { content, tags, source } => r == Ok::<Call, String>(
                Call::Store { content, tags, source },
            ),
            Request::Update { id, content } => match uuid_parsed(id@) {
                Some(u) => r == Ok::<Call, String>(Call::Update { id: u, content }),
                None => r matches Err(m) && m@ == bad_uuid_text(),
            },
            Request::Forget { id, tags, source, older_than } => match id {
                Some(s) => match uuid_parsed(s@) {
                    Some(u) => r == Ok::<Call, String>(Call::Forget { id: Some(u), filter: None }),
                    None => r matches Err(m) && m@ == bad_uuid_text(),
                },
                None => match older_than {
                    None => r == Ok::<Call, String>(
                        Call::Forget {
                            id: None,
                            filter: Some(ForgetFilter { older_than: None, tags, source }),
                        },
                    ),
                    Some(t) => match rfc3339_micros(t@) {
                        Some(m) => micros_in_range(m as int) && r == Ok::<Call, String>(
                            Call::Forget {
                                id: None,
                                filter: Some(ForgetFilter { older_than: Some(m), tags, source }),
                            },
                        ),
                        None => r matches Err(m) && m@ == bad_time_text(),
                    },
                },
            },
        },
{
    match req {
        Request::List { limit, cursor, tags, source } => {
            let limit = if limit == 0 {
                50
            } else {
                limit
            };
            Ok(Call::List { limit, cursor, tags, source })
        },
        Request::Get { id_prefix } => Ok(Call::Get { id_prefix }),
        Request::Recall { query, top_k, tags } => Ok(
            Call::Recall {
                query: Query {
                    text: query,
                    top_k: clamp(top_k, 1, 25),
                    tag_filter: tags,
                    source_filter: None,
                },
            },
        ),
        Request::Store { content, tags, source } => Ok(Call::Store { content, tags, source }),
        Request::Update { id, content } => match parse_uuid(id.as_str()) {
            Some(u) => Ok(Call::Update { id: u, content }),
            None => Err("id is not a valid UUID".to_owned()),
        },
        Request::Forget { id, tags, source, older_than } => match id {
            Some(s) => match parse_uuid(s.as_str()) {
                Some(u) => Ok(Call::Forget { id: Some(u), filter: None }),
                None => Err("id is not a valid UUID".to_owned()),
            },
            None => {
                let older = match older_than {
                    None => None,
                    Some(t) => match parse_rfc3339(t.as_str()) {
                        Some(m) => Some(m),
                        None => {
                            return Err("older_than is not a valid RFC-3339 timestamp".to_owned());
                        },
                    },
                };
                Ok(Call::Forget { id: None, filter: Some(ForgetFilter { older_than: older, tags, source }) })
            },
        },
    }
}

} // verus!
