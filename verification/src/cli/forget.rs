//! Checking the arguments of `forget`, and choosing what a dry run shows.

use vstd::prelude::*;

use crate::cli::{duration_ago_in_range, duration_error_text, duration_seconds, parse_duration_ago, seconds_as_i64};
use crate::datetime::{parse_rfc3339_nanos, rfc3339_micros, rfc3339_sub_micro_nanos};
use crate::ids::{parse_uuid, uuid_parsed, uuid_string, uuid_text};
use crate::text::{chars_of, push_all, push_char, string_of};

verus! {

/// Why the arguments of `forget` are refused.
#[derive(Debug)]
pub enum ForgetArgsError {
    /// Neither an id nor a filter flag.
    NoTarget,
    /// Both an id and a filter flag.
    Conflict,
    /// The id is not a UUID; the message says so.
    BadId(String),
    /// The `--older-than` duration has the wrong form; the message says so.
    BadDuration(String),
}

/// The message for an `--id` that is not a UUID.
pub open spec fn bad_id_text(s: Seq<char>) -> Seq<char> {
    "--id is not a valid UUID: "@ + s
}

/// What `forget` deletes: a memory by id, or the memories older than a
/// cutoff (with the tag and source flags).
#[derive(Debug, Clone, Copy)]
pub struct ForgetPlan {
    pub id: Option<u128>,
    pub cutoff: Option<i64>,
}

/// Checks the arguments of `forget`: exactly one of an id and filter flags,
/// a UUID for the id and a duration such as `7d` for `--older-than`, taken
/// back from `now` (microseconds since the epoch).
pub fn plan_forget_args(
    id: Option<&str>,
    tag_count: usize,
    source_given: bool,
    older_than: Option<&str>,
    now: i64,
) -> (r: Result<ForgetPlan, ForgetArgsError>)
    requires
        id is None && older_than is Some ==> duration_ago_in_range(older_than->Some_0@, now as int),
    ensures
        ({
            let filter_given = older_than is Some || tag_count > 0 || source_given;
            if id is None && !filter_given {
                r matches Err(ForgetArgsError::NoTarget)
            } else if id is Some && filter_given {
                r matches Err(ForgetArgsError::Conflict)
            } else if id is Some {
                match uuid_parsed(id->Some_0@) {
                    Some(u) => r matches Ok(p) && p.id == Some(u) && p.cutoff is None,
                    None => r matches Err(ForgetArgsError::BadId(m)) && m@ == bad_id_text(id->Some_0@),
                }
            } else {
                match older_than {
                    None => r matches Ok(p) && p.id is None && p.cutoff is None,
                    Some(t) => match duration_seconds(t@) {
                        Some(secs) => r matches Ok(p) && p.id is None && p.cutoff == Some(
                            (now - seconds_as_i64(secs) * 1_000_000) as i64,
                        ),
                        None => r matches Err(ForgetArgsError::BadDuration(m)) && m@ == duration_error_text(t@),
                    },
                }
            }
        }),
{
    let filter_given = older_than.is_some() || tag_count > 0 || source_given;
    if id.is_none() && !filter_given {
        return Err(ForgetArgsError::NoTarget);
    }
    if id.is_some() && filter_given {
        return Err(ForgetArgsError::Conflict);
    }
    match id {
        Some(s) => match parse_uuid(s) {
            Some(u) => Ok(ForgetPlan { id: Some(u), cutoff: None }),
            None => {
                let mut m = "--id is not a valid UUID: ".to_owned();
                push_all(&mut m, s);
                Err(ForgetArgsError::BadId(m))
            },
        },
        None => match older_than {
            None => Ok(ForgetPlan { id: None, cutoff: None }),
            Some(t) => match parse_duration_ago(t, now) {
                Ok(c) => Ok(ForgetPlan { id: None, cutoff: Some(c) }),
                Err(m) => Err(ForgetArgsError::BadDuration(m)),
            },
        },
    }
}

/// An item that a dry run may show: its id and creation time as listed,
/// when present.
#[derive(Debug)]
pub struct PreviewItem {
    pub id: Option<String>,
    pub created_at: Option<String>,
}

/// Whether a dry run shows the item: with an id, the item with that id;
/// with a cutoff, the items created before it (an item whose time does not
/// read as RFC 3339 is not shown); otherwise every item. The cutoff is `t`
/// microseconds and `sub` nanoseconds past them; an item's time, `m`
/// microseconds and `n` nanoseconds past them, is before it when `m < t`,
/// or `m == t` and `n < sub`: the times are compared to the nanosecond.
pub open spec fn preview_shows(item: PreviewItem, id: Option<u128>, cutoff: Option<i64>, sub: u32) -> bool {
    match id {
        Some(u) => item.id matches Some(s) && s@ == uuid_text(u),
        None => match cutoff {
            Some(t) => item.created_at matches Some(c) && match rfc3339_micros(c@) {
                Some(m) => match rfc3339_sub_micro_nanos(c@) {
                    Some(n) => m < t || (m == t && n < sub),
                    None => false,
                },
                None => false,
            },
            None => true,
        },
    }
}

/// The indices, in order, of the items among the first `n` that a dry run
/// shows.
pub open spec fn preview_indices(
    items: Seq<PreviewItem>,
    id: Option<u128>,
    cutoff: Option<i64>,
    sub: u32,
    n: int,
) -> Seq<usize>
    decreases n,
{
    if n <= 0 {
        seq![]
    } else if preview_shows(items[n - 1], id, cutoff, sub) {
        preview_indices(items, id, cutoff, sub, n - 1).push((n - 1) as usize)
    } else {
        preview_indices(items, id, cutoff, sub, n - 1)
    }
}

pub(crate) fn same_text(a: &str, b: &str) -> (e: bool)
    ensures
        e == (a@ == b@),
{
    let x = chars_of(a);
    let y = chars_of(b);
    if x.len() != y.len() {
        return false;
    }
    let mut i: usize = 0;
    while i < x.len()
        invariant
            i <= x.len() == y.len(),
            x@ == a@,
            y@ == b@,
            x@.take(i as int) == y@.take(i as int),
        decreases x.len() - i,
    {
        if x[i] != y[i] {
            proof {
                assert(x@[i as int] != y@[i as int]);
                assert(x@ != y@);
            }
            return false;
        }
        i = i + 1;
        proof {
            assert(x@.take(i as int) =~= y@.take(i as int));
        }
    }
    proof {
        assert(x@ =~= x@.take(x@.len() as int));
        assert(y@ =~= y@.take(y@.len() as int));
    }
    true
}

/// The items that a dry run of `forget` shows, by index; the cutoff, if
/// any, is `cutoff` microseconds and `cutoff_sub_nanos` nanoseconds.
pub fn preview_matches(
    items: &Vec<PreviewItem>,
    id: Option<u128>,
    cutoff: Option<i64>,
    cutoff_sub_nanos: u32,
) -> (m: Vec<usize>)
    ensures
        m@ == preview_indices(items@, id, cutoff, cutoff_sub_nanos, items@.len() as int),
{
    let target: Option<String> = match id {
        Some(u) => Some(uuid_string(u)),
        None => None,
    };
    let mut m: Vec<usize> = Vec::new();
    let mut i: usize = 0;
    while i < items.len()
        invariant
            i <= items.len(),
            m@ == preview_indices(items@, id, cutoff, cutoff_sub_nanos, i as int),
            id is Some <==> target is Some,
            target is Some ==> target->Some_0@ == uuid_text(id->Some_0),
        decreases items.len() - i,
    {
        let item = &items[i];
        let shows = match &target {
            Some(t) => match &item.id {
                Some(s) => same_text(s.as_str(), t.as_str()),
                None => false,
            },
            None => match cutoff {
                Some(c) => match &item.created_at {
                    Some(text) => match parse_rfc3339_nanos(text.as_str()) {
                        Some((t, n)) => t < c || (t == c && n < cutoff_sub_nanos),
                        None => false,
                    },
                    None => false,
                },
                None => true,
            },
        };
        proof {
            assert(shows == preview_shows(items@[i as int], id, cutoff, cutoff_sub_nanos));
        }
        if shows {
            m.push(i);
        }
        i = i + 1;
    }
    m
}

/// `s` cut to `max` characters followed by an ellipsis when it is longer.
pub open spec fn truncate_spec(s: Seq<char>, max: nat) -> Seq<char> {
    if s.len() <= max {
        s
    } else {
        s.take(max as int) + seq!['…']
    }
}

/// Cuts `s` for the one-line summary of a dry run.
pub fn truncate(s: &str, max: usize) -> (t: String)
    ensures
        t@ == truncate_spec(s@, max as nat),
{
    let v = chars_of(s);
    if v.len() <= max {
        return string_of(v.as_slice());
    }
    let mut t = string_of(&v.as_slice()[0..max]);
    push_char(&mut t, '…');
    proof {
        assert(t@ =~= truncate_spec(s@, max as nat));
    }
    t
}

/// Cutting a text for a dry-run summary: a text of at most `max`
/// characters is kept whole; a longer one keeps its first `max` characters
/// and gets an ellipsis after them.
pub proof fn law_truncate_summary(s: Seq<char>, max: nat)
    ensures
        s.len() <= max ==> truncate_spec(s, max) == s,
        s.len() > max ==> truncate_spec(s, max).len() == max + 1,
        s.len() > max ==> truncate_spec(s, max).last() == '…',
        s.len() > max ==> truncate_spec(s, max).take(max as int) == s.take(max as int),
{
    if s.len() > max {
        let t = truncate_spec(s, max);
        assert(t.take(max as int) =~= s.take(max as int));
    }
}

} // verus!
