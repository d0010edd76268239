//! The rules of the memory store: what it accepts to store, search for and
//! list, how it pages through a listing, how an update treats the record it
//! replaces, and what a request to forget must name.

use vstd::prelude::*;

use crate::cursor::{cursor_offset, cursor_text, decode_cursor, encode_cursor};
use crate::datetime::{micros_in_range, now_micros};
use crate::error::{invalid_input, is_invalid_input, MemoriError};
use crate::ids::{is_random_uuid, new_random_id, uuid_string, uuid_text};
use crate::model::{opt_view, strings_view, ForgetFilter, MemoryRecord, Query, RecordView};
use crate::storage::{is_newest_first, lemma_newest_first, newest_first, page_of, records_view, scan_page};
use crate::text::{is_blank, is_blank_text, push_all, utf8_len};

verus! {

/// The largest content, in UTF-8 bytes, that the store accepts.
pub const MAX_CONTENT_BYTES: usize = 65536;

/// The error that `validate_content` gives for a content, if any.
pub open spec fn content_error(content: Seq<char>) -> Option<Seq<char>> {
    if is_blank_text(content) {
        Some("content must not be empty"@)
    } else if utf8_len(content) > MAX_CONTENT_BYTES {
        Some("content exceeds 64 KiB limit"@)
    } else {
        None
    }
}

/// Checks that a content is not blank and fits in 64 KiB.
pub fn validate_content(content: &str) -> (r: Result<(), MemoriError>)
    ensures
        match content_error(content@) {
            Some(m) => r is Err && is_invalid_input(r->Err_0, m),
            None => r is Ok,
        },
{
    if is_blank(content) {
        return Err(invalid_input("content must not be empty"));
    }
    let chars = crate::text::chars_of(content);
    if crate::text::utf8_byte_len(chars.as_slice()) > MAX_CONTENT_BYTES as u128 {
        return Err(invalid_input("content exceeds 64 KiB limit"));
    }
    Ok(())
}

/// Whether every tag is non-empty.
pub open spec fn tags_valid(tags: Seq<Seq<char>>) -> bool {
    forall|i: int| 0 <= i < tags.len() ==> tags[i].len() > 0
}

/// Checks that no tag is empty.
pub fn validate_tags(tags: &[String]) -> (r: Result<(), MemoriError>)
    ensures
        tags_valid(strings_view(tags@)) ==> r is Ok,
        !tags_valid(strings_view(tags@)) ==> r is Err && is_invalid_input(
            r->Err_0,
            "tag must not be empty"@,
        ),
{
    let mut i: usize = 0;
    while i < tags.len()
        invariant
            i <= tags.len(),
            forall|k: int| 0 <= k < i ==> strings_view(tags@)[k].len() > 0,
        decreases tags.len() - i,
    {
        if tags[i].as_str().is_empty() {
            proof {
                assert(strings_view(tags@)[i as int] == tags@[i as int]@);
            }
            return Err(invalid_input("tag must not be empty"));
        }
        i = i + 1;
    }
    Ok(())
}

/// The error that `validate_query` gives for a query, if any.
pub open spec fn query_error(text: Seq<char>, top_k: usize) -> Option<Seq<char>> {
    if is_blank_text(text) {
        Some("query text must not be empty"@)
    } else if top_k == 0 || top_k > 25 {
        Some("top_k must be in [1, 25]"@)
    } else {
        None
    }
}

/// Checks that a query has text and asks for 1 to 25 results.
pub fn validate_query(query: &Query) -> (r: Result<(), MemoriError>)
    ensures
        match query_error(query.text@, query.top_k) {
            Some(m) => r is Err && is_invalid_input(r->Err_0, m),
            None => r is Ok,
        },
{
    if is_blank(query.text.as_str()) {
        return Err(invalid_input("query text must not be empty"));
    }
    if query.top_k == 0 || query.top_k > 25 {
        return Err(invalid_input("top_k must be in [1, 25]"));
    }
    Ok(())
}

/// A content is accepted exactly when it is not blank and its UTF-8 form is
/// at most 65536 bytes; a blank content is refused as empty (whatever its
/// size), a longer one for its size.
pub proof fn law_content_rules(content: Seq<char>)
    ensures
        (content_error(content) is None) <==> (!is_blank_text(content) && utf8_len(content)
            <= 65536),
        is_blank_text(content) ==> content_error(content) == Some("content must not be empty"@),
        !is_blank_text(content) && utf8_len(content) > 65536 ==> content_error(content) == Some(
            "content exceeds 64 KiB limit"@,
        ),
{
}

/// Tags are accepted exactly when none of them is the empty text; storing
/// checks the content first, then the tags, and accepts when both pass.
pub proof fn law_tag_rules(tags: Seq<Seq<char>>, content: Seq<char>)
    ensures
        tags_valid(tags) <==> (forall|i: int| 0 <= i < tags.len() ==> #[trigger] tags[i] != Seq::<
            char,
        >::empty()),
        content_error(content) is Some ==> store_error(content, tags) == content_error(content),
        content_error(content) is None && !tags_valid(tags) ==> store_error(content, tags) == Some(
            "tag must not be empty"@,
        ),
        (store_error(content, tags) is None) <==> (content_error(content) is None && tags_valid(
            tags,
        )),
{
    assert(tags_valid(tags) <==> (forall|i: int| 0 <= i < tags.len() ==> #[trigger] tags[i]
        != Seq::<char>::empty())) by {
        assert forall|i: int| 0 <= i < tags.len() implies (tags[i].len() > 0 <==> tags[i]
            != Seq::<char>::empty()) by {
            if tags[i].len() == 0 {
                assert(tags[i] =~= Seq::<char>::empty());
            }
        }
    }
}

/// A listing without a cursor starts at the first record, with 20 records
/// when no limit (0) is given and with the limit itself from 1 to 100; a
/// limit above 100 is refused (whatever the cursor).
pub proof fn law_list_window(limit: usize, cursor: Option<Seq<char>>)
    ensures
        limit == 0 ==> list_window_spec(limit, None) == Ok::<(usize, usize), Seq<char>>((20, 0)),
        1 <= limit <= 100 ==> list_window_spec(limit, None) == Ok::<(usize, usize), Seq<char>>(
            (limit, 0),
        ),
        limit > 100 ==> list_window_spec(limit, cursor) == Err::<(usize, usize), Seq<char>>(
            "limit must not exceed 100"@,
        ),
        limit <= 100 && list_window_spec(limit, cursor) is Ok ==> list_window_spec(
            limit,
            cursor,
        )->Ok_0.0 == (if limit == 0 {
            20
        } else {
            limit
        }),
{
}

/// A query with text asks for between 1 and 25 results: its validation
/// succeeds for every `top_k` from 1 to 25 and fails, with the message that
/// names that range, exactly when `top_k` is 0 or above 25. A query whose
/// text is blank is refused for its text, whatever its `top_k`.
pub proof fn law_query_top_k_range(text: Seq<char>, top_k: usize)
    ensures
        !is_blank_text(text) ==> ((query_error(text, top_k) is None) <==> (1 <= top_k && top_k
            <= 25)),
        !is_blank_text(text) && (top_k == 0 || top_k > 25) ==> query_error(text, top_k) == Some(
            "top_k must be in [1, 25]"@,
        ),
        is_blank_text(text) ==> query_error(text, top_k) == Some("query text must not be empty"@),
{
}

/// Whether `rec` is the record that storing `content` with `tags` and
/// `source` at the time `created_at` creates, under the random id it drew.
pub open spec fn stored_as(
    rec: MemoryRecord,
    content: Seq<char>,
    tags: Seq<Seq<char>>,
    source: Option<Seq<char>>,
    created_at: i64,
) -> bool {
    &&& rec.content@ == content
    &&& strings_view(rec.tags@) == tags
    &&& opt_view(rec.source) == source
    &&& is_random_uuid(rec.id)
    &&& rec.id != 0
    &&& rec.created_at == created_at
}

/// The error that storing `content` with `tags` gives, if any: the content
/// is checked first, then the tags.
pub open spec fn store_error(content: Seq<char>, tags: Seq<Seq<char>>) -> Option<Seq<char>> {
    match content_error(content) {
        Some(m) => Some(m),
        None => if !tags_valid(tags) {
            Some("tag must not be empty"@)
        } else {
            None
        },
    }
}

/// The record that storing `content` with `tags` and `source` at the time
/// `created_at` creates, once both are valid: a fresh random id and exactly
/// that time. A content or a tag that `validate_content` or `validate_tags`
/// refuses is refused with the same error, the content checked first.
pub fn prepare_record_at(
    content: String,
    tags: Vec<String>,
    source: Option<String>,
    created_at: i64,
) -> (r: Result<MemoryRecord, MemoriError>)
    ensures
        match store_error(content@, strings_view(tags@)) {
            Some(m) => r is Err && is_invalid_input(r->Err_0, m),
            None => r matches Ok(rec) && stored_as(
                rec,
                content@,
                strings_view(tags@),
                opt_view(source),
                created_at,
            ),
        },
{
    validate_content(content.as_str())?;
    validate_tags(tags.as_slice())?;
    let id = new_random_id();
    proof {
        crate::ids::lemma_random_uuid_not_nil(id);
    }
    Ok(MemoryRecord { id, content, created_at, tags, source })
}

/// The record that storing `content` with `tags` and `source` now creates:
/// `prepare_record_at` at the time read from the clock. Which time the clock
/// gives is left open; it is a representable time.
pub fn prepare_record(content: String, tags: Vec<String>, source: Option<String>) -> (r: Result<
    MemoryRecord,
    MemoriError,
>)
    ensures
        match store_error(content@, strings_view(tags@)) {
            Some(m) => r is Err && is_invalid_input(r->Err_0, m),
            None => r matches Ok(rec) && micros_in_range(rec.created_at as int) && stored_as(
                rec,
                content@,
                strings_view(tags@),
                opt_view(source),
                rec.created_at,
            ),
        },
{
    let now = now_micros();
    prepare_record_at(content, tags, source, now)
}

/// The message for an update of an id that is not stored.
pub open spec fn missing_id_text(id: u128) -> Seq<char> {
    "no memory with id "@ + uuid_text(id)
}

/// The record that replaces `existing` when its content is updated: the id,
/// the creation time, the tags and the source stay, the content is new.
/// Updating an id that is not stored (`existing` is `None`) is refused.
pub fn apply_update(id: u128, content: String, existing: Option<MemoryRecord>) -> (r: Result<
    MemoryRecord,
    MemoriError,
>)
    ensures
        match existing {
            None => r is Err && is_invalid_input(r->Err_0, missing_id_text(id)),
            Some(old_rec) => r matches Ok(rec) && rec@ == (RecordView {
                id,
                content: content@,
                created_at: old_rec.created_at,
                tags: old_rec@.tags,
                source: old_rec@.source,
            }),
        },
{
    match existing {
        None => {
            let mut m = "no memory with id ".to_owned();
            let t = uuid_string(id);
            push_all(&mut m, t.as_str());
            Err(MemoriError::InvalidInput(m))
        },
        Some(old_rec) => Ok(
            MemoryRecord {
                id,
                content,
                created_at: old_rec.created_at,
                tags: old_rec.tags,
                source: old_rec.source,
            },
        ),
    }
}

/// The page size and offset that a listing asks for: a limit of 0 means 20,
/// a limit above 100 is refused, and the offset is read from the cursor (0
/// without one).
pub open spec fn list_window_spec(limit: usize, cursor: Option<Seq<char>>) -> Result<
    (usize, usize),
    Seq<char>,
> {
    let lim: usize = if limit == 0 {
        20
    } else {
        limit
    };
    if lim > 100 {
        Err("limit must not exceed 100"@)
    } else {
        match cursor {
            None => Ok((lim, 0usize)),
            Some(c) => match cursor_offset(c) {
                Some(n) => Ok((lim, n as usize)),
                None => Err("cursor is invalid"@),
            },
        }
    }
}

/// The page size and offset of a listing, or why they are refused.
pub fn list_window(limit: usize, cursor: Option<&str>) -> (r: Result<(usize, usize), MemoriError>)
    ensures
        match list_window_spec(
            limit,
            match cursor {
                Some(c) => Some(c@),
                None => None,
            },
        ) {
            Ok(w) => r == Ok::<(usize, usize), MemoriError>(w),
            Err(m) => r is Err && is_invalid_input(r->Err_0, m),
        },
        forall|n: nat|
            #![trigger cursor_text(n)]
            n <= usize::MAX && cursor is Some && cursor->Some_0@ == cursor_text(n) && 0 < limit
                <= 100 ==> r == Ok::<(usize, usize), MemoriError>((limit, n as usize)),
{
    let lim: usize = if limit == 0 {
        20
    } else {
        limit
    };
    if lim > 100 {
        return Err(invalid_input("limit must not exceed 100"));
    }
    let offset = match cursor {
        Some(c) => decode_cursor(c)?,
        None => 0,
    };
    Ok((lim, offset))
}

/// The page of a listing at `offset`, from every record that matches its
/// filters: at most `limit` records, newest first, and the cursor of the next
/// page when records remain after it.
pub fn list_page(records: Vec<MemoryRecord>, limit: usize, offset: usize) -> (r: (
    Vec<MemoryRecord>,
    Option<String>,
))
    ensures
        records_view(r.0@) == page_of(
            newest_first(records_view(records@)),
            offset as int,
            limit as int,
        ),
        r.1 is Some <==> records@.len() > offset + limit,
        r.1 is Some ==> r.1->Some_0@ == cursor_text((offset + limit) as nat),
{
    let n = records.len();
    let page = scan_page(records, limit, offset);
    let next = if n > offset && n - offset > limit {
        Some(encode_cursor(offset + limit))
    } else {
        None
    };
    (page, next)
}

/// The records a listing shows from `offset` on when each page of `limit`
/// records is followed by the next while a next cursor is given.
pub open spec fn listing_from(s: Seq<RecordView>, limit: int, offset: int) -> Seq<RecordView>
    decreases s.len() - offset,
{
    if 0 < limit && 0 <= offset && offset + limit < s.len() {
        page_of(s, offset, limit) + listing_from(s, limit, offset + limit)
    } else {
        page_of(s, offset, limit)
    }
}

proof fn lemma_listing_from(s: Seq<RecordView>, limit: int, offset: int)
    requires
        0 < limit,
        0 <= offset <= s.len(),
    ensures
        listing_from(s, limit, offset) == s.subrange(offset, s.len() as int),
    decreases s.len() - offset,
{
    if offset + limit < s.len() {
        lemma_listing_from(s, limit, offset + limit);
        assert(page_of(s, offset, limit) + s.subrange(offset + limit, s.len() as int) =~= s.subrange(
            offset,
            s.len() as int,
        ));
    } else if offset == s.len() {
        assert(s.subrange(offset, s.len() as int) =~= Seq::<RecordView>::empty());
    }
}

/// Listing page by page, from the first page and following each next
/// cursor until none is given, shows every matching record exactly once,
/// newest first: the pages put together are all the records ordered newest
/// first. Each page holds `limit` records but the last, which holds the rest
/// (none when there are no records), and a page has a next cursor exactly
/// when records remain after it.
pub proof fn law_listing_shows_all_newest_first(s: Seq<RecordView>, limit: int, offset: int)
    requires
        0 < limit,
        0 <= offset,
    ensures
        listing_from(newest_first(s), limit, 0) == newest_first(s),
        listing_from(newest_first(s), limit, 0).to_multiset() == s.to_multiset(),
        is_newest_first(listing_from(newest_first(s), limit, 0)),
        page_of(newest_first(s), offset, limit).len() == if offset >= s.len() {
            0
        } else if offset + limit <= s.len() {
            limit
        } else {
            s.len() - offset
        },
{
    lemma_newest_first(s);
    let t = newest_first(s);
    lemma_listing_from(t, limit, 0);
    assert(t.subrange(0, t.len() as int) =~= t);
}

/// What a request to forget deletes: one memory by id, or the memories that
/// a filter selects.
#[derive(Debug)]
pub enum ForgetTarget {
    ById(u128),
    ByFilter(ForgetFilter),
}

/// Decides what a request to forget deletes: exactly one of an id and a
/// filter must be given.
pub fn plan_forget(id: Option<u128>, filter: Option<ForgetFilter>) -> (r: Result<
    ForgetTarget,
    MemoriError,
>)
    ensures
        match (id, filter) {
            (None, None) => r is Err && is_invalid_input(r->Err_0, "must supply id or filter"@),
            (Some(_), Some(_)) => r is Err && is_invalid_input(
                r->Err_0,
                "supply id or filter, not both"@,
            ),
            (Some(i), None) => r matches Ok(ForgetTarget::ById(j)) && j == i,
            (None, Some(f)) => r matches Ok(ForgetTarget::ByFilter(g)) && g == f,
        },
{
    match (id, filter) {
        (None, None) => Err(invalid_input("must supply id or filter")),
        (Some(_), Some(_)) => Err(invalid_input("supply id or filter, not both")),
        (Some(i), None) => Ok(ForgetTarget::ById(i)),
        (None, Some(f)) => Ok(ForgetTarget::ByFilter(f)),
    }
}

} // verus!
