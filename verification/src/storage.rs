//! What the library decides about stored rows: the SQL filters handed to the
//! vector store, the columns a record is written as and read back from, the
//! newest-first ordering of a listing, and the count of deleted rows.

use vstd::prelude::*;


use crate::datetime::{format_iso_seconds, iso_seconds, micros_in_range, timestamp_is_valid};
use crate::error::{invalid_input, is_invalid_input, MemoriError};
use crate::ids::{parse_uuid, uuid_parsed, uuid_string, uuid_text};
use crate::model::{
    clone_opt, clone_string, opt_view, strings_view, ForgetFilter, MemoryRecord, RecordView,
};
use crate::text::{escape_quotes, push_all, push_char, push_escaped};

verus! {

/// The JSON text that `serde_json::to_string` writes for one string: the
/// string in double quotes, with quotes, backslashes and control characters
/// escaped as the stored tag list escapes them.
pub uninterp spec fn json_string(t: Seq<char>) -> Seq<char>;

/// `serde_json::to_string` on a string. The text is named `json_string`.
/// The call succeeds: serialising a string does not fail, and writing into a
/// `Vec<u8>` never fails.
#[verifier::external_body]
fn json_of_string(t: &str) -> (r: Result<String, String>)
    ensures
        r is Ok,
        r->Ok_0@ == json_string(t@),
{
    match serde_json::to_string(t) {
        Ok(s) => Ok(s),
        Err(e) => Err(e.to_string()),
    }
}

/// The characters of `s` written so that a `LIKE` pattern with the escape
/// character `\` inside a single-quoted SQL literal matches them literally:
/// `%`, `_` and `\` get a backslash, a quote is doubled.
pub open spec fn like_literal(s: Seq<char>) -> Seq<char>
    decreases s.len(),
{
    if s.len() == 0 {
        s
    } else {
        let c = s.last();
        let rest = like_literal(s.drop_last());
        if c == '%' || c == '_' || c == '\\' {
            rest + seq!['\\', c]
        } else if c == '\'' {
            rest + seq!['\'', '\'']
        } else {
            rest.push(c)
        }
    }
}

/// Appends `like_literal(t)` to `s`.
fn push_like_literal(s: &mut String, t: &str)
    ensures
        final(s)@ == old(s)@ + like_literal(t@),
{
    let v = crate::text::chars_of(t);
    let mut i: usize = 0;
    while i < v.len()
        invariant
            i <= v.len(),
            v@ == t@,
            s@ == old(s)@ + like_literal(v@.take(i as int)),
        decreases v.len() - i,
    {
        let c = v[i];
        proof {
            assert(v@.take(i + 1).drop_last() =~= v@.take(i as int));
            assert(v@.take(i + 1).last() == c);
        }
        if c == '%' || c == '_' || c == '\\' {
            push_char(s, '\\');
            push_char(s, c);
        } else if c == '\'' {
            push_char(s, '\'');
            push_char(s, '\'');
        } else {
            push_char(s, c);
        }
        i = i + 1;
        proof {
            assert(s@ =~= old(s)@ + like_literal(v@.take(i as int)));
        }
    }
    proof {
        assert(v@.take(v@.len() as int) =~= v@);
    }
}

/// The filter clause that keeps rows carrying the tag `t`: the stored JSON
/// list of tags contains the JSON text of `t`, matched literally (wildcards,
/// backslashes and quotes in the tag stand for themselves).
pub open spec fn tag_clause(t: Seq<char>) -> Seq<char> {
    "tags LIKE '%"@ + like_literal(json_string(t)) + "%' ESCAPE '\\'"@
}

/// The filter clause that keeps rows from the source `s`.
pub open spec fn source_clause(s: Seq<char>) -> Seq<char> {
    "source = '"@ + escape_quotes(s) + "'"@
}

/// The filter clause that keeps rows created before the time `m`.
pub open spec fn older_clause(m: int) -> Seq<char> {
    "created_at < TIMESTAMP '"@ + iso_seconds(m) + "'"@
}

/// The clauses joined with ` AND `.
pub open spec fn join_and(parts: Seq<Seq<char>>) -> Seq<char>
    decreases parts.len(),
{
    if parts.len() == 0 {
        seq![]
    } else if parts.len() == 1 {
        parts[0]
    } else {
        join_and(parts.drop_last()) + " AND "@ + parts.last()
    }
}

/// One clause per tag, then one for the source if there is one.
pub open spec fn filter_parts(tags: Seq<Seq<char>>, source: Option<Seq<char>>) -> Seq<Seq<char>> {
    let last = match source {
        Some(s) => seq![source_clause(s)],
        None => Seq::<Seq<char>>::empty(),
    };
    tags.map_values(|t: Seq<char>| tag_clause(t)) + last
}

/// The clauses of a forget filter: its time first, then tags and source.
pub open spec fn forget_parts(older_than: Option<i64>, tags: Seq<Seq<char>>, source: Option<Seq<char>>) -> Seq<Seq<char>> {
    let first = match older_than {
        Some(m) => seq![older_clause(m as int)],
        None => Seq::<Seq<char>>::empty(),
    };
    first + filter_parts(tags, source)
}

/// Joins clauses with ` AND `.
fn join_clauses(parts: &Vec<String>) -> (s: String)
    ensures
        s@ == join_and(strings_view(parts@)),
{
    let ghost pv = strings_view(parts@);
    let mut s = String::new();
    let mut i: usize = 0;
    while i < parts.len()
        invariant
            i <= parts.len(),
            pv == strings_view(parts@),
            s@ == join_and(pv.take(i as int)),
        decreases parts.len() - i,
    {
        proof {
            assert(pv.take(i + 1).drop_last() =~= pv.take(i as int));
            assert(pv.take(i + 1).last() == parts@[i as int]@);
        }
        if i > 0 {
            push_all(&mut s, " AND ");
        }
        push_all(&mut s, parts[i].as_str());
        proof {
            if i == 0 {
                assert(s@ =~= join_and(pv.take(1)));
            }
        }
        i = i + 1;
    }
    proof {
        assert(pv.take(parts@.len() as int) =~= pv);
    }
    s
}

/// Appends one clause per tag and one for the source, if any.
fn push_filter_parts(parts: &mut Vec<String>, tags: &[String], source: Option<&str>)
    ensures
        strings_view(final(parts)@) == strings_view(old(parts)@) + filter_parts(
            strings_view(tags@),
            match source {
                Some(s) => Some(s@),
                None => None,
            },
        ),
{
    let ghost start = strings_view(parts@);
    let ghost tv = strings_view(tags@);
    let mut i: usize = 0;
    while i < tags.len()
        invariant
            i <= tags.len(),
            tv == strings_view(tags@),
            strings_view(parts@) == start + tv.take(i as int).map_values(|t: Seq<char>| tag_clause(t)),
        decreases tags.len() - i,
    {
        let j = match json_of_string(tags[i].as_str()) {
            Ok(j) => j,
            Err(m) => m,
        };
        let mut c = "tags LIKE '%".to_owned();
        push_like_literal(&mut c, j.as_str());
        push_all(&mut c, "%' ESCAPE '\\'");
        let ghost before = parts@;
        parts.push(c);
        proof {
            assert(strings_view(parts@) =~= strings_view(before).push(c@));
            assert(tv.take(i + 1).map_values(|t: Seq<char>| tag_clause(t)) =~= tv.take(
                i as int,
            ).map_values(|t: Seq<char>| tag_clause(t)).push(tag_clause(tv[i as int])));
        }
        i = i + 1;
    }
    proof {
        assert(tv.take(tags@.len() as int) =~= tv);
    }
    if let Some(src) = source {
        let mut c = "source = '".to_owned();
        push_escaped(&mut c, src);
        push_all(&mut c, "'");
        let ghost before = parts@;
        parts.push(c);
        proof {
            assert(strings_view(parts@) =~= strings_view(before).push(c@));
        }
    }
    proof {
        let sv = match source {
            Some(s) => Some(s@),
            None => None,
        };
        assert(strings_view(parts@) =~= start + filter_parts(tv, sv));
    }
}

/// The filter that narrows a search or a listing to rows carrying every tag
/// of `tag_filter` and, if given, coming from `source_filter`; `None` when
/// there is nothing to narrow by.
pub fn build_filter(tag_filter: &[String], source_filter: Option<&str>) -> (r: Option<String>)
    ensures
        ({
            let parts = filter_parts(
                strings_view(tag_filter@),
                match source_filter {
                    Some(s) => Some(s@),
                    None => None,
                },
            );
            &&& r is None <==> parts.len() == 0
            &&& r is Some ==> r->Some_0@ == join_and(parts)
        }),
{
    let mut parts: Vec<String> = Vec::new();
    push_filter_parts(&mut parts, tag_filter, source_filter);
    proof {
        assert(strings_view(parts@).len() == parts@.len());
    }
    if parts.len() == 0 {
        None
    } else {
        Some(join_clauses(&parts))
    }
}

/// The message for a forget filter with no criterion.
pub open spec fn empty_filter_text() -> Seq<char> {
    "forget filter is empty — supply at least one criterion"@
}

/// The predicate that selects the rows a forget filter deletes: every given
/// criterion must hold. A filter with no criterion is refused.
pub fn forget_predicate(filter: &ForgetFilter) -> (r: Result<String, MemoriError>)
    requires
        filter.older_than is Some ==> micros_in_range(filter.older_than->Some_0 as int),
    ensures
        ({
            let parts = forget_parts(
                filter.older_than,
                strings_view(filter.tags@),
                opt_view(filter.source),
            );
            match r {
                Ok(p) => parts.len() > 0 && p@ == join_and(parts),
                Err(e) => parts.len() == 0 && is_invalid_input(e, empty_filter_text()),
            }
        }),
{
    let mut parts: Vec<String> = Vec::new();
    if let Some(m) = filter.older_than {
        let mut c = "created_at < TIMESTAMP '".to_owned();
        let t = format_iso_seconds(m);
        push_all(&mut c, t.as_str());
        push_all(&mut c, "'");
        parts.push(c);
        proof {
            assert(strings_view(parts@) =~= seq![older_clause(m as int)]);
        }
    }
    let src: Option<&str> = match &filter.source {
        Some(s) => Some(s.as_str()),
        None => None,
    };
    proof {
        let sv = match src {
            Some(s) => Some(s@),
            None => None,
        };
        assert(sv == opt_view(filter.source));
    }
    push_filter_parts(&mut parts, filter.tags.as_slice(), src);
    proof {
        assert(strings_view(parts@) =~= forget_parts(
            filter.older_than,
            strings_view(filter.tags@),
            opt_view(filter.source),
        ));
        assert(strings_view(parts@).len() == parts@.len());
    }
    if parts.len() == 0 {
        return Err(invalid_input("forget filter is empty — supply at least one criterion"));
    }
    Ok(join_clauses(&parts))
}

/// The predicate that selects the row with the id `id`.
pub open spec fn id_predicate_text(id: u128) -> Seq<char> {
    "id = '"@ + uuid_text(id) + "'"@
}

/// The predicate that selects the row of one memory.
pub fn id_predicate(id: u128) -> (p: String)
    ensures
        p@ == id_predicate_text(id),
{
    let mut p = "id = '".to_owned();
    let t = uuid_string(id);
    push_all(&mut p, t.as_str());
    push_all(&mut p, "'");
    p
}

/// How many rows a delete removed, from the row counts before and after it
/// (zero if the count grew meanwhile).
pub fn deleted_count(before: usize, after: usize) -> (n: u64)
    ensures
        n as int == if before >= after {
            before - after
        } else {
            0
        },
{
    if before >= after {
        (before - after) as u64
    } else {
        0
    }
}


/// The JSON text that `serde_json::to_string` writes for a list of strings.
pub uninterp spec fn tags_json(tags: Seq<Seq<char>>) -> Seq<char>;

/// The list of strings that `serde_json::from_str` reads from a text; `None`
/// when the text is not a JSON array of strings.
pub uninterp spec fn tags_from_json(s: Seq<char>) -> Option<Seq<Seq<char>>>;

/// `serde_json::to_string` on a list of strings. The text is named
/// `tags_json`. The call succeeds: the crate serialises a string without
/// error and writes into a `Vec<u8>`, which never fails a write.
#[verifier::external_body]
fn json_of_tags(tags: &Vec<String>) -> (r: Result<String, String>)
    ensures
        r is Ok,
        r->Ok_0@ == tags_json(strings_view(tags@)),
{
    match serde_json::to_string(tags) {
        Ok(s) => Ok(s),
        Err(e) => Err(e.to_string()),
    }
}

/// `serde_json::from_str::<Vec<String>>`. The result is named
/// `tags_from_json`; besides, it reads back every text that `to_string`
/// wrote for a list of strings.
#[verifier::external_body]
fn tags_of_json(s: &str) -> (r: Option<Vec<String>>)
    ensures
        r is Some <==> tags_from_json(s@) is Some,
        r is Some ==> strings_view(r->Some_0@) == tags_from_json(s@)->Some_0,
        forall|t: Seq<Seq<char>>| s@ == tags_json(t) ==> r is Some && strings_view(r->Some_0@) == t,
{
    match serde_json::from_str::<Vec<String>>(s) {
        Ok(v) => Some(v),
        Err(_) => None,
    }
}

/// The columns a memory is stored as: its id as text, its content, its time
/// in microseconds, its tags as a JSON list and its source.
#[derive(Debug)]
pub struct StoredRow {
    pub id: String,
    pub content: String,
    pub created_at: i64,
    pub tags: String,
    pub source: Option<String>,
}

/// The columns of a stored row, as plain values.
pub struct RowView {
    pub id: Seq<char>,
    pub content: Seq<char>,
    pub created_at: i64,
    pub tags: Seq<char>,
    pub source: Option<Seq<char>>,
}

impl View for StoredRow {
    type V = RowView;

    open spec fn view(&self) -> RowView {
        RowView {
            id: self.id@,
            content: self.content@,
            created_at: self.created_at,
            tags: self.tags@,
            source: opt_view(self.source),
        }
    }
}

/// The row that stores the record `r`.
pub open spec fn row_encodes(r: RecordView, row: RowView) -> bool {
    &&& row.id == uuid_text(r.id)
    &&& row.content == r.content
    &&& row.created_at == r.created_at
    &&& row.tags == tags_json(r.tags)
    &&& row.source == r.source
}

/// The record read back from a row: an id that does not parse reads as the
/// nil UUID, a time out of range as the epoch, tags that are not a JSON list
/// of strings as no tags.
pub open spec fn row_decodes(row: RowView, r: RecordView) -> bool {
    &&& r.id == match uuid_parsed(row.id) {
        Some(u) => u,
        None => 0,
    }
    &&& r.content == row.content
    &&& r.created_at == if micros_in_range(row.created_at as int) {
        row.created_at
    } else {
        0
    }
    &&& r.tags == match tags_from_json(row.tags) {
        Some(t) => t,
        None => Seq::<Seq<char>>::empty(),
    }
    &&& r.source == row.source
}

/// The row that stores `r`.
pub fn row_from_record(r: &MemoryRecord) -> (row: StoredRow)
    ensures
        row_encodes(r@, row@),
{
    let tags = match json_of_tags(&r.tags) {
        Ok(t) => t,
        Err(m) => m,
    };
    StoredRow {
        id: uuid_string(r.id),
        content: clone_string(&r.content),
        created_at: r.created_at,
        tags,
        source: clone_opt(&r.source),
    }
}

/// The record that a stored row reads back as. A row written by
/// `row_from_record` for a record with a representable time reads back as
/// that very record.
pub fn record_from_row(row: &StoredRow) -> (r: MemoryRecord)
    ensures
        row_decodes(row@, r@),
        forall|orig: RecordView|
            row_encodes(orig, row@) && micros_in_range(orig.created_at as int) ==> r@ == orig,
{
    let id = match parse_uuid(row.id.as_str()) {
        Some(u) => u,
        None => 0,
    };
    let created_at = if timestamp_is_valid(row.created_at) {
        row.created_at
    } else {
        0
    };
    let tags = match tags_of_json(row.tags.as_str()) {
        Some(t) => t,
        None => Vec::new(),
    };
    let r = MemoryRecord {
        id,
        content: clone_string(&row.content),
        created_at,
        tags,
        source: clone_opt(&row.source),
    };
    proof {
        if tags_from_json(row.tags@) is None {
            assert(strings_view(r.tags@) =~= Seq::<Seq<char>>::empty());
        }
        assert forall|orig: RecordView|
            row_encodes(orig, row@) && micros_in_range(orig.created_at as int) implies r@ == orig by {
            assert(r@.tags == orig.tags);
        }
    }
    r
}


/// The views of a sequence of records.
pub open spec fn records_view(v: Seq<MemoryRecord>) -> Seq<RecordView> {
    v.map_values(|r: MemoryRecord| r@)
}

/// Where `x` goes among `t` when it comes before them in the input: after
/// every leading record that is strictly newer.
pub open spec fn place_index(x: RecordView, t: Seq<RecordView>) -> int
    decreases t.len(),
{
    if t.len() > 0 && t[0].created_at > x.created_at {
        1 + place_index(x, t.drop_first())
    } else {
        0
    }
}

/// The records ordered newest first; records with the same time keep their
/// input order (a stable sort by descending `created_at`).
pub open spec fn newest_first(s: Seq<RecordView>) -> Seq<RecordView>
    decreases s.len(),
{
    if s.len() == 0 {
        s
    } else {
        let rest = newest_first(s.drop_first());
        rest.insert(place_index(s[0], rest), s[0])
    }
}

/// Whether no record is older than one after it.
pub open spec fn is_newest_first(s: Seq<RecordView>) -> bool {
    forall|i: int, j: int| 0 <= i < j < s.len() ==> s[i].created_at >= s[j].created_at
}

/// At most `limit` records of `s`, starting at `offset`.
pub open spec fn page_of(s: Seq<RecordView>, offset: int, limit: int) -> Seq<RecordView> {
    if offset >= s.len() {
        Seq::empty()
    } else if offset + limit < s.len() {
        s.subrange(offset, offset + limit)
    } else {
        s.subrange(offset, s.len() as int)
    }
}

proof fn lemma_place_index(x: RecordView, t: Seq<RecordView>)
    ensures
        0 <= place_index(x, t) <= t.len(),
        forall|j: int| 0 <= j < place_index(x, t) ==> t[j].created_at > x.created_at,
        place_index(x, t) < t.len() ==> t[place_index(x, t)].created_at <= x.created_at,
    decreases t.len(),
{
    if t.len() > 0 && t[0].created_at > x.created_at {
        lemma_place_index(x, t.drop_first());
        assert forall|j: int| 0 <= j < place_index(x, t) implies t[j].created_at > x.created_at by {
            if j > 0 {
                assert(t[j] == t.drop_first()[j - 1]);
            }
        }
    }
}

/// Ordering newest first keeps every record (the result is a permutation of
/// the input) and leaves no record before a newer one.
pub proof fn lemma_newest_first(s: Seq<RecordView>)
    ensures
        is_newest_first(newest_first(s)),
        newest_first(s).to_multiset() == s.to_multiset(),
        newest_first(s).len() == s.len(),
    decreases s.len(),
{
    if s.len() > 0 {
        let rest = newest_first(s.drop_first());
        lemma_newest_first(s.drop_first());
        let x = s[0];
        let k = place_index(x, rest);
        lemma_place_index(x, rest);
        let out = rest.insert(k, x);
        assert(out == newest_first(s));
        assert forall|i: int, j: int| 0 <= i < j < out.len() implies out[i].created_at
            >= out[j].created_at by {
            if j < k {
                assert(out[i] == rest[i] && out[j] == rest[j]);
            } else if j == k {
                assert(out[i] == rest[i]);
            } else if i < k {
                assert(out[i] == rest[i] && out[j] == rest[j - 1]);
            } else if i == k {
                assert(out[j] == rest[j - 1]);
                assert(rest[k].created_at <= x.created_at);
                assert(rest[k].created_at >= rest[j - 1].created_at || k == j - 1);
            } else {
                assert(out[i] == rest[i - 1] && out[j] == rest[j - 1]);
            }
        }
        vstd::seq_lib::to_multiset_insert(rest, k, x);
        vstd::seq_lib::to_multiset_insert(s.drop_first(), 0, x);
        assert(s.drop_first().insert(0, x) =~= s);
    }
}

/// A page of a listing holds at most `limit` records, newest first.
pub proof fn law_page_newest_first(s: Seq<RecordView>, offset: int, limit: int)
    requires
        0 <= offset,
        0 <= limit,
    ensures
        page_of(newest_first(s), offset, limit).len() <= limit,
        is_newest_first(page_of(newest_first(s), offset, limit)),
{
    lemma_newest_first(s);
    let t = newest_first(s);
    let p = page_of(t, offset, limit);
    assert forall|i: int, j: int| 0 <= i < j < p.len() implies p[i].created_at >= p[j].created_at by {
        assert(p[i] == t[offset + i] && p[j] == t[offset + j]);
    }
}

/// Orders records newest first, keeping the input order among records with
/// the same time.
pub fn order_newest_first(records: Vec<MemoryRecord>) -> (out: Vec<MemoryRecord>)
    ensures
        records_view(out@) == newest_first(records_view(records@)),
{
    let ghost orig = records_view(records@);
    let mut input = records;
    let mut out: Vec<MemoryRecord> = Vec::new();
    proof {
        assert(orig.skip(orig.len() as int) =~= Seq::<RecordView>::empty());
        assert(records_view(out@) =~= Seq::<RecordView>::empty());
    }
    while input.len() > 0
        invariant
            input.len() <= orig.len(),
            records_view(input@) == orig.take(input.len() as int),
            records_view(out@) == newest_first(orig.skip(input.len() as int)),
        decreases input.len(),
    {
        let ghost k = input.len() as int;
        let ghost before_in = input@;
        let x = input.pop().unwrap();
        proof {
            assert(input@ == before_in.drop_last());
            assert(x@ == records_view(before_in)[k - 1]);
            assert(records_view(input@) =~= orig.take(k - 1));
            assert(orig.skip(k - 1).drop_first() =~= orig.skip(k));
            assert(orig.skip(k - 1)[0] == orig[k - 1]);
        }
        let ghost t = records_view(out@);
        proof {
            assert(t.skip(0) =~= t);
        }
        let mut i: usize = 0;
        while i < out.len() && out[i].created_at > x.created_at
            invariant
                i <= out.len(),
                t == records_view(out@),
                place_index(x@, t) == i + place_index(x@, t.skip(i as int)),
            decreases out.len() - i,
        {
            proof {
                assert(t.skip(i as int)[0] == t[i as int]);
                assert(t.skip(i as int).drop_first() =~= t.skip(i + 1));
            }
            i = i + 1;
        }
        proof {
            if i < out.len() {
                assert(t.skip(i as int)[0] == t[i as int]);
            }
        }
        let ghost before_out = out@;
        out.insert(i, x);
        proof {
            assert(records_view(out@) =~= t.insert(i as int, x@));
        }
    }
    proof {
        assert(orig.skip(0) =~= orig);
    }
    out
}

/// One page of a listing: the records ordered newest first, then at most
/// `limit` of them starting at `offset`.
pub fn scan_page(records: Vec<MemoryRecord>, limit: usize, offset: usize) -> (page: Vec<MemoryRecord>)
    ensures
        records_view(page@) == page_of(
            newest_first(records_view(records@)),
            offset as int,
            limit as int,
        ),
{
    let ghost sorted_view = newest_first(records_view(records@));
    let mut sorted = order_newest_first(records);
    if offset >= sorted.len() {
        proof {
            assert(records_view(Seq::<MemoryRecord>::empty()) =~= Seq::<RecordView>::empty());
        }
        return Vec::new();
    }
    let ghost before = sorted@;
    let mut rest = sorted.split_off(offset);
    proof {
        assert(rest@ == before.subrange(offset as int, before.len() as int));
    }
    if limit < rest.len() {
        rest.truncate(limit);
    }
    proof {
        assert(records_view(rest@) =~= page_of(sorted_view, offset as int, limit as int));
    }
    rest
}

} // verus!
