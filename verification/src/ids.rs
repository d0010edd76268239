//! Memory ids: UUIDs held as their 128-bit value, their text form, fresh
//! random ids and lookup by a prefix of the text form.

use vstd::prelude::*;

use uuid::Uuid;

use crate::model::MemoryRecord;
use crate::text::chars_of;

verus! {

/// Lowercase hexadecimal digit for `d < 16`.
pub open spec fn hex_digit(d: nat) -> char {
    if d < 10 {
        (('0' as nat) + d) as char
    } else {
        (('a' as nat) + (d - 10)) as char
    }
}

/// The `k`-th hexadecimal digit (from the most significant) of `u`.
pub open spec fn nibble(u: u128, k: int) -> nat {
    ((u >> ((124 - 4 * k) as u128)) & 15u128) as nat
}

/// Which hexadecimal digit stands at position `p` of the hyphenated form.
pub open spec fn hex_index(p: int) -> int {
    if p < 8 {
        p
    } else if p < 13 {
        p - 1
    } else if p < 18 {
        p - 2
    } else if p < 23 {
        p - 3
    } else {
        p - 4
    }
}

/// The hyphenated lowercase form of a UUID (`8-4-4-4-12` hex digits), the
/// form in which UUIDs are displayed.
pub open spec fn uuid_text(u: u128) -> Seq<char> {
    Seq::new(
        36,
        |p: int|
            if p == 8 || p == 13 || p == 18 || p == 23 {
                '-'
            } else {
                hex_digit(nibble(u, hex_index(p)))
            },
    )
}

/// What `Uuid::parse_str` reads from a text: `None` when it refuses it.
pub uninterp spec fn uuid_parsed(s: Seq<char>) -> Option<u128>;

/// `Uuid::to_string`: the hyphenated lowercase form of the UUID whose
/// 128-bit big-endian value is `id`.
#[verifier::external_body]
pub(crate) fn uuid_string(id: u128) -> (s: String)
    ensures
        s@ == uuid_text(id),
{
    Uuid::from_u128(id).to_string()
}

/// `str::parse::<Uuid>` (that is `Uuid::parse_str`), giving the 128-bit
/// value. Its result is named `uuid_parsed`; besides, it reads back the
/// hyphenated lowercase form that `to_string` writes. Which other forms it
/// accepts (simple, braced, URN, upper case) is not stated.
#[verifier::external_body]
pub(crate) fn parse_uuid(s: &str) -> (r: Option<u128>)
    ensures
        r == uuid_parsed(s@),
        forall|u: u128| s@ == uuid_text(u) ==> r == Some(u),
{
    match s.parse::<Uuid>() {
        Ok(u) => Some(u.as_u128()),
        Err(_) => None,
    }
}

/// A version-4 (random) UUID: the version digit is 4 and the variant bits
/// are `10`.
pub open spec fn is_random_uuid(u: u128) -> bool {
    &&& (u >> 76u128) & 15u128 == 4
    &&& (u >> 62u128) & 3u128 == 2
}

/// `Uuid::new_v4`: a fresh random UUID. Which value comes out is left open;
/// the crate masks in the version and variant bits, which is all that is
/// stated.
#[verifier::external_body]
pub(crate) fn new_random_id() -> (u: u128)
    ensures
        is_random_uuid(u),
{
    Uuid::new_v4().as_u128()
}

/// A random UUID is never the nil UUID.
pub proof fn lemma_random_uuid_not_nil(u: u128)
    requires
        is_random_uuid(u),
    ensures
        u != 0,
{
    assert((u >> 76u128) & 15u128 == 4 ==> u != 0) by (bit_vector);
}

/// What `str::to_lowercase` gives for a text.
pub uninterp spec fn lowercase(s: Seq<char>) -> Seq<char>;

/// Whether `c` is an ASCII digit, an ASCII lowercase letter or `-`:
/// characters that lowercasing leaves as they are.
pub open spec fn is_lower_plain(c: char) -> bool {
    ('0' <= c && c <= '9') || ('a' <= c && c <= 'z') || c == '-'
}

/// `str::to_lowercase` from std: the Unicode lowercase mapping of `s`. Its
/// result is named `lowercase`; besides, a text made only of ASCII digits,
/// ASCII lowercase letters and `-` (the empty text among them) comes back
/// unchanged, since each of these characters is its own lowercase.
#[verifier::external_body]
pub(crate) fn to_lowercase(s: &str) -> (r: String)
    ensures
        r@ == lowercase(s@),
        (forall|i: int| 0 <= i < s@.len() ==> is_lower_plain(#[trigger] s@[i])) ==> r@ == s@,
{
    s.to_lowercase()
}

/// Whether the text form of `id` starts with `p`.
pub open spec fn id_has_prefix(id: u128, p: Seq<char>) -> bool {
    p.len() <= 36 && uuid_text(id).take(p.len() as int) == p
}

/// How many of `ids` start with `p`.
pub open spec fn count_prefix_matches(ids: Seq<u128>, p: Seq<char>) -> nat
    decreases ids.len(),
{
    if ids.len() == 0 {
        0
    } else {
        count_prefix_matches(ids.drop_last(), p) + if id_has_prefix(ids.last(), p) {
            1nat
        } else {
            0nat
        }
    }
}

/// The ids of a sequence of records.
pub open spec fn record_ids(records: Seq<MemoryRecord>) -> Seq<u128> {
    records.map_values(|r: MemoryRecord| r.id)
}

/// The outcome of looking a record up by a prefix of its id.
#[derive(Debug, Clone, Copy)]
pub enum PrefixLookup {
    /// No id starts with the prefix.
    NoMatch,
    /// This many ids (two or more) start with the prefix.
    Ambiguous(usize),
    /// Exactly one id starts with the prefix: the record at this index.
    Unique(usize),
}

/// Whether the text form of `id` starts with the characters of `p`.
pub fn starts_with_id(id: u128, p: &Vec<char>) -> (b: bool)
    ensures
        b == id_has_prefix(id, p@),
{
    let t = chars_of(uuid_string(id).as_str());
    if p.len() > t.len() {
        return false;
    }
    let mut i: usize = 0;
    while i < p.len()
        invariant
            i <= p.len() <= t.len(),
            t@ == uuid_text(id),
            t@.take(i as int) == p@.take(i as int),
        decreases p.len() - i,
    {
        if t[i] != p[i] {
            proof {
                assert(uuid_text(id).take(p@.len() as int)[i as int] != p@[i as int]);
            }
            return false;
        }
        i = i + 1;
        proof {
            assert(t@.take(i as int) =~= p@.take(i as int));
        }
    }
    proof {
        assert(p@.take(p@.len() as int) =~= p@);
    }
    true
}

/// Finds the one record whose id starts with `id_prefix` (compared in lower
/// case), or says that none or several do. A prefix already in lower case
/// (digits, `a`-`z`, `-`) is compared as it is.
pub fn lookup_prefix(records: &Vec<MemoryRecord>, id_prefix: &str) -> (r: PrefixLookup)
    ensures
        (forall|i: int| 0 <= i < id_prefix@.len() ==> is_lower_plain(#[trigger] id_prefix@[i]))
            ==> lowercase(id_prefix@) == id_prefix@,
        ({
            let p = lowercase(id_prefix@);
            let n = count_prefix_matches(record_ids(records@), p);
            match r {
                PrefixLookup::NoMatch => n == 0,
                PrefixLookup::Ambiguous(k) => k == n && n >= 2,
                PrefixLookup::Unique(i) => n == 1 && i < records@.len() && id_has_prefix(
                    records@[i as int].id,
                    p,
                ),
            }
        }),
{
    let lower = to_lowercase(id_prefix);
    let p = chars_of(lower.as_str());
    let ghost ids = record_ids(records@);
    let mut count: usize = 0;
    let mut first: usize = 0;
    let mut i: usize = 0;
    while i < records.len()
        invariant
            i <= records.len(),
            p@ == lowercase(id_prefix@),
            ids == record_ids(records@),
            count == count_prefix_matches(ids.take(i as int), p@),
            count <= i,
            count > 0 ==> first < i && id_has_prefix(records@[first as int].id, p@),
        decreases records.len() - i,
    {
        proof {
            assert(ids.take(i + 1).drop_last() =~= ids.take(i as int));
            assert(ids.take(i + 1).last() == records@[i as int].id);
        }
        if starts_with_id(records[i].id, &p) {
            if count == 0 {
                first = i;
            }
            count = count + 1;
        }
        i = i + 1;
    }
    proof {
        assert(ids.take(records@.len() as int) =~= ids);
    }
    if count == 0 {
        PrefixLookup::NoMatch
    } else if count > 1 {
        PrefixLookup::Ambiguous(count)
    } else {
        PrefixLookup::Unique(first)
    }
}

} // verus!
