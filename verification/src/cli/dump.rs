//! Laying memories out for the terminal: word wrapping and truncation, the
//! Markdown export, and the rows and column widths of the table.

use vstd::prelude::*;

use crate::cli::doctor::contains_text;
use crate::datetime::{
    created_minutes, created_seconds, format_created, format_created_seconds, rfc3339_micros,
};
use crate::model::{opt_view, strings_view};
use crate::text::{
    byte_prefix, byte_prefix_of, chars_of, is_white_space, is_whitespace, join_with,
    lemma_encode_utf8_concat, on_char_boundary, pad_right, padded, push_all, push_char,
    string_of, utf8_byte_len, utf8_len,
};

verus! {

/// The pieces of `s` between `'\n'` characters, as `str::split('\n')` gives
/// them (`k` newlines give `k + 1` pieces, some of them maybe empty).
pub open spec fn split_lines(s: Seq<char>) -> Seq<Seq<char>>
    decreases s.len(),
{
    if s.len() == 0 {
        seq![Seq::<char>::empty()]
    } else if s.last() == '\n' {
        split_lines(s.drop_last()).push(Seq::<char>::empty())
    } else {
        let p = split_lines(s.drop_last());
        p.update(p.len() - 1, p.last().push(s.last()))
    }
}

/// The maximal runs of characters that are not white space, in order, as
/// `str::split_whitespace` gives them.
pub open spec fn words(s: Seq<char>) -> Seq<Seq<char>>
    decreases s.len(),
{
    if s.len() == 0 {
        seq![]
    } else if is_white_space(s.last()) {
        words(s.drop_last())
    } else if s.len() == 1 || is_white_space(s.drop_last().last()) {
        words(s.drop_last()).push(seq![s.last()])
    } else {
        let w = words(s.drop_last());
        w.update(w.len() - 1, w.last().push(s.last()))
    }
}

/// Greedy filling of lines with words: the finished lines and the line
/// being filled. A word joins the current line, after one space, when the
/// line's UTF-8 byte length grows to at most `max`; otherwise it starts a
/// new line.
pub open spec fn fill_lines(ws: Seq<Seq<char>>, max: nat) -> (Seq<Seq<char>>, Seq<char>)
    decreases ws.len(),
{
    if ws.len() == 0 {
        (seq![], seq![])
    } else {
        let (lines, cur) = fill_lines(ws.drop_last(), max);
        let w = ws.last();
        if cur.len() == 0 {
            (lines, w)
        } else if utf8_len(cur) + 1 + utf8_len(w) <= max {
            (lines, cur + seq![' '] + w)
        } else {
            (lines.push(cur), w)
        }
    }
}

/// The lines of one paragraph: an empty paragraph is one empty line; a
/// paragraph of white space only gives no line.
pub open spec fn paragraph_lines(p: Seq<char>, max: nat) -> Seq<Seq<char>> {
    if p.len() == 0 {
        seq![Seq::<char>::empty()]
    } else {
        let (lines, cur) = fill_lines(words(p), max);
        if cur.len() == 0 {
            lines
        } else {
            lines.push(cur)
        }
    }
}

/// The lines of all paragraphs, one after the other.
pub open spec fn wrap_paragraphs(ps: Seq<Seq<char>>, max: nat) -> Seq<Seq<char>>
    decreases ps.len(),
{
    if ps.len() == 0 {
        seq![]
    } else {
        wrap_paragraphs(ps.drop_last(), max) + paragraph_lines(ps.last(), max)
    }
}

/// `text` wrapped at `max` bytes per line, paragraph by paragraph.
pub open spec fn word_wrap_spec(text: Seq<char>, max: nat) -> Seq<Seq<char>> {
    wrap_paragraphs(split_lines(text), max)
}

/// Whether `l` holds no white space.
pub open spec fn has_no_white_space(l: Seq<char>) -> bool {
    forall|i: int| 0 <= i < l.len() ==> !is_white_space(#[trigger] l[i])
}

/// A wrapped line either fits the width or is one word too long to fit.
pub open spec fn line_fits(l: Seq<char>, max: nat) -> bool {
    utf8_len(l) <= max || has_no_white_space(l)
}

proof fn lemma_words_are_words(s: Seq<char>)
    ensures
        forall|k: int|
            0 <= k < words(s).len() ==> #[trigger] words(s)[k].len() > 0 && has_no_white_space(
                words(s)[k],
            ),
        s.len() > 0 && !is_white_space(s.last()) ==> words(s).len() > 0,
    decreases s.len(),
{
    if s.len() > 0 {
        lemma_words_are_words(s.drop_last());
        let w = words(s.drop_last());
        if !is_white_space(s.last()) && !(s.len() == 1 || is_white_space(s.drop_last().last())) {
            assert(s.drop_last().len() > 0 && !is_white_space(s.drop_last().last()));
            let last = w.last().push(s.last());
            assert(has_no_white_space(last)) by {
                assert forall|i: int| 0 <= i < last.len() implies !is_white_space(#[trigger] last[i]) by {
                    if i < w.last().len() {
                        assert(last[i] == w.last()[i]);
                        assert(has_no_white_space(w[w.len() - 1]));
                    }
                }
            }
        }
        if !is_white_space(s.last()) && (s.len() == 1 || is_white_space(s.drop_last().last())) {
            assert(has_no_white_space(seq![s.last()]));
        }
    }
}

proof fn lemma_fill_lines_fit(ws: Seq<Seq<char>>, max: nat)
    requires
        forall|k: int| 0 <= k < ws.len() ==> #[trigger] ws[k].len() > 0 && has_no_white_space(ws[k]),
    ensures
        forall|k: int| 0 <= k < fill_lines(ws, max).0.len() ==> line_fits(#[trigger] fill_lines(ws, max).0[k], max),
        line_fits(fill_lines(ws, max).1, max),
    decreases ws.len(),
{
    if ws.len() > 0 {
        assert forall|k: int| 0 <= k < ws.drop_last().len() implies #[trigger] ws.drop_last()[k].len() > 0
            && has_no_white_space(ws.drop_last()[k]) by {
            assert(ws.drop_last()[k] == ws[k]);
        }
        lemma_fill_lines_fit(ws.drop_last(), max);
        assert(ws.last() == ws[ws.len() - 1]);
        let (lines, cur) = fill_lines(ws.drop_last(), max);
        if cur.len() > 0 && utf8_len(cur) + 1 + utf8_len(ws.last()) <= max {
            lemma_utf8_len_join(cur, ws.last());
        }
    } else {
        assert(has_no_white_space(Seq::<char>::empty()));
    }
}

proof fn lemma_wrap_paragraphs_fit(ps: Seq<Seq<char>>, max: nat)
    ensures
        forall|k: int| 0 <= k < wrap_paragraphs(ps, max).len() ==> line_fits(#[trigger] wrap_paragraphs(ps, max)[k], max),
    decreases ps.len(),
{
    if ps.len() > 0 {
        lemma_wrap_paragraphs_fit(ps.drop_last(), max);
        let p = ps.last();
        let done = wrap_paragraphs(ps.drop_last(), max);
        let more = paragraph_lines(p, max);
        if p.len() == 0 {
            assert(utf8_len(Seq::<char>::empty()) == 0) by {
                assert(vstd::utf8::encode_utf8(Seq::<char>::empty()) =~= Seq::<u8>::empty());
            }
        } else {
            lemma_words_are_words(p);
            lemma_fill_lines_fit(words(p), max);
        }
        assert forall|k: int| 0 <= k < more.len() implies line_fits(#[trigger] more[k], max) by {
            if p.len() > 0 {
                let (lines, cur) = fill_lines(words(p), max);
                if k < lines.len() {
                    assert(more[k] == lines[k]);
                }
            }
        }
        assert forall|k: int| 0 <= k < wrap_paragraphs(ps, max).len() implies line_fits(
            #[trigger] wrap_paragraphs(ps, max)[k],
            max,
        ) by {
            if k < done.len() {
                assert(wrap_paragraphs(ps, max)[k] == done[k]);
            } else {
                assert(wrap_paragraphs(ps, max)[k] == more[k - done.len()]);
            }
        }
    }
}

/// Every wrapped line fits in `max` bytes, except a line that is a single
/// word too long to fit (it holds no white space).
pub proof fn law_wrapped_lines_fit(text: Seq<char>, max: nat)
    ensures
        forall|k: int| 0 <= k < word_wrap_spec(text, max).len() ==> line_fits(#[trigger] word_wrap_spec(text, max)[k], max),
{
    lemma_wrap_paragraphs_fit(split_lines(text), max);
}

/// The views of a vector of character vectors.
pub open spec fn pieces_view(v: Seq<Vec<char>>) -> Seq<Seq<char>> {
    v.map_values(|w: Vec<char>| w@)
}

/// The views of a vector of strings.
pub open spec fn lines_view(v: Seq<String>) -> Seq<Seq<char>> {
    v.map_values(|w: String| w@)
}

fn split_paragraphs(v: &Vec<char>) -> (ps: Vec<Vec<char>>)
    ensures
        pieces_view(ps@) == split_lines(v@),
        ps@.len() > 0,
{
    let mut ps: Vec<Vec<char>> = Vec::new();
    ps.push(Vec::new());
    proof {
        assert(pieces_view(ps@) =~= split_lines(v@.take(0)));
    }
    let mut i: usize = 0;
    while i < v.len()
        invariant
            i <= v.len(),
            ps@.len() > 0,
            pieces_view(ps@) == split_lines(v@.take(i as int)),
        decreases v.len() - i,
    {
        let c = v[i];
        let ghost before = pieces_view(ps@);
        proof {
            assert(v@.take(i + 1).drop_last() =~= v@.take(i as int));
            assert(v@.take(i + 1).last() == c);
        }
        if c == '\n' {
            ps.push(Vec::new());
            proof {
                assert(pieces_view(ps@) =~= before.push(Seq::<char>::empty()));
            }
        } else {
            let mut last = ps.pop().unwrap();
            last.push(c);
            ps.push(last);
            proof {
                assert(pieces_view(ps@) =~= before.update(before.len() - 1, before.last().push(c)));
            }
        }
        i = i + 1;
    }
    proof {
        assert(v@.take(v@.len() as int) =~= v@);
    }
    ps
}

fn split_words(p: &Vec<char>) -> (ws: Vec<Vec<char>>)
    ensures
        pieces_view(ws@) == words(p@),
        forall|k: int| 0 <= k < ws@.len() ==> ws@[k]@.len() > 0,
{
    let mut ws: Vec<Vec<char>> = Vec::new();
    proof {
        assert(pieces_view(ws@) =~= words(p@.take(0)));
    }
    let mut i: usize = 0;
    while i < p.len()
        invariant
            i <= p.len(),
            pieces_view(ws@) == words(p@.take(i as int)),
            forall|k: int| 0 <= k < ws@.len() ==> ws@[k]@.len() > 0,
            i > 0 && !is_white_space(p@[i - 1]) ==> ws@.len() > 0,
        decreases p.len() - i,
    {
        let c = p[i];
        let ghost before = pieces_view(ws@);
        let ghost pre = p@.take(i + 1);
        proof {
            assert(pre.drop_last() =~= p@.take(i as int));
            assert(pre.last() == c);
            if i > 0 {
                assert(pre.drop_last().last() == p@[i - 1]);
            }
        }
        if is_whitespace(c) {
        } else if i == 0 || is_whitespace(p[i - 1]) {
            let mut w: Vec<char> = Vec::new();
            w.push(c);
            ws.push(w);
            proof {
                assert(pieces_view(ws@) =~= before.push(seq![c]));
            }
        } else {
            let mut last = ws.pop().unwrap();
            last.push(c);
            ws.push(last);
            proof {
                assert(pieces_view(ws@) =~= before.update(before.len() - 1, before.last().push(c)));
            }
        }
        i = i + 1;
    }
    proof {
        assert(p@.take(p@.len() as int) =~= p@);
    }
    ws
}

proof fn lemma_utf8_len_join(cur: Seq<char>, w: Seq<char>)
    ensures
        utf8_len(cur + seq![' '] + w) == utf8_len(cur) + 1 + utf8_len(w),
{
    lemma_encode_utf8_concat(cur, seq![' ']);
    lemma_encode_utf8_concat(cur + seq![' '], w);
    assert(seq![' '].drop_first() =~= Seq::<char>::empty());
    assert(vstd::utf8::encode_utf8(seq![' ']) =~= vstd::utf8::encode_scalar(' ' as u32)
        + vstd::utf8::encode_utf8(Seq::<char>::empty()));
}

fn fill_paragraph(ws: &Vec<Vec<char>>, max_width: usize, lines: &mut Vec<String>)
    requires
        forall|k: int| 0 <= k < ws@.len() ==> ws@[k]@.len() > 0,
    ensures
        ({
            let (done, cur) = fill_lines(pieces_view(ws@), max_width as nat);
            lines_view(final(lines)@) == lines_view(old(lines)@) + if cur.len() == 0 {
                done
            } else {
                done.push(cur)
            }
        }),
{
    let ghost start = lines_view(lines@);
    let ghost wv = pieces_view(ws@);
    let mut cur: Vec<char> = Vec::new();
    let mut cur_bytes: u128 = 0;
    let mut i: usize = 0;
    proof {
        assert(wv.take(0) =~= Seq::<Seq<char>>::empty());
        assert(lines_view(lines@) =~= start + fill_lines(wv.take(0), max_width as nat).0);
    }
    while i < ws.len()
        invariant
            i <= ws.len(),
            wv == pieces_view(ws@),
            forall|k: int| 0 <= k < ws@.len() ==> ws@[k]@.len() > 0,
            lines_view(lines@) == start + fill_lines(wv.take(i as int), max_width as nat).0,
            cur@ == fill_lines(wv.take(i as int), max_width as nat).1,
            cur_bytes == utf8_len(cur@),
            cur_bytes <= 4 * usize::MAX,
        decreases ws.len() - i,
    {
        let w = &ws[i];
        let wb = utf8_byte_len(w.as_slice());
        proof {
            assert(wv.take(i + 1).drop_last() =~= wv.take(i as int));
            assert(wv.take(i + 1).last() == w@);
        }
        let ghost before_lines = lines_view(lines@);
        if cur.len() == 0 {
            cur = w.clone();
            cur_bytes = wb;
        } else if cur_bytes + 1 + wb <= max_width as u128 {
            let ghost old_cur = cur@;
            cur.push(' ');
            let mut k: usize = 0;
            let ghost mid = cur@;
            while k < w.len()
                invariant
                    k <= w.len(),
                    cur@ == mid + w@.take(k as int),
                decreases w.len() - k,
            {
                cur.push(w[k]);
                k = k + 1;
                proof {
                    assert(cur@ =~= mid + w@.take(k as int));
                }
            }
            proof {
                assert(w@.take(w@.len() as int) =~= w@);
                assert(cur@ =~= old_cur + seq![' '] + w@);
                lemma_utf8_len_join(old_cur, w@);
            }
            cur_bytes = cur_bytes + 1 + wb;
        } else {
            let line = string_of(cur.as_slice());
            lines.push(line);
            proof {
                assert(lines_view(lines@) =~= before_lines.push(cur@));
            }
            cur = w.clone();
            cur_bytes = wb;
        }
        i = i + 1;
    }
    proof {
        assert(wv.take(ws@.len() as int) =~= wv);
    }
    if cur.len() > 0 {
        let ghost before_lines = lines_view(lines@);
        let line = string_of(cur.as_slice());
        lines.push(line);
        proof {
            assert(lines_view(lines@) =~= before_lines.push(cur@));
        }
    }
}

/// Wraps `text` into lines of at most `max_width` UTF-8 bytes where the
/// words allow it: each `'\n'`-separated paragraph is filled greedily with
/// its words, joined by single spaces (a word longer than the width gets a
/// line of its own); an empty paragraph gives an empty line.
pub fn word_wrap(text: &str, max_width: usize) -> (lines: Vec<String>)
    ensures
        lines_view(lines@) == word_wrap_spec(text@, max_width as nat),
{
    let v = chars_of(text);
    let ps = split_paragraphs(&v);
    let ghost pv = pieces_view(ps@);
    let mut lines: Vec<String> = Vec::new();
    let mut i: usize = 0;
    proof {
        assert(lines_view(lines@) =~= wrap_paragraphs(pv.take(0), max_width as nat));
    }
    while i < ps.len()
        invariant
            i <= ps.len(),
            pv == pieces_view(ps@),
            lines_view(lines@) == wrap_paragraphs(pv.take(i as int), max_width as nat),
        decreases ps.len() - i,
    {
        let p = &ps[i];
        proof {
            assert(pv.take(i + 1).drop_last() =~= pv.take(i as int));
            assert(pv.take(i + 1).last() == p@);
        }
        let ghost before = lines_view(lines@);
        if p.len() == 0 {
            lines.push(String::new());
            proof {
                assert(lines_view(lines@) =~= before + seq![Seq::<char>::empty()]);
            }
        } else {
            let ws = split_words(p);
            fill_paragraph(&ws, max_width, &mut lines);
        }
        i = i + 1;
    }
    proof {
        assert(pv.take(ps@.len() as int) =~= pv);
    }
    lines
}

/// `s` cut to at most `max` characters: when it is longer, its first
/// `max - 1` characters (none when `max` is 0) and an ellipsis.
pub open spec fn truncate_spec(s: Seq<char>, max: nat) -> Seq<char> {
    if s.len() <= max {
        s
    } else {
        s.take(if max >= 1 {
            max - 1
        } else {
            0
        }) + seq!['…']
    }
}

/// Cuts `s` to fit a table column of `max` characters.
pub fn truncate(s: &str, max: usize) -> (t: String)
    ensures
        t@ == truncate_spec(s@, max as nat),
{
    let v = chars_of(s);
    if v.len() <= max {
        return string_of(v.as_slice());
    }
    let keep: usize = if max >= 1 {
        max - 1
    } else {
        0
    };
    let mut t = string_of(&v.as_slice()[0..keep]);
    push_char(&mut t, '…');
    proof {
        assert(t@ =~= truncate_spec(s@, max as nat));
    }
    t
}

/// One memory as a listing shows it: its fields as the text that the
/// server hands out (the time in RFC 3339).
#[derive(Debug, Clone)]
pub struct ListedItem {
    pub id: String,
    pub created_at: String,
    pub source: Option<String>,
    pub tags: Vec<String>,
    pub content: String,
}

/// The fields of a listed memory, as plain values.
pub struct ListedView {
    pub id: Seq<char>,
    pub created_at: Seq<char>,
    pub source: Option<Seq<char>>,
    pub tags: Seq<Seq<char>>,
    pub content: Seq<char>,
}

impl View for ListedItem {
    type V = ListedView;

    open spec fn view(&self) -> ListedView {
        ListedView {
            id: self.id@,
            created_at: self.created_at@,
            source: opt_view(self.source),
            tags: strings_view(self.tags@),
            content: self.content@,
        }
    }
}

/// The views of a sequence of listed memories.
pub open spec fn items_view(v: Seq<ListedItem>) -> Seq<ListedView> {
    v.map_values(|x: ListedItem| x@)
}

/// The short form of an id: its first 8 bytes.
pub open spec fn short_id(id: Seq<char>) -> Seq<char> {
    byte_prefix(id, 8)
}

/// How a listing shows a creation time: to the minute when it reads as
/// RFC 3339, else its first 16 bytes.
pub open spec fn created_display(c: Seq<char>) -> Seq<char> {
    match rfc3339_micros(c) {
        Some(_) => created_minutes(c),
        None => byte_prefix(c, 16),
    }
}

/// Whether a listing can show the memory: its id cut after 8 bytes and its
/// time cut after 16 bytes both fall between characters. (Every text the
/// time parser accepts starts with 16 ASCII characters.)
pub open spec fn listable(item: ListedView) -> bool {
    on_char_boundary(item.id, 8) && on_char_boundary(item.created_at, 16)
}

/// The creation time as a listing shows it.
pub fn fmt_created(created: &str) -> (s: String)
    requires
        on_char_boundary(created@, 16),
    ensures
        s@ == created_display(created@),
{
    match format_created(created) {
        Some(t) => t,
        None => byte_prefix_of(created, 16),
    }
}

/// How `show` prints a creation time: to the second when it reads as
/// RFC 3339, else as it is.
pub open spec fn detail_created(c: Seq<char>) -> Seq<char> {
    match rfc3339_micros(c) {
        Some(_) => created_seconds(c),
        None => c,
    }
}

/// The creation time as `show` prints it.
pub fn fmt_created_detail(created: &str) -> (s: String)
    ensures
        s@ == detail_created(created@),
{
    match format_created_seconds(created) {
        Some(t) => t,
        None => created.to_owned(),
    }
}

/// Each part behind `each`, joined with `sep`.
pub open spec fn join_prefixed(parts: Seq<Seq<char>>, each: Seq<char>, sep: Seq<char>) -> Seq<char> {
    join_with(parts.map_values(|t: Seq<char>| each + t), sep)
}

/// Appends `join_prefixed(parts, each, sep)` to `s`.
fn push_join(s: &mut String, parts: &Vec<String>, each: &str, sep: &str)
    ensures
        final(s)@ == old(s)@ + join_prefixed(strings_view(parts@), each@, sep@),
{
    let ghost pv = strings_view(parts@).map_values(|t: Seq<char>| each@ + t);
    let mut i: usize = 0;
    proof {
        assert(pv.take(0) =~= Seq::<Seq<char>>::empty());
        assert(s@ =~= old(s)@ + join_with(pv.take(0), sep@));
    }
    while i < parts.len()
        invariant
            i <= parts.len(),
            pv == strings_view(parts@).map_values(|t: Seq<char>| each@ + t),
            s@ == old(s)@ + join_with(pv.take(i as int), sep@),
        decreases parts.len() - i,
    {
        proof {
            assert(pv.take(i + 1).drop_last() =~= pv.take(i as int));
            assert(pv.take(i + 1).last() == each@ + parts@[i as int]@);
        }
        let ghost before = s@;
        if i > 0 {
            push_all(s, sep);
        }
        push_all(s, each);
        push_all(s, parts[i].as_str());
        proof {
            if i == 0 {
                assert(join_with(pv.take(1), sep@) == pv.take(1)[0]);
                assert(s@ =~= old(s)@ + join_with(pv.take(1), sep@));
            } else {
                assert(s@ =~= old(s)@ + join_with(pv.take(i + 1), sep@));
            }
        }
        i = i + 1;
    }
    proof {
        assert(pv.take(parts@.len() as int) =~= pv);
    }
}

/// The Markdown section of one memory whose time is shown as `created`: a
/// heading with the short id, the id, the time, the source and the tags (as
/// `#tag`, when there are any) as a list, then the content and a rule.
pub open spec fn markdown_entry_text(item: ListedView, created: Seq<char>) -> Seq<char> {
    "## "@ + short_id(item.id) + "\n\n- **id**: `"@ + item.id + "`\n- **created**: "@ + created
        + "\n"@ + match item.source {
        Some(s) => "- **source**: "@ + s + "\n"@,
        None => Seq::<char>::empty(),
    } + if item.tags.len() > 0 {
        "- **tags**: "@ + join_prefixed(item.tags, "#"@, " "@) + "\n"@
    } else {
        Seq::<char>::empty()
    } + "\n"@ + item.content + "\n\n---\n\n"@
}

/// The Markdown export of a listing: the section of each memory in turn.
pub open spec fn markdown_text(items: Seq<ListedView>) -> Seq<char>
    decreases items.len(),
{
    if items.len() == 0 {
        Seq::<char>::empty()
    } else {
        markdown_text(items.drop_last()) + markdown_entry_text(
            items.last(),
            created_display(items.last().created_at),
        )
    }
}

/// The Markdown section of one memory, its time shown as `created`.
pub fn markdown_entry(item: &ListedItem, created: &str) -> (s: String)
    requires
        on_char_boundary(item.id@, 8),
    ensures
        s@ == markdown_entry_text(item@, created@),
{
    let mut s = "## ".to_owned();
    let short = byte_prefix_of(item.id.as_str(), 8);
    push_all(&mut s, short.as_str());
    push_all(&mut s, "\n\n- **id**: `");
    push_all(&mut s, item.id.as_str());
    push_all(&mut s, "`\n- **created**: ");
    push_all(&mut s, created);
    push_all(&mut s, "\n");
    let ghost head = s@;
    if let Some(src) = &item.source {
        push_all(&mut s, "- **source**: ");
        push_all(&mut s, src.as_str());
        push_all(&mut s, "\n");
    }
    let ghost with_source = s@;
    if item.tags.len() > 0 {
        push_all(&mut s, "- **tags**: ");
        push_join(&mut s, &item.tags, "#", " ");
        push_all(&mut s, "\n");
    }
    let ghost with_tags = s@;
    push_all(&mut s, "\n");
    push_all(&mut s, item.content.as_str());
    push_all(&mut s, "\n\n---\n\n");
    proof {
        assert(strings_view(item.tags@).len() == item.tags@.len());
        assert(s@ =~= markdown_entry_text(item@, created@));
    }
    s
}

/// The Markdown export of a listing (`dump --md`): plain text, full
/// content, no colours and no width limit.
pub fn markdown_of(items: &Vec<ListedItem>) -> (s: String)
    requires
        forall|i: int| 0 <= i < items@.len() ==> listable(#[trigger] items@[i]@),
    ensures
        s@ == markdown_text(items_view(items@)),
{
    let ghost iv = items_view(items@);
    let mut s = String::new();
    let mut i: usize = 0;
    while i < items.len()
        invariant
            i <= items.len(),
            iv == items_view(items@),
            forall|k: int| 0 <= k < items@.len() ==> listable(#[trigger] items@[k]@),
            s@ == markdown_text(iv.take(i as int)),
        decreases items.len() - i,
    {
        proof {
            assert(listable(items@[i as int]@));
            assert(iv.take(i + 1).drop_last() =~= iv.take(i as int));
            assert(iv.take(i + 1).last() == items@[i as int]@);
        }
        let created = fmt_created(items[i].created_at.as_str());
        let entry = markdown_entry(&items[i], created.as_str());
        push_all(&mut s, entry.as_str());
        i = i + 1;
    }
    proof {
        assert(iv.take(items@.len() as int) =~= iv);
    }
    s
}

/// The width left for the content column of the table on a terminal
/// `term_width` columns wide: the width (at most 120) less the 72 columns
/// of the other cells and their gaps, but never under 20.
pub open spec fn content_width_spec(term_width: nat) -> nat {
    let t: nat = if term_width <= 120 {
        term_width
    } else {
        120
    };
    let c: nat = if t >= 72 {
        (t - 72) as nat
    } else {
        0
    };
    if c >= 20 {
        c
    } else {
        20
    }
}

/// The width of the content column of the table.
pub fn content_width(term_width: usize) -> (w: usize)
    ensures
        w == content_width_spec(term_width as nat),
{
    let t = if term_width <= 120 {
        term_width
    } else {
        120
    };
    let c = if t >= 72 {
        t - 72
    } else {
        0
    };
    if c >= 20 {
        c
    } else {
        20
    }
}

/// The rule under the table heading: `─` across the terminal, at most 120.
pub fn table_rule(term_width: usize) -> (s: String)
    ensures
        s@ == Seq::new(
            if term_width <= 120 {
                term_width as nat
            } else {
                120
            },
            |i: int| '─',
        ),
{
    let n: usize = if term_width <= 120 {
        term_width
    } else {
        120
    };
    let mut s = String::new();
    let mut k: usize = 0;
    while k < n
        invariant
            k <= n,
            s@ == Seq::new(k as nat, |i: int| '─'),
        decreases n - k,
    {
        push_char(&mut s, '─');
        k = k + 1;
        proof {
            assert(s@ =~= Seq::new(k as nat, |i: int| '─'));
        }
    }
    s
}

/// The cells of one table row, each already padded to its column; the
/// listing colours them and puts two spaces between them.
#[derive(Debug, Clone)]
pub struct TableRow {
    pub id: String,
    pub created: String,
    pub source: String,
    pub tags: String,
    pub content: String,
}

/// The cells of a table row, as plain values.
pub struct TableRowView {
    pub id: Seq<char>,
    pub created: Seq<char>,
    pub source: Seq<char>,
    pub tags: Seq<char>,
    pub content: Seq<char>,
}

impl View for TableRow {
    type V = TableRowView;

    open spec fn view(&self) -> TableRowView {
        TableRowView {
            id: self.id@,
            created: self.created@,
            source: self.source@,
            tags: self.tags@,
            content: self.content@,
        }
    }
}

/// The table row of one memory whose time is shown as `created`: the short
/// id in 10 columns, the time in 20, the source (`-` if none) cut to and
/// padded to 20, the tags joined with `,` (`-` if none) cut to and padded to
/// 14, and the content cut to the content width (at least 20).
pub open spec fn table_cells(item: ListedView, created: Seq<char>, content_width: nat) -> TableRowView {
    TableRowView {
        id: pad_right(short_id(item.id), 10),
        created: pad_right(created, 20),
        source: pad_right(
            truncate_spec(
                match item.source {
                    Some(s) => s,
                    None => "-"@,
                },
                20,
            ),
            20,
        ),
        tags: pad_right(
            truncate_spec(
                if item.tags.len() == 0 {
                    "-"@
                } else {
                    join_with(item.tags, ","@)
                },
                14,
            ),
            14,
        ),
        content: truncate_spec(
            item.content,
            if content_width >= 20 {
                content_width
            } else {
                20
            },
        ),
    }
}

/// The table row of one memory, its time shown as `created`.
pub fn table_row_with(item: &ListedItem, created: &str, content_width: usize) -> (r: TableRow)
    requires
        on_char_boundary(item.id@, 8),
    ensures
        r@ == table_cells(item@, created@, content_width as nat),
{
    let short = byte_prefix_of(item.id.as_str(), 8);
    let id = padded(short.as_str(), 10);
    let created_cell = padded(created, 20);
    let src = match &item.source {
        Some(s) => truncate(s.as_str(), 20),
        None => truncate("-", 20),
    };
    let source = padded(src.as_str(), 20);
    let tag_text = if item.tags.len() == 0 {
        truncate("-", 14)
    } else {
        let mut j = String::new();
        push_join(&mut j, &item.tags, "", ",");
        proof {
            reveal_strlit("");
            assert(strings_view(item.tags@).map_values(|t: Seq<char>| ""@ + t) =~= strings_view(
                item.tags@,
            ));
            assert(j@ =~= join_with(strings_view(item.tags@), ","@));
        }
        truncate(j.as_str(), 14)
    };
    let tags = padded(tag_text.as_str(), 14);
    let w: usize = if content_width >= 20 {
        content_width
    } else {
        20
    };
    let content = truncate(item.content.as_str(), w);
    proof {
        assert(strings_view(item.tags@).len() == item.tags@.len());
    }
    TableRow { id, created: created_cell, source, tags, content }
}

/// The table row of one memory (`dump` without `--md` or `--full`).
pub fn table_row(item: &ListedItem, content_width: usize) -> (r: TableRow)
    requires
        listable(item@),
    ensures
        r@ == table_cells(item@, created_display(item@.created_at), content_width as nat),
{
    let created = fmt_created(item.created_at.as_str());
    table_row_with(item, created.as_str(), content_width)
}

/// The line of a Markdown section that lists the tags: each tag behind
/// `#`, separated by single spaces.
pub open spec fn tags_line(tags: Seq<Seq<char>>) -> Seq<char> {
    "- **tags**: "@ + join_prefixed(tags, "#"@, " "@) + "\n"@
}

proof fn lemma_markdown_prefix(items: Seq<ListedView>, k: int)
    requires
        0 <= k <= items.len(),
    ensures
        markdown_text(items) == markdown_text(items.take(k)) + markdown_text(items).subrange(
            markdown_text(items.take(k)).len() as int,
            markdown_text(items).len() as int,
        ),
        markdown_text(items.take(k)).len() <= markdown_text(items).len(),
    decreases items.len(),
{
    if k == items.len() {
        assert(items.take(k) =~= items);
    } else {
        lemma_markdown_prefix(items.drop_last(), k);
        assert(items.drop_last().take(k) =~= items.take(k));
        let whole = markdown_text(items);
        let head = markdown_text(items.take(k));
        assert(whole =~= head + whole.subrange(head.len() as int, whole.len() as int));
    }
}

/// Every memory with at least one tag is exported with its tags: its
/// Markdown section holds the line `- **tags**: ` followed by each tag
/// behind `#`, joined by single spaces (for one tag `t`, `- **tags**: #t`),
/// and so does the export of any listing that holds it.
pub proof fn law_markdown_shows_tags(items: Seq<ListedView>, i: int, t: Seq<char>)
    requires
        0 <= i < items.len(),
        items[i].tags.len() > 0,
    ensures
        contains_text(
            markdown_entry_text(items[i], created_display(items[i].created_at)),
            tags_line(items[i].tags),
        ),
        contains_text(markdown_text(items), tags_line(items[i].tags)),
        items[i].tags == seq![t] ==> tags_line(items[i].tags) == "- **tags**: #"@ + t + "\n"@,
{
    let item = items[i];
    let c = created_display(item.created_at);
    let head = "## "@ + short_id(item.id) + "\n\n- **id**: `"@ + item.id + "`\n- **created**: "@ + c
        + "\n"@ + match item.source {
        Some(s) => "- **source**: "@ + s + "\n"@,
        None => Seq::<char>::empty(),
    };
    let line = tags_line(item.tags);
    let entry = markdown_entry_text(item, c);
    let k = head.len() as int;
    assert(entry =~= head + line + ("\n"@ + item.content + "\n\n---\n\n"@));
    assert(entry.subrange(k, k + line.len()) =~= line);
    lemma_markdown_prefix(items, i + 1);
    let before = markdown_text(items.take(i));
    assert(items.take(i + 1).drop_last() =~= items.take(i));
    assert(items.take(i + 1).last() == item);
    assert(markdown_text(items.take(i + 1)) == before + entry);
    let whole = markdown_text(items);
    let at = before.len() + k;
    assert(whole.subrange(at, at + line.len()) =~= line) by {
        assert forall|j: int| 0 <= j < line.len() implies whole.subrange(at, at + line.len())[j]
            == line[j] by {
            assert(whole[at + j] == markdown_text(items.take(i + 1))[at + j]);
            assert(markdown_text(items.take(i + 1))[at + j] == entry[k + j]);
            assert(entry[k + j] == entry.subrange(k, k + line.len())[j]);
        }
    }
    if item.tags == seq![t] {
        reveal_strlit("#");
        assert(item.tags.map_values(|x: Seq<char>| "#"@ + x) =~= seq!["#"@ + t]);
        assert(join_prefixed(item.tags, "#"@, " "@) == "#"@ + t);
        reveal_strlit("- **tags**: ");
        reveal_strlit("- **tags**: #");
        assert(line =~= "- **tags**: #"@ + t + "\n"@);
    }
}

/// The tags cell of a table row is always 14 characters. It shows `-`
/// exactly when the memory has no tags; otherwise it shows the tags joined
/// with `,` (a single tag `t` as itself), cut to 13 characters and an
/// ellipsis when they are longer than 14, then padded with spaces.
pub proof fn law_table_tags_cell(item: ListedView, created: Seq<char>, content_width: nat, t: Seq<char>)
    ensures
        table_cells(item, created, content_width).tags.len() == 14,
        item.tags.len() == 0 ==> table_cells(item, created, content_width).tags == seq!['-']
            + Seq::new(13, |j: int| ' '),
        item.tags.len() > 0 && join_with(item.tags, ","@).len() <= 14 ==> table_cells(
            item,
            created,
            content_width,
        ).tags == pad_right(join_with(item.tags, ","@), 14),
        item.tags.len() > 0 && join_with(item.tags, ","@).len() > 14 ==> table_cells(
            item,
            created,
            content_width,
        ).tags == join_with(item.tags, ","@).take(13) + seq!['…'],
        item.tags == seq![t] && t.len() <= 14 ==> table_cells(item, created, content_width).tags
            == pad_right(t, 14),
{
    reveal_strlit("-");
    let cell = table_cells(item, created, content_width).tags;
    if item.tags.len() == 0 {
        assert(cell =~= seq!['-'] + Seq::new(13, |j: int| ' '));
    } else {
        let j = join_with(item.tags, ","@);
        if j.len() > 14 {
            assert(cell =~= j.take(13) + seq!['…']);
        }
    }
    if item.tags == seq![t] {
        assert(join_with(item.tags, ","@) == t);
    }
}

/// The Markdown section of a memory begins with a heading of its short id,
/// holds its full id in backquotes, its time as given, and its source when
/// it has one, each on a line of its own, and ends with its content, a blank
/// line and a rule.
pub proof fn law_markdown_entry_parts(item: ListedView, created: Seq<char>)
    ensures
        markdown_entry_text(item, created).take(("## "@ + short_id(item.id) + "\n\n"@).len() as int)
            == "## "@ + short_id(item.id) + "\n\n"@,
        contains_text(markdown_entry_text(item, created), "- **id**: `"@ + item.id + "`\n"@),
        contains_text(markdown_entry_text(item, created), "- **created**: "@ + created + "\n"@),
        item.source matches Some(s) ==> contains_text(
            markdown_entry_text(item, created),
            "- **source**: "@ + s + "\n"@,
        ),
        ({
            let e = markdown_entry_text(item, created);
            let tail = "\n"@ + item.content + "\n\n---\n\n"@;
            e.len() >= tail.len() && e.subrange(e.len() - tail.len(), e.len() as int) == tail
        }),
{
    let e = markdown_entry_text(item, created);
    let a = "## "@ + short_id(item.id) + "\n\n"@;
    let b = "- **id**: `"@ + item.id + "`\n"@;
    let c = "- **created**: "@ + created + "\n"@;
    let src = match item.source {
        Some(s) => "- **source**: "@ + s + "\n"@,
        None => Seq::<char>::empty(),
    };
    let tg = if item.tags.len() > 0 {
        tags_line(item.tags)
    } else {
        Seq::<char>::empty()
    };
    let tail = "\n"@ + item.content + "\n\n---\n\n"@;
    reveal_strlit("\n\n- **id**: `");
    reveal_strlit("`\n- **created**: ");
    reveal_strlit("- **id**: `");
    reveal_strlit("`\n");
    reveal_strlit("- **created**: ");
    reveal_strlit("\n\n");
    reveal_strlit("\n");
    reveal_strlit("## ");
    assert(e =~= a + b + c + src + tg + tail);
    assert(e.take(a.len() as int) =~= a);
    assert(e.subrange(a.len() as int, (a.len() + b.len()) as int) =~= b);
    assert(e.subrange((a.len() + b.len()) as int, (a.len() + b.len() + c.len()) as int) =~= c);
    let k: int = (a.len() + b.len() + c.len()) as int;
    if item.source is Some {
        assert(e.subrange(k, (k + src.len()) as int) =~= src);
    }
    assert(e.subrange(e.len() - tail.len(), e.len() as int) =~= tail);
}

/// The other cells of a table row: the short id padded to at least 10
/// columns, the time padded to at least 20, the source (`-` when there is
/// none) shown whole in 20 columns when it fits, and the content shown whole
/// when it fits the content width (which is at least 20).
pub proof fn law_table_other_cells(item: ListedView, created: Seq<char>, content_width: nat)
    ensures
        table_cells(item, created, content_width).id.take(short_id(item.id).len() as int)
            == short_id(item.id),
        table_cells(item, created, content_width).id.len() >= 10,
        table_cells(item, created, content_width).created.take(created.len() as int) == created,
        table_cells(item, created, content_width).created.len() >= 20,
        table_cells(item, created, content_width).source.len() == 20,
        item.source is None ==> table_cells(item, created, content_width).source == seq!['-']
            + Seq::new(19, |j: int| ' '),
        item.source is Some && item.source->Some_0.len() <= 20 ==> table_cells(
            item,
            created,
            content_width,
        ).source == pad_right(item.source->Some_0, 20),
        item.content.len() <= content_width || item.content.len() <= 20 ==> table_cells(
            item,
            created,
            content_width,
        ).content == item.content,
        table_cells(item, created, content_width).content.len() <= if content_width >= 20 {
            content_width
        } else {
            20
        },
{
    reveal_strlit("-");
    let r = table_cells(item, created, content_width);
    assert(r.id.take(short_id(item.id).len() as int) =~= short_id(item.id));
    assert(r.created.take(created.len() as int) =~= created);
    if item.source is None {
        assert(r.source =~= seq!['-'] + Seq::new(19, |j: int| ' '));
    }
}

/// The content column gets what a terminal `term_width` columns wide (at
/// most 120 counted) leaves after the other cells' 72 columns, and never
/// under 20: on a terminal of 92 to 120 columns the table fills the width.
pub proof fn law_content_width(term_width: nat)
    ensures
        content_width_spec(term_width) >= 20,
        content_width_spec(term_width) <= 48,
        92 <= term_width <= 120 ==> content_width_spec(term_width) + 72 == term_width,
        term_width >= 120 ==> content_width_spec(term_width) == 48,
        term_width <= 92 ==> content_width_spec(term_width) == 20,
{
}

/// Cutting a text for a table column: a text that fits is kept whole; a
/// longer one becomes exactly `max` characters (for `max` of at least 1): its
/// first `max - 1` characters and an ellipsis.
pub proof fn law_truncate_fits_column(s: Seq<char>, max: nat)
    ensures
        s.len() <= max ==> truncate_spec(s, max) == s,
        s.len() > max && max >= 1 ==> truncate_spec(s, max).len() == max,
        s.len() > max ==> truncate_spec(s, max).last() == '…',
        s.len() > max ==> truncate_spec(s, max).drop_last() == s.take(
            truncate_spec(s, max).len() - 1,
        ),
{
    if s.len() > max {
        let t = truncate_spec(s, max);
        assert(t.drop_last() =~= s.take(t.len() - 1));
    }
}

} // verus!
