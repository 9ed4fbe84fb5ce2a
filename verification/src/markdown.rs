//! Markdown segmentation of chat messages and highlighting of search
//! matches.
use vstd::prelude::*;
use crate::text::{
    byte_len, byte_offset, byte_offsets, chars_of, char_vec_views, find_char, lemma_byte_len_subrange,
    lemma_next_char, lemma_skip_ws_from, lines, matches_at, next_char, occurs_at, push_str,
    skip_ws_from, split_lines, starts_with, starts_with_str, strip_prefixes, strip_prefixes_from,
    string_from_chars, string_from_range, sub_vec, trim_start, is_whitespace,
};

verus! {

/// A piece of a rendered message.
#[derive(Debug, Clone)]
pub enum MessageSegment {
    Text(String),
    CodeBlock { language: Option<String>, code: String },
    InlineCode(String),
    Bold(String),
    Italic(String),
    ListItem(String),
    /// A search result
    Highlighted(String),
}

/// Mathematical model of `MessageSegment`.
pub enum SegmentView {
    Text(Seq<char>),
    CodeBlock { language: Option<Seq<char>>, code: Seq<char> },
    InlineCode(Seq<char>),
    Bold(Seq<char>),
    Italic(Seq<char>),
    ListItem(Seq<char>),
    Highlighted(Seq<char>),
}

impl View for MessageSegment {
    type V = SegmentView;

    open spec fn view(&self) -> SegmentView {
        match self {
            MessageSegment::Text(s) => SegmentView::Text(s@),
            MessageSegment::CodeBlock { language, code } => SegmentView::CodeBlock {
                language: match language {
                    Some(l) => Some(l@),
                    None => None,
                },
                code: code@,
            },
            MessageSegment::InlineCode(s) => SegmentView::InlineCode(s@),
            MessageSegment::Bold(s) => SegmentView::Bold(s@),
            MessageSegment::Italic(s) => SegmentView::Italic(s@),
            MessageSegment::ListItem(s) => SegmentView::ListItem(s@),
            MessageSegment::Highlighted(s) => SegmentView::Highlighted(s@),
        }
    }
}

/// The views of a sequence of segments.
pub open spec fn segs(v: Seq<MessageSegment>) -> Seq<SegmentView> {
    Seq::new(v.len(), |i: int| v[i]@)
}

// ---------------------------------------------------------------------------
// Italic: `*text*`
// ---------------------------------------------------------------------------

/// `*x*` starts at `p`: a star, one or more non-stars, a star.
pub open spec fn italic_at(t: Seq<char>, p: int) -> bool {
    0 <= p < t.len() && t[p] == '*' && (next_char(t, '*', p + 1) matches Some(e) && e > p + 1)
}

/// The leftmost italic match at or after `p`: its opening and closing stars.
pub open spec fn italic_from(t: Seq<char>, p: int) -> Option<(int, int)>
    decreases t.len() - p,
{
    if p < 0 || p >= t.len() {
        None
    } else if italic_at(t, p) {
        Some((p, next_char(t, '*', p + 1).unwrap()))
    } else {
        italic_from(t, p + 1)
    }
}

pub proof fn lemma_italic_from(t: Seq<char>, p: int)
    requires
        0 <= p,
    ensures
        italic_from(t, p) matches Some((s, e)) ==> p <= s && s + 1 < e < t.len(),
    decreases t.len() - p,
{
    if 0 <= p < t.len() {
        if italic_at(t, p) {
            lemma_next_char(t, '*', p + 1);
        } else {
            lemma_italic_from(t, p + 1);
        }
    }
}

/// A match is passed over when, reading its byte offsets as character
/// indices, a star stands just before its start or at its end.
pub open spec fn italic_skipped(t: Seq<char>, s: int, e: int) -> bool {
    let ms = byte_offset(t, s);
    let me = byte_offset(t, e + 1);
    (ms > 0 && ms - 1 < t.len() && t[ms - 1] == '*') || (me < byte_len(t) && me < t.len()
        && t[me as int] == '*')
}

/// The segments of the italic matches from `p`, text covered up to `last`.
pub open spec fn italic_loop(t: Seq<char>, p: int, last: int) -> (Seq<SegmentView>, int)
    decreases t.len() - p,
{
    if p < 0 || p > t.len() {
        (Seq::empty(), last)
    } else {
        match italic_from(t, p) {
            None => (Seq::empty(), last),
            Some((s, e)) => {
                proof {
                    lemma_italic_from(t, p);
                }
                if italic_skipped(t, s, e) {
                    italic_loop(t, e + 1, last)
                } else {
                    let pre = if s > last {
                        seq![SegmentView::Text(t.subrange(last, s))]
                    } else {
                        Seq::empty()
                    };
                    let r = italic_loop(t, e + 1, e + 1);
                    (pre + seq![SegmentView::Italic(t.subrange(s + 1, e))] + r.0, r.1)
                }
            },
        }
    }
}

/// What `parse_italic` answers.
pub open spec fn spec_parse_italic(t: Seq<char>) -> Seq<SegmentView> {
    let r = italic_loop(t, 0, 0);
    let all = if r.1 < t.len() {
        r.0.push(SegmentView::Text(t.subrange(r.1, t.len() as int)))
    } else {
        r.0
    };
    if all.len() == 0 {
        seq![SegmentView::Text(t)]
    } else {
        all
    }
}

fn find_italic(v: &Vec<char>, p: usize) -> (r: Option<(usize, usize)>)
    requires
        p <= v.len(),
    ensures
        match r {
            Some((s, e)) => italic_from(v@, p as int) == Some((s as int, e as int)),
            None => italic_from(v@, p as int) is None,
        },
{
    let mut s = p;
    while s < v.len()
        invariant
            p <= s <= v.len(),
            italic_from(v@, p as int) == italic_from(v@, s as int),
        decreases v.len() - s,
    {
        if v[s] == '*' {
            if let Some(e) = find_char(v, '*', s + 1) {
                if e > s + 1 {
                    return Some((s, e));
                }
            }
        }
        s = s + 1;
    }
    None
}

fn text_segment(v: &Vec<char>, a: usize, b: usize) -> (r: MessageSegment)
    requires
        a <= b <= v.len(),
    ensures
        r@ == SegmentView::Text(v@.subrange(a as int, b as int)),
{
    MessageSegment::Text(string_from_range(v, a, b))
}

fn parse_italic(v: &Vec<char>) -> (r: Vec<MessageSegment>)
    requires
        byte_len(v@) <= usize::MAX,
    ensures
        segs(r@) == spec_parse_italic(v@),
{
    let offs = byte_offsets(v);
    let tlen = offs[v.len()];
    proof {
        assert(v@.take(v@.len() as int) =~= v@);
    }
    let ghost t = v@;
    let mut out: Vec<MessageSegment> = Vec::new();
    let mut last: usize = 0;
    let mut p: usize = 0;
    loop
        invariant
            t == v@,
            offs@.len() == t.len() + 1,
            forall|k: int| 0 <= k <= t.len() ==> #[trigger] offs@[k] == byte_offset(t, k),
            tlen == byte_len(t),
            last <= p <= v.len(),
            italic_loop(t, 0, 0) == (
                segs(out@) + italic_loop(t, p as int, last as int).0,
                italic_loop(t, p as int, last as int).1,
            ),
        ensures
            italic_from(t, p as int) is None,
        decreases v.len() - p,
    {
        match find_italic(v, p) {
            None => {
                break;
            },
            Some((s, e)) => {
                proof {
                    lemma_italic_from(t, p as int);
                }
                let ms = offs[s];
                let me = offs[e + 1];
                let skipped = (ms > 0 && ms - 1 < v.len() && v[ms - 1] == '*') || (me < tlen && me
                    < v.len() && v[me] == '*');
                if skipped {
                    p = e + 1;
                } else {
                    let ghost prev = segs(out@);
                    if s > last {
                        out.push(text_segment(v, last, s));
                    }
                    out.push(MessageSegment::Italic(string_from_range(v, s + 1, e)));
                    proof {
                        let pre = if s > last {
                            seq![SegmentView::Text(t.subrange(last as int, s as int))]
                        } else {
                            Seq::empty()
                        };
                        assert(segs(out@) =~= prev + pre + seq![
                            SegmentView::Italic(t.subrange(s + 1, e as int)),
                        ]);
                    }
                    last = e + 1;
                    p = e + 1;
                }
            },
        }
    }
    if last < v.len() {
        out.push(text_segment(v, last, v.len()));
    }
    if out.len() == 0 {
        out.push(MessageSegment::Text(string_from_chars(v)));
    }
    assert(segs(out@) =~= spec_parse_italic(v@));
    out
}

// ---------------------------------------------------------------------------
// Bold: `**text**`
// ---------------------------------------------------------------------------

/// `**x**` starts at `p`: two stars, one or more non-stars, two stars.
pub open spec fn bold_at(t: Seq<char>, p: int) -> bool {
    0 <= p && p + 1 < t.len() && t[p] == '*' && t[p + 1] == '*' && (next_char(t, '*', p + 2) matches Some(e) && e > p + 2 && e + 1 < t.len()
        && t[e + 1] == '*')
}

/// The leftmost bold match at or after `p`: its start and the index of its
/// first closing star.
pub open spec fn bold_from(t: Seq<char>, p: int) -> Option<(int, int)>
    decreases t.len() - p,
{
    if p < 0 || p >= t.len() {
        None
    } else if bold_at(t, p) {
        Some((p, next_char(t, '*', p + 2).unwrap()))
    } else {
        bold_from(t, p + 1)
    }
}

pub proof fn lemma_bold_from(t: Seq<char>, p: int)
    requires
        0 <= p,
    ensures
        bold_from(t, p) matches Some((s, e)) ==> p <= s && s + 2 < e && e + 1 < t.len(),
    decreases t.len() - p,
{
    if 0 <= p < t.len() {
        if !bold_at(t, p) {
            lemma_bold_from(t, p + 1);
        }
    }
}

/// The segments of the bold matches from `p`, text covered up to `last`;
/// the text between them is parsed for italics.
pub open spec fn bold_loop(t: Seq<char>, p: int, last: int) -> (Seq<SegmentView>, int)
    decreases t.len() - p,
{
    if p < 0 || p > t.len() {
        (Seq::empty(), last)
    } else {
        match bold_from(t, p) {
            None => (Seq::empty(), last),
            Some((s, e)) => {
                proof {
                    lemma_bold_from(t, p);
                }
                let pre = if s > last {
                    spec_parse_italic(t.subrange(last, s))
                } else {
                    Seq::empty()
                };
                let r = bold_loop(t, e + 2, e + 2);
                (pre + seq![SegmentView::Bold(t.subrange(s + 2, e))] + r.0, r.1)
            },
        }
    }
}

/// What `parse_bold_italic` answers.
pub open spec fn spec_parse_bold_italic(t: Seq<char>) -> Seq<SegmentView> {
    let r = bold_loop(t, 0, 0);
    let all = if r.1 < t.len() {
        r.0 + spec_parse_italic(t.subrange(r.1, t.len() as int))
    } else {
        r.0
    };
    if all.len() == 0 {
        seq![SegmentView::Text(t)]
    } else {
        all
    }
}

fn find_bold(v: &Vec<char>, p: usize) -> (r: Option<(usize, usize)>)
    requires
        p <= v.len(),
    ensures
        match r {
            Some((s, e)) => bold_from(v@, p as int) == Some((s as int, e as int)),
            None => bold_from(v@, p as int) is None,
        },
{
    let mut s = p;
    while s < v.len()
        invariant
            p <= s <= v.len(),
            bold_from(v@, p as int) == bold_from(v@, s as int),
        decreases v.len() - s,
    {
        if s + 1 < v.len() && v[s] == '*' && v[s + 1] == '*' {
            let found = find_char(v, '*', s + 2);
            proof {
                lemma_next_char(v@, '*', s + 2);
            }
            if let Some(e) = found {
                if e > s + 2 && e + 1 < v.len() && v[e + 1] == '*' {
                    return Some((s, e));
                }
            }
        }
        s = s + 1;
    }
    None
}

/// Italics parsed in `v[a..b]`.
fn italic_piece(v: &Vec<char>, a: usize, b: usize) -> (r: Vec<MessageSegment>)
    requires
        a <= b <= v.len(),
        byte_len(v@) <= usize::MAX,
    ensures
        segs(r@) == spec_parse_italic(v@.subrange(a as int, b as int)),
{
    let piece = sub_vec(v, a, b);
    proof {
        lemma_byte_len_subrange(v@, a as int, b as int);
    }
    parse_italic(&piece)
}

/// Appends the elements of `more` to `out`.
fn append_segments(out: &mut Vec<MessageSegment>, more: Vec<MessageSegment>)
    ensures
        segs(final(out)@) == segs(old(out)@) + segs(more@),
{
    let mut more = more;
    let ghost m = more@;
    out.append(&mut more);
    assert(segs(out@) =~= segs(old(out)@) + segs(m));
}

fn parse_bold_italic(v: &Vec<char>) -> (r: Vec<MessageSegment>)
    requires
        byte_len(v@) <= usize::MAX,
    ensures
        segs(r@) == spec_parse_bold_italic(v@),
{
    let ghost t = v@;
    let mut out: Vec<MessageSegment> = Vec::new();
    let mut last: usize = 0;
    let mut p: usize = 0;
    loop
        invariant
            t == v@,
            byte_len(t) <= usize::MAX,
            last <= p <= v.len(),
            bold_loop(t, 0, 0) == (
                segs(out@) + bold_loop(t, p as int, last as int).0,
                bold_loop(t, p as int, last as int).1,
            ),
        ensures
            bold_from(t, p as int) is None,
        decreases v.len() - p,
    {
        match find_bold(v, p) {
            None => {
                break;
            },
            Some((s, e)) => {
                proof {
                    lemma_bold_from(t, p as int);
                }
                let ghost prev = segs(out@);
                if s > last {
                    let piece = italic_piece(v, last, s);
                    append_segments(&mut out, piece);
                }
                out.push(MessageSegment::Bold(string_from_range(v, s + 2, e)));
                proof {
                    let pre = if s > last {
                        spec_parse_italic(t.subrange(last as int, s as int))
                    } else {
                        Seq::empty()
                    };
                    assert(segs(out@) =~= prev + pre + seq![
                        SegmentView::Bold(t.subrange(s + 2, e as int)),
                    ]);
                }
                last = e + 2;
                p = e + 2;
            },
        }
    }
    if last < v.len() {
        let piece = italic_piece(v, last, v.len());
        append_segments(&mut out, piece);
    }
    if out.len() == 0 {
        out.push(MessageSegment::Text(string_from_chars(v)));
    }
    assert(segs(out@) =~= spec_parse_bold_italic(v@));
    out
}

// ---------------------------------------------------------------------------
// Inline code, list items and lines
// ---------------------------------------------------------------------------

/// `` `x` `` starts at `p`: a backtick, one or more other characters, a
/// backtick.
pub open spec fn inline_code_at(t: Seq<char>, p: int) -> bool {
    0 <= p < t.len() && t[p] == '`' && (next_char(t, '`', p + 1) matches Some(e) && e > p + 1)
}

/// The leftmost inline code match at or after `p`: its two backticks.
pub open spec fn inline_code_from(t: Seq<char>, p: int) -> Option<(int, int)>
    decreases t.len() - p,
{
    if p < 0 || p >= t.len() {
        None
    } else if inline_code_at(t, p) {
        Some((p, next_char(t, '`', p + 1).unwrap()))
    } else {
        inline_code_from(t, p + 1)
    }
}

pub proof fn lemma_inline_code_from(t: Seq<char>, p: int)
    requires
        0 <= p,
    ensures
        inline_code_from(t, p) matches Some((s, e)) ==> p <= s && s + 1 < e < t.len(),
    decreases t.len() - p,
{
    if 0 <= p < t.len() {
        if inline_code_at(t, p) {
            lemma_next_char(t, '`', p + 1);
        } else {
            lemma_inline_code_from(t, p + 1);
        }
    }
}

/// The segments of the inline code matches from `p`, text covered up to
/// `last`; the text between them is parsed for bold and italics.
pub open spec fn inline_loop(t: Seq<char>, p: int, last: int) -> (Seq<SegmentView>, int)
    decreases t.len() - p,
{
    if p < 0 || p > t.len() {
        (Seq::empty(), last)
    } else {
        match inline_code_from(t, p) {
            None => (Seq::empty(), last),
            Some((s, e)) => {
                proof {
                    lemma_inline_code_from(t, p);
                }
                let pre = if s > last {
                    spec_parse_bold_italic(t.subrange(last, s))
                } else {
                    Seq::empty()
                };
                let r = inline_loop(t, e + 1, e + 1);
                (pre + seq![SegmentView::InlineCode(t.subrange(s + 1, e))] + r.0, r.1)
            },
        }
    }
}

/// The segments of one line that is not a list item.
pub open spec fn spec_line_segments(t: Seq<char>) -> Seq<SegmentView> {
    let r = inline_loop(t, 0, 0);
    let all = if r.1 < t.len() {
        r.0 + spec_parse_bold_italic(t.subrange(r.1, t.len() as int))
    } else {
        r.0
    };
    if all.len() == 0 {
        seq![SegmentView::Text(t)]
    } else {
        all
    }
}

/// A line that, without its leading whitespace, starts with `- ` or `* `.
pub open spec fn is_list_line(line: Seq<char>) -> bool {
    starts_with(trim_start(line), "- "@) || starts_with(trim_start(line), "* "@)
}

/// The text of a list item: leading whitespace, then every leading `- `,
/// then every leading `* `, removed.
pub open spec fn list_item_text(line: Seq<char>) -> Seq<char> {
    strip_prefixes(strip_prefixes(trim_start(line), "- "@), "* "@)
}

/// The segments of lines `ls[i..]`: a list item per list line, else the
/// line's inline segments followed by a newline unless it is the last line.
pub open spec fn formatting_from(ls: Seq<Seq<char>>, i: int) -> Seq<SegmentView>
    decreases ls.len() - i,
{
    if i < 0 || i >= ls.len() {
        Seq::empty()
    } else if is_list_line(ls[i]) {
        seq![SegmentView::ListItem(list_item_text(ls[i]))] + formatting_from(ls, i + 1)
    } else {
        spec_line_segments(ls[i]) + (if i < ls.len() - 1 {
            seq![SegmentView::Text("\n"@)]
        } else {
            Seq::empty()
        }) + formatting_from(ls, i + 1)
    }
}

/// What `parse_inline_formatting` answers.
pub open spec fn spec_parse_inline_formatting(t: Seq<char>) -> Seq<SegmentView> {
    formatting_from(lines(t), 0)
}

fn find_inline_code(v: &Vec<char>, p: usize) -> (r: Option<(usize, usize)>)
    requires
        p <= v.len(),
    ensures
        match r {
            Some((s, e)) => inline_code_from(v@, p as int) == Some((s as int, e as int)),
            None => inline_code_from(v@, p as int) is None,
        },
{
    let mut s = p;
    while s < v.len()
        invariant
            p <= s <= v.len(),
            inline_code_from(v@, p as int) == inline_code_from(v@, s as int),
        decreases v.len() - s,
    {
        if v[s] == '`' {
            if let Some(e) = find_char(v, '`', s + 1) {
                if e > s + 1 {
                    return Some((s, e));
                }
            }
        }
        s = s + 1;
    }
    None
}

/// Bold and italics parsed in `v[a..b]`.
fn bold_italic_piece(v: &Vec<char>, a: usize, b: usize) -> (r: Vec<MessageSegment>)
    requires
        a <= b <= v.len(),
        byte_len(v@) <= usize::MAX,
    ensures
        segs(r@) == spec_parse_bold_italic(v@.subrange(a as int, b as int)),
{
    let piece = sub_vec(v, a, b);
    proof {
        lemma_byte_len_subrange(v@, a as int, b as int);
    }
    parse_bold_italic(&piece)
}

fn line_segments(v: &Vec<char>) -> (r: Vec<MessageSegment>)
    requires
        byte_len(v@) <= usize::MAX,
    ensures
        segs(r@) == spec_line_segments(v@),
{
    let ghost t = v@;
    let mut out: Vec<MessageSegment> = Vec::new();
    let mut last: usize = 0;
    let mut p: usize = 0;
    loop
        invariant
            t == v@,
            byte_len(t) <= usize::MAX,
            last <= p <= v.len(),
            inline_loop(t, 0, 0) == (
                segs(out@) + inline_loop(t, p as int, last as int).0,
                inline_loop(t, p as int, last as int).1,
            ),
        ensures
            inline_code_from(t, p as int) is None,
        decreases v.len() - p,
    {
        match find_inline_code(v, p) {
            None => {
                break;
            },
            Some((s, e)) => {
                proof {
                    lemma_inline_code_from(t, p as int);
                }
                let ghost prev = segs(out@);
                if s > last {
                    let piece = bold_italic_piece(v, last, s);
                    append_segments(&mut out, piece);
                }
                out.push(MessageSegment::InlineCode(string_from_range(v, s + 1, e)));
                proof {
                    let pre = if s > last {
                        spec_parse_bold_italic(t.subrange(last as int, s as int))
                    } else {
                        Seq::empty()
                    };
                    assert(segs(out@) =~= prev + pre + seq![
                        SegmentView::InlineCode(t.subrange(s + 1, e as int)),
                    ]);
                }
                last = e + 1;
                p = e + 1;
            },
        }
    }
    if last < v.len() {
        let piece = bold_italic_piece(v, last, v.len());
        append_segments(&mut out, piece);
    }
    if out.len() == 0 {
        out.push(MessageSegment::Text(string_from_chars(v)));
    }
    assert(segs(out@) =~= spec_line_segments(v@));
    out
}

fn parse_inline_formatting(v: &Vec<char>) -> (r: Vec<MessageSegment>)
    requires
        byte_len(v@) <= usize::MAX,
    ensures
        segs(r@) == spec_parse_inline_formatting(v@),
{
    let ls = split_lines(v);
    let ghost lv = char_vec_views(ls@);
    proof {
        crate::text::lemma_lines_byte_len(v@, 0);
    }
    let mut out: Vec<MessageSegment> = Vec::new();
    let mut i: usize = 0;
    proof {
        assert(lv.len() == ls@.len());
    }
    while i < ls.len()
        invariant
            lv == char_vec_views(ls@),
            lv == lines(v@),
            lv.len() == ls@.len(),
            byte_len(v@) <= usize::MAX,
            forall|k: int| 0 <= k < lv.len() ==> byte_len(#[trigger] lv[k]) <= usize::MAX,
            i <= ls.len(),
            formatting_from(lv, 0) == segs(out@) + formatting_from(lv, i as int),
        decreases ls.len() - i,
    {
        let line = &ls[i];
        assert(lv[i as int] == line@);
        let (a, _b) = crate::text::trim_bounds(line);
        proof {
            assert(line@.subrange(a as int, line@.len() as int) == trim_start(line@));
        }
        let ghost prev = segs(out@);
        if starts_with_at(line, a, "- ") || starts_with_at(line, a, "* ") {
            let j = strip_prefixes_from(line, a, "- ");
            let k = strip_prefixes_from(line, j, "* ");
            proof {
                assert(line@.skip(a as int) =~= trim_start(line@));
                assert(line@.skip(k as int) =~= line@.subrange(k as int, line@.len() as int));
            }
            out.push(MessageSegment::ListItem(string_from_range(line, k, line.len())));
            proof {
                assert(segs(out@) =~= prev + seq![SegmentView::ListItem(list_item_text(line@))]);
            }
        } else {
            let piece = line_segments(line);
            append_segments(&mut out, piece);
            if i < ls.len() - 1 {
                let mut nl = String::new();
                push_str(&mut nl, "\n");
                out.push(MessageSegment::Text(nl));
            }
            proof {
                let tail = if i < lv.len() - 1 {
                    seq![SegmentView::Text("\n"@)]
                } else {
                    Seq::empty()
                };
                assert(segs(out@) =~= prev + spec_line_segments(line@) + tail);
            }
        }
        i = i + 1;
    }
    assert(formatting_from(lv, i as int) =~= Seq::<SegmentView>::empty());
    assert(segs(out@) =~= spec_parse_inline_formatting(v@));
    out
}

/// Whether `line[a..]` starts with `p`.
fn starts_with_at(line: &Vec<char>, a: usize, p: &str) -> (b: bool)
    requires
        a <= line.len(),
    ensures
        b == starts_with(line@.subrange(a as int, line@.len() as int), p@),
{
    let pv = chars_of(p);
    let r = matches_at(line, &pv, a);
    proof {
        let rest = line@.subrange(a as int, line@.len() as int);
        if pv@.len() <= rest.len() {
            assert(rest.subrange(0, pv@.len() as int) =~= line@.subrange(
                a as int,
                a + pv@.len(),
            ));
        }
    }
    r
}

// ---------------------------------------------------------------------------
// Code blocks and whole messages
// ---------------------------------------------------------------------------

/// Whether `c` belongs to the Unicode `\w` class of the `regex` crate.
pub uninterp spec fn regex_word_char(c: char) -> bool;

/// Asks `regex::Regex::is_match` whether the one-character text `c` matches
/// `\A\w\z`. The contract claims only that the answer depends on `c` alone;
/// which characters the class holds is left to the crate.
#[verifier::external_body]
fn is_regex_word_char(c: char) -> (b: bool)
    ensures
        b == regex_word_char(c),
{
    let mut buf = [0u8; 4];
    match regex::Regex::new(r"\A\w\z") {
        Ok(re) => re.is_match(c.encode_utf8(&mut buf)),
        Err(_) => false,
    }
}

/// Three backticks start at `q`.
pub open spec fn fence_at(t: Seq<char>, q: int) -> bool {
    0 <= q && q + 3 <= t.len() && t[q] == '`' && t[q + 1] == '`' && t[q + 2] == '`'
}

/// The end of the run of `\w` characters that starts at `i`.
pub open spec fn word_run_end(t: Seq<char>, i: int) -> int
    decreases t.len() - i,
{
    if 0 <= i < t.len() && regex_word_char(t[i]) {
        word_run_end(t, i + 1)
    } else {
        i
    }
}

pub proof fn lemma_word_run_end(t: Seq<char>, i: int)
    requires
        0 <= i <= t.len(),
    ensures
        i <= word_run_end(t, i) <= t.len(),
    decreases t.len() - i,
{
    if i < t.len() && regex_word_char(t[i]) {
        lemma_word_run_end(t, i + 1);
    }
}

/// The first closing fence at or after `q`: where the code ends and where
/// the block ends. A newline just before the fence belongs to neither.
pub open spec fn closing_from(t: Seq<char>, q: int) -> Option<(int, int)>
    decreases t.len() - q,
{
    if q < 0 || q >= t.len() {
        None
    } else if t[q] == '\n' && fence_at(t, q + 1) {
        Some((q, q + 4))
    } else if fence_at(t, q) {
        Some((q, q + 3))
    } else {
        closing_from(t, q + 1)
    }
}

pub proof fn lemma_closing_from(t: Seq<char>, q: int)
    requires
        0 <= q,
    ensures
        closing_from(t, q) matches Some((c, end)) ==> q <= c < end <= t.len(),
    decreases t.len() - q,
{
    if 0 <= q < t.len() && !(t[q] == '\n' && fence_at(t, q + 1)) && !fence_at(t, q) {
        lemma_closing_from(t, q + 1);
    }
}

/// The parts of a code block opened at `s`: the end of its language, the
/// start and the end of its code, and its own end. The language is the run
/// of word characters after the fence; whitespace after it is skipped.
pub open spec fn block_parts(t: Seq<char>, s: int) -> Option<(int, int, int, int)> {
    if !fence_at(t, s) {
        None
    } else {
        let a = word_run_end(t, s + 3);
        let b = skip_ws_from(t, a);
        match closing_from(t, b) {
            Some((c, end)) => Some((a, b, c, end)),
            None => None,
        }
    }
}

pub proof fn lemma_block_parts(t: Seq<char>, s: int)
    ensures
        block_parts(t, s) matches Some((a, b, c, end)) ==> 0 <= s && s + 3 <= a <= b <= c < end
            <= t.len(),
{
    if fence_at(t, s) {
        let a = word_run_end(t, s + 3);
        lemma_word_run_end(t, s + 3);
        lemma_skip_ws_from(t, a);
        lemma_closing_from(t, skip_ws_from(t, a));
    }
}

/// The start of the leftmost code block at or after `p`.
pub open spec fn block_from(t: Seq<char>, p: int) -> Option<int>
    decreases t.len() - p,
{
    if p < 0 || p >= t.len() {
        None
    } else if block_parts(t, p) is Some {
        Some(p)
    } else {
        block_from(t, p + 1)
    }
}

pub proof fn lemma_block_from(t: Seq<char>, p: int)
    requires
        0 <= p,
    ensures
        block_from(t, p) matches Some(s) ==> p <= s && block_parts(t, s) is Some,
    decreases t.len() - p,
{
    if 0 <= p < t.len() && block_parts(t, p) is None {
        lemma_block_from(t, p + 1);
    }
}

/// The segment of a code block opened at `s`.
pub open spec fn block_view(t: Seq<char>, s: int, a: int, b: int, c: int) -> SegmentView {
    SegmentView::CodeBlock {
        language: if a > s + 3 {
            Some(t.subrange(s + 3, a))
        } else {
            None
        },
        code: t.subrange(b, c),
    }
}

/// The segments of the code blocks from `p`, text covered up to `cur`; the
/// text between them is parsed for inline formatting.
pub open spec fn message_loop(t: Seq<char>, p: int, cur: int) -> (Seq<SegmentView>, int)
    decreases t.len() - p,
{
    if p < 0 || p > t.len() {
        (Seq::empty(), cur)
    } else {
        match block_from(t, p) {
            None => (Seq::empty(), cur),
            Some(s) => {
                proof {
                    lemma_block_from(t, p);
                    lemma_block_parts(t, s);
                }
                let (a, b, c, end) = block_parts(t, s).unwrap();
                let pre = if cur < s {
                    spec_parse_inline_formatting(t.subrange(cur, s))
                } else {
                    Seq::empty()
                };
                let r = message_loop(t, end, end);
                (pre + seq![block_view(t, s, a, b, c)] + r.0, r.1)
            },
        }
    }
}

/// What `parse_message` answers.
pub open spec fn spec_parse_message(t: Seq<char>) -> Seq<SegmentView> {
    let r = message_loop(t, 0, 0);
    let all = if r.1 < t.len() {
        r.0 + spec_parse_inline_formatting(t.subrange(r.1, t.len() as int))
    } else {
        r.0
    };
    if all.len() == 0 {
        seq![SegmentView::Text(t)]
    } else {
        all
    }
}

fn fence_at_exec(v: &Vec<char>, q: usize) -> (b: bool)
    ensures
        b == fence_at(v@, q as int),
{
    q < v.len() && v.len() - q >= 3 && v[q] == '`' && v[q + 1] == '`' && v[q + 2] == '`'
}

fn word_run_end_exec(v: &Vec<char>, i: usize) -> (j: usize)
    requires
        i <= v.len(),
    ensures
        j as int == word_run_end(v@, i as int),
{
    let mut j = i;
    while j < v.len() && is_regex_word_char(v[j])
        invariant
            i <= j <= v.len(),
            word_run_end(v@, i as int) == word_run_end(v@, j as int),
        decreases v.len() - j,
    {
        j = j + 1;
    }
    j
}

fn skip_ws_exec(v: &Vec<char>, i: usize) -> (j: usize)
    requires
        i <= v.len(),
    ensures
        j as int == skip_ws_from(v@, i as int),
{
    let mut j = i;
    while j < v.len() && is_whitespace(v[j])
        invariant
            i <= j <= v.len(),
            skip_ws_from(v@, i as int) == skip_ws_from(v@, j as int),
        decreases v.len() - j,
    {
        j = j + 1;
    }
    j
}

fn find_closing(v: &Vec<char>, q: usize) -> (r: Option<(usize, usize)>)
    requires
        q <= v.len(),
    ensures
        match r {
            Some((c, end)) => closing_from(v@, q as int) == Some((c as int, end as int)),
            None => closing_from(v@, q as int) is None,
        },
{
    let mut c = q;
    while c < v.len()
        invariant
            q <= c <= v.len(),
            closing_from(v@, q as int) == closing_from(v@, c as int),
        decreases v.len() - c,
    {
        if v[c] == '\n' && fence_at_exec(v, c + 1) {
            return Some((c, c + 4));
        }
        if fence_at_exec(v, c) {
            return Some((c, c + 3));
        }
        c = c + 1;
    }
    None
}

fn find_block(v: &Vec<char>, p: usize) -> (r: Option<(usize, usize, usize, usize, usize)>)
    requires
        p <= v.len(),
    ensures
        match r {
            Some((s, a, b, c, end)) => block_from(v@, p as int) == Some(s as int) && block_parts(
                v@,
                s as int,
            ) == Some((a as int, b as int, c as int, end as int)),
            None => block_from(v@, p as int) is None,
        },
{
    let mut s = p;
    while s < v.len()
        invariant
            p <= s <= v.len(),
            block_from(v@, p as int) == block_from(v@, s as int),
        decreases v.len() - s,
    {
        if fence_at_exec(v, s) {
            let a = word_run_end_exec(v, s + 3);
            proof {
                lemma_word_run_end(v@, s + 3);
            }
            let b = skip_ws_exec(v, a);
            proof {
                lemma_skip_ws_from(v@, a as int);
            }
            if let Some((c, end)) = find_closing(v, b) {
                return Some((s, a, b, c, end));
            }
        }
        s = s + 1;
    }
    None
}

/// Inline formatting parsed in `v[a..b]`.
fn formatting_piece(v: &Vec<char>, a: usize, b: usize) -> (r: Vec<MessageSegment>)
    requires
        a <= b <= v.len(),
        byte_len(v@) <= usize::MAX,
    ensures
        segs(r@) == spec_parse_inline_formatting(v@.subrange(a as int, b as int)),
{
    let piece = sub_vec(v, a, b);
    proof {
        lemma_byte_len_subrange(v@, a as int, b as int);
    }
    parse_inline_formatting(&piece)
}

/// Splits a chat message into segments: fenced code blocks (with their
/// optional language), and between them, line by line, list items, inline
/// code, bold, italic and plain text. A message that yields no segment is
/// one plain text segment.
pub fn parse_message(content: &str) -> (r: Vec<MessageSegment>)
    requires
        byte_len(content@) <= usize::MAX,
    ensures
        segs(r@) == spec_parse_message(content@),
{
    let v = chars_of(content);
    let ghost t = v@;
    let mut out: Vec<MessageSegment> = Vec::new();
    let mut cur: usize = 0;
    let mut p: usize = 0;
    loop
        invariant
            t == v@,
            t == content@,
            byte_len(t) <= usize::MAX,
            cur <= p <= v.len(),
            message_loop(t, 0, 0) == (
                segs(out@) + message_loop(t, p as int, cur as int).0,
                message_loop(t, p as int, cur as int).1,
            ),
        ensures
            block_from(t, p as int) is None,
        decreases v.len() - p,
    {
        match find_block(&v, p) {
            None => {
                break;
            },
            Some((s, a, b, c, end)) => {
                proof {
                    lemma_block_from(t, p as int);
                    lemma_block_parts(t, s as int);
                }
                let ghost prev = segs(out@);
                if cur < s {
                    let piece = formatting_piece(&v, cur, s);
                    append_segments(&mut out, piece);
                }
                let language = if a > s + 3 {
                    Some(string_from_range(&v, s + 3, a))
                } else {
                    None
                };
                let code = string_from_range(&v, b, c);
                out.push(MessageSegment::CodeBlock { language, code });
                proof {
                    let pre = if cur < s {
                        spec_parse_inline_formatting(t.subrange(cur as int, s as int))
                    } else {
                        Seq::empty()
                    };
                    assert(segs(out@) =~= prev + pre + seq![
                        block_view(t, s as int, a as int, b as int, c as int),
                    ]);
                }
                cur = end;
                p = end;
            },
        }
    }
    if cur < v.len() {
        let piece = formatting_piece(&v, cur, v.len());
        append_segments(&mut out, piece);
    }
    if out.len() == 0 {
        out.push(MessageSegment::Text(string_from_chars(&v)));
    }
    assert(segs(out@) =~= spec_parse_message(content@));
    out
}

// ---------------------------------------------------------------------------
// Search highlighting
// ---------------------------------------------------------------------------

/// Where `x` goes when inserted after every element of `s[..j]` whose start
/// is at most `k`.
pub open spec fn insert_point(s: Seq<(usize, usize)>, k: usize, j: int) -> int
    decreases j,
{
    if 0 < j <= s.len() && s[j - 1].0 > k {
        insert_point(s, k, j - 1)
    } else {
        j
    }
}

/// `x` inserted into `s` after the elements whose start is at most its own.
pub open spec fn insert_by_start(s: Seq<(usize, usize)>, x: (usize, usize)) -> Seq<(usize, usize)> {
    let j = insert_point(s, x.0, s.len() as int);
    s.take(j) + seq![x] + s.skip(j)
}

/// The stable sort of `s` by start (`sort_by_key` on the start).
pub open spec fn sort_by_start(s: Seq<(usize, usize)>) -> Seq<(usize, usize)>
    decreases s.len(),
{
    if s.len() == 0 {
        s
    } else {
        insert_by_start(sort_by_start(s.drop_last()), s.last())
    }
}

pub open spec fn max_usize(a: usize, b: usize) -> usize {
    if a >= b {
        a
    } else {
        b
    }
}

pub open spec fn min_nat(a: nat, b: nat) -> nat {
    if a <= b {
        a
    } else {
        b
    }
}

/// Merging from index `i` of sorted positions, with the current run
/// `(cs, ce)`: a position that starts at or before the end of the run
/// extends it.
pub open spec fn merge_from(s: Seq<(usize, usize)>, i: int, cs: usize, ce: usize) -> Seq<
    (usize, usize),
>
    decreases s.len() - i,
{
    if i < 0 || i >= s.len() {
        seq![(cs, ce)]
    } else if s[i].0 <= ce {
        merge_from(s, i + 1, cs, max_usize(ce, s[i].1))
    } else {
        seq![(cs, ce)] + merge_from(s, i + 1, s[i].0, s[i].1)
    }
}

/// The merged runs of non-empty sorted positions.
pub open spec fn merged(s: Seq<(usize, usize)>) -> Seq<(usize, usize)> {
    merge_from(s, 1, s[0].0, s[0].1)
}

/// The first character index whose byte offset is at least `b`.
pub open spec fn char_index_from(t: Seq<char>, b: nat, k: int) -> int
    decreases t.len() - k,
{
    if 0 <= k < t.len() && byte_offset(t, k) < b {
        char_index_from(t, b, k + 1)
    } else {
        k
    }
}

/// The character index at byte offset `b`.
pub open spec fn char_index(t: Seq<char>, b: nat) -> int {
    char_index_from(t, b, 0)
}

/// Byte offset `b` falls between two characters of `t` (or at an end).
pub open spec fn is_boundary(t: Seq<char>, b: nat) -> bool {
    byte_offset(t, char_index(t, b)) == b
}

/// The text between byte offsets `a` and `b`.
pub open spec fn byte_slice(t: Seq<char>, a: nat, b: nat) -> Seq<char> {
    t.subrange(char_index(t, a), char_index(t, b))
}

/// The segments for runs `m[i..]`, text already covered up to byte `last`:
/// the segments and the new `last`.
pub open spec fn highlight_from(t: Seq<char>, m: Seq<(usize, usize)>, i: int, last: nat) -> (
    Seq<SegmentView>,
    nat,
)
    decreases m.len() - i,
{
    if i < 0 || i >= m.len() {
        (Seq::empty(), last)
    } else {
        let s = min_nat(m[i].0 as nat, byte_len(t));
        let e = min_nat(m[i].1 as nat, byte_len(t));
        if s >= e {
            highlight_from(t, m, i + 1, last)
        } else {
            let before = if s > last && byte_slice(t, last, s).len() > 0 {
                seq![SegmentView::Text(byte_slice(t, last, s))]
            } else {
                Seq::empty()
            };
            let hl = if byte_slice(t, s, e).len() > 0 {
                seq![SegmentView::Highlighted(byte_slice(t, s, e))]
            } else {
                Seq::empty()
            };
            let rest = highlight_from(t, m, i + 1, e);
            (before + hl + rest.0, rest.1)
        }
    }
}

/// The runs whose slices are taken start and end between characters.
pub open spec fn runs_on_boundaries(t: Seq<char>, m: Seq<(usize, usize)>) -> bool {
    forall|i: int|
        0 <= i < m.len() ==> {
            let s = min_nat(#[trigger] m[i].0 as nat, byte_len(t));
            let e = min_nat(m[i].1 as nat, byte_len(t));
            s < e ==> is_boundary(t, s) && is_boundary(t, e)
        }
}

/// What `highlight_matches` answers.
pub open spec fn spec_highlight(t: Seq<char>, positions: Seq<(usize, usize)>) -> Seq<SegmentView> {
    if positions.len() == 0 {
        seq![SegmentView::Text(t)]
    } else {
        let m = merged(sort_by_start(positions));
        let (body, last) = highlight_from(t, m, 0, 0);
        let all = if last < byte_len(t) && byte_slice(t, last, byte_len(t)).len() > 0 {
            body.push(SegmentView::Text(byte_slice(t, last, byte_len(t))))
        } else {
            body
        };
        if all.len() == 0 {
            seq![SegmentView::Text(t)]
        } else {
            all
        }
    }
}

fn sort_positions(positions: &[(usize, usize)]) -> (out: Vec<(usize, usize)>)
    ensures
        out@ == sort_by_start(positions@),
{
    let mut out: Vec<(usize, usize)> = Vec::new();
    let mut i: usize = 0;
    while i < positions.len()
        invariant
            i <= positions@.len(),
            out@ == sort_by_start(positions@.take(i as int)),
        decreases positions.len() - i,
    {
        let x = positions[i];
        let mut j = out.len();
        while j > 0 && out[j - 1].0 > x.0
            invariant
                j <= out@.len(),
                insert_point(out@, x.0, out@.len() as int) == insert_point(out@, x.0, j as int),
            decreases j,
        {
            j = j - 1;
        }
        let ghost before = out@;
        out.insert(j, x);
        proof {
            assert(out@ =~= before.take(j as int) + seq![x] + before.skip(j as int));
            assert(positions@.take(i + 1).drop_last() =~= positions@.take(i as int));
            assert(positions@.take(i + 1).last() == x);
        }
        i = i + 1;
    }
    assert(positions@.take(positions@.len() as int) =~= positions@);
    out
}

fn merge_positions(s: &Vec<(usize, usize)>) -> (out: Vec<(usize, usize)>)
    requires
        s@.len() > 0,
    ensures
        out@ == merged(s@),
{
    let mut out: Vec<(usize, usize)> = Vec::new();
    let mut cs = s[0].0;
    let mut ce = s[0].1;
    let mut i: usize = 1;
    while i < s.len()
        invariant
            1 <= i <= s@.len(),
            merged(s@) == out@ + merge_from(s@, i as int, cs, ce),
        decreases s.len() - i,
    {
        let (a, b) = s[i];
        if a <= ce {
            ce = if ce >= b {
                ce
            } else {
                b
            };
        } else {
            proof {
                assert(merge_from(s@, i as int, cs, ce) == seq![(cs, ce)] + merge_from(
                    s@,
                    i + 1,
                    a,
                    b,
                ));
            }
            out.push((cs, ce));
            proof {
                assert(merged(s@) =~= out@ + merge_from(s@, i + 1, a, b));
            }
            cs = a;
            ce = b;
        }
        i = i + 1;
    }
    out.push((cs, ce));
    assert(merged(s@) =~= out@);
    out
}

/// The character index at byte offset `b`, by the offset table.
fn char_index_exec(offs: &Vec<usize>, b: usize, Ghost(t): Ghost<Seq<char>>) -> (k: usize)
    requires
        offs@.len() == t.len() + 1,
        forall|i: int| 0 <= i <= t.len() ==> #[trigger] offs@[i] == byte_offset(t, i),
    ensures
        k as int == char_index(t, b as nat),
        k <= t.len(),
{
    let mut k: usize = 0;
    while k < offs.len() - 1 && offs[k] < b
        invariant
            k <= t.len(),
            offs@.len() == t.len() + 1,
            forall|i: int| 0 <= i <= t.len() ==> #[trigger] offs@[i] == byte_offset(t, i),
            char_index(t, b as nat) == char_index_from(t, b as nat, k as int),
        decreases t.len() - k,
    {
        k = k + 1;
    }
    k
}

/// Splits `text` into plain and highlighted segments: the byte ranges in
/// `positions` are sorted, overlapping or touching ranges merged, clamped to
/// the text, and each non-empty range becomes a highlighted segment.
pub fn highlight_matches(text: &str, positions: &[(usize, usize)]) -> (r: Vec<MessageSegment>)
    requires
        byte_len(text@) <= usize::MAX,
        positions@.len() > 0 ==> runs_on_boundaries(text@, merged(sort_by_start(positions@))),
    ensures
        segs(r@) == spec_highlight(text@, positions@),
{
    let v = chars_of(text);
    if positions.len() == 0 {
        let mut r: Vec<MessageSegment> = Vec::new();
        r.push(MessageSegment::Text(crate::text::string_from_chars(&v)));
        assert(segs(r@) =~= spec_highlight(text@, positions@));
        return r;
    }
    let offs = byte_offsets(&v);
    let tlen = offs[v.len()];
    proof {
        assert(v@.take(v@.len() as int) =~= v@);
    }
    let sorted = sort_positions(positions);
    let m = merge_positions(&sorted);
    let ghost t = v@;
    let mut segments: Vec<MessageSegment> = Vec::new();
    let mut last: usize = 0;
    let mut i: usize = 0;
    while i < m.len()
        invariant
            t == v@,
            t == text@,
            tlen == byte_len(t),
            offs@.len() == t.len() + 1,
            forall|k: int| 0 <= k <= t.len() ==> #[trigger] offs@[k] == byte_offset(t, k),
            i <= m@.len(),
            m@ == merged(sort_by_start(positions@)),
            runs_on_boundaries(t, m@),
            last <= tlen,
            highlight_from(t, m@, 0, 0) == (
                segs(segments@) + highlight_from(t, m@, i as int, last as nat).0,
                highlight_from(t, m@, i as int, last as nat).1,
            ),
        decreases m.len() - i,
    {
        let (a, b) = m[i];
        let s = if a <= tlen {
            a
        } else {
            tlen
        };
        let e = if b <= tlen {
            b
        } else {
            tlen
        };
        if s >= e {
            i = i + 1;
            continue ;
        }
        let ghost prev = segs(segments@);
        let ghost before_len = segments@.len();
        let ci_last = char_index_exec(&offs, last, Ghost(t));
        let ci_s = char_index_exec(&offs, s, Ghost(t));
        let ci_e = char_index_exec(&offs, e, Ghost(t));
        proof {
            assert(runs_on_boundaries(t, m@));
            assert(m@[i as int] == (a, b));
            if last <= s {
                lemma_char_index_mono(t, last as nat, s as nat, 0);
            }
            lemma_char_index_mono(t, s as nat, e as nat, 0);
        }
        if s > last && ci_last < ci_s {
            segments.push(MessageSegment::Text(string_from_range(&v, ci_last, ci_s)));
        }
        if ci_s < ci_e {
            segments.push(MessageSegment::Highlighted(string_from_range(&v, ci_s, ci_e)));
        }
        proof {
            let before = if s > last && byte_slice(t, last as nat, s as nat).len() > 0 {
                seq![SegmentView::Text(byte_slice(t, last as nat, s as nat))]
            } else {
                Seq::empty()
            };
            let hl = if byte_slice(t, s as nat, e as nat).len() > 0 {
                seq![SegmentView::Highlighted(byte_slice(t, s as nat, e as nat))]
            } else {
                Seq::empty()
            };
            assert(segs(segments@) =~= prev + before + hl);
        }
        last = e;
        i = i + 1;
    }
    let ci_last = char_index_exec(&offs, last, Ghost(t));
    if last < tlen && ci_last < v.len() {
        segments.push(MessageSegment::Text(string_from_range(&v, ci_last, v.len())));
    }
    proof {
        assert(char_index(t, byte_len(t)) == t.len()) by {
            lemma_char_index_end(t);
        }
    }
    if segments.len() == 0 {
        segments.push(MessageSegment::Text(crate::text::string_from_chars(&v)));
    }
    assert(segs(segments@) =~= spec_highlight(text@, positions@));
    segments
}

/// The byte length of the whole text is at the last character index.
pub proof fn lemma_char_index_end(t: Seq<char>)
    ensures
        char_index(t, byte_len(t)) == t.len(),
{
    assert forall|k: int| 0 <= k < t.len() implies byte_offset(t, k) < byte_len(t) by {
        crate::text::lemma_byte_offset_mono(t, k, t.len() as int);
    }
    lemma_char_index_from_below(t, byte_len(t), 0);
}

/// A larger byte offset never maps to an earlier character index.
pub proof fn lemma_char_index_mono(t: Seq<char>, b1: nat, b2: nat, k: int)
    requires
        b1 <= b2,
        0 <= k <= t.len(),
    ensures
        k <= char_index_from(t, b1, k) <= char_index_from(t, b2, k) <= t.len(),
    decreases t.len() - k,
{
    if k < t.len() {
        lemma_char_index_mono(t, b1, b2, k + 1);
    }
}

proof fn lemma_char_index_from_below(t: Seq<char>, b: nat, k: int)
    requires
        0 <= k <= t.len(),
        forall|j: int| 0 <= j < t.len() ==> byte_offset(t, j) < b,
    ensures
        char_index_from(t, b, k) == t.len(),
    decreases t.len() - k,
{
    if k < t.len() {
        lemma_char_index_from_below(t, b, k + 1);
    }
}

// ---------------------------------------------------------------------------
// Laws
// ---------------------------------------------------------------------------

/// The text a segment shows.
pub open spec fn seg_text(s: SegmentView) -> Seq<char> {
    match s {
        SegmentView::Text(x) => x,
        SegmentView::CodeBlock { code, .. } => code,
        SegmentView::InlineCode(x) => x,
        SegmentView::Bold(x) => x,
        SegmentView::Italic(x) => x,
        SegmentView::ListItem(x) => x,
        SegmentView::Highlighted(x) => x,
    }
}

/// The texts of segments, one after the other.
pub open spec fn flatten(v: Seq<SegmentView>) -> Seq<char>
    decreases v.len(),
{
    if v.len() == 0 {
        Seq::empty()
    } else {
        flatten(v.drop_last()) + seg_text(v.last())
    }
}

pub proof fn lemma_flatten_concat(a: Seq<SegmentView>, b: Seq<SegmentView>)
    ensures
        flatten(a + b) == flatten(a) + flatten(b),
    decreases b.len(),
{
    if b.len() == 0 {
        assert(a + b =~= a);
        assert(flatten(b) =~= Seq::<char>::empty());
        assert(flatten(a) + flatten(b) =~= flatten(a));
    } else {
        lemma_flatten_concat(a, b.drop_last());
        assert((a + b).drop_last() =~= a + b.drop_last());
        assert((a + b).last() == b.last());
        assert(flatten(a + b) =~= flatten(a) + flatten(b));
    }
}

proof fn lemma_flatten_one(x: SegmentView)
    ensures
        flatten(seq![x]) == seg_text(x),
{
    assert(seq![x].drop_last() =~= Seq::<SegmentView>::empty());
    assert(flatten(Seq::<SegmentView>::empty()) =~= Seq::<char>::empty());
    assert(flatten(seq![x]) =~= seg_text(x));
}

/// Starts sorted: no position starts before an earlier one.
pub open spec fn sorted_by_start(s: Seq<(usize, usize)>) -> bool {
    forall|i: int, j: int| 0 <= i < j < s.len() ==> s[i].0 <= s[j].0
}

/// Each run starts after the end of every earlier run.
pub open spec fn separated(m: Seq<(usize, usize)>) -> bool {
    forall|i: int, j: int| 0 <= i < j < m.len() ==> m[i].1 < m[j].0
}

proof fn lemma_insert_point(s: Seq<(usize, usize)>, k: usize, j: int)
    requires
        0 <= j <= s.len(),
        sorted_by_start(s),
        forall|x: int| j <= x < s.len() ==> s[x].0 > k,
    ensures
        0 <= insert_point(s, k, j) <= j,
        forall|x: int| 0 <= x < insert_point(s, k, j) ==> s[x].0 <= k,
        forall|x: int| insert_point(s, k, j) <= x < s.len() ==> s[x].0 > k,
    decreases j,
{
    if 0 < j && s[j - 1].0 > k {
        lemma_insert_point(s, k, j - 1);
    }
}

proof fn lemma_sort_by_start(s: Seq<(usize, usize)>)
    ensures
        sorted_by_start(sort_by_start(s)),
        sort_by_start(s).len() == s.len(),
    decreases s.len(),
{
    if s.len() > 0 {
        let r = sort_by_start(s.drop_last());
        lemma_sort_by_start(s.drop_last());
        let x = s.last();
        lemma_insert_point(r, x.0, r.len() as int);
        let j = insert_point(r, x.0, r.len() as int);
        let out = r.take(j) + seq![x] + r.skip(j);
        assert forall|a: int, b: int| 0 <= a < b < out.len() implies out[a].0 <= out[b].0 by {
            if b < j {
                assert(out[a] == r[a] && out[b] == r[b]);
            } else if b == j {
                assert(out[a] == r[a]);
            } else if a < j {
                assert(out[a] == r[a] && out[b] == r[b - 1]);
            } else if a == j {
                assert(out[b] == r[b - 1]);
            } else {
                assert(out[a] == r[a - 1] && out[b] == r[b - 1]);
            }
        }
    }
}

proof fn lemma_merge_from(s: Seq<(usize, usize)>, i: int, cs: usize, ce: usize)
    requires
        1 <= i <= s.len(),
        sorted_by_start(s),
        forall|k: int| i <= k < s.len() ==> s[k].0 >= cs,
    ensures
        merge_from(s, i, cs, ce).len() > 0,
        merge_from(s, i, cs, ce)[0].0 == cs,
        merge_from(s, i, cs, ce)[0].1 >= ce,
        forall|k: int| 0 <= k < merge_from(s, i, cs, ce).len() ==> #[trigger] merge_from(
            s,
            i,
            cs,
            ce,
        )[k].0 >= cs,
        separated(merge_from(s, i, cs, ce)),
    decreases s.len() - i,
{
    if i < s.len() {
        if s[i].0 <= ce {
            lemma_merge_from(s, i + 1, cs, max_usize(ce, s[i].1));
        } else {
            lemma_merge_from(s, i + 1, s[i].0, s[i].1);
            let rest = merge_from(s, i + 1, s[i].0, s[i].1);
            let r = merge_from(s, i, cs, ce);
            assert(r == seq![(cs, ce)] + rest);
            assert forall|a: int, b: int| 0 <= a < b < r.len() implies r[a].1 < r[b].0 by {
                assert(r[b] == rest[b - 1]);
                if a > 0 {
                    assert(r[a] == rest[a - 1]);
                }
            }
            assert forall|k: int| 0 <= k < r.len() implies #[trigger] r[k].0 >= cs by {
                if k > 0 {
                    assert(r[k] == rest[k - 1]);
                }
            }
        }
    }
}

proof fn lemma_byte_slice_concat(t: Seq<char>, a: nat, b: nat, c: nat)
    requires
        a <= b <= c,
    ensures
        byte_slice(t, a, b) + byte_slice(t, b, c) == byte_slice(t, a, c),
{
    lemma_char_index_mono(t, a, b, 0);
    lemma_char_index_mono(t, b, c, 0);
    assert(byte_slice(t, a, b) + byte_slice(t, b, c) =~= byte_slice(t, a, c));
}

proof fn lemma_highlight_from(t: Seq<char>, m: Seq<(usize, usize)>, i: int, last: nat)
    requires
        0 <= i,
        separated(m),
        runs_on_boundaries(t, m),
        last <= byte_len(t),
        forall|j: int| i <= j < m.len() ==> min_nat(#[trigger] m[j].0 as nat, byte_len(t)) >= last,
    ensures
        last <= highlight_from(t, m, i, last).1 <= byte_len(t),
        flatten(highlight_from(t, m, i, last).0) == byte_slice(
            t,
            last,
            highlight_from(t, m, i, last).1,
        ),
    decreases m.len() - i,
{
    lemma_char_index_mono(t, last, last, 0);
    if i >= m.len() {
        assert(byte_slice(t, last, last) =~= Seq::<char>::empty());
    } else {
        let s = min_nat(m[i].0 as nat, byte_len(t));
        let e = min_nat(m[i].1 as nat, byte_len(t));
        if s >= e {
            lemma_highlight_from(t, m, i + 1, last);
        } else {
            assert forall|j: int| i + 1 <= j < m.len() implies min_nat(
                #[trigger] m[j].0 as nat,
                byte_len(t),
            ) >= e by {
                assert(m[i].1 < m[j].0);
            }
            lemma_highlight_from(t, m, i + 1, e);
            let before = if s > last && byte_slice(t, last, s).len() > 0 {
                seq![SegmentView::Text(byte_slice(t, last, s))]
            } else {
                Seq::empty()
            };
            let hl = if byte_slice(t, s, e).len() > 0 {
                seq![SegmentView::Highlighted(byte_slice(t, s, e))]
            } else {
                Seq::empty()
            };
            let rest = highlight_from(t, m, i + 1, e);
            assert(flatten(before) == byte_slice(t, last, s)) by {
                if s > last && byte_slice(t, last, s).len() > 0 {
                    lemma_flatten_one(SegmentView::Text(byte_slice(t, last, s)));
                } else {
                    lemma_char_index_mono(t, last, s, 0);
                    assert(byte_slice(t, last, s) =~= Seq::<char>::empty());
                }
            }
            assert(flatten(hl) == byte_slice(t, s, e)) by {
                if byte_slice(t, s, e).len() > 0 {
                    lemma_flatten_one(SegmentView::Highlighted(byte_slice(t, s, e)));
                } else {
                    assert(byte_slice(t, s, e) =~= Seq::<char>::empty());
                }
            }
            lemma_flatten_concat(before, hl);
            lemma_flatten_concat(before + hl, rest.0);
            lemma_byte_slice_concat(t, last, s, e);
            lemma_byte_slice_concat(t, last, e, rest.1);
        }
    }
}

/// Highlighting never loses or repeats text: the segments of
/// `highlight_matches`, read in order, spell the text back.
pub proof fn law_highlight_covers_text(t: Seq<char>, positions: Seq<(usize, usize)>)
    requires
        positions.len() > 0 ==> runs_on_boundaries(t, merged(sort_by_start(positions))),
    ensures
        flatten(spec_highlight(t, positions)) == t,
{
    if positions.len() == 0 {
        lemma_flatten_one(SegmentView::Text(t));
    } else {
        let sorted = sort_by_start(positions);
        lemma_sort_by_start(positions);
        lemma_merge_from(sorted, 1, sorted[0].0, sorted[0].1);
        let m = merged(sorted);
        lemma_highlight_from(t, m, 0, 0);
        let (body, last) = highlight_from(t, m, 0, 0);
        let len = byte_len(t);
        lemma_char_index_end(t);
        assert(byte_slice(t, 0, len) =~= t);
        lemma_byte_slice_concat(t, 0, last, len);
        let all = if last < len && byte_slice(t, last, len).len() > 0 {
            body.push(SegmentView::Text(byte_slice(t, last, len)))
        } else {
            body
        };
        if last < len && byte_slice(t, last, len).len() > 0 {
            lemma_flatten_one(SegmentView::Text(byte_slice(t, last, len)));
            lemma_flatten_concat(body, seq![SegmentView::Text(byte_slice(t, last, len))]);
            assert(all =~= body + seq![SegmentView::Text(byte_slice(t, last, len))]);
        } else {
            assert(byte_slice(t, last, len) =~= Seq::<char>::empty());
            assert(byte_slice(t, 0, last) =~= t);
        }
        if all.len() == 0 {
            lemma_flatten_one(SegmentView::Text(t));
        }
    }
}

/// A message always yields at least one segment.
pub proof fn law_parse_message_nonempty(t: Seq<char>)
    ensures
        spec_parse_message(t).len() > 0,
{
}

// ---------------------------------------------------------------------------
// Laws on code blocks and highlights
// ---------------------------------------------------------------------------

/// No segment is a code block.
pub open spec fn no_code_block(v: Seq<SegmentView>) -> bool {
    forall|i: int| 0 <= i < v.len() ==> !(#[trigger] v[i] is CodeBlock)
}

proof fn lemma_no_code_concat(a: Seq<SegmentView>, b: Seq<SegmentView>)
    requires
        no_code_block(a),
        no_code_block(b),
    ensures
        no_code_block(a + b),
{
    assert forall|i: int| 0 <= i < (a + b).len() implies !(#[trigger] (a + b)[i] is CodeBlock) by {
        if i < a.len() {
            assert((a + b)[i] == a[i]);
        } else {
            assert((a + b)[i] == b[i - a.len()]);
        }
    }
}

proof fn lemma_italic_loop_no_code(t: Seq<char>, p: int, last: int)
    ensures
        no_code_block(italic_loop(t, p, last).0),
    decreases t.len() - p,
{
    if 0 <= p <= t.len() {
        match italic_from(t, p) {
            None => {},
            Some((s, e)) => {
                lemma_italic_from(t, p);
                if italic_skipped(t, s, e) {
                    lemma_italic_loop_no_code(t, e + 1, last);
                } else {
                    lemma_italic_loop_no_code(t, e + 1, e + 1);
                    let pre = if s > last {
                        seq![SegmentView::Text(t.subrange(last, s))]
                    } else {
                        Seq::empty()
                    };
                    let r = italic_loop(t, e + 1, e + 1);
                    lemma_no_code_concat(pre, seq![SegmentView::Italic(t.subrange(s + 1, e))]);
                    lemma_no_code_concat(pre + seq![SegmentView::Italic(t.subrange(s + 1, e))], r.0);
                }
            },
        }
    }
}

proof fn lemma_italic_no_code(t: Seq<char>)
    ensures
        no_code_block(spec_parse_italic(t)),
{
    lemma_italic_loop_no_code(t, 0, 0);
    let r = italic_loop(t, 0, 0);
    if r.1 < t.len() {
        lemma_no_code_concat(r.0, seq![SegmentView::Text(t.subrange(r.1, t.len() as int))]);
        assert(r.0.push(SegmentView::Text(t.subrange(r.1, t.len() as int))) =~= r.0 + seq![
            SegmentView::Text(t.subrange(r.1, t.len() as int)),
        ]);
    }
}

proof fn lemma_bold_loop_no_code(t: Seq<char>, p: int, last: int)
    ensures
        no_code_block(bold_loop(t, p, last).0),
    decreases t.len() - p,
{
    if 0 <= p <= t.len() {
        match bold_from(t, p) {
            None => {},
            Some((s, e)) => {
                lemma_bold_from(t, p);
                lemma_bold_loop_no_code(t, e + 2, e + 2);
                let pre = if s > last {
                    spec_parse_italic(t.subrange(last, s))
                } else {
                    Seq::empty()
                };
                if s > last {
                    lemma_italic_no_code(t.subrange(last, s));
                }
                let r = bold_loop(t, e + 2, e + 2);
                lemma_no_code_concat(pre, seq![SegmentView::Bold(t.subrange(s + 2, e))]);
                lemma_no_code_concat(pre + seq![SegmentView::Bold(t.subrange(s + 2, e))], r.0);
            },
        }
    }
}

proof fn lemma_bold_italic_no_code(t: Seq<char>)
    ensures
        no_code_block(spec_parse_bold_italic(t)),
{
    lemma_bold_loop_no_code(t, 0, 0);
    let r = bold_loop(t, 0, 0);
    if r.1 < t.len() {
        lemma_italic_no_code(t.subrange(r.1, t.len() as int));
        lemma_no_code_concat(r.0, spec_parse_italic(t.subrange(r.1, t.len() as int)));
    }
}

proof fn lemma_inline_loop_no_code(t: Seq<char>, p: int, last: int)
    ensures
        no_code_block(inline_loop(t, p, last).0),
    decreases t.len() - p,
{
    if 0 <= p <= t.len() {
        match inline_code_from(t, p) {
            None => {},
            Some((s, e)) => {
                lemma_inline_code_from(t, p);
                lemma_inline_loop_no_code(t, e + 1, e + 1);
                let pre = if s > last {
                    spec_parse_bold_italic(t.subrange(last, s))
                } else {
                    Seq::empty()
                };
                if s > last {
                    lemma_bold_italic_no_code(t.subrange(last, s));
                }
                let r = inline_loop(t, e + 1, e + 1);
                lemma_no_code_concat(pre, seq![SegmentView::InlineCode(t.subrange(s + 1, e))]);
                lemma_no_code_concat(pre + seq![SegmentView::InlineCode(t.subrange(s + 1, e))], r.0);
            },
        }
    }
}

proof fn lemma_line_no_code(t: Seq<char>)
    ensures
        no_code_block(spec_line_segments(t)),
{
    lemma_inline_loop_no_code(t, 0, 0);
    let r = inline_loop(t, 0, 0);
    if r.1 < t.len() {
        lemma_bold_italic_no_code(t.subrange(r.1, t.len() as int));
        lemma_no_code_concat(r.0, spec_parse_bold_italic(t.subrange(r.1, t.len() as int)));
    }
}

proof fn lemma_formatting_no_code(ls: Seq<Seq<char>>, i: int)
    ensures
        no_code_block(formatting_from(ls, i)),
    decreases ls.len() - i,
{
    if 0 <= i < ls.len() {
        lemma_formatting_no_code(ls, i + 1);
        if is_list_line(ls[i]) {
            lemma_no_code_concat(seq![SegmentView::ListItem(list_item_text(ls[i]))], formatting_from(ls, i + 1));
        } else {
            lemma_line_no_code(ls[i]);
            let nl = if i < ls.len() - 1 {
                seq![SegmentView::Text("\n"@)]
            } else {
                Seq::empty()
            };
            lemma_no_code_concat(spec_line_segments(ls[i]), nl);
            lemma_no_code_concat(spec_line_segments(ls[i]) + nl, formatting_from(ls, i + 1));
        }
    }
}

/// The code blocks among some segments, in order.
pub open spec fn code_blocks(v: Seq<SegmentView>) -> Seq<SegmentView>
    decreases v.len(),
{
    if v.len() == 0 {
        Seq::empty()
    } else {
        (if v[0] is CodeBlock {
            seq![v[0]]
        } else {
            Seq::empty()
        }) + code_blocks(v.drop_first())
    }
}

proof fn lemma_code_blocks_concat(a: Seq<SegmentView>, b: Seq<SegmentView>)
    ensures
        code_blocks(a + b) == code_blocks(a) + code_blocks(b),
    decreases a.len(),
{
    if a.len() == 0 {
        assert(a + b =~= b);
        assert(code_blocks(a) + code_blocks(b) =~= code_blocks(b));
    } else {
        lemma_code_blocks_concat(a.drop_first(), b);
        assert((a + b).drop_first() =~= a.drop_first() + b);
        assert((a + b)[0] == a[0]);
        let h = if a[0] is CodeBlock {
            seq![a[0]]
        } else {
            Seq::<SegmentView>::empty()
        };
        assert(h + (code_blocks(a.drop_first()) + code_blocks(b)) =~= (h + code_blocks(
            a.drop_first(),
        )) + code_blocks(b));
    }
}

proof fn lemma_no_code_blocks(v: Seq<SegmentView>)
    requires
        no_code_block(v),
    ensures
        code_blocks(v) == Seq::<SegmentView>::empty(),
    decreases v.len(),
{
    if v.len() > 0 {
        assert(!(v[0] is CodeBlock));
        assert forall|i: int| 0 <= i < v.drop_first().len() implies !(#[trigger] v.drop_first()[i] is CodeBlock) by {
            assert(v.drop_first()[i] == v[i + 1]);
        }
        lemma_no_code_blocks(v.drop_first());
        assert(Seq::<SegmentView>::empty() + Seq::<SegmentView>::empty() =~= Seq::<SegmentView>::empty());
    }
}

/// The fenced blocks of a message, found scanning left to right from `p`,
/// each after the end of the one before: each its language (the word after
/// the opening fence, if any) and its code.
pub open spec fn fenced_blocks(t: Seq<char>, p: int) -> Seq<SegmentView>
    decreases t.len() - p,
{
    if p < 0 || p > t.len() {
        Seq::empty()
    } else {
        match block_from(t, p) {
            None => Seq::empty(),
            Some(s) => {
                proof {
                    lemma_block_from(t, p);
                    lemma_block_parts(t, s);
                }
                let (a, b, c, end) = block_parts(t, s).unwrap();
                seq![
                    SegmentView::CodeBlock {
                        language: if a > s + 3 {
                            Some(t.subrange(s + 3, a))
                        } else {
                            None
                        },
                        code: t.subrange(b, c),
                    },
                ] + fenced_blocks(t, end)
            },
        }
    }
}

proof fn lemma_message_loop_blocks(t: Seq<char>, p: int, cur: int)
    ensures
        code_blocks(message_loop(t, p, cur).0) == fenced_blocks(t, p),
    decreases t.len() - p,
{
    if 0 <= p <= t.len() {
        match block_from(t, p) {
            None => {},
            Some(s) => {
                lemma_block_from(t, p);
                lemma_block_parts(t, s);
                let (a, b, c, end) = block_parts(t, s).unwrap();
                lemma_message_loop_blocks(t, end, end);
                let pre = if cur < s {
                    spec_parse_inline_formatting(t.subrange(cur, s))
                } else {
                    Seq::empty()
                };
                if cur < s {
                    lemma_formatting_no_code(lines(t.subrange(cur, s)), 0);
                }
                lemma_no_code_blocks(pre);
                let blk = seq![block_view(t, s, a, b, c)];
                let r = message_loop(t, end, end);
                lemma_code_blocks_concat(pre, blk);
                lemma_code_blocks_concat(pre + blk, r.0);
                assert(blk.drop_first() =~= Seq::<SegmentView>::empty());
                assert(code_blocks(Seq::<SegmentView>::empty()) == Seq::<SegmentView>::empty());
                assert(blk[0] is CodeBlock);
                assert(code_blocks(blk) =~= blk);
                assert(Seq::<SegmentView>::empty() + blk =~= blk);
            },
        }
    }
}

/// Every complete fenced block of a message becomes its own code block
/// segment, in order, with its language and code: the code blocks among
/// the segments of `parse_message` are exactly the fenced blocks found
/// scanning the message left to right, each after the end of the one
/// before. No other segment is a code block.
pub proof fn law_each_fenced_block_is_a_code_block(t: Seq<char>)
    ensures
        code_blocks(spec_parse_message(t)) == fenced_blocks(t, 0),
{
    lemma_message_loop_blocks(t, 0, 0);
    let r = message_loop(t, 0, 0);
    let all = if r.1 < t.len() {
        r.0 + spec_parse_inline_formatting(t.subrange(r.1, t.len() as int))
    } else {
        r.0
    };
    if r.1 < t.len() {
        let rest = spec_parse_inline_formatting(t.subrange(r.1, t.len() as int));
        lemma_formatting_no_code(lines(t.subrange(r.1, t.len() as int)), 0);
        lemma_no_code_blocks(rest);
        lemma_code_blocks_concat(r.0, rest);
        assert(code_blocks(r.0) + Seq::<SegmentView>::empty() =~= code_blocks(r.0));
    }
    if all.len() == 0 {
        assert(r.0.len() == 0);
        assert(code_blocks(r.0) =~= Seq::<SegmentView>::empty());
        let one = seq![SegmentView::Text(t)];
        assert(one.drop_first() =~= Seq::<SegmentView>::empty());
        assert(code_blocks(Seq::<SegmentView>::empty()) == Seq::<SegmentView>::empty());
        assert(!(one[0] is CodeBlock));
        assert(code_blocks(one) =~= Seq::<SegmentView>::empty());
    }
}

/// The texts of the highlighted segments among some segments, in order.
pub open spec fn highlighted(v: Seq<SegmentView>) -> Seq<Seq<char>>
    decreases v.len(),
{
    if v.len() == 0 {
        Seq::empty()
    } else {
        (match v[0] {
            SegmentView::Highlighted(x) => seq![x],
            _ => Seq::empty(),
        }) + highlighted(v.drop_first())
    }
}

proof fn lemma_highlighted_concat(a: Seq<SegmentView>, b: Seq<SegmentView>)
    ensures
        highlighted(a + b) == highlighted(a) + highlighted(b),
    decreases a.len(),
{
    if a.len() == 0 {
        assert(a + b =~= b);
        assert(highlighted(a) + highlighted(b) =~= highlighted(b));
    } else {
        lemma_highlighted_concat(a.drop_first(), b);
        assert((a + b).drop_first() =~= a.drop_first() + b);
        assert((a + b)[0] == a[0]);
        let h = match a[0] {
            SegmentView::Highlighted(x) => seq![x],
            _ => Seq::<Seq<char>>::empty(),
        };
        assert(h + (highlighted(a.drop_first()) + highlighted(b)) =~= (h + highlighted(
            a.drop_first(),
        )) + highlighted(b));
    }
}

proof fn lemma_highlighted_one(x: SegmentView)
    ensures
        highlighted(seq![x]) == (match x {
            SegmentView::Highlighted(y) => seq![y],
            _ => Seq::<Seq<char>>::empty(),
        }),
{
    assert(seq![x].drop_first() =~= Seq::<SegmentView>::empty());
    assert(seq![x][0] == x);
    assert(highlighted(Seq::<SegmentView>::empty()) == Seq::<Seq<char>>::empty());
    let h = match x {
        SegmentView::Highlighted(y) => seq![y],
        _ => Seq::<Seq<char>>::empty(),
    };
    assert(h + Seq::<Seq<char>>::empty() =~= h);
}

/// The slices of text that runs `m[i..]` cover, each run clamped to the
/// text and kept when its slice is not empty.
pub open spec fn run_slices(t: Seq<char>, m: Seq<(usize, usize)>, i: int) -> Seq<Seq<char>>
    decreases m.len() - i,
{
    if i < 0 || i >= m.len() {
        Seq::empty()
    } else {
        let s = min_nat(m[i].0 as nat, byte_len(t));
        let e = min_nat(m[i].1 as nat, byte_len(t));
        if s < e && byte_slice(t, s, e).len() > 0 {
            seq![byte_slice(t, s, e)] + run_slices(t, m, i + 1)
        } else {
            run_slices(t, m, i + 1)
        }
    }
}

proof fn lemma_highlight_from_slices(t: Seq<char>, m: Seq<(usize, usize)>, i: int, last: nat)
    ensures
        highlighted(highlight_from(t, m, i, last).0) == run_slices(t, m, i),
    decreases m.len() - i,
{
    if 0 <= i < m.len() {
        let s = min_nat(m[i].0 as nat, byte_len(t));
        let e = min_nat(m[i].1 as nat, byte_len(t));
        if s >= e {
            lemma_highlight_from_slices(t, m, i + 1, last);
        } else {
            lemma_highlight_from_slices(t, m, i + 1, e);
            let before = if s > last && byte_slice(t, last, s).len() > 0 {
                seq![SegmentView::Text(byte_slice(t, last, s))]
            } else {
                Seq::empty()
            };
            let hl = if byte_slice(t, s, e).len() > 0 {
                seq![SegmentView::Highlighted(byte_slice(t, s, e))]
            } else {
                Seq::empty()
            };
            let rest = highlight_from(t, m, i + 1, e);
            lemma_highlighted_concat(before, hl);
            lemma_highlighted_concat(before + hl, rest.0);
            if s > last && byte_slice(t, last, s).len() > 0 {
                lemma_highlighted_one(SegmentView::Text(byte_slice(t, last, s)));
            }
            if byte_slice(t, s, e).len() > 0 {
                lemma_highlighted_one(SegmentView::Highlighted(byte_slice(t, s, e)));
            }
            assert(highlighted(before) =~= Seq::<Seq<char>>::empty());
            assert(Seq::<Seq<char>>::empty() + highlighted(hl) =~= highlighted(hl));
        }
    }
}

/// Each merged search run, clamped to the text, whose slice is not empty
/// becomes a highlighted segment holding exactly that slice, in order; no
/// other text is highlighted.
pub proof fn law_highlights_are_the_runs(t: Seq<char>, positions: Seq<(usize, usize)>)
    ensures
        positions.len() == 0 ==> highlighted(spec_highlight(t, positions)) == Seq::<Seq<char>>::empty(),
        positions.len() > 0 ==> highlighted(spec_highlight(t, positions)) == run_slices(
            t,
            merged(sort_by_start(positions)),
            0,
        ),
{
    lemma_highlighted_one(SegmentView::Text(t));
    if positions.len() > 0 {
        let m = merged(sort_by_start(positions));
        lemma_highlight_from_slices(t, m, 0, 0);
        let (body, last) = highlight_from(t, m, 0, 0);
        let len = byte_len(t);
        if last < len && byte_slice(t, last, len).len() > 0 {
            let x = SegmentView::Text(byte_slice(t, last, len));
            lemma_highlighted_one(x);
            lemma_highlighted_concat(body, seq![x]);
            assert(body.push(x) =~= body + seq![x]);
            assert(highlighted(body) + Seq::<Seq<char>>::empty() =~= highlighted(body));
        }
        let all = if last < len && byte_slice(t, last, len).len() > 0 {
            body.push(SegmentView::Text(byte_slice(t, last, len)))
        } else {
            body
        };
        if all.len() == 0 {
            assert(body.len() == 0);
            assert(highlighted(body) =~= Seq::<Seq<char>>::empty());
        }
    }
}

} // verus!
