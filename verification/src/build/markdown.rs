//! The Markdown of assistant messages: the blocks of a message, the inline
//! code spans of a line, and a trailing list of changed file paths.

use vstd::prelude::*;
use vstd::slice::{slice_subrange, slice_to_vec};
use crate::text::{
    chars_of, eq_str, find_char_from, find_first, first_at, has_char, is_digit,
    occurs_at, push_chars, push_str, split, split_char, starts_with,
    starts_with_str, string_of, trim, trim_end, trim_start, trimmed, trimmed_start, views,
};

verus! {

/// An inline code span: the positions (in characters) of its opening
/// backtick and just past its closing one, and what stands between.
#[derive(Debug, Clone)]
pub struct CodeSpan {
    pub start: usize,
    pub end: usize,
    pub content: String,
}

pub struct SpanView {
    pub start: int,
    pub end: int,
    pub content: Seq<char>,
}

impl View for CodeSpan {
    type V = SpanView;

    open spec fn view(&self) -> SpanView {
        SpanView { start: self.start as int, end: self.end as int, content: self.content@ }
    }
}

pub open spec fn span_views(v: Seq<CodeSpan>) -> Seq<SpanView> {
    v.map_values(|c: CodeSpan| c@)
}

/// The code spans from position `i` on: each opening backtick pairs with
/// the next one; an unpaired backtick ends the search.
pub open spec fn spans_from(s: Seq<char>, i: int) -> Seq<SpanView>
    decreases s.len() - i,
{
    if i < 0 || i >= s.len() {
        Seq::empty()
    } else {
        match find_char_from(s, '`', i) {
            None => Seq::empty(),
            Some(c) => match find_char_from(s, '`', c + 1) {
                None => Seq::empty(),
                Some(e) => if e + 1 <= i || e >= s.len() {
                    Seq::empty()
                } else {
                    seq![SpanView { start: c, end: e + 1, content: s.subrange(c + 1, e) }]
                        + spans_from(s, e + 1)
                },
            },
        }
    }
}

fn find_char_at(s: &[char], c: char, from: usize) -> (r: Option<usize>)
    ensures
        match r {
            Some(j) => find_char_from(s@, c, from as int) == Some(j as int) && from <= j < s.len(),
            None => find_char_from(s@, c, from as int) is None,
        },
{
    let mut i = from;
    while i < s.len()
        invariant
            from <= i,
            find_char_from(s@, c, from as int) == find_char_from(s@, c, i as int),
        decreases s.len() - i,
    {
        if s[i] == c {
            return Some(i);
        }
        i = i + 1;
    }
    None
}

/// The inline code spans of the text (`spans_from` the start).
pub fn parse_code_spans(text: &str) -> (r: Vec<CodeSpan>)
    ensures
        span_views(r@) == spans_from(text@, 0),
        forall|k: int| 0 <= k < r.len() ==> #[trigger] r@[k].start < r@[k].end <= text@.len(),
        forall|k: int| 0 <= k < r.len() - 1 ==> #[trigger] r@[k].end <= r@[k + 1].start,
{
    let s = chars_of(text);
    let mut out: Vec<CodeSpan> = Vec::new();
    let mut i: usize = 0;
    let mut done = false;
    assert(span_views(out@) + spans_from(s@, 0) =~= spans_from(s@, 0));
    while i < s.len() && !done
        invariant
            i <= s.len(),
            s@ == text@,
            !done ==> span_views(out@) + spans_from(s@, i as int) == spans_from(s@, 0),
            done ==> span_views(out@) == spans_from(s@, 0),
            forall|k: int| 0 <= k < out.len() ==> #[trigger] out@[k].start < out@[k].end <= s@.len(),
            forall|k: int| 0 <= k < out.len() ==> #[trigger] out@[k].end <= i,
            forall|k: int| 0 <= k < out.len() - 1 ==> #[trigger] out@[k].end <= out@[k + 1].start,
        decreases s.len() - i + (if done { 0int } else { 1int }),
    {
        match find_char_at(&s, '`', i) {
            None => {
                assert(span_views(out@) + Seq::<SpanView>::empty() =~= span_views(out@));
                done = true;
            },
            Some(c) => match find_char_at(&s, '`', c + 1) {
                None => {
                    assert(span_views(out@) + Seq::<SpanView>::empty() =~= span_views(out@));
                    done = true;
                },
                Some(e) => {
                    let content = slice_to_vec(slice_subrange(s.as_slice(), c + 1, e));
                    assert(content@ =~= s@.subrange(c + 1, e as int));
                    let sp = CodeSpan { start: c, end: e + 1, content: string_of(&content) };
                    let ghost before = span_views(out@);
                    out.push(sp);
                    assert(span_views(out@) =~= before.push(sp@));
                    assert(span_views(out@) + spans_from(s@, e + 1) =~= before + spans_from(
                        s@,
                        i as int,
                    ));
                    i = e + 1;
                },
            },
        }
    }
    proof {
        if !done {
            assert(spans_from(s@, i as int) =~= Seq::<SpanView>::empty());
            assert(span_views(out@) + Seq::<SpanView>::empty() =~= span_views(out@));
        }
    }
    out
}

/// The number of bytes of the UTF-8 encoding of the text (`str::len`).
pub open spec fn utf8_len(s: Seq<char>) -> nat
    decreases s.len(),
{
    if s.len() == 0 {
        0
    } else {
        utf8_len(s.drop_last()) + if (s.last() as u32) < 0x80 {
            1nat
        } else if (s.last() as u32) < 0x800 {
            2nat
        } else if (s.last() as u32) < 0x10000 {
            3nat
        } else {
            4nat
        }
    }
}

/// Whether the UTF-8 encoding of the text is longer than `max` bytes.
fn utf8_longer_than(s: &[char], max: usize) -> (r: bool)
    ensures
        r == (utf8_len(s@) > max),
{
    let mut n: usize = 0;
    let mut i: usize = 0;
    assert(s@.take(0) =~= Seq::<char>::empty());
    while i < s.len()
        invariant
            i <= s.len(),
            n == utf8_len(s@.take(i as int)),
            n <= max,
        decreases s.len() - i,
    {
        assert(s@.take(i + 1).drop_last() =~= s@.take(i as int));
        let u = s[i] as u32;
        let w: usize = if u < 0x80 {
            1
        } else if u < 0x800 {
            2
        } else if u < 0x10000 {
            3
        } else {
            4
        };
        if w > max - n {
            proof {
                lemma_utf8_len_prefix(s@, i + 1);
            }
            return true;
        }
        n = n + w;
        i = i + 1;
    }
    assert(s@.take(s.len() as int) =~= s@);
    false
}

proof fn lemma_utf8_len_prefix(s: Seq<char>, k: int)
    requires
        0 <= k <= s.len(),
    ensures
        utf8_len(s.take(k)) <= utf8_len(s),
    decreases s.len(),
{
    if k < s.len() {
        assert(s.drop_last().take(k) =~= s.take(k));
        lemma_utf8_len_prefix(s.drop_last(), k);
    } else {
        assert(s.take(k) =~= s);
    }
}

pub open spec fn is_hex_or_dot(c: char) -> bool {
    ('0' <= c && c <= '9') || ('a' <= c && c <= 'f') || ('A' <= c && c <= 'F') || c == '.'
}

/// A code span that reads as a file path: not empty, at most 260 bytes,
/// one line, with a path separator, or a dot and something besides hex
/// digits and dots (so a short commit hash is no path).
pub open spec fn path_like(s: Seq<char>) -> bool {
    &&& s.len() > 0
    &&& utf8_len(s) <= 260
    &&& !has_char(s, '\n')
    &&& (has_char(s, '/') || has_char(s, '\\') || (has_char(s, '.') && !(forall|i: int|
        0 <= i < s.len() ==> is_hex_or_dot(#[trigger] s[i]))))
}

/// Whether the text reads as a file path (`path_like`).
pub fn looks_like_path(s: &str) -> (r: bool)
    ensures
        r == path_like(s@),
{
    let c = chars_of(s);
    if c.len() == 0 || utf8_longer_than(&c, 260) || crate::text::contains_char(&c, '\n') {
        return false;
    }
    if crate::text::contains_char(&c, '/') || crate::text::contains_char(&c, '\\') {
        return true;
    }
    if !crate::text::contains_char(&c, '.') {
        return false;
    }
    let mut i: usize = 0;
    while i < c.len()
        invariant
            i <= c.len(),
            c@ == s@,
            s@.len() > 0,
            utf8_len(s@) <= 260,
            !has_char(s@, '\n'),
            has_char(s@, '.'),
            forall|k: int| 0 <= k < i ==> is_hex_or_dot(#[trigger] c@[k]),
        decreases c.len() - i,
    {
        let ch = c[i];
        if !(('0' <= ch && ch <= '9') || ('a' <= ch && ch <= 'f') || ('A' <= ch && ch <= 'F')
            || ch == '.') {
            assert(!is_hex_or_dot(s@[i as int]));
            return true;
        }
        i = i + 1;
    }
    false
}

/// Span `idx` belongs to a trailing path list: it looks like a path, is
/// followed by a comma and the next span, or, as the last span, by nothing
/// but a full stop.
pub open spec fn path_item(t: Seq<char>, sp: Seq<SpanView>, idx: int) -> bool {
    &&& path_like(sp[idx].content)
    &&& (idx + 1 < sp.len() ==> {
        let b = trim(t.subrange(sp[idx].end, sp[idx + 1].start));
        b == ","@ || b == "，"@
    })
    &&& (idx + 1 == sp.len() ==> {
        let a = trim(t.skip(sp[idx].end));
        a.len() == 0 || a == "."@ || a == "。"@
    })
}

/// Where the trailing run of path items of the first `k` spans starts.
pub open spec fn run_start(t: Seq<char>, sp: Seq<SpanView>, k: int) -> int
    decreases k,
{
    if k <= 0 {
        0
    } else if path_item(t, sp, k - 1) {
        run_start(t, sp, k - 1)
    } else {
        k
    }
}

/// The text before, and the paths of, a line that ends with at least two
/// path spans separated by commas.
pub open spec fn trailing_paths(t: Seq<char>) -> Option<(Seq<char>, Seq<Seq<char>>)> {
    let sp = spans_from(t, 0);
    let r = run_start(t, sp, sp.len() as int);
    if sp.len() < 2 || sp.len() - r < 2 {
        None
    } else {
        Some(
            (
                trim_end(t.take(sp[r].start)),
                sp.subrange(r, sp.len() as int).map_values(|x: SpanView| x.content),
            ),
        )
    }
}

proof fn lemma_run_start_bounds(t: Seq<char>, sp: Seq<SpanView>, k: int)
    requires
        0 <= k,
    ensures
        0 <= run_start(t, sp, k) <= k,
        forall|j: int| run_start(t, sp, k) <= j < k ==> path_item(t, sp, j),
    decreases k,
{
    if k > 0 && path_item(t, sp, k - 1) {
        lemma_run_start_bounds(t, sp, k - 1);
    }
}

fn path_item_at(t: &Vec<char>, spans: &Vec<CodeSpan>, idx: usize) -> (r: bool)
    requires
        idx < spans.len(),
        forall|k: int| 0 <= k < spans.len() ==> #[trigger] spans@[k].start < spans@[k].end <= t@.len(),
        forall|k: int| 0 <= k < spans.len() - 1 ==> #[trigger] spans@[k].end <= spans@[k + 1].start,
    ensures
        r == path_item(t@, span_views(spans@), idx as int),
{
    let ghost sp = span_views(spans@);
    assert(sp[idx as int] == spans@[idx as int]@);
    if !looks_like_path(spans[idx].content.as_str()) {
        return false;
    }
    let end = spans[idx].end;
    if idx + 1 < spans.len() {
        assert(sp[idx + 1] == spans@[idx + 1]@);
        let next = spans[idx + 1].start;
        let mid = slice_to_vec(slice_subrange(t.as_slice(), end, next));
        assert(mid@ =~= t@.subrange(end as int, next as int));
        let b = trimmed(&mid);
        eq_str(&b, ",") || eq_str(&b, "，")
    } else {
        let tail = slice_to_vec(slice_subrange(t.as_slice(), end, t.len()));
        assert(tail@ =~= t@.skip(end as int));
        let a = trimmed(&tail);
        a.len() == 0 || eq_str(&a, ".") || eq_str(&a, "。")
    }
}

/// The text before, and the paths of, a trailing list of at least two
/// path spans separated by commas (`trailing_paths`).
pub fn split_trailing_path_list(text: &str) -> (r: Option<(String, Vec<String>)>)
    ensures
        match r {
            Some(p) => trailing_paths(text@) == Some((p.0@, p.1@.map_values(|x: String| x@))),
            None => trailing_paths(text@) is None,
        },
{
    let spans = parse_code_spans(text);
    let ghost sp = span_views(spans@);
    let n = spans.len();
    if n < 2 {
        return None;
    }
    let t = chars_of(text);
    let mut k: usize = n;
    proof {
        lemma_run_start_bounds(t@, sp, n as int);
    }
    while k > 0 && path_item_at(&t, &spans, k - 1)
        invariant
            k <= n,
            n == spans.len(),
            t@ == text@,
            sp == span_views(spans@),
            sp == spans_from(text@, 0),
            forall|j: int| 0 <= j < spans.len() ==> #[trigger] spans@[j].start < spans@[j].end <= t@.len(),
            forall|j: int| 0 <= j < spans.len() - 1 ==> #[trigger] spans@[j].end <= spans@[j + 1].start,
            run_start(t@, sp, n as int) == run_start(t@, sp, k as int),
        decreases k,
    {
        k = k - 1;
    }
    if n - k < 2 {
        return None;
    }
    assert(sp[k as int] == spans@[k as int]@);
    let prefix_chars = chars_of(text.substring_char(0, spans[k].start));
    assert(prefix_chars@ =~= text@.take(spans@[k as int].start as int));
    let b = crate::text::trim_end_len(&prefix_chars);
    let pc = slice_to_vec(slice_subrange(prefix_chars.as_slice(), 0, b));
    assert(pc@ =~= prefix_chars@.take(b as int));
    let prefix = string_of(&pc);
    let mut paths: Vec<String> = Vec::new();
    let mut j: usize = k;
    let ghost want = sp.subrange(k as int, n as int).map_values(|x: SpanView| x.content);
    while j < n
        invariant
            k <= j <= n,
            n == spans.len(),
            sp == span_views(spans@),
            want == sp.subrange(k as int, n as int).map_values(|x: SpanView| x.content),
            paths@.map_values(|x: String| x@) == want.take(j - k),
        decreases n - j,
    {
        assert(sp[j as int] == spans@[j as int]@);
        let c = spans[j].content.clone();
        assert(c@ == spans@[j as int].content@);
        assert(want[j - k] == sp[j as int].content);
        let ghost before = paths@.map_values(|x: String| x@);
        paths.push(c);
        assert(paths@.map_values(|x: String| x@) =~= before.push(c@));
        assert(paths@.map_values(|x: String| x@) =~= want.take(j + 1 - k));
        j = j + 1;
    }
    assert(want.take(n - k) =~= want);
    Some((prefix, paths))
}

/// The number of leading ASCII digits.
pub open spec fn digit_count(s: Seq<char>) -> nat
    decreases s.len(),
{
    if s.len() > 0 && is_digit(s[0]) {
        1 + digit_count(s.drop_first())
    } else {
        0
    }
}

/// An ordered-list marker: the number and the text after `. ` or `) `.
pub open spec fn ordered(s: Seq<char>) -> Option<(Seq<char>, Seq<char>)> {
    let d = digit_count(s);
    let rest = s.skip(d as int);
    if d == 0 {
        None
    } else if starts_with(rest, seq!['.', ' ']) || starts_with(rest, seq![')', ' ']) {
        Some((s.take(d as int), rest.skip(2)))
    } else {
        None
    }
}

proof fn lemma_digit_count(s: Seq<char>, i: int)
    requires
        0 <= i <= s.len(),
        forall|k: int| 0 <= k < i ==> is_digit(#[trigger] s[k]),
        i == s.len() || !is_digit(s[i]),
    ensures
        digit_count(s) == i,
    decreases i,
{
    if i > 0 {
        lemma_digit_count(s.drop_first(), i - 1);
    }
}

/// The number and the text of an ordered-list line (`ordered`).
pub fn ordered_prefix(line: &str) -> (r: Option<(String, String)>)
    ensures
        match r {
            Some(p) => ordered(line@) == Some((p.0@, p.1@)),
            None => ordered(line@) is None,
        },
{
    let c = chars_of(line);
    let mut d: usize = 0;
    while d < c.len() && '0' <= c[d] && c[d] <= '9'
        invariant
            d <= c.len(),
            forall|k: int| 0 <= k < d ==> is_digit(#[trigger] c@[k]),
        decreases c.len() - d,
    {
        d = d + 1;
    }
    proof {
        lemma_digit_count(c@, d as int);
    }
    if d == 0 {
        return None;
    }
    let rest = slice_to_vec(slice_subrange(c.as_slice(), d, c.len()));
    assert(rest@ =~= c@.skip(d as int));
    let ok = rest.len() >= 2 && (rest[0] == '.' || rest[0] == ')') && rest[1] == ' ';
    proof {
        if rest@.len() >= 2 {
            assert(starts_with(rest@, seq!['.', ' ']) <==> (rest@[0] == '.' && rest@[1] == ' ')) by {
                if rest@[0] == '.' && rest@[1] == ' ' {
                    assert(rest@.subrange(0, 2) =~= seq!['.', ' ']);
                }
                if starts_with(rest@, seq!['.', ' ']) {
                    assert(rest@.subrange(0, 2)[0] == rest@[0]);
                    assert(rest@.subrange(0, 2)[1] == rest@[1]);
                }
            }
            assert(starts_with(rest@, seq![')', ' ']) <==> (rest@[0] == ')' && rest@[1] == ' ')) by {
                if rest@[0] == ')' && rest@[1] == ' ' {
                    assert(rest@.subrange(0, 2) =~= seq![')', ' ']);
                }
                if starts_with(rest@, seq![')', ' ']) {
                    assert(rest@.subrange(0, 2)[0] == rest@[0]);
                    assert(rest@.subrange(0, 2)[1] == rest@[1]);
                }
            }
        }
    }
    if !ok {
        return None;
    }
    let num = slice_to_vec(slice_subrange(c.as_slice(), 0, d));
    assert(num@ =~= c@.take(d as int));
    let text = slice_to_vec(slice_subrange(rest.as_slice(), 2, rest.len()));
    assert(text@ =~= rest@.skip(2));
    Some((string_of(&num), string_of(&text)))
}

/// The number of leading spaces.
pub open spec fn lead_spaces(s: Seq<char>) -> nat
    decreases s.len(),
{
    if s.len() > 0 && s[0] == ' ' {
        1 + lead_spaces(s.drop_first())
    } else {
        0
    }
}

/// The number of leading spaces of a line (its indentation).
pub fn leading_spaces(line: &[char]) -> (n: usize)
    ensures
        n == lead_spaces(line@),
{
    let mut n: usize = 0;
    while n < line.len() && line[n] == ' '
        invariant
            n <= line.len(),
            forall|k: int| 0 <= k < n ==> line@[k] == ' ',
        decreases line.len() - n,
    {
        n = n + 1;
    }
    proof {
        lemma_lead_spaces(line@, n as int);
    }
    n
}

proof fn lemma_lead_spaces(s: Seq<char>, i: int)
    requires
        0 <= i <= s.len(),
        forall|k: int| 0 <= k < i ==> s[k] == ' ',
        i == s.len() || s[i] != ' ',
    ensures
        lead_spaces(s) == i,
    decreases i,
{
    if i > 0 {
        lemma_lead_spaces(s.drop_first(), i - 1);
    }
}

/// One block of a message as the renderer lays it out.
#[derive(Debug, Clone, PartialEq, Eq)]
pub enum Block {
    /// A blank line.
    Blank,
    /// `#`, `##` or `###` and the heading text.
    Heading { level: u8, text: String },
    /// A list item: its indentation in spaces, its marker, its text.
    ListItem { indent: usize, marker: String, text: String },
    Paragraph { indent: usize, text: String },
    /// The lines of a fenced code block.
    Code(String),
}

pub enum BlockView {
    Blank,
    Heading { level: u8, text: Seq<char> },
    ListItem { indent: nat, marker: Seq<char>, text: Seq<char> },
    Paragraph { indent: nat, text: Seq<char> },
    Code(Seq<char>),
}

impl View for Block {
    type V = BlockView;

    open spec fn view(&self) -> BlockView {
        match self {
            Block::Blank => BlockView::Blank,
            Block::Heading { level, text } => BlockView::Heading { level: *level, text: text@ },
            Block::ListItem { indent, marker, text } => BlockView::ListItem {
                indent: *indent as nat,
                marker: marker@,
                text: text@,
            },
            Block::Paragraph { indent, text } => BlockView::Paragraph {
                indent: *indent as nat,
                text: text@,
            },
            Block::Code(c) => BlockView::Code(c@),
        }
    }
}

pub open spec fn block_views(v: Seq<Block>) -> Seq<BlockView> {
    v.map_values(|b: Block| b@)
}

/// The state of a read of a message line by line: inside a code fence or
/// not, the fenced lines so far, and the blocks so far.
pub struct MdState {
    pub fence: bool,
    pub buf: Seq<char>,
    pub out: Seq<BlockView>,
}

/// The block of a line outside a fence that is neither blank nor a fence.
pub open spec fn line_block(line: Seq<char>) -> BlockView {
    let t = trim_start(line);
    let indent = lead_spaces(line);
    if starts_with(t, "### "@) {
        BlockView::Heading { level: 3, text: t.skip(4) }
    } else if starts_with(t, "## "@) {
        BlockView::Heading { level: 2, text: t.skip(3) }
    } else if starts_with(t, "# "@) {
        BlockView::Heading { level: 1, text: t.skip(2) }
    } else if starts_with(t, "- "@) || starts_with(t, "* "@) || starts_with(t, "• "@) {
        BlockView::ListItem { indent, marker: "•"@, text: t.skip(2) }
    } else {
        match ordered(t) {
            Some(p) => BlockView::ListItem { indent, marker: p.0 + "."@, text: p.1 },
            None => BlockView::Paragraph { indent, text: t },
        }
    }
}

/// The state after one line: a fence line opens or closes a code block;
/// inside a fence the line is kept; else a blank line or the line's block.
pub open spec fn md_step(st: MdState, line: Seq<char>) -> MdState {
    let t = trim_start(line);
    if starts_with(t, "```"@) {
        if st.fence {
            MdState { fence: false, buf: Seq::empty(), out: st.out.push(BlockView::Code(st.buf)) }
        } else {
            MdState { fence: true, ..st }
        }
    } else if st.fence {
        MdState {
            buf: if st.buf.len() > 0 {
                st.buf.push('\n') + line
            } else {
                line
            },
            ..st
        }
    } else if t.len() == 0 {
        MdState { out: st.out.push(BlockView::Blank), ..st }
    } else {
        MdState { out: st.out.push(line_block(line)), ..st }
    }
}

pub open spec fn md_run(st: MdState, ls: Seq<Seq<char>>) -> MdState
    decreases ls.len(),
{
    if ls.len() == 0 {
        st
    } else {
        md_step(md_run(st, ls.drop_last()), ls.last())
    }
}

/// The blocks of a message: its `\n`-separated lines read in turn; a code
/// fence left open at the end still shows what it holds.
pub open spec fn blocks_of(text: Seq<char>) -> Seq<BlockView> {
    let st = md_run(MdState { fence: false, buf: Seq::empty(), out: Seq::empty() }, split(text, '\n'));
    if st.fence && st.buf.len() > 0 {
        st.out.push(BlockView::Code(st.buf))
    } else {
        st.out
    }
}

fn block_of_line(line: &[char]) -> (r: Block)
    ensures
        r@ == line_block(line@),
{
    let t = trimmed_start(line);
    let indent = leading_spaces(line);
    if starts_with_str(&t, "### ") {
        let n = chars_of("### ").len();
        let rest = slice_to_vec(slice_subrange(t.as_slice(), n, t.len()));
        proof {
            reveal_strlit("### ");
        }
        assert(rest@ =~= t@.skip(4));
        Block::Heading { level: 3, text: string_of(&rest) }
    } else if starts_with_str(&t, "## ") {
        let n = chars_of("## ").len();
        let rest = slice_to_vec(slice_subrange(t.as_slice(), n, t.len()));
        proof {
            reveal_strlit("## ");
        }
        assert(rest@ =~= t@.skip(3));
        Block::Heading { level: 2, text: string_of(&rest) }
    } else if starts_with_str(&t, "# ") {
        let n = chars_of("# ").len();
        let rest = slice_to_vec(slice_subrange(t.as_slice(), n, t.len()));
        proof {
            reveal_strlit("# ");
        }
        assert(rest@ =~= t@.skip(2));
        Block::Heading { level: 1, text: string_of(&rest) }
    } else if starts_with_str(&t, "- ") || starts_with_str(&t, "* ") || starts_with_str(&t, "• ") {
        proof {
            reveal_strlit("- ");
            reveal_strlit("* ");
            reveal_strlit("• ");
        }
        let rest = slice_to_vec(slice_subrange(t.as_slice(), 2, t.len()));
        assert(rest@ =~= t@.skip(2));
        Block::ListItem { indent, marker: "•".to_owned(), text: string_of(&rest) }
    } else {
        match ordered_prefix(string_of(&t).as_str()) {
            Some((num, text)) => {
                let mut m = chars_of(num.as_str());
                push_str(&mut m, ".");
                Block::ListItem { indent, marker: string_of(&m), text }
            },
            None => Block::Paragraph { indent, text: string_of(&t) },
        }
    }
}

fn push_block(out: &mut Vec<Block>, b: Block)
    ensures
        block_views(final(out)@) == block_views(old(out)@).push(b@),
{
    let ghost before = block_views(out@);
    out.push(b);
    assert(block_views(out@) =~= before.push(b@));
}

/// The blocks of a message (`blocks_of`), for the renderer to draw.
pub fn blocks(text: &str) -> (r: Vec<Block>)
    ensures
        block_views(r@) == blocks_of(text@),
{
    let ls = split_char(&chars_of(text), '\n');
    let ghost lv = views(ls@);
    let mut out: Vec<Block> = Vec::new();
    let mut fence = false;
    let mut buf: Vec<char> = Vec::new();
    let ghost init = MdState { fence: false, buf: Seq::empty(), out: Seq::empty() };
    let mut i: usize = 0;
    assert(lv.take(0) =~= Seq::<Seq<char>>::empty());
    assert(block_views(out@) =~= Seq::<BlockView>::empty());
    assert(buf@ =~= Seq::<char>::empty());
    while i < ls.len()
        invariant
            i <= ls.len(),
            lv == views(ls@),
            lv == split(text@, '\n'),
            init == (MdState { fence: false, buf: Seq::empty(), out: Seq::empty() }),
            md_run(init, lv.take(i as int)) == (MdState { fence, buf: buf@, out: block_views(out@) }),
        decreases ls.len() - i,
    {
        assert(lv.take(i + 1).drop_last() =~= lv.take(i as int));
        assert(lv[i as int] == ls@[i as int]@);
        let line = &ls[i];
        let t = trimmed_start(line.as_slice());
        if starts_with_str(&t, "```") {
            if fence {
                let code = string_of(&buf);
                push_block(&mut out, Block::Code(code));
                buf = Vec::new();
                assert(buf@ =~= Seq::<char>::empty());
                fence = false;
            } else {
                fence = true;
            }
        } else if fence {
            if buf.len() > 0 {
                buf.push('\n');
            }
            push_chars(&mut buf, line.as_slice());
        } else if t.len() == 0 {
            push_block(&mut out, Block::Blank);
        } else {
            push_block(&mut out, block_of_line(line.as_slice()));
        }
        i = i + 1;
    }
    assert(lv.take(ls.len() as int) =~= lv);
    if fence && buf.len() > 0 {
        let code = string_of(&buf);
        push_block(&mut out, Block::Code(code));
    }
    out
}

/// `s` with every trailing copy of `suf` removed.
pub open spec fn trim_suffixes(s: Seq<char>, suf: Seq<char>) -> Seq<char>
    decreases s.len(),
{
    if suf.len() > 0 && crate::text::ends_with(s, suf) {
        trim_suffixes(s.take(s.len() - suf.len()), suf)
    } else {
        s
    }
}

pub open spec fn is_list_punct(c: char) -> bool {
    c == '：' || c == ':' || c == ' ' || c == '\u{3000}'
}

/// `s` without its trailing colons and spaces.
pub open spec fn trim_list_punct(s: Seq<char>) -> Seq<char>
    decreases s.len(),
{
    if s.len() > 0 && is_list_punct(s.last()) {
        trim_list_punct(s.drop_last())
    } else {
        s
    }
}

/// The lead-in of a path list as it is shown above the list: without its
/// trailing "更改文件" label and colons.
pub open spec fn list_lead(prefix: Seq<char>) -> Seq<char> {
    trim_list_punct(trim_suffixes(trim_end(prefix), "更改文件"@))
}

/// The lead-in of a path list (`list_lead`).
pub fn path_list_lead(prefix: &str) -> (r: String)
    ensures
        r@ == list_lead(prefix@),
{
    let c = chars_of(prefix);
    let b = crate::text::trim_end_len(&c);
    let mut v = slice_to_vec(slice_subrange(c.as_slice(), 0, b));
    assert(v@ =~= c@.take(b as int));
    let suf = chars_of("更改文件");
    while suf.len() > 0 && suf.len() <= v.len() && crate::text::matches_at(&v, &suf, v.len() - suf.len())
        invariant
            suf@ == "更改文件"@,
            trim_suffixes(trim_end(prefix@), "更改文件"@) == trim_suffixes(v@, "更改文件"@),
        decreases v.len(),
    {
        let n = v.len() - suf.len();
        assert(crate::text::ends_with(v@, suf@));
        let w = slice_to_vec(slice_subrange(v.as_slice(), 0, n));
        assert(w@ =~= v@.take(n as int));
        v = w;
    }
    proof {
        if suf@.len() > 0 && suf@.len() <= v@.len() && crate::text::ends_with(v@, suf@) {
            assert(crate::text::occurs_at(v@, suf@, v@.len() - suf@.len()));
        }
    }
    while v.len() > 0 && (v[v.len() - 1] == '：' || v[v.len() - 1] == ':' || v[v.len() - 1] == ' '
        || v[v.len() - 1] == '\u{3000}')
        invariant
            list_lead(prefix@) == trim_list_punct(v@),
        decreases v.len(),
    {
        v.pop();
    }
    string_of(&v)
}

/// A piece of an inline line as the renderer shows it.
#[derive(Debug, Clone, PartialEq, Eq)]
pub enum Inline {
    /// Inline code, shown as a chip.
    Code(String),
    /// `**bold**` text.
    Bold(String),
    /// Plain text, wrapped.
    Text(String),
    /// One character that opens nothing, shown as it is.
    Glyph(String),
}

pub enum InlineView {
    Code(Seq<char>),
    Bold(Seq<char>),
    Text(Seq<char>),
    Glyph(Seq<char>),
}

impl View for Inline {
    type V = InlineView;

    open spec fn view(&self) -> InlineView {
        match self {
            Inline::Code(s) => InlineView::Code(s@),
            Inline::Bold(s) => InlineView::Bold(s@),
            Inline::Text(s) => InlineView::Text(s@),
            Inline::Glyph(s) => InlineView::Glyph(s@),
        }
    }
}

pub open spec fn inline_views(v: Seq<Inline>) -> Seq<InlineView> {
    v.map_values(|x: Inline| x@)
}

/// What follows a code chip, with one separating comma dropped.
pub open spec fn after_chip(s: Seq<char>) -> Seq<char> {
    if starts_with(s, seq![',', ' ']) {
        s.skip(2)
    } else if starts_with(s, seq!['，']) || starts_with(s, seq![',']) {
        s.skip(1)
    } else {
        s
    }
}

/// Where the next chip or bold run may start: the first backtick or `**`.
pub open spec fn next_mark(s: Seq<char>) -> int {
    let a = find_char_from(s, '`', 0);
    let b = first_at(s, seq!['*', '*']);
    match (a, b) {
        (Some(x), Some(y)) => if x <= y {
            x
        } else {
            y
        },
        (Some(x), None) => x,
        (None, Some(y)) => y,
        (None, None) => s.len() as int,
    }
}

/// The pieces of an inline line: code between backticks, bold between
/// `**`, and plain text up to the next mark; a mark that opens nothing is a
/// glyph of its own. A comma right after a code chip is dropped.
pub open spec fn inline_of(s: Seq<char>) -> Seq<InlineView> {
    inline_pieces(s, true)
}

/// The text after a code chip: without its separating comma when
/// `drop_comma` holds.
pub open spec fn chip_rest(s: Seq<char>, drop_comma: bool) -> Seq<char> {
    if drop_comma {
        after_chip(s)
    } else {
        s
    }
}

/// The pieces of an inline line, as `inline_of` splits it, keeping a comma
/// after a chip unless `drop_comma` holds.
pub open spec fn inline_pieces(s: Seq<char>, drop_comma: bool) -> Seq<InlineView>
    decreases s.len(),
{
    if s.len() == 0 {
        Seq::empty()
    } else if s[0] == '`' && find_char_from(s, '`', 1) is Some {
        let e = find_char_from(s, '`', 1)->0;
        if e < 1 || e >= s.len() {
            Seq::empty()
        } else {
            seq![InlineView::Code(s.subrange(1, e))] + inline_pieces(
                chip_rest(s.skip(e + 1), drop_comma),
                drop_comma,
            )
        }
    } else if starts_with(s, seq!['*', '*']) && first_at(s.skip(2), seq!['*', '*']) is Some {
        let e = first_at(s.skip(2), seq!['*', '*'])->0;
        if e < 0 || e + 4 > s.len() {
            Seq::empty()
        } else {
            seq![InlineView::Bold(s.skip(2).take(e))] + inline_pieces(s.skip(e + 4), drop_comma)
        }
    } else {
        let n = next_mark(s);
        if n <= 0 || n > s.len() {
            seq![InlineView::Glyph(s.take(1))] + inline_pieces(s.skip(1), drop_comma)
        } else {
            seq![InlineView::Text(s.take(n))] + inline_pieces(s.skip(n), drop_comma)
        }
    }
}


fn after_chip_len(s: &[char]) -> (k: usize)
    ensures
        k <= s.len(),
        after_chip(s@) == s@.skip(k as int),
{
    let two = s.len() >= 2 && s[0] == ',' && s[1] == ' ';
    let one = s.len() >= 1 && (s[0] == '，' || s[0] == ',');
    proof {
        if s@.len() >= 2 {
            if s@[0] == ',' && s@[1] == ' ' {
                assert(s@.subrange(0, 2) =~= seq![',', ' ']);
            }
            if starts_with(s@, seq![',', ' ']) {
                assert(s@.subrange(0, 2)[0] == s@[0] && s@.subrange(0, 2)[1] == s@[1]);
            }
        }
        if s@.len() >= 1 {
            if s@[0] == '，' {
                assert(s@.subrange(0, 1) =~= seq!['，']);
            }
            if s@[0] == ',' {
                assert(s@.subrange(0, 1) =~= seq![',']);
            }
            if starts_with(s@, seq!['，']) || starts_with(s@, seq![',']) {
                assert(s@.subrange(0, 1)[0] == s@[0]);
            }
        }
        assert(s@.skip(0) =~= s@);
    }
    if two {
        2
    } else if one {
        1
    } else {
        0
    }
}

fn next_mark_of(s: &[char]) -> (n: usize)
    ensures
        n == next_mark(s@),
        n <= s.len(),
{
    let stars = vec!['*', '*'];
    assert(stars@ =~= seq!['*', '*']);
    let a = find_char_at(s, '`', 0);
    let b = find_first(s, stars.as_slice());
    match (a, b) {
        (Some(x), Some(y)) => if x <= y {
            x
        } else {
            y
        },
        (Some(x), None) => x,
        (None, Some(y)) => y,
        (None, None) => s.len(),
    }
}

#[verifier::rlimit(80)]
#[verifier::spinoff_prover]
fn inline_step(s: &Vec<char>, drop_comma: bool) -> (r: (Inline, usize))
    requires
        s.len() > 0,
    ensures
        0 < r.1 <= s.len(),
        inline_pieces(s@, drop_comma) == seq![r.0@] + inline_pieces(
            s@.skip(r.1 as int),
            drop_comma,
        ),
{
    if s[0] == '`' {
        match find_char_at(s.as_slice(), '`', 1) {
            Some(e) => {
                let code = slice_to_vec(slice_subrange(s.as_slice(), 1, e));
                assert(code@ =~= s@.subrange(1, e as int));
                let after = slice_to_vec(slice_subrange(s.as_slice(), e + 1, s.len()));
                assert(after@ =~= s@.skip(e + 1));
                let k = if drop_comma {
                    after_chip_len(&after)
                } else {
                    assert(after@.skip(0) =~= after@);
                    0
                };
                assert(after@.skip(k as int) =~= s@.skip(e + 1 + k));
                return (Inline::Code(string_of(&code)), e + 1 + k);
            },
            None => {},
        }
    }
    let stars = vec!['*', '*'];
    assert(stars@ =~= seq!['*', '*']);
    let is_bold_start = s.len() >= 2 && s[0] == '*' && s[1] == '*';
    proof {
        if s@.len() >= 2 {
            if s@[0] == '*' && s@[1] == '*' {
                assert(s@.subrange(0, 2) =~= seq!['*', '*']);
            }
            if starts_with(s@, seq!['*', '*']) {
                assert(s@.subrange(0, 2)[0] == s@[0] && s@.subrange(0, 2)[1] == s@[1]);
            }
        }
    }
    if is_bold_start {
        let after = slice_to_vec(slice_subrange(s.as_slice(), 2, s.len()));
        assert(after@ =~= s@.skip(2));
        match find_first(after.as_slice(), stars.as_slice()) {
            Some(e) => {
                let bold = slice_to_vec(slice_subrange(after.as_slice(), 0, e));
                assert(bold@ =~= s@.skip(2).take(e as int));
                return (Inline::Bold(string_of(&bold)), e + 4);
            },
            None => {},
        }
    }
    let n = next_mark_of(s.as_slice());
    if n == 0 {
        let g = slice_to_vec(slice_subrange(s.as_slice(), 0, 1));
        assert(g@ =~= s@.take(1));
        (Inline::Glyph(string_of(&g)), 1)
    } else {
        let t = slice_to_vec(slice_subrange(s.as_slice(), 0, n));
        assert(t@ =~= s@.take(n as int));
        (Inline::Text(string_of(&t)), n)
    }
}

/// The pieces of an inline line (`inline_pieces`), for the renderer to draw.
#[verifier::rlimit(60)]
#[verifier::spinoff_prover]
pub fn inline_pieces_of(text: &str, drop_comma: bool) -> (r: Vec<Inline>)
    ensures
        inline_views(r@) == inline_pieces(text@, drop_comma),
{
    let mut rest = chars_of(text);
    let mut out: Vec<Inline> = Vec::new();
    assert(inline_views(out@) + inline_pieces(rest@, drop_comma) =~= inline_pieces(
        text@,
        drop_comma,
    ));
    while rest.len() > 0
        invariant
            inline_views(out@) + inline_pieces(rest@, drop_comma) == inline_pieces(
                text@,
                drop_comma,
            ),
        decreases rest.len(),
    {
        let (piece, k) = inline_step(&rest, drop_comma);
        let ghost before = inline_views(out@);
        let ghost tail = inline_pieces(rest@.skip(k as int), drop_comma);
        out.push(piece);
        assert(inline_views(out@) =~= before.push(piece@));
        let next = slice_to_vec(slice_subrange(rest.as_slice(), k, rest.len()));
        assert(next@ =~= rest@.skip(k as int));
        assert(inline_views(out@) + tail =~= before + (seq![piece@] + tail));
        rest = next;
    }
    assert(inline_views(out@) + inline_pieces(rest@, drop_comma) =~= inline_views(out@));
    out
}

/// The pieces of an inline line (`inline_of`), for the renderer to draw.
pub fn inline_spans(text: &str) -> (r: Vec<Inline>)
    ensures
        inline_views(r@) == inline_of(text@),
{
    inline_pieces_of(text, true)
}

} // verus!
