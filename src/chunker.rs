use vstd::prelude::*;

use crate::hashing::{compute_hash, content_hash_of};
use crate::text::{
    chars_of, string_of_range, trim, trim_end, trim_end_index, trim_start_index,
};

verus! {

/// The kind of a block of a document.
#[derive(Debug, Clone, Copy, PartialEq, Eq, Structural)]
pub enum ChunkType {
    Heading,
    Paragraph,
    CodeBlock,
    List,
    HorizontalRule,
}

impl ChunkType {
    /// The name under which a block kind is stored.
    pub fn as_str(&self) -> (r: &'static str)
        ensures
            r@ == kind_name(*self),
    {
        match self {
            ChunkType::Heading => "heading",
            ChunkType::Paragraph => "paragraph",
            ChunkType::CodeBlock => "code_block",
            ChunkType::List => "list",
            ChunkType::HorizontalRule => "hr",
        }
    }
}

pub open spec fn kind_name(k: ChunkType) -> Seq<char> {
    match k {
        ChunkType::Heading => "heading"@,
        ChunkType::Paragraph => "paragraph"@,
        ChunkType::CodeBlock => "code_block"@,
        ChunkType::List => "list"@,
        ChunkType::HorizontalRule => "hr"@,
    }
}

/// A block found by the scanner: its kind, its heading level (headings only),
/// its stored text, and the half-open range of character offsets it covers.
#[derive(Debug, Clone)]
pub struct ParsedChunk {
    pub chunk_type: ChunkType,
    pub heading_level: Option<u8>,
    pub content: String,
    pub start_offset: usize,
    pub end_offset: usize,
}

/// A block together with the content key of its stored text.
#[derive(Debug, Clone)]
pub struct ChunkWithHash {
    pub chunk: ParsedChunk,
    pub content_hash: String,
}

/// Mathematical view of a `ParsedChunk`.
pub struct ChunkView {
    pub chunk_type: ChunkType,
    pub heading_level: Option<u8>,
    pub content: Seq<char>,
    pub start_offset: nat,
    pub end_offset: nat,
}

impl View for ParsedChunk {
    type V = ChunkView;

    open spec fn view(&self) -> ChunkView {
        ChunkView {
            chunk_type: self.chunk_type,
            heading_level: self.heading_level,
            content: self.content@,
            start_offset: self.start_offset as nat,
            end_offset: self.end_offset as nat,
        }
    }
}

pub open spec fn chunk_views(v: Seq<ParsedChunk>) -> Seq<ChunkView> {
    v.map_values(|c: ParsedChunk| c@)
}

// ---- line structure ----

/// First index at or after `i` that holds a newline, or the length of `s`.
pub open spec fn line_end(s: Seq<char>, i: int) -> int
    decreases s.len() - i,
{
    if i >= s.len() {
        s.len() as int
    } else if s[i] == '\n' {
        i
    } else {
        line_end(s, i + 1)
    }
}

/// Start of the line after the one that holds `i` (the length of `s` on the last line).
pub open spec fn next_line(s: Seq<char>, i: int) -> int {
    let e = line_end(s, i);
    if e < s.len() {
        e + 1
    } else {
        e
    }
}

/// First index at or after `i` that is neither a space nor a tab.
pub open spec fn skip_blanks(s: Seq<char>, i: int) -> int
    decreases s.len() - i,
{
    if i < s.len() && (s[i] == ' ' || s[i] == '\t') {
        skip_blanks(s, i + 1)
    } else {
        i
    }
}

/// First index at or after `i` that is not a newline.
pub open spec fn skip_newlines(s: Seq<char>, i: int) -> int
    decreases s.len() - i,
{
    if i < s.len() && s[i] == '\n' {
        skip_newlines(s, i + 1)
    } else {
        i
    }
}

// ---- block starts ----

/// Three backticks at `i`.
pub open spec fn is_fence(s: Seq<char>, i: int) -> bool {
    0 <= i && s.len() - i >= 3 && s[i] == '`' && s[i + 1] == '`' && s[i + 2] == '`'
}

/// Three equal characters out of `-`, `*`, `_` at `i`.
pub open spec fn is_rule(s: Seq<char>, i: int) -> bool {
    0 <= i && i + 3 <= s.len() && (s[i] == '-' || s[i] == '*' || s[i] == '_') && s[i + 1] == s[i]
        && s[i + 2] == s[i]
}

pub open spec fn is_digit(c: char) -> bool {
    '0' <= c && c <= '9'
}

/// First index at or after `i` that is not an ASCII digit.
pub open spec fn digits_end(s: Seq<char>, i: int) -> int
    decreases s.len() - i,
{
    if i < s.len() && is_digit(s[i]) {
        digits_end(s, i + 1)
    } else {
        i
    }
}

/// A list item starts at `i`: a bullet (`-`, `*`, `+`) and a space, or digits,
/// `.` or `)`, and a space.
pub open spec fn is_list_start(s: Seq<char>, i: int) -> bool {
    0 <= i < s.len() && {
        ||| ((s[i] == '-' || s[i] == '*' || s[i] == '+') && i + 1 < s.len() && s[i + 1] == ' ')
        ||| (is_digit(s[i]) && {
            let j = digits_end(s, i + 1);
            j + 1 < s.len() && (s[j] == '.' || s[j] == ')') && s[j + 1] == ' '
        })
    }
}

/// Number of `#` at `i`, at most six.
pub open spec fn hash_run(s: Seq<char>, i: int, n: int) -> int
    decreases 6 - n,
{
    if n < 6 && i + n < s.len() && s[i + n] == '#' {
        hash_run(s, i, n + 1)
    } else {
        n
    }
}

pub open spec fn heading_level_at(s: Seq<char>, i: int) -> int {
    hash_run(s, i, 0)
}

/// A heading starts at `i`: one to six `#` and then a space.
pub open spec fn is_heading(s: Seq<char>, i: int) -> bool {
    let n = heading_level_at(s, i);
    0 <= i && n >= 1 && i + n < s.len() && s[i + n] == ' '
}

// ---- block ends ----

/// End of a code block whose body starts at line start `i`: just after the
/// line of the closing fence, or the end of the text.
pub open spec fn fence_end(s: Seq<char>, i: int) -> int
    decreases s.len() - i,
{
    if i >= s.len() {
        s.len() as int
    } else if is_fence(s, i) {
        next_line(s, i)
    } else if next_line(s, i) <= i || next_line(s, i) > s.len() {
        s.len() as int
    } else {
        fence_end(s, next_line(s, i))
    }
}

/// End of a list whose item starts at `i`.
pub open spec fn list_end(s: Seq<char>, i: int) -> int
    decreases s.len() - i,
{
    let q = next_line(s, i);
    if q <= i {
        q
    } else if is_list_start(s, q) {
        list_end(s, q)
    } else if q < s.len() && s[q] == '\n' && is_list_start(s, q + 1) {
        list_end(s, q + 1)
    } else {
        q
    }
}

/// A line starting at `i` that ends a paragraph before it: a blank line, the
/// end of the text, or the start of another kind of block.
pub open spec fn breaks_paragraph(s: Seq<char>, i: int) -> bool {
    ||| i >= s.len()
    ||| s[i] == '\n'
    ||| is_heading(s, i)
    ||| is_fence(s, i)
    ||| is_list_start(s, i)
    ||| is_rule(s, i)
}

/// End of a paragraph that starts at `i`.
pub open spec fn paragraph_end(s: Seq<char>, i: int) -> int
    decreases s.len() - i,
{
    let q = next_line(s, i);
    if q <= i || breaks_paragraph(s, q) {
        q
    } else {
        paragraph_end(s, q)
    }
}

// ---- the scan ----

pub open spec fn block_view(
    kind: ChunkType,
    level: Option<u8>,
    text: Seq<char>,
    a: int,
    e: int,
) -> ChunkView {
    ChunkView {
        chunk_type: kind,
        heading_level: level,
        content: text,
        start_offset: a as nat,
        end_offset: e as nat,
    }
}

/// End of the block that starts at `b` (a position that holds neither a
/// newline nor the end of the text).
pub open spec fn block_end(s: Seq<char>, b: int) -> int {
    if is_fence(s, b) {
        fence_end(s, next_line(s, b))
    } else if is_heading(s, b) {
        next_line(s, b)
    } else if is_rule(s, b) {
        next_line(s, b)
    } else if is_list_start(s, b) {
        list_end(s, b)
    } else {
        paragraph_end(s, b)
    }
}

/// The blocks that start at `b`: one, or none for a paragraph that is all whitespace.
pub open spec fn blocks_at(s: Seq<char>, b: int) -> Seq<ChunkView> {
    let e = block_end(s, b);
    let span = s.subrange(b, e);
    if is_fence(s, b) {
        seq![block_view(ChunkType::CodeBlock, None, span, b, e)]
    } else if is_heading(s, b) {
        seq![
            block_view(
                ChunkType::Heading,
                Some(heading_level_at(s, b) as u8),
                trim_end(span),
                b,
                e,
            ),
        ]
    } else if is_rule(s, b) {
        seq![block_view(ChunkType::HorizontalRule, None, trim_end(span), b, e)]
    } else if is_list_start(s, b) {
        seq![block_view(ChunkType::List, None, trim_end(span), b, e)]
    } else if trim(span).len() > 0 {
        seq![block_view(ChunkType::Paragraph, None, trim(span), b, e)]
    } else {
        seq![]
    }
}

/// The blocks of `s` from position `i` on.
pub open spec fn scan_from(s: Seq<char>, i: int) -> Seq<ChunkView>
    decreases s.len() - i,
{
    let b = skip_newlines(s, skip_blanks(s, i));
    if i < 0 || b >= s.len() || b < i || block_end(s, b) <= b || block_end(s, b) > s.len() {
        seq![]
    } else {
        blocks_at(s, b) + scan_from(s, block_end(s, b))
    }
}

/// The blocks of a document, in order.
pub open spec fn scan(s: Seq<char>) -> Seq<ChunkView> {
    scan_from(s, 0)
}

// ---- what each block holds ----

/// A block's stored text is the span it covers, with the trimming its kind calls
/// for: none for code blocks; trailing whitespace for headings, rules and lists;
/// both ends for paragraphs. Its range lies inside the text and is not empty, and
/// only a heading has a level, from one to six.
pub open spec fn faithful(s: Seq<char>, c: ChunkView) -> bool {
    let span = s.subrange(c.start_offset as int, c.end_offset as int);
    &&& c.start_offset < c.end_offset <= s.len()
    &&& match c.chunk_type {
        ChunkType::CodeBlock => c.content == span,
        ChunkType::Paragraph => c.content == trim(span) && c.content.len() > 0,
        _ => c.content == trim_end(span),
    }
    &&& match c.chunk_type {
        ChunkType::Heading => c.heading_level matches Some(l) && 1 <= l <= 6,
        _ => c.heading_level is None,
    }
}

pub open spec fn all_faithful(s: Seq<char>, v: Seq<ChunkView>) -> bool {
    forall|k: int| 0 <= k < v.len() ==> #[trigger] faithful(s, v[k])
}

/// Blocks come in order of position and do not overlap.
pub open spec fn in_order(v: Seq<ChunkView>) -> bool {
    forall|j: int, k: int| 0 <= j < k < v.len() ==> #[trigger] v[j].end_offset <= #[trigger] v[k].start_offset
}

pub open spec fn starts_at_or_after(v: Seq<ChunkView>, i: int) -> bool {
    forall|k: int| 0 <= k < v.len() ==> i <= #[trigger] v[k].start_offset
}

proof fn lemma_hash_run_bound(s: Seq<char>, i: int, n: int)
    requires
        0 <= n <= 6,
    ensures
        n <= hash_run(s, i, n) <= 6,
    decreases 6 - n,
{
    if n < 6 && i + n < s.len() && s[i + n] == '#' {
        lemma_hash_run_bound(s, i, n + 1);
    }
}

/// Every block of a scan holds what its range of the text says, and the blocks
/// come in order, each at or after the position the scan starts from.
pub proof fn lemma_scan_faithful(s: Seq<char>, i: int)
    ensures
        all_faithful(s, scan_from(s, i)),
        in_order(scan_from(s, i)),
        starts_at_or_after(scan_from(s, i), i),
    decreases s.len() - i,
{
    let b = skip_newlines(s, skip_blanks(s, i));
    if i < 0 || b >= s.len() || b < i || block_end(s, b) <= b || block_end(s, b) > s.len() {
    } else {
        let e = block_end(s, b);
        lemma_scan_faithful(s, e);
        let head = blocks_at(s, b);
        let tail = scan_from(s, e);
        lemma_hash_run_bound(s, b, 0);
        if head.len() > 0 {
            assert(faithful(s, head[0]));
        }
        let all = head + tail;
        assert forall|k: int| 0 <= k < all.len() implies #[trigger] faithful(s, all[k]) by {
            if k >= head.len() {
                assert(all[k] == tail[k - head.len()]);
            }
        }
        assert forall|j: int, k: int| 0 <= j < k < all.len() implies #[trigger] all[j].end_offset
            <= #[trigger] all[k].start_offset by {
            if j >= head.len() {
                assert(all[j] == tail[j - head.len()]);
                assert(all[k] == tail[k - head.len()]);
            } else {
                assert(all[k] == tail[k - head.len()]);
            }
        }
        assert forall|k: int| 0 <= k < all.len() implies i <= #[trigger] all[k].start_offset by {
            if k >= head.len() {
                assert(all[k] == tail[k - head.len()]);
            }
        }
    }
}

// ---- executable scanner ----

fn line_end_at(s: &Vec<char>, i: usize) -> (r: usize)
    requires
        i <= s@.len(),
    ensures
        r == line_end(s@, i as int),
        i <= r <= s@.len(),
{
    let mut j: usize = i;
    while j < s.len() && s[j] != '\n'
        invariant
            i <= j <= s@.len(),
            line_end(s@, j as int) == line_end(s@, i as int),
        decreases s@.len() - j,
    {
        j = j + 1;
    }
    j
}

fn next_line_at(s: &Vec<char>, i: usize) -> (r: usize)
    requires
        i <= s@.len(),
    ensures
        r == next_line(s@, i as int),
        i <= r <= s@.len(),
        i < s@.len() ==> i < r,
{
    let e = line_end_at(s, i);
    if e < s.len() {
        e + 1
    } else {
        e
    }
}

fn skip_blanks_at(s: &Vec<char>, i: usize) -> (r: usize)
    requires
        i <= s@.len(),
    ensures
        r == skip_blanks(s@, i as int),
        i <= r <= s@.len(),
{
    let mut j: usize = i;
    while j < s.len() && (s[j] == ' ' || s[j] == '\t')
        invariant
            i <= j <= s@.len(),
            skip_blanks(s@, j as int) == skip_blanks(s@, i as int),
        decreases s@.len() - j,
    {
        j = j + 1;
    }
    j
}

fn skip_newlines_at(s: &Vec<char>, i: usize) -> (r: usize)
    requires
        i <= s@.len(),
    ensures
        r == skip_newlines(s@, i as int),
        i <= r <= s@.len(),
{
    let mut j: usize = i;
    while j < s.len() && s[j] == '\n'
        invariant
            i <= j <= s@.len(),
            skip_newlines(s@, j as int) == skip_newlines(s@, i as int),
        decreases s@.len() - j,
    {
        j = j + 1;
    }
    j
}

fn is_fence_at(s: &Vec<char>, i: usize) -> (r: bool)
    requires
        i <= s@.len(),
    ensures
        r == is_fence(s@, i as int),
{
    s.len() - i >= 3 && s[i] == '`' && s[i + 1] == '`' && s[i + 2] == '`'
}

fn is_hr_start(s: &Vec<char>, i: usize) -> (r: bool)
    ensures
        r == is_rule(s@, i as int),
{
    if i >= s.len() || s.len() - i < 3 {
        return false;
    }
    let c = s[i];
    (c == '-' || c == '*' || c == '_') && s[i + 1] == c && s[i + 2] == c
}

fn is_list_item(s: &Vec<char>, i: usize) -> (r: bool)
    ensures
        r == is_list_start(s@, i as int),
{
    let len = s.len();
    if i >= len {
        return false;
    }
    let c = s[i];
    if (c == '-' || c == '*' || c == '+') && i + 1 < len && s[i + 1] == ' ' {
        return true;
    }
    if '0' <= c && c <= '9' {
        let mut j: usize = i + 1;
        while j < len && '0' <= s[j] && s[j] <= '9'
            invariant
                i < j <= len == s@.len(),
                digits_end(s@, j as int) == digits_end(s@, i + 1),
            decreases len - j,
        {
            j = j + 1;
        }
        return len - j > 1 && (s[j] == '.' || s[j] == ')') && s[j + 1] == ' ';
    }
    false
}

fn heading_level_of(s: &Vec<char>, i: usize) -> (n: usize)
    requires
        i <= s@.len(),
    ensures
        n == heading_level_at(s@, i as int),
        n <= 6,
        i + n <= s@.len(),
{
    let mut n: usize = 0;
    while n < 6 && n < s.len() - i && s[i + n] == '#'
        invariant
            n <= 6,
            i + n <= s@.len(),
            hash_run(s@, i as int, n as int) == hash_run(s@, i as int, 0),
        decreases 6 - n,
    {
        n = n + 1;
    }
    n
}

fn is_heading_at(s: &Vec<char>, i: usize) -> (r: bool)
    ensures
        r == is_heading(s@, i as int),
{
    if i >= s.len() {
        return false;
    }
    let n = heading_level_of(s, i);
    n >= 1 && n < s.len() - i && s[i + n] == ' '
}

fn fence_end_at(s: &Vec<char>, i: usize) -> (r: usize)
    requires
        i <= s@.len(),
    ensures
        r == fence_end(s@, i as int),
        i <= r <= s@.len(),
{
    let mut p: usize = i;
    while p < s.len() && !is_fence_at(s, p)
        invariant
            i <= p <= s@.len(),
            fence_end(s@, p as int) == fence_end(s@, i as int),
        decreases s@.len() - p,
    {
        p = next_line_at(s, p);
    }
    if p < s.len() {
        next_line_at(s, p)
    } else {
        p
    }
}

fn list_end_at(s: &Vec<char>, i: usize) -> (r: usize)
    requires
        is_list_start(s@, i as int),
    ensures
        r == list_end(s@, i as int),
        i < r <= s@.len(),
{
    let mut p: usize = i;
    loop
        invariant
            i <= p < s@.len(),
            is_list_start(s@, p as int),
            list_end(s@, p as int) == list_end(s@, i as int),
        decreases s@.len() - p,
    {
        let q = next_line_at(s, p);
        if is_list_item(s, q) {
            p = q;
        } else if q < s.len() && s[q] == '\n' && is_list_item(s, q + 1) {
            p = q + 1;
        } else {
            return q;
        }
    }
}

fn paragraph_end_at(s: &Vec<char>, i: usize) -> (r: usize)
    requires
        i < s@.len(),
    ensures
        r == paragraph_end(s@, i as int),
        i < r <= s@.len(),
{
    let mut p: usize = i;
    loop
        invariant
            i <= p < s@.len(),
            paragraph_end(s@, p as int) == paragraph_end(s@, i as int),
        decreases s@.len() - p,
    {
        let q = next_line_at(s, p);
        if q >= s.len() || s[q] == '\n' || is_heading_at(s, q) || is_fence_at(s, q)
            || is_list_item(s, q) || is_hr_start(s, q) {
            return q;
        }
        p = q;
    }
}

/// Splits a document into its blocks, in order, with character offsets.
pub fn parse_chunks(content: &str) -> (r: Vec<ParsedChunk>)
    ensures
        chunk_views(r@) == scan(content@),
        all_faithful(content@, chunk_views(r@)),
        in_order(chunk_views(r@)),
{
    let s = chars_of(content);
    let len = s.len();
    let mut chunks: Vec<ParsedChunk> = Vec::new();
    let mut offset: usize = 0;
    while offset < len
        invariant
            len == s@.len(),
            s@ == content@,
            offset <= len,
            chunk_views(chunks@) + scan_from(s@, offset as int) == scan(s@),
        decreases len - offset,
    {
        let a = skip_blanks_at(&s, offset);
        let b = skip_newlines_at(&s, a);
        if b >= len {
            assert(scan_from(s@, offset as int) =~= seq![]);
            assert(skip_newlines(s@, skip_blanks(s@, len as int)) == len);
            assert(scan_from(s@, len as int) =~= seq![]);
            offset = len;
            continue;
        }
        let e: usize;
        let mut found: Option<ParsedChunk> = None;
        if is_fence_at(&s, b) {
            let body = next_line_at(&s, b);
            e = fence_end_at(&s, body);
            found = Some(
                ParsedChunk {
                    chunk_type: ChunkType::CodeBlock,
                    heading_level: None,
                    content: string_of_range(&s, b, e),
                    start_offset: b,
                    end_offset: e,
                },
            );
        } else {
            let n = heading_level_of(&s, b);
            if n >= 1 && n < len - b && s[b + n] == ' ' {
                e = next_line_at(&s, b);
                let k = trim_end_index(&s, b, e);
                found = Some(
                    ParsedChunk {
                        chunk_type: ChunkType::Heading,
                        heading_level: Some(n as u8),
                        content: string_of_range(&s, b, k),
                        start_offset: b,
                        end_offset: e,
                    },
                );
            } else if is_hr_start(&s, b) {
                e = next_line_at(&s, b);
                let k = trim_end_index(&s, b, e);
                found = Some(
                    ParsedChunk {
                        chunk_type: ChunkType::HorizontalRule,
                        heading_level: None,
                        content: string_of_range(&s, b, k),
                        start_offset: b,
                        end_offset: e,
                    },
                );
            } else if is_list_item(&s, b) {
                e = list_end_at(&s, b);
                let k = trim_end_index(&s, b, e);
                found = Some(
                    ParsedChunk {
                        chunk_type: ChunkType::List,
                        heading_level: None,
                        content: string_of_range(&s, b, k),
                        start_offset: b,
                        end_offset: e,
                    },
                );
            } else {
                e = paragraph_end_at(&s, b);
                let k = trim_end_index(&s, b, e);
                let a2 = trim_start_index(&s, b, k);
                if a2 < k {
                    found = Some(
                        ParsedChunk {
                            chunk_type: ChunkType::Paragraph,
                            heading_level: None,
                            content: string_of_range(&s, a2, k),
                            start_offset: b,
                            end_offset: e,
                        },
                    );
                }
            }
        }
        assert(e == block_end(s@, b as int));
        assert(b < e);
        let ghost before = chunk_views(chunks@);
        match found {
            Some(c) => {
                assert(blocks_at(s@, b as int) =~= seq![c@]);
                chunks.push(c);
                assert(chunk_views(chunks@) =~= before + seq![c@]);
            },
            None => {
                assert(blocks_at(s@, b as int) =~= seq![]);
            },
        }
        assert(scan_from(s@, offset as int) == blocks_at(s@, b as int) + scan_from(s@, e as int));
        assert(chunk_views(chunks@) + scan_from(s@, e as int) =~= scan(s@));
        offset = e;
    }
    assert(skip_newlines(s@, skip_blanks(s@, len as int)) == len);
    assert(scan_from(s@, offset as int) =~= seq![]);
    assert(chunk_views(chunks@) =~= scan(s@));
    proof {
        lemma_scan_faithful(s@, 0);
    }
    chunks
}

/// The blocks of a document, each with the content key of its text.
pub fn chunk_and_hash(content: &str) -> (r: Vec<ChunkWithHash>)
    ensures
        r@.len() == scan(content@).len(),
        forall|i: int|
            #![trigger r@[i]]
            0 <= i < r@.len() ==> r@[i].chunk@ == scan(content@)[i] && r@[i].content_hash@
                == content_hash_of(r@[i].chunk.content@) && r@[i].content_hash@.len() == 32,
{
    let chunks = parse_chunks(content);
    let mut out: Vec<ChunkWithHash> = Vec::new();
    let mut i: usize = 0;
    while i < chunks.len()
        invariant
            i <= chunks@.len(),
            chunk_views(chunks@) == scan(content@),
            out@.len() == i,
            forall|j: int|
                0 <= j < i ==> {
                    &&& #[trigger] out@[j].chunk@ == chunks@[j]@
                    &&& out@[j].content_hash@ == content_hash_of(out@[j].chunk.content@)
                    &&& out@[j].content_hash@.len() == 32
                },
        decreases chunks@.len() - i,
    {
        let c = &chunks[i];
        let hash = compute_hash(c.content.as_str());
        let chunk = ParsedChunk {
            chunk_type: c.chunk_type,
            heading_level: c.heading_level,
            content: c.content.clone(),
            start_offset: c.start_offset,
            end_offset: c.end_offset,
        };
        assert(chunk@ == chunks@[i as int]@);
        let ghost prev = out@;
        out.push(ChunkWithHash { chunk, content_hash: hash });
        assert forall|j: int| #![trigger out@[j]] 0 <= j < i + 1 implies out@[j].chunk@
            == chunks@[j]@ && out@[j].content_hash@ == content_hash_of(out@[j].chunk.content@)
            && out@[j].content_hash@.len() == 32 by {
            if j < i {
                assert(out@[j] == prev[j]);
            }
        }
        i = i + 1;
    }
    assert forall|j: int| 0 <= j < out@.len() implies #[trigger] out@[j].chunk@ == scan(content@)[j] by {
        assert(chunk_views(chunks@)[j] == chunks@[j]@);
    }
    out
}

} // verus!
