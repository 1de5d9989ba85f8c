//! Markdown outline extraction for the read-only document view: h1–h3
//! headings become outline entries and the document is split at top-level
//! heading boundaries, so every section is itself valid Markdown.
use markdown::mdast::Node;
use vstd::prelude::*;
use vstd::seq_lib::lemma_flatten_concat;

use crate::text::{
    char_is_ws, char_pos, char_pos_from, chars_of, is_ws, lemma_char_pos_bounds, push_char,
    push_str, string_from_chars, to_owned_string,
};

verus! {

// ---------------------------------------------------------------------------
// The library's model of a parsed Markdown document
// ---------------------------------------------------------------------------

/// Phrasing content of a heading: one variant per mdast phrasing kind,
/// holding what the outline can read of it (the value of a literal, the
/// alternative text of an image, the identifier of a footnote reference,
/// the children of a parent). `Flow` stands for the other node kinds,
/// which mdast never puts inside phrasing content.
pub enum MdInline {
    Text(String),
    InlineCode(String),
    InlineMath(String),
    Html(String),
    MdxTextExpression(String),
    Break,
    Image(String),
    ImageReference(String),
    FootnoteReference(String),
    Emphasis(Vec<MdInline>),
    Strong(Vec<MdInline>),
    Delete(Vec<MdInline>),
    Link(Vec<MdInline>),
    LinkReference(Vec<MdInline>),
    MdxJsxTextElement(Vec<MdInline>),
    Flow,
}

/// An ATX or setext heading: its rank, the byte offset where it starts
/// (when the parser gave a position) and its phrasing content.
pub struct MdHeading {
    pub depth: u8,
    pub offset: Option<usize>,
    pub children: Vec<MdInline>,
}

/// A top-level node of the document: one variant per mdast kind that
/// stands at the top level (only a heading keeps what the outline reads);
/// `Nested` stands for the kinds that mdast puts only inside other nodes.
pub enum MdBlock {
    Heading(MdHeading),
    Paragraph,
    Blockquote,
    List,
    Code,
    Math,
    Html,
    Table,
    ThematicBreak,
    Definition,
    FootnoteDefinition,
    Toml,
    Yaml,
    MdxJsxFlowElement,
    MdxjsEsm,
    MdxFlowExpression,
    Nested,
}

/// Declares mdast's node type, so that the conversion below can name it.
#[verifier::external_type_specification]
#[verifier::external_body]
pub struct ExMdastNode(Node);

/// The top-level nodes that `markdown::to_mdast` (default options:
/// CommonMark) finds in a source text; `None` when it reports an error or
/// returns something other than a root.
pub uninterp spec fn mdast_blocks(source: Seq<char>) -> Option<Seq<MdBlock>>;

/// Calls `markdown::to_mdast` with the default options and converts the
/// root's children, one for one, into the library's model. Its contract
/// names the result; nothing more of the Markdown grammar is stated here.
#[verifier::external_body]
fn markdown_blocks(source: &str) -> (r: Option<Vec<MdBlock>>)
    ensures
        match r {
            Some(v) => mdast_blocks(source@) == Some(v@),
            None => mdast_blocks(source@) is None,
        },
{
    match markdown::to_mdast(source, &markdown::ParseOptions::default()) {
        Ok(Node::Root(root)) => Some(root.children.iter().map(block_from_mdast).collect()),
        _ => None,
    }
}

/// Converts one top-level mdast node, variant for variant; a heading keeps
/// its depth, start offset and phrasing children.
#[verifier::external_body]
fn block_from_mdast(node: &Node) -> MdBlock {
    match node {
        Node::Heading(h) => MdBlock::Heading(
            MdHeading {
                depth: h.depth,
                offset: h.position.as_ref().map(|p| p.start.offset),
                children: inline_list(&h.children),
            },
        ),
        Node::Paragraph(_) => MdBlock::Paragraph,
        Node::Blockquote(_) => MdBlock::Blockquote,
        Node::List(_) => MdBlock::List,
        Node::Code(_) => MdBlock::Code,
        other => block_rest_from_mdast(other),
    }
}

/// Converts the remaining top-level mdast kinds, variant for variant.
#[verifier::external_body]
fn block_rest_from_mdast(node: &Node) -> MdBlock {
    match node {
        Node::Math(_) => MdBlock::Math,
        Node::Html(_) => MdBlock::Html,
        Node::Table(_) => MdBlock::Table,
        Node::ThematicBreak(_) => MdBlock::ThematicBreak,
        Node::Definition(_) => MdBlock::Definition,
        Node::FootnoteDefinition(_) => MdBlock::FootnoteDefinition,
        Node::Toml(_) => MdBlock::Toml,
        Node::Yaml(_) => MdBlock::Yaml,
        Node::MdxJsxFlowElement(_) => MdBlock::MdxJsxFlowElement,
        Node::MdxjsEsm(_) => MdBlock::MdxjsEsm,
        Node::MdxFlowExpression(_) => MdBlock::MdxFlowExpression,
        _ => MdBlock::Nested,
    }
}

/// Converts a list of mdast phrasing nodes, in order.
#[verifier::external_body]
fn inline_list(nodes: &[Node]) -> Vec<MdInline> {
    nodes.iter().map(inline_from_mdast).collect()
}

/// Converts one mdast phrasing literal, variant for variant, with its
/// value moved; other kinds go on to the next conversion.
#[verifier::external_body]
fn inline_from_mdast(node: &Node) -> MdInline {
    match node {
        Node::Text(v) => MdInline::Text(v.value.clone()),
        Node::InlineCode(v) => MdInline::InlineCode(v.value.clone()),
        Node::InlineMath(v) => MdInline::InlineMath(v.value.clone()),
        Node::Html(v) => MdInline::Html(v.value.clone()),
        Node::MdxTextExpression(v) => MdInline::MdxTextExpression(v.value.clone()),
        other => inline_embed_from_mdast(other),
    }
}

/// Converts a break, an image, an image reference or a footnote
/// reference, with the field the model keeps; other kinds go on to the
/// next conversion.
#[verifier::external_body]
fn inline_embed_from_mdast(node: &Node) -> MdInline {
    match node {
        Node::Break(_) => MdInline::Break,
        Node::Image(v) => MdInline::Image(v.alt.clone()),
        Node::ImageReference(v) => MdInline::ImageReference(v.alt.clone()),
        Node::FootnoteReference(v) => MdInline::FootnoteReference(v.identifier.clone()),
        other => inline_parent_from_mdast(other),
    }
}

/// Converts an mdast phrasing parent with its children; a node of any
/// other kind is not phrasing content (`Flow`).
#[verifier::external_body]
fn inline_parent_from_mdast(node: &Node) -> MdInline {
    match node {
        Node::Emphasis(v) => MdInline::Emphasis(inline_list(&v.children)),
        Node::Strong(v) => MdInline::Strong(inline_list(&v.children)),
        Node::Delete(v) => MdInline::Delete(inline_list(&v.children)),
        Node::Link(v) => MdInline::Link(inline_list(&v.children)),
        Node::LinkReference(v) => MdInline::LinkReference(inline_list(&v.children)),
        Node::MdxJsxTextElement(v) => MdInline::MdxJsxTextElement(inline_list(&v.children)),
        _ => MdInline::Flow,
    }
}

// ---------------------------------------------------------------------------
// Outline types
// ---------------------------------------------------------------------------

#[derive(Clone, Debug, PartialEq, Eq)]
pub struct OutlineEntry {
    pub level: u8,
    pub text: String,
    /// Index of the rendered section in the document scroll container.
    pub section: usize,
}

#[derive(Clone, Debug, PartialEq, Eq)]
pub struct MarkdownSection {
    pub source: String,
}

#[derive(Clone, Debug, PartialEq, Eq)]
pub struct ParsedDocument {
    pub entries: Vec<OutlineEntry>,
    pub sections: Vec<MarkdownSection>,
}

/// A heading kept for the outline: where it starts (in bytes), its level
/// and its plain text.
#[derive(Clone, Debug, PartialEq, Eq)]
pub struct OutlineHeading {
    pub offset: usize,
    pub level: u8,
    pub text: String,
}

pub struct OutlineEntryView {
    pub level: u8,
    pub text: Seq<char>,
    pub section: usize,
}

pub struct ParsedDocumentView {
    pub entries: Seq<OutlineEntryView>,
    pub sections: Seq<Seq<char>>,
}

pub struct OutlineHeadingView {
    pub offset: usize,
    pub level: u8,
    pub text: Seq<char>,
}

impl View for OutlineEntry {
    type V = OutlineEntryView;

    open spec fn view(&self) -> OutlineEntryView {
        OutlineEntryView { level: self.level, text: self.text@, section: self.section }
    }
}

impl View for ParsedDocument {
    type V = ParsedDocumentView;

    open spec fn view(&self) -> ParsedDocumentView {
        ParsedDocumentView {
            entries: self.entries@.map_values(|e: OutlineEntry| e@),
            sections: self.sections@.map_values(|s: MarkdownSection| s.source@),
        }
    }
}

impl View for OutlineHeading {
    type V = OutlineHeadingView;

    open spec fn view(&self) -> OutlineHeadingView {
        OutlineHeadingView { offset: self.offset, level: self.level, text: self.text@ }
    }
}

// ---------------------------------------------------------------------------
// Specifications
// ---------------------------------------------------------------------------

/// Number of bytes in the UTF-8 encoding of `s` (what `str::len` counts).
pub open spec fn utf8_len(s: Seq<char>) -> nat {
    vstd::utf8::encode_utf8(s).len()
}

/// The plain text of phrasing content, in document order: the value of
/// text and inline code, a space for a break, the alternative text of an
/// image, and the text of the children of emphasis, strong, delete, links
/// and link references; every other kind gives no text.
pub open spec fn inline_text(nodes: Seq<MdInline>) -> Seq<char>
    decreases nodes,
{
    if nodes.len() == 0 {
        seq![]
    } else {
        let last = match nodes.last() {
            MdInline::Text(t) => t@,
            MdInline::InlineCode(t) => t@,
            MdInline::Break => seq![' '],
            MdInline::Image(alt) => alt@,
            MdInline::Emphasis(children) => inline_text(children@),
            MdInline::Strong(children) => inline_text(children@),
            MdInline::Delete(children) => inline_text(children@),
            MdInline::Link(children) => inline_text(children@),
            MdInline::LinkReference(children) => inline_text(children@),
            _ => seq![],
        };
        inline_text(nodes.drop_last()) + last
    }
}

/// Reading `s` left to right: the text gathered so far and whether
/// whitespace was seen after it.
pub open spec fn collapse_state(s: Seq<char>) -> (Seq<char>, bool)
    decreases s.len(),
{
    if s.len() == 0 {
        (seq![], false)
    } else {
        let (acc, pending) = collapse_state(s.drop_last());
        let c = s.last();
        if is_ws(c) {
            (acc, acc.len() > 0)
        } else if pending {
            (acc.push(' ').push(c), false)
        } else {
            (acc.push(c), false)
        }
    }
}

/// `split_whitespace().join(" ")`: the words of `s` separated by single
/// spaces.
pub open spec fn collapse_ws(s: Seq<char>) -> Seq<char> {
    collapse_state(s).0
}

/// The outline text of a heading.
pub open spec fn heading_text_of(children: Seq<MdInline>) -> Seq<char> {
    collapse_ws(inline_text(children))
}

/// The headings that enter the outline: ranks one to three, with a
/// position at or after the end of the front matter, and non-empty text;
/// in document order.
pub open spec fn outline_headings(blocks: Seq<MdBlock>, front_end: int) -> Seq<OutlineHeadingView>
    decreases blocks.len(),
{
    if blocks.len() == 0 {
        seq![]
    } else {
        let prev = outline_headings(blocks.drop_last(), front_end);
        match blocks.last() {
            MdBlock::Heading(h) => match h.offset {
                Some(o) => {
                    let t = heading_text_of(h.children@);
                    if 1 <= h.depth <= 3 && o >= front_end && t.len() > 0 {
                        prev.push(OutlineHeadingView { offset: o, level: h.depth, text: t })
                    } else {
                        prev
                    }
                },
                None => prev,
            },
            _ => prev,
        }
    }
}

/// The first character position at or after `k` whose UTF-8 prefix is at
/// least `b` bytes long (or `s.len()`).
pub open spec fn char_index_from(s: Seq<char>, k: int, b: int) -> int
    decreases s.len() - k,
{
    if k < 0 || k >= s.len() || utf8_len(s.take(k)) >= b {
        k
    } else {
        char_index_from(s, k + 1, b)
    }
}

/// The character position that sits at byte offset `b`.
pub open spec fn char_index(s: Seq<char>, b: int) -> int {
    char_index_from(s, 0, b)
}

/// Every heading starts on a character boundary inside the text, before
/// its end, and each starts after the one before (the conditions under
/// which the text can be cut there into non-empty sections).
pub open spec fn headings_fit(s: Seq<char>, hs: Seq<OutlineHeadingView>) -> bool {
    &&& forall|i: int|
        0 <= i < hs.len() ==> utf8_len(s.take(char_index(s, #[trigger] hs[i].offset as int)))
            == hs[i].offset
    &&& forall|i: int| 0 <= i < hs.len() ==> #[trigger] hs[i].offset < utf8_len(s)
    &&& forall|i: int, j: int|
        0 <= i < j < hs.len() ==> #[trigger] hs[i].offset < #[trigger] hs[j].offset
}

/// The whole text as one section with no outline entries.
pub open spec fn single_section(s: Seq<char>) -> ParsedDocumentView {
    ParsedDocumentView { entries: seq![], sections: seq![s] }
}

/// The text cut at the given headings: a leading section for the text
/// before the first heading (when there is any), then one section per
/// heading that runs to the next heading; one outline entry per heading
/// pointing at its section.
pub open spec fn split_at_headings(s: Seq<char>, hs: Seq<OutlineHeadingView>) -> ParsedDocumentView {
    if hs.len() == 0 {
        single_section(s)
    } else {
        let n = hs.len() as int;
        let lead: Seq<Seq<char>> = if hs[0].offset > 0 {
            seq![s.take(char_index(s, hs[0].offset as int))]
        } else {
            seq![]
        };
        ParsedDocumentView {
            entries: Seq::new(
                hs.len(),
                |i: int|
                    OutlineEntryView {
                        level: hs[i].level,
                        text: hs[i].text,
                        section: (lead.len() + i) as usize,
                    },
            ),
            sections: lead + Seq::new(
                hs.len(),
                |i: int|
                    s.subrange(
                        char_index(s, hs[i].offset as int),
                        if i + 1 < n {
                            char_index(s, hs[i + 1].offset as int)
                        } else {
                            s.len() as int
                        },
                    ),
            ),
        }
    }
}

/// The end of the line that starts at `i`, its `\n` included.
pub open spec fn incl_line_end(s: Seq<char>, i: int) -> int {
    let e = char_pos(s, '\n', i);
    if e < s.len() {
        e + 1
    } else {
        s.len() as int
    }
}

/// `s` without any `\r` or `\n` at its end.
pub open spec fn trim_end_crlf(s: Seq<char>) -> Seq<char>
    decreases s.len(),
{
    if s.len() > 0 && (s.last() == '\r' || s.last() == '\n') {
        trim_end_crlf(s.drop_last())
    } else {
        s
    }
}

/// The end of the first line at or after `i` that reads `---` or `...`.
pub open spec fn closing_delimiter_end(s: Seq<char>, i: int) -> Option<int>
    decreases s.len() - i,
{
    if i < 0 || i >= s.len() {
        None
    } else {
        let e = incl_line_end(s, i);
        let l = trim_end_crlf(s.subrange(i, e));
        if l == "---"@ || l == "..."@ {
            Some(e)
        } else {
            proof {
                lemma_char_pos_bounds(s, '\n', i);
            }
            closing_delimiter_end(s, e)
        }
    }
}

/// The character position just after a leading YAML front matter block:
/// after an optional byte-order mark, the first line reads `---`, and the
/// block runs through the next line that reads `---` or `...`.
pub open spec fn front_matter_end(s: Seq<char>) -> Option<int> {
    let c0: int = if s.len() > 0 && s[0] == '\u{feff}' {
        1
    } else {
        0
    };
    if c0 >= s.len() {
        None
    } else {
        let e1 = incl_line_end(s, c0);
        if trim_end_crlf(s.subrange(c0, e1)) != "---"@ {
            None
        } else {
            closing_delimiter_end(s, e1)
        }
    }
}

/// The byte offset where the front matter ends, 0 without front matter.
pub open spec fn front_matter_bytes(s: Seq<char>) -> int {
    match front_matter_end(s) {
        Some(k) => utf8_len(s.take(k)) as int,
        None => 0,
    }
}

/// The outline and sections of a Markdown source.
pub open spec fn document_outline(s: Seq<char>) -> ParsedDocumentView {
    let hs = match mdast_blocks(s) {
        Some(blocks) => outline_headings(blocks, front_matter_bytes(s)),
        None => seq![],
    };
    if headings_fit(s, hs) {
        split_at_headings(s, hs)
    } else {
        single_section(s)
    }
}

// ---------------------------------------------------------------------------
// Lemmas
// ---------------------------------------------------------------------------

/// The UTF-8 length of a text grows by the width of its last character.
proof fn lemma_utf8_len_drop_last(s: Seq<char>)
    requires
        s.len() > 0,
    ensures
        utf8_len(s) == utf8_len(s.drop_last()) + vstd::utf8::encode_scalar(s.last() as u32).len(),
    decreases s.len(),
{
    if s.len() == 1 {
        assert(s.drop_last() =~= Seq::<char>::empty());
        assert(s.drop_first() =~= Seq::<char>::empty());
    } else {
        lemma_utf8_len_drop_last(s.drop_first());
        assert(s.drop_last().drop_first() =~= s.drop_first().drop_last());
        assert(s.drop_first().last() == s.last());
    }
}

/// The width of one character's encoding, by code point.
proof fn lemma_scalar_width(c: char)
    ensures
        vstd::utf8::encode_scalar(c as u32).len() == char_width(c),
        1 <= char_width(c) <= 4,
{
    vstd::utf8::char_is_scalar(c);
}

pub open spec fn char_width(c: char) -> nat {
    let u = c as u32;
    if u <= 0x7f {
        1
    } else if u <= 0x7ff {
        2
    } else if u <= 0xffff {
        3
    } else {
        4
    }
}

proof fn lemma_utf8_len_prefix(s: Seq<char>, k: int)
    requires
        0 <= k < s.len(),
    ensures
        utf8_len(s.take(k + 1)) == utf8_len(s.take(k)) + char_width(s[k]),
{
    lemma_utf8_len_drop_last(s.take(k + 1));
    assert(s.take(k + 1).drop_last() =~= s.take(k));
    lemma_scalar_width(s[k]);
}

proof fn lemma_utf8_len_monotone(s: Seq<char>, j: int, k: int)
    requires
        0 <= j <= k <= s.len(),
    ensures
        utf8_len(s.take(j)) <= utf8_len(s.take(k)),
        j < k ==> utf8_len(s.take(j)) < utf8_len(s.take(k)),
    decreases k - j,
{
    if j < k {
        lemma_utf8_len_monotone(s, j, k - 1);
        lemma_utf8_len_prefix(s, k - 1);
    }
}

// ---------------------------------------------------------------------------
// Executable outline
// ---------------------------------------------------------------------------

fn width_of(c: char) -> (w: usize)
    ensures
        w as nat == char_width(c),
{
    let u = c as u32;
    if u <= 0x7f {
        1
    } else if u <= 0x7ff {
        2
    } else if u <= 0xffff {
        3
    } else {
        4
    }
}

/// Appends the plain text of phrasing content to `output`.
pub fn append_inline_text(nodes: &[MdInline], output: &mut String)
    ensures
        final(output)@ == old(output)@ + inline_text(nodes@),
    decreases nodes@,
{
    let ghost start = output@;
    let mut i: usize = 0;
    while i < nodes.len()
        invariant
            i <= nodes@.len(),
            output@ == start + inline_text(nodes@.take(i as int)),
        decreases nodes@.len() - i,
    {
        let ghost before = output@;
        match &nodes[i] {
            MdInline::Text(t) => push_str(output, t.as_str()),
            MdInline::InlineCode(t) => push_str(output, t.as_str()),
            MdInline::Break => push_char(output, ' '),
            MdInline::Image(alt) => push_str(output, alt.as_str()),
            MdInline::Emphasis(children) => {
                assert(decreases_to!(nodes@ => nodes@[i as int]));
                append_inline_text(children.as_slice(), output);
            },
            MdInline::Strong(children) => {
                assert(decreases_to!(nodes@ => nodes@[i as int]));
                append_inline_text(children.as_slice(), output);
            },
            MdInline::Delete(children) => {
                assert(decreases_to!(nodes@ => nodes@[i as int]));
                append_inline_text(children.as_slice(), output);
            },
            MdInline::Link(children) => {
                assert(decreases_to!(nodes@ => nodes@[i as int]));
                append_inline_text(children.as_slice(), output);
            },
            MdInline::LinkReference(children) => {
                assert(decreases_to!(nodes@ => nodes@[i as int]));
                append_inline_text(children.as_slice(), output);
            },
            _ => {
                assert(output@ =~= before + Seq::<char>::empty());
            },
        }
        proof {
            assert(nodes@.take(i + 1).drop_last() =~= nodes@.take(i as int));
            assert(nodes@.take(i + 1).last() == nodes@[i as int]);
        }
        i = i + 1;
    }
    assert(nodes@.take(nodes@.len() as int) =~= nodes@);
}

/// Runs of whitespace in `text` become one space; none are kept at the ends.
pub fn collapse_whitespace(text: &str) -> (r: String)
    ensures
        r@ == collapse_ws(text@),
{
    let cs = chars_of(text);
    let mut out = String::new();
    let mut pending = false;
    let mut i: usize = 0;
    while i < cs.len()
        invariant
            i <= cs@.len(),
            cs@ == text@,
            (out@, pending) == collapse_state(cs@.take(i as int)),
        decreases cs@.len() - i,
    {
        let c = cs[i];
        assert(cs@.take(i + 1).drop_last() =~= cs@.take(i as int));
        if char_is_ws(c) {
            pending = !out.as_str().is_empty();
        } else {
            if pending {
                push_char(&mut out, ' ');
            }
            push_char(&mut out, c);
            pending = false;
        }
        i = i + 1;
    }
    assert(cs@.take(cs@.len() as int) =~= cs@);
    out
}

/// The outline text of a heading: its plain text with whitespace collapsed.
pub fn heading_text(nodes: &[MdInline]) -> (r: String)
    ensures
        r@ == heading_text_of(nodes@),
{
    let mut text = String::new();
    append_inline_text(nodes, &mut text);
    assert(text@ =~= inline_text(nodes@));
    collapse_whitespace(text.as_str())
}

/// The end of the line that starts at `i`, its `\n` included.
fn incl_line_end_at(s: &[char], i: usize) -> (e: usize)
    requires
        i <= s@.len(),
    ensures
        e as int == incl_line_end(s@, i as int),
        i <= e <= s@.len(),
        i < s@.len() ==> i < e,
{
    let p = char_pos_from(s, '\n', i);
    proof {
        lemma_char_pos_bounds(s@, '\n', i as int);
    }
    if p < s.len() {
        p + 1
    } else {
        s.len()
    }
}

/// Whether `s[lo..hi]`, without trailing `\r`/`\n`, equals `p`.
fn line_is(s: &[char], lo: usize, hi: usize, p: &[char]) -> (b: bool)
    requires
        lo <= hi <= s@.len(),
    ensures
        b == (trim_end_crlf(s@.subrange(lo as int, hi as int)) == p@),
{
    let mut j = hi;
    while j > lo && (s[j - 1] == '\r' || s[j - 1] == '\n')
        invariant
            lo <= j <= hi <= s@.len(),
            trim_end_crlf(s@.subrange(lo as int, j as int)) == trim_end_crlf(
                s@.subrange(lo as int, hi as int),
            ),
        decreases j - lo,
    {
        assert(s@.subrange(lo as int, j as int).drop_last() =~= s@.subrange(
            lo as int,
            j - 1,
        ));
        j = j - 1;
    }
    crate::text::equals_at(s, lo, j, p)
}

/// Bytes in the UTF-8 encoding of `s[..k]`.
fn utf8_prefix_len(s: &[char], k: usize, total: usize) -> (b: usize)
    requires
        k <= s@.len(),
        total == utf8_len(s@),
    ensures
        b as nat == utf8_len(s@.take(k as int)),
{
    let mut b: usize = 0;
    let mut i: usize = 0;
    while i < k
        invariant
            i <= k <= s@.len(),
            total == utf8_len(s@),
            b as nat == utf8_len(s@.take(i as int)),
        decreases k - i,
    {
        proof {
            lemma_utf8_len_prefix(s@, i as int);
            lemma_utf8_len_monotone(s@, i + 1, s@.len() as int);
            assert(s@.take(s@.len() as int) =~= s@);
        }
        b = b + width_of(s[i]);
        i = i + 1;
    }
    b
}

/// The character text of `source` and its UTF-8 length.
fn chars_and_len(source: &str) -> (r: (Vec<char>, usize))
    ensures
        r.0@ == source@,
        r.1 as nat == utf8_len(source@),
{
    let cs = chars_of(source);
    let total = source.as_bytes().len();
    (cs, total)
}

/// Returns the byte offset immediately after a leading YAML front matter
/// block: only a `---` line at the beginning of the file with a matching
/// `---` or `...` line counts as metadata.
pub fn yaml_front_matter_end(source: &str) -> (r: Option<usize>)
    ensures
        match front_matter_end(source@) {
            Some(k) => r matches Some(b) && b as int == utf8_len(source@.take(k)),
            None => r is None,
        },
{
    let (cs, total) = chars_and_len(source);
    let s = cs.as_slice();
    let dashes = chars_of("---");
    let dots = chars_of("...");
    let c0: usize = if s.len() > 0 && s[0] == '\u{feff}' {
        1
    } else {
        0
    };
    if c0 >= s.len() {
        return None;
    }
    let e1 = incl_line_end_at(s, c0);
    if !line_is(s, c0, e1, dashes.as_slice()) {
        return None;
    }
    assert(front_matter_end(s@) == closing_delimiter_end(s@, e1 as int));
    let mut i = e1;
    while i < s.len()
        invariant
            s@ == source@,
            total as nat == utf8_len(s@),
            dashes@ == "---"@,
            dots@ == "..."@,
            i <= s@.len(),
            front_matter_end(s@) == closing_delimiter_end(s@, i as int),
        decreases s@.len() - i,
    {
        let e = incl_line_end_at(s, i);
        if line_is(s, i, e, dashes.as_slice()) || line_is(s, i, e, dots.as_slice()) {
            let b = utf8_prefix_len(s, e, total);
            return Some(b);
        }
        i = e;
    }
    None
}

/// The headings of `blocks` that enter the outline (see [`outline_headings`]).
pub fn collect_outline_headings(blocks: &[MdBlock], front_end: usize) -> (r: Vec<OutlineHeading>)
    ensures
        r@.map_values(|h: OutlineHeading| h@) == outline_headings(blocks@, front_end as int),
{
    let mut r: Vec<OutlineHeading> = Vec::new();
    let mut i: usize = 0;
    while i < blocks.len()
        invariant
            i <= blocks@.len(),
            r@.map_values(|h: OutlineHeading| h@) == outline_headings(
                blocks@.take(i as int),
                front_end as int,
            ),
        decreases blocks@.len() - i,
    {
        assert(blocks@.take(i + 1).drop_last() =~= blocks@.take(i as int));
        assert(blocks@.take(i + 1).last() == blocks@[i as int]);
        match &blocks[i] {
            MdBlock::Heading(h) => match h.offset {
                Some(o) => {
                    if h.depth >= 1 && h.depth <= 3 && o >= front_end {
                        let t = heading_text(h.children.as_slice());
                        if !t.as_str().is_empty() {
                            let ghost before = r@;
                            r.push(OutlineHeading { offset: o, level: h.depth, text: t });
                            assert(r@.map_values(|h: OutlineHeading| h@) =~= before.map_values(
                                |h: OutlineHeading| h@,
                            ).push(r@.last()@));
                        } else {
                            assert(t@.len() == 0);
                        }
                    }
                },
                None => {},
            },
            _ => {},
        }
        i = i + 1;
    }
    assert(blocks@.take(blocks@.len() as int) =~= blocks@);
    r
}

/// The character position at byte offset `b` (see [`char_index`]).
fn char_index_at(s: &[char], b: usize, total: usize) -> (r: (usize, usize))
    requires
        total == utf8_len(s@),
    ensures
        r.0 as int == char_index(s@, b as int),
        r.0 <= s@.len(),
        r.1 as nat == utf8_len(s@.take(r.0 as int)),
{
    let mut k: usize = 0;
    let mut bytes: usize = 0;
    while k < s.len() && bytes < b
        invariant
            k <= s@.len(),
            total == utf8_len(s@),
            bytes as nat == utf8_len(s@.take(k as int)),
            char_index(s@, b as int) == char_index_from(s@, k as int, b as int),
        decreases s@.len() - k,
    {
        proof {
            lemma_utf8_len_prefix(s@, k as int);
            lemma_utf8_len_monotone(s@, k + 1, s@.len() as int);
            assert(s@.take(s@.len() as int) =~= s@);
        }
        bytes = bytes + width_of(s[k]);
        k = k + 1;
    }
    (k, bytes)
}

/// Whether the headings can cut the text (see [`headings_fit`]).
pub fn headings_fit_text(source: &str, headings: &[OutlineHeading]) -> (b: bool)
    ensures
        b == headings_fit(source@, headings@.map_values(|h: OutlineHeading| h@)),
{
    let ghost hs = headings@.map_values(|h: OutlineHeading| h@);
    let (cs, total) = chars_and_len(source);
    let s = cs.as_slice();
    let mut i: usize = 0;
    while i < headings.len()
        invariant
            i <= headings@.len(),
            hs == headings@.map_values(|h: OutlineHeading| h@),
            s@ == source@,
            total as nat == utf8_len(s@),
            forall|j: int|
                0 <= j < i ==> utf8_len(s@.take(char_index(s@, #[trigger] hs[j].offset as int)))
                    == hs[j].offset,
            forall|j: int| 0 <= j < i ==> #[trigger] hs[j].offset < utf8_len(s@),
            forall|j: int, l: int| 0 <= j < l < i ==> #[trigger] hs[j].offset < #[trigger] hs[l].offset,
        decreases headings@.len() - i,
    {
        let (k, bytes) = char_index_at(s, headings[i].offset, total);
        if bytes != headings[i].offset {
            assert(utf8_len(s@.take(char_index(s@, hs[i as int].offset as int)))
                != hs[i as int].offset);
            return false;
        }
        if headings[i].offset >= total {
            assert(hs[i as int].offset >= utf8_len(s@));
            return false;
        }
        if i > 0 && headings[i - 1].offset >= headings[i].offset {
            assert(hs[i - 1].offset >= hs[i as int].offset);
            return false;
        }
        proof {
            assert forall|j: int, l: int| 0 <= j < l < i + 1 implies #[trigger] hs[j].offset
                < #[trigger] hs[l].offset by {
                if l == i && j < i - 1 {
                    assert(hs[j].offset < hs[i - 1].offset);
                }
            }
        }
        i = i + 1;
    }
    true
}

/// Cuts the text at the given headings (see [`split_at_headings`]).
pub fn split_document(source: &str, headings: &[OutlineHeading]) -> (r: ParsedDocument)
    requires
        headings_fit(source@, headings@.map_values(|h: OutlineHeading| h@)),
    ensures
        r@ == split_at_headings(source@, headings@.map_values(|h: OutlineHeading| h@)),
{
    let ghost hs = headings@.map_values(|h: OutlineHeading| h@);
    let n = headings.len();
    if n == 0 {
        let mut sections = Vec::new();
        sections.push(MarkdownSection { source: to_owned_string(source) });
        let r = ParsedDocument { entries: Vec::new(), sections };
        assert(r@.entries =~= Seq::<OutlineEntryView>::empty());
        assert(r@.sections =~= seq![source@]);
        return r;
    }
    let (cs, total) = chars_and_len(source);
    let s = cs.as_slice();
    // character positions of every heading
    let mut ks: Vec<usize> = Vec::new();
    let mut i: usize = 0;
    while i < n
        invariant
            i <= n == headings@.len(),
            hs == headings@.map_values(|h: OutlineHeading| h@),
            s@ == source@,
            total as nat == utf8_len(s@),
            ks@.len() == i,
            forall|j: int| 0 <= j < i ==> #[trigger] ks@[j] as int == char_index(s@, hs[j].offset as int),
            forall|j: int| 0 <= j < i ==> #[trigger] ks@[j] <= s@.len(),
        decreases n - i,
    {
        let (k, _) = char_index_at(s, headings[i].offset, total);
        ks.push(k);
        i = i + 1;
    }
    let ghost lead: Seq<Seq<char>> = if hs[0].offset > 0 {
        seq![s@.take(char_index(s@, hs[0].offset as int))]
    } else {
        seq![]
    };
    let mut sections: Vec<MarkdownSection> = Vec::new();
    if headings[0].offset > 0 {
        sections.push(MarkdownSection { source: string_from_chars(&s[0..ks[0]]) });
        assert(s@.subrange(0, ks@[0] as int) =~= s@.take(ks@[0] as int));
    }
    let base = sections.len();
    let mut entries: Vec<OutlineEntry> = Vec::new();
    let mut i: usize = 0;
    while i < n
        invariant
            i <= n == headings@.len(),
            n > 0,
            hs == headings@.map_values(|h: OutlineHeading| h@),
            headings_fit(s@, hs),
            s@ == source@,
            ks@.len() == n,
            forall|j: int| 0 <= j < n ==> #[trigger] ks@[j] as int == char_index(s@, hs[j].offset as int),
            forall|j: int| 0 <= j < n ==> #[trigger] ks@[j] <= s@.len(),
            base as int == lead.len(),
            lead.len() <= 1,
            entries@.map_values(|e: OutlineEntry| e@) == Seq::new(
                i as nat,
                |j: int|
                    OutlineEntryView {
                        level: hs[j].level,
                        text: hs[j].text,
                        section: (lead.len() + j) as usize,
                    },
            ),
            sections@.map_values(|m: MarkdownSection| m.source@) == lead + Seq::new(
                i as nat,
                |j: int|
                    s@.subrange(
                        char_index(s@, hs[j].offset as int),
                        if j + 1 < n {
                            char_index(s@, hs[j + 1].offset as int)
                        } else {
                            s@.len() as int
                        },
                    ),
            ),
        decreases n - i,
    {
        let start = ks[i];
        let end = if i + 1 < n {
            ks[i + 1]
        } else {
            s.len()
        };
        proof {
            if i + 1 < n {
                let a = hs[i as int].offset as int;
                let b = hs[i + 1].offset as int;
                assert(a <= b);
                lemma_char_index_monotone(s@, a, b);
            }
        }
        let ghost before_s = sections@;
        let ghost before_e = entries@;
        let sec = MarkdownSection { source: string_from_chars(&s[start..end]) };
        assert(sec.source@ == s@.subrange(start as int, end as int));
        sections.push(sec);
        let ent = OutlineEntry {
            level: headings[i].level,
            text: headings[i].text.clone(),
            section: base + i,
        };
        assert(ent@ == OutlineEntryView {
            level: hs[i as int].level,
            text: hs[i as int].text,
            section: (lead.len() + i) as usize,
        });
        entries.push(ent);
        proof {
            assert(sections@.map_values(|m: MarkdownSection| m.source@) =~= before_s.map_values(
                |m: MarkdownSection| m.source@,
            ).push(sec.source@));
            assert(entries@.map_values(|e: OutlineEntry| e@) =~= before_e.map_values(
                |e: OutlineEntry| e@,
            ).push(ent@));
            assert(sections@.map_values(|m: MarkdownSection| m.source@) =~= lead + Seq::new(
                (i + 1) as nat,
                |j: int|
                    s@.subrange(
                        char_index(s@, hs[j].offset as int),
                        if j + 1 < n {
                            char_index(s@, hs[j + 1].offset as int)
                        } else {
                            s@.len() as int
                        },
                    ),
            ));
            assert(entries@.map_values(|e: OutlineEntry| e@) =~= Seq::new(
                (i + 1) as nat,
                |j: int|
                    OutlineEntryView {
                        level: hs[j].level,
                        text: hs[j].text,
                        section: (lead.len() + j) as usize,
                    },
            ));
        }
        i = i + 1;
    }
    ParsedDocument { entries, sections }
}

/// `char_index` keeps the order of byte offsets.
proof fn lemma_char_index_monotone(s: Seq<char>, a: int, b: int)
    requires
        a <= b,
    ensures
        char_index(s, a) <= char_index(s, b),
{
    lemma_char_index_from_monotone(s, 0, a, b);
}

proof fn lemma_char_index_from_monotone(s: Seq<char>, k: int, a: int, b: int)
    requires
        a <= b,
        0 <= k,
    ensures
        char_index_from(s, k, a) <= char_index_from(s, k, b),
    decreases s.len() - k,
{
    if k < s.len() && utf8_len(s.take(k)) < a {
        lemma_char_index_from_monotone(s, k + 1, a, b);
    } else {
        lemma_char_index_from_ge(s, k, b);
    }
}

proof fn lemma_char_index_from_ge(s: Seq<char>, k: int, b: int)
    requires
        0 <= k,
    ensures
        k <= char_index_from(s, k, b),
    decreases s.len() - k,
{
    if k < s.len() && utf8_len(s.take(k)) < b {
        lemma_char_index_from_ge(s, k + 1, b);
    }
}

/// Parses h1–h3 headings and splits the document at top-level heading
/// boundaries (see [`document_outline`]).
pub fn parse_document(source: &str) -> (r: ParsedDocument)
    ensures
        r@ == document_outline(source@),
{
    let front_end = match yaml_front_matter_end(source) {
        Some(b) => b,
        None => 0,
    };
    let headings = match markdown_blocks(source) {
        Some(blocks) => collect_outline_headings(blocks.as_slice(), front_end),
        None => Vec::new(),
    };
    proof {
        if mdast_blocks(source@) is None {
            assert(headings@.map_values(|h: OutlineHeading| h@) =~= Seq::<OutlineHeadingView>::empty());
        }
    }
    if headings_fit_text(source, headings.as_slice()) {
        split_document(source, headings.as_slice())
    } else {
        let mut sections = Vec::new();
        sections.push(MarkdownSection { source: to_owned_string(source) });
        let r = ParsedDocument { entries: Vec::new(), sections };
        assert(r@.entries =~= Seq::<OutlineEntryView>::empty());
        assert(r@.sections =~= seq![source@]);
        r
    }
}

// ---------------------------------------------------------------------------
// Laws
// ---------------------------------------------------------------------------

proof fn lemma_char_index_from_le(s: Seq<char>, k: int, b: int)
    requires
        0 <= k <= s.len(),
    ensures
        char_index_from(s, k, b) <= s.len(),
    decreases s.len() - k,
{
    if k < s.len() && utf8_len(s.take(k)) < b {
        lemma_char_index_from_le(s, k + 1, b);
    }
}

/// The character position where the `i`th heading's section starts.
pub open spec fn heading_start(s: Seq<char>, hs: Seq<OutlineHeadingView>, i: int) -> int {
    char_index(s, hs[i].offset as int)
}

/// The character position where the `i`th heading's section ends.
pub open spec fn heading_end(s: Seq<char>, hs: Seq<OutlineHeadingView>, i: int) -> int {
    if i + 1 < hs.len() {
        heading_start(s, hs, i + 1)
    } else {
        s.len() as int
    }
}

proof fn lemma_heading_bounds(s: Seq<char>, hs: Seq<OutlineHeadingView>, i: int)
    requires
        headings_fit(s, hs),
        0 <= i < hs.len(),
    ensures
        0 <= heading_start(s, hs, i) <= heading_end(s, hs, i) <= s.len(),
{
    lemma_char_index_from_ge(s, 0, hs[i].offset as int);
    lemma_char_index_from_le(s, 0, hs[i].offset as int);
    if i + 1 < hs.len() {
        lemma_char_index_monotone(s, hs[i].offset as int, hs[i + 1].offset as int);
        lemma_char_index_from_le(s, 0, hs[i + 1].offset as int);
    }
}

/// The sections of the headings from the `i`th on, joined, are the text
/// from the `i`th heading to the end.
proof fn lemma_heading_sections_join(s: Seq<char>, hs: Seq<OutlineHeadingView>, i: int)
    requires
        headings_fit(s, hs),
        0 <= i < hs.len(),
    ensures
        Seq::new(
            hs.len(),
            |j: int| s.subrange(heading_start(s, hs, j), heading_end(s, hs, j)),
        ).skip(i).flatten() == s.subrange(heading_start(s, hs, i), s.len() as int),
    decreases hs.len() - i,
{
    let body = Seq::new(
        hs.len(),
        |j: int| s.subrange(heading_start(s, hs, j), heading_end(s, hs, j)),
    );
    lemma_heading_bounds(s, hs, i);
    let t = body.skip(i);
    assert(t.first() == body[i]);
    assert(t.drop_first() =~= body.skip(i + 1));
    assert(t.flatten() == t.first() + t.drop_first().flatten());
    if i + 1 < hs.len() {
        lemma_heading_sections_join(s, hs, i + 1);
        lemma_heading_bounds(s, hs, i + 1);
        assert(body[i] + s.subrange(heading_start(s, hs, i + 1), s.len() as int) =~= s.subrange(
            heading_start(s, hs, i),
            s.len() as int,
        ));
    } else {
        assert(body.skip(i + 1) =~= Seq::<Seq<char>>::empty());
        assert(body.skip(i + 1).flatten() =~= Seq::<char>::empty());
        assert(body[i] + Seq::<char>::empty() =~= body[i]);
    }
}

/// Cutting a text at its headings loses nothing: the sections, joined in
/// order, are the text.
pub proof fn law_split_sections_rebuild_text(s: Seq<char>, hs: Seq<OutlineHeadingView>)
    requires
        headings_fit(s, hs),
    ensures
        split_at_headings(s, hs).sections.flatten() == s,
{
    if hs.len() == 0 {
        seq![s].lemma_flatten_one_element();
    } else {
        let body = Seq::new(
            hs.len(),
            |j: int| s.subrange(heading_start(s, hs, j), heading_end(s, hs, j)),
        );
        let k0 = heading_start(s, hs, 0);
        let lead: Seq<Seq<char>> = if hs[0].offset > 0 {
            seq![s.take(k0)]
        } else {
            seq![]
        };
        assert(split_at_headings(s, hs).sections =~= lead + body);
        lemma_heading_sections_join(s, hs, 0);
        assert(body.skip(0) =~= body);
        lemma_flatten_concat(lead, body);
        lemma_heading_bounds(s, hs, 0);
        if hs[0].offset > 0 {
            lead.lemma_flatten_one_element();
            assert(s.take(k0) + s.subrange(k0, s.len() as int) =~= s);
        } else {
            assert(k0 == 0);
            assert(lead.flatten() =~= Seq::<char>::empty());
            assert(Seq::<char>::empty() + s.subrange(0, s.len() as int) =~= s);
        }
    }
}

/// A parsed document loses nothing of its source: its sections, joined in
/// order, are the source text.
pub proof fn law_sections_rebuild_source(s: Seq<char>)
    ensures
        document_outline(s).sections.flatten() == s,
{
    let hs = match mdast_blocks(s) {
        Some(blocks) => outline_headings(blocks, front_matter_bytes(s)),
        None => seq![],
    };
    if headings_fit(s, hs) {
        law_split_sections_rebuild_text(s, hs);
    } else {
        seq![s].lemma_flatten_one_element();
    }
}

/// Every outline entry points at a section of the document, and the
/// entries point at later and later sections (for any document whose
/// sections a `Vec` can count).
pub proof fn law_entries_point_at_sections(s: Seq<char>)
    requires
        document_outline(s).sections.len() <= usize::MAX,
    ensures
        forall|i: int|
            0 <= i < document_outline(s).entries.len() ==> (#[trigger] document_outline(
                s,
            ).entries[i]).section < document_outline(s).sections.len(),
        forall|i: int, j: int|
            0 <= i < j < document_outline(s).entries.len() ==> (#[trigger] document_outline(
                s,
            ).entries[i]).section < (#[trigger] document_outline(s).entries[j]).section,
{
    let hs = match mdast_blocks(s) {
        Some(blocks) => outline_headings(blocks, front_matter_bytes(s)),
        None => seq![],
    };
    let d = document_outline(s);
    if headings_fit(s, hs) && hs.len() > 0 {
        let lead_len: int = if hs[0].offset > 0 {
            1
        } else {
            0
        };
        assert(d.sections.len() == lead_len + hs.len());
        assert forall|i: int| 0 <= i < d.entries.len() implies (#[trigger] d.entries[i]).section
            == lead_len + i by {}
    }
}

/// A text whose whitespace is single spaces between words: no whitespace
/// at either end, and each whitespace character is a space between two
/// characters that are not whitespace.
pub open spec fn collapsed(t: Seq<char>) -> bool {
    forall|i: int|
        0 <= i < t.len() && is_ws(#[trigger] t[i]) ==> t[i] == ' ' && 0 < i < t.len() - 1 && !is_ws(
            t[i - 1],
        ) && !is_ws(t[i + 1])
}

proof fn lemma_collapse_state(s: Seq<char>)
    ensures
        collapsed(collapse_state(s).0),
        collapse_state(s).1 ==> collapse_state(s).0.len() > 0,
    decreases s.len(),
{
    if s.len() > 0 {
        lemma_collapse_state(s.drop_last());
        let (acc, pending) = collapse_state(s.drop_last());
        let c = s.last();
        if acc.len() > 0 {
            assert(!is_ws(acc.last())) by {
                if is_ws(acc[acc.len() - 1]) {
                    assert(acc.len() - 1 < acc.len() - 1);
                }
            }
        }
        if !is_ws(c) {
            if pending {
                let t = acc.push(' ').push(c);
                assert forall|i: int| 0 <= i < t.len() && is_ws(#[trigger] t[i]) implies t[i] == ' '
                    && 0 < i < t.len() - 1 && !is_ws(t[i - 1]) && !is_ws(t[i + 1]) by {
                    if i < acc.len() {
                        assert(t[i] == acc[i]);
                        if i + 1 < acc.len() {
                            assert(t[i + 1] == acc[i + 1]);
                        }
                        assert(t[i - 1] == acc[i - 1]);
                    } else if i == acc.len() {
                        assert(t[i - 1] == acc.last());
                        assert(t[i + 1] == c);
                    }
                }
                assert(collapsed(t));
            } else {
                let t = acc.push(c);
                assert forall|i: int| 0 <= i < t.len() && is_ws(#[trigger] t[i]) implies t[i] == ' '
                    && 0 < i < t.len() - 1 && !is_ws(t[i - 1]) && !is_ws(t[i + 1]) by {
                    if i < acc.len() {
                        assert(t[i] == acc[i]);
                        assert(t[i - 1] == acc[i - 1]);
                        assert(t[i + 1] == acc[i + 1]);
                    }
                }
                assert(collapsed(t));
            }
        }
    }
}

/// An outline text has its words separated by single spaces, with no
/// whitespace at either end.
pub proof fn law_heading_text_is_collapsed(children: Seq<MdInline>)
    ensures
        collapsed(heading_text_of(children)),
{
    lemma_collapse_state(inline_text(children));
}


/// The headings that enter the outline are of rank one to three, carry a
/// non-empty collapsed text, and keep their order.
proof fn lemma_outline_headings_shape(blocks: Seq<MdBlock>, front_end: int)
    ensures
        forall|i: int|
            0 <= i < outline_headings(blocks, front_end).len() ==> {
                let h = #[trigger] outline_headings(blocks, front_end)[i];
                &&& 1 <= h.level <= 3
                &&& h.text.len() > 0
                &&& collapsed(h.text)
            },
    decreases blocks.len(),
{
    if blocks.len() > 0 {
        lemma_outline_headings_shape(blocks.drop_last(), front_end);
        let prev = outline_headings(blocks.drop_last(), front_end);
        let all = outline_headings(blocks, front_end);
        match blocks.last() {
            MdBlock::Heading(h) => {
                law_heading_text_is_collapsed(h.children@);
                assert forall|i: int| 0 <= i < all.len() implies {
                    let g = #[trigger] all[i];
                    &&& 1 <= g.level <= 3
                    &&& g.text.len() > 0
                    &&& collapsed(g.text)
                } by {
                    if i < prev.len() {
                        assert(all[i] == prev[i]);
                    }
                }
            },
            _ => {
                assert(all == prev);
            },
        }
    }
}

/// Every document has at least one section; the outline has one entry per
/// section after an optional leading section (the text before the first
/// heading), and the `i`th entry points at the section just after the
/// `i`th; each entry is of rank one to three and carries a non-empty
/// text whose words are separated by single spaces (for any document whose
/// sections a `Vec` can count).
pub proof fn law_outline_entries_well_formed(s: Seq<char>)
    requires
        document_outline(s).sections.len() <= usize::MAX,
    ensures
        ({
            let d = document_outline(s);
            let k = d.sections.len() - d.entries.len();
            &&& d.sections.len() >= 1
            &&& k == 1 || (k == 0 && d.entries.len() > 0)
            &&& forall|i: int|
                0 <= i < d.entries.len() ==> {
                    let e = #[trigger] d.entries[i];
                    &&& e.section == i + k
                    &&& 1 <= e.level <= 3
                    &&& e.text.len() > 0
                    &&& collapsed(e.text)
                }
        }),
{
    let hs = match mdast_blocks(s) {
        Some(blocks) => outline_headings(blocks, front_matter_bytes(s)),
        None => seq![],
    };
    match mdast_blocks(s) {
        Some(blocks) => lemma_outline_headings_shape(blocks, front_matter_bytes(s)),
        None => {},
    }
    let d = document_outline(s);
    if headings_fit(s, hs) && hs.len() > 0 {
        let lead_len: int = if hs[0].offset > 0 {
            1
        } else {
            0
        };
        assert(d.sections.len() == lead_len + hs.len());
        assert(d.entries.len() == hs.len());
        assert forall|i: int| 0 <= i < d.entries.len() implies {
            let e = #[trigger] d.entries[i];
            &&& e.section == i + lead_len
            &&& 1 <= e.level <= 3
            &&& e.text.len() > 0
            &&& collapsed(e.text)
        } by {
            assert(d.entries[i].level == hs[i].level);
            assert(d.entries[i].text == hs[i].text);
        }
    }
}


proof fn lemma_closing_delimiter_bounds(s: Seq<char>, i: int)
    requires
        0 <= i,
    ensures
        closing_delimiter_end(s, i) matches Some(e) ==> i < e <= s.len(),
    decreases s.len() - i,
{
    if i < s.len() {
        lemma_char_pos_bounds(s, '\n', i);
        let e = incl_line_end(s, i);
        let l = trim_end_crlf(s.subrange(i, e));
        if !(l == "---"@ || l == "..."@) {
            lemma_closing_delimiter_bounds(s, e);
        }
    }
}

/// A front matter block ends inside the text and after its first
/// character (its byte offset, from `yaml_front_matter_end`, is the UTF-8
/// length of that non-empty prefix of the source).
pub proof fn law_front_matter_ends_inside_text(s: Seq<char>)
    ensures
        front_matter_end(s) matches Some(k) ==> 0 < k <= s.len(),
{
    let c0: int = if s.len() > 0 && s[0] == '\u{feff}' {
        1
    } else {
        0
    };
    if c0 < s.len() {
        lemma_char_pos_bounds(s, '\n', c0);
        lemma_closing_delimiter_bounds(s, incl_line_end(s, c0));
    }
}


/// A heading's section is not empty: it starts before the next heading's,
/// or before the end of the text for the last heading.
proof fn lemma_heading_section_not_empty(s: Seq<char>, hs: Seq<OutlineHeadingView>, i: int)
    requires
        headings_fit(s, hs),
        0 <= i < hs.len(),
    ensures
        heading_start(s, hs, i) < heading_end(s, hs, i),
{
    let c = heading_start(s, hs, i);
    lemma_char_index_from_ge(s, 0, hs[i].offset as int);
    lemma_char_index_from_le(s, 0, hs[i].offset as int);
    assert(utf8_len(s.take(c)) == hs[i].offset);
    if i + 1 < hs.len() {
        let d = heading_start(s, hs, i + 1);
        lemma_char_index_from_ge(s, 0, hs[i + 1].offset as int);
        lemma_char_index_from_le(s, 0, hs[i + 1].offset as int);
        assert(utf8_len(s.take(d)) == hs[i + 1].offset);
        assert(hs[i].offset < hs[i + 1].offset);
        if d <= c {
            lemma_utf8_len_monotone(s, d, c);
        }
    } else {
        assert(hs[i].offset < utf8_len(s));
        assert(s.take(s.len() as int) =~= s);
    }
}

/// Every section of a parsed non-empty document holds some text: the
/// leading section runs up to a heading that starts after the first byte,
/// and each heading's section reaches the next heading or the end.
pub proof fn law_sections_not_empty(s: Seq<char>)
    requires
        s.len() > 0,
    ensures
        forall|i: int|
            0 <= i < document_outline(s).sections.len() ==> (#[trigger] document_outline(
                s,
            ).sections[i]).len() > 0,
{
    let hs = match mdast_blocks(s) {
        Some(blocks) => outline_headings(blocks, front_matter_bytes(s)),
        None => seq![],
    };
    let d = document_outline(s);
    if headings_fit(s, hs) && hs.len() > 0 {
        let lead: Seq<Seq<char>> = if hs[0].offset > 0 {
            seq![s.take(char_index(s, hs[0].offset as int))]
        } else {
            seq![]
        };
        let body = Seq::new(
            hs.len(),
            |j: int| s.subrange(heading_start(s, hs, j), heading_end(s, hs, j)),
        );
        assert(d.sections =~= lead + body);
        if hs[0].offset > 0 {
            let c0 = char_index(s, hs[0].offset as int);
            lemma_char_index_from_le(s, 0, hs[0].offset as int);
            assert(s.take(0) =~= Seq::<char>::empty());
            assert(utf8_len(Seq::<char>::empty()) == 0) by {
                reveal_with_fuel(vstd::utf8::encode_utf8, 1);
            }
            assert(utf8_len(s.take(0)) == 0);
            lemma_char_index_from_ge(s, 1, hs[0].offset as int);
            assert(c0 == char_index_from(s, 1, hs[0].offset as int));
            assert(c0 > 0);
        }
        assert forall|i: int| 0 <= i < d.sections.len() implies (#[trigger] d.sections[i]).len() > 0 by {
            if i >= lead.len() {
                let j = i - lead.len();
                lemma_heading_section_not_empty(s, hs, j);
                lemma_heading_bounds(s, hs, j);
                assert(d.sections[i] == body[j]);
            }
        }
    }
}

/// The lines of `s` from position `i` on, each with its `\n` (what
/// `split_inclusive('\n')` gives).
pub open spec fn incl_lines_from(s: Seq<char>, i: int) -> Seq<Seq<char>>
    decreases s.len() - i,
{
    if i < 0 || i >= s.len() {
        seq![]
    } else {
        proof {
            lemma_char_pos_bounds(s, '\n', i);
        }
        seq![s.subrange(i, incl_line_end(s, i))] + incl_lines_from(s, incl_line_end(s, i))
    }
}

/// A line that closes a front matter block: `---` or `...`, line ending
/// aside.
pub open spec fn is_delimiter_line(l: Seq<char>) -> bool {
    trim_end_crlf(l) == "---"@ || trim_end_crlf(l) == "..."@
}

/// The first of `ls` that closes a front matter block.
pub open spec fn first_delimiter(ls: Seq<Seq<char>>) -> Option<int>
    decreases ls.len(),
{
    if ls.len() == 0 {
        None
    } else if is_delimiter_line(ls[0]) {
        Some(0)
    } else {
        match first_delimiter(ls.drop_first()) {
            Some(k) => Some(k + 1),
            None => None,
        }
    }
}

proof fn lemma_first_delimiter(ls: Seq<Seq<char>>)
    ensures
        first_delimiter(ls) matches Some(k) ==> 0 <= k < ls.len() && is_delimiter_line(ls[k])
            && forall|j: int| 0 <= j < k ==> !is_delimiter_line(#[trigger] ls[j]),
        first_delimiter(ls) is None ==> forall|j: int|
            0 <= j < ls.len() ==> !is_delimiter_line(#[trigger] ls[j]),
    decreases ls.len(),
{
    if ls.len() > 0 {
        lemma_first_delimiter(ls.drop_first());
        assert forall|j: int| 0 < j < ls.len() implies ls[j] == ls.drop_first()[j - 1] by {}
    }
}

proof fn lemma_closing_delimiter_lines(s: Seq<char>, i: int)
    requires
        0 <= i,
    ensures
        closing_delimiter_end(s, i) == (match first_delimiter(incl_lines_from(s, i)) {
            Some(k) => Some(i + incl_lines_from(s, i).take(k + 1).flatten().len()),
            None => None,
        }),
    decreases s.len() - i,
{
    if i < s.len() {
        lemma_char_pos_bounds(s, '\n', i);
        let e = incl_line_end(s, i);
        let l0 = s.subrange(i, e);
        let rest = incl_lines_from(s, e);
        let ls = incl_lines_from(s, i);
        assert(ls == seq![l0] + rest);
        assert(ls.drop_first() =~= rest);
        if is_delimiter_line(l0) {
            assert(ls.take(1) =~= seq![l0]);
            seq![l0].lemma_flatten_one_element();
        } else {
            lemma_closing_delimiter_lines(s, e);
            lemma_first_delimiter(rest);
            match first_delimiter(rest) {
                Some(k) => {
                    assert(ls.take(k + 2) =~= seq![l0] + rest.take(k + 1));
                    lemma_flatten_concat(seq![l0], rest.take(k + 1));
                    seq![l0].lemma_flatten_one_element();
                },
                None => {},
            }
        }
    }
}

/// Where the front matter's lines start: after an optional byte-order mark.
pub open spec fn front_matter_start(s: Seq<char>) -> int {
    if s.len() > 0 && s[0] == '\u{feff}' {
        1
    } else {
        0
    }
}

/// The lines of `s` after the byte-order mark, split after each `\n`: the
/// first reads `---`, line `k` is the first after it that reads `---` or
/// `...`.
pub open spec fn front_matter_closes_at(s: Seq<char>, k: int) -> bool {
    let ls = incl_lines_from(s, front_matter_start(s));
    &&& 0 < k < ls.len()
    &&& trim_end_crlf(ls[0]) == "---"@
    &&& is_delimiter_line(ls[k])
    &&& forall|j: int| 0 < j < k ==> !is_delimiter_line(#[trigger] ls[j])
}

/// A front matter block ends exactly after the first line, past an opening
/// `---` line, that reads `---` or `...` (line endings aside); without such
/// lines there is none.
pub proof fn law_front_matter_ends_at_first_closing_line(s: Seq<char>, k: int)
    ensures
        front_matter_closes_at(s, k) ==> front_matter_end(s) == Some(
            front_matter_start(s) + incl_lines_from(s, front_matter_start(s)).take(k + 1).flatten().len(),
        ),
        front_matter_end(s) is None ==> !front_matter_closes_at(s, k),
        front_matter_end(s) is Some ==> exists|j: int| #[trigger] front_matter_closes_at(s, j),
{
    let c0 = front_matter_start(s);
    let ls = incl_lines_from(s, c0);
    if c0 < s.len() {
        lemma_char_pos_bounds(s, '\n', c0);
        let e1 = incl_line_end(s, c0);
        let l0 = s.subrange(c0, e1);
        let rest = incl_lines_from(s, e1);
        assert(ls == seq![l0] + rest);
        assert(ls.drop_first() =~= rest);
        assert forall|j: int| 0 < j < ls.len() implies ls[j] == rest[j - 1] by {}
        lemma_closing_delimiter_lines(s, e1);
        lemma_first_delimiter(rest);
        if trim_end_crlf(l0) == "---"@ {
            match first_delimiter(rest) {
                Some(m) => {
                    assert(ls.take(m + 2) =~= seq![l0] + rest.take(m + 1));
                    lemma_flatten_concat(seq![l0], rest.take(m + 1));
                    seq![l0].lemma_flatten_one_element();
                    assert(front_matter_closes_at(s, m + 1));
                    if front_matter_closes_at(s, k) {
                        if k < m + 1 {
                            assert(!is_delimiter_line(rest[k - 1]));
                        } else if k > m + 1 {
                            assert(!is_delimiter_line(ls[m + 1]));
                        }
                    }
                },
                None => {
                    if front_matter_closes_at(s, k) {
                        assert(is_delimiter_line(rest[k - 1]));
                    }
                },
            }
        }
    }
}

/// The text of phrasing content ends with the text of its last node: the
/// children's text for emphasis, strong, delete, a link or a link
/// reference, and a plain text node's own value.
pub proof fn law_parent_nodes_give_their_childrens_text(nodes: Seq<MdInline>, children: Vec<MdInline>, t: String)
    ensures
        inline_text(nodes.push(MdInline::Link(children))) == inline_text(nodes) + inline_text(children@),
        inline_text(nodes.push(MdInline::LinkReference(children))) == inline_text(nodes) + inline_text(
            children@,
        ),
        inline_text(nodes.push(MdInline::Emphasis(children))) == inline_text(nodes) + inline_text(
            children@,
        ),
        inline_text(nodes.push(MdInline::Strong(children))) == inline_text(nodes) + inline_text(children@),
        inline_text(nodes.push(MdInline::Delete(children))) == inline_text(nodes) + inline_text(children@),
        inline_text(nodes.push(MdInline::Text(t))) == inline_text(nodes) + t@,
{
    assert(nodes.push(MdInline::Link(children)).drop_last() =~= nodes);
    assert(nodes.push(MdInline::LinkReference(children)).drop_last() =~= nodes);
    assert(nodes.push(MdInline::Emphasis(children)).drop_last() =~= nodes);
    assert(nodes.push(MdInline::Strong(children)).drop_last() =~= nodes);
    assert(nodes.push(MdInline::Delete(children)).drop_last() =~= nodes);
    assert(nodes.push(MdInline::Text(t)).drop_last() =~= nodes);
}

/// A heading that reads `a` and then a link whose text is `b` has the
/// outline text `a` followed by `b`, whitespace collapsed: the link's text
/// is kept.
pub proof fn law_link_text_enters_the_outline(a: String, b: String, link: Vec<MdInline>)
    requires
        link@ == seq![MdInline::Text(b)],
    ensures
        heading_text_of(seq![MdInline::Text(a), MdInline::Link(link)]) == collapse_ws(a@ + b@),
{
    let empty = Seq::<MdInline>::empty();
    law_parent_nodes_give_their_childrens_text(empty, link, a);
    law_parent_nodes_give_their_childrens_text(empty, link, b);
    assert(empty.push(MdInline::Text(b)) =~= link@);
    assert(inline_text(empty) =~= Seq::<char>::empty());
    let first = empty.push(MdInline::Text(a));
    law_parent_nodes_give_their_childrens_text(first, link, a);
    assert(first.push(MdInline::Link(link)) =~= seq![MdInline::Text(a), MdInline::Link(link)]);
    assert(inline_text(first) =~= a@);
    assert(inline_text(link@) =~= b@);
}

} // verus!
