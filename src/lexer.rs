//! The first stage: the document's top-level markdown blocks, each copied into
//! plain values and tagged with the kind of changelog node it looks like.
use vstd::prelude::*;
use markdown::mdast::Node;
use crate::change_group::{spec_parse_group, ChangeGroup};
use crate::collaborators::{
    markdown_of, mdast_blocks, list_children_of, position_of, shape_of, text_of, trim_end_of,
 list_children, markdown_blocks, node_markdown, node_position, node_shape,
    node_text, trim_end, NodeShape,
};
use crate::grammar::{
    is_unreleased, is_unreleased_text, spec_split_header, split_header, ABOUT_FORMAT_TEXT,
    CHANGELOG_TITLE, NOTABLE_CHANGES_TEXT,
};
use crate::position::Position;
use crate::text::{ascii_word_split, ascii_words, starts_with, str_eq};

verus! {

/// The shape of a top-level markdown block.
#[derive(Debug, PartialEq, Eq)]
pub enum BlockShape {
    /// A heading of the given depth (1 for `#`).
    Heading(u8),
    Paragraph,
    List,
    /// A link reference definition: identifier and url.
    Definition(String, String),
    Other,
}

/// A top-level markdown block, held as the plain values that the changelog
/// grammar reads.
#[derive(Debug, PartialEq, Eq)]
pub struct Block {
    pub shape: BlockShape,
    /// The block's plain text.
    pub text: String,
    /// The block written back as markdown, trailing whitespace removed.
    pub markdown: String,
    /// The words of the block written back as markdown, `None` when it could
    /// not be written back.
    pub words: Option<Vec<String>>,
    /// For a list, the text of each of its items.
    pub items: Vec<String>,
    /// Where the block stands in the document, when known.
    pub position: Option<Position>,
}

/// The kind of changelog node a block looks like.
#[derive(Debug, Clone, Copy, PartialEq, Eq, Structural)]
pub enum NodeKind {
    Title,
    NotableChanges,
    AboutFormat,
    UnreleasedHeader,
    ReleaseHeader,
    ChangeGroupHeader,
    ChangeGroupList,
    ReleaseLink,
    Unrecognized,
}

/// A block together with the kind of node it looks like.
#[derive(Debug)]
pub struct ClassifiedNode {
    pub kind: NodeKind,
    pub block: Block,
}

/// The words of a sequence of strings.
pub open spec fn word_views(w: Seq<String>) -> Seq<Seq<char>> {
    w.map_values(|x: String| x@)
}

impl Block {
    pub open spec fn is_heading(&self, depth: u8) -> bool {
        self.shape matches BlockShape::Heading(d) && d == depth
    }

    pub open spec fn is_paragraph(&self) -> bool {
        self.shape is Paragraph
    }

    pub open spec fn is_list(&self) -> bool {
        self.shape is List
    }

    pub open spec fn is_definition(&self) -> bool {
        self.shape is Definition
    }

    /// The paragraph is the "about the format" text, up to whitespace.
    pub open spec fn spec_matches_about(&self) -> bool {
        self.words matches Some(w) && word_views(w@) == ascii_words(ABOUT_FORMAT_TEXT@)
    }

    pub fn heading(&self, depth: u8) -> (r: bool)
        ensures
            r == self.is_heading(depth),
    {
        match self.shape {
            BlockShape::Heading(d) => d == depth,
            _ => false,
        }
    }

    pub fn paragraph(&self) -> (r: bool)
        ensures
            r == self.is_paragraph(),
    {
        matches!(self.shape, BlockShape::Paragraph)
    }

    pub fn list(&self) -> (r: bool)
        ensures
            r == self.is_list(),
    {
        matches!(self.shape, BlockShape::List)
    }

    pub fn definition(&self) -> (r: bool)
        ensures
            r == self.is_definition(),
    {
        matches!(self.shape, BlockShape::Definition(_, _))
    }

    pub fn matches_about(&self) -> (r: bool)
        ensures
            r == self.spec_matches_about(),
    {
        match &self.words {
            Some(w) => {
                let about = ascii_word_split(ABOUT_FORMAT_TEXT);
                words_eq(w, &about)
            },
            None => false,
        }
    }
}

fn words_eq(a: &Vec<String>, b: &Vec<String>) -> (r: bool)
    ensures
        r == (word_views(a@) == word_views(b@)),
{
    if a.len() != b.len() {
        assert(word_views(a@).len() != word_views(b@).len());
        return false;
    }
    let mut i: usize = 0;
    while i < a.len()
        invariant
            a.len() == b.len(),
            i <= a.len(),
            forall|j: int| 0 <= j < i ==> a@[j]@ == b@[j]@,
        decreases a.len() - i,
    {
        if !str_eq(a[i].as_str(), b[i].as_str()) {
            assert(word_views(a@)[i as int] != word_views(b@)[i as int]);
            return false;
        }
        i = i + 1;
    }
    assert(word_views(a@) =~= word_views(b@));
    true
}

/// The kind of changelog node a block looks like, tested in this order:
/// the title heading, the Unreleased heading, a release heading, a change
/// group heading, a list, the two fixed paragraphs, a link definition.
pub open spec fn spec_classify(b: Block) -> NodeKind {
    if b.is_heading(1) && b.text@ == CHANGELOG_TITLE@ {
        NodeKind::Title
    } else if b.is_heading(2) && is_unreleased_text(b.text@) {
        NodeKind::UnreleasedHeader
    } else if b.is_heading(2) && spec_split_header(b.text@) is Some {
        NodeKind::ReleaseHeader
    } else if b.is_heading(3) && spec_parse_group(b.text@) is Some {
        NodeKind::ChangeGroupHeader
    } else if b.is_list() {
        NodeKind::ChangeGroupList
    } else if b.is_paragraph() && b.text@ == NOTABLE_CHANGES_TEXT@ {
        NodeKind::NotableChanges
    } else if b.is_paragraph() && b.spec_matches_about() {
        NodeKind::AboutFormat
    } else if b.is_definition() {
        NodeKind::ReleaseLink
    } else {
        NodeKind::Unrecognized
    }
}

/// Tags a block with the kind of changelog node it looks like.
pub fn classify(b: &Block) -> (r: NodeKind)
    ensures
        r == spec_classify(*b),
{
    if b.heading(1) && str_eq(b.text.as_str(), CHANGELOG_TITLE) {
        NodeKind::Title
    } else if b.heading(2) && is_unreleased(b.text.as_str()) {
        NodeKind::UnreleasedHeader
    } else if b.heading(2) && split_header(b.text.as_str()).is_some() {
        NodeKind::ReleaseHeader
    } else if b.heading(3) && ChangeGroup::from_str(b.text.as_str()).is_ok() {
        NodeKind::ChangeGroupHeader
    } else if b.list() {
        NodeKind::ChangeGroupList
    } else if b.paragraph() && str_eq(b.text.as_str(), NOTABLE_CHANGES_TEXT) {
        NodeKind::NotableChanges
    } else if b.paragraph() && b.matches_about() {
        NodeKind::AboutFormat
    } else if b.definition() {
        NodeKind::ReleaseLink
    } else {
        NodeKind::Unrecognized
    }
}

/// `s` with every leading `"* "` removed.
pub open spec fn strip_bullets(s: Seq<char>) -> Seq<char>
    decreases s.len(),
{
    if s.len() >= 2 && s[0] == '*' && s[1] == ' ' {
        strip_bullets(s.skip(2))
    } else {
        s
    }
}

fn strip_bullets_exec(s: &str) -> (r: String)
    ensures
        r@ == strip_bullets(s@),
    decreases s@.len(),
{
    proof {
        reveal_strlit("* ");
    }
    let n = s.unicode_len();
    if starts_with(s, "* ") {
        assert(s@[0] == '*' && s@[1] == ' ') by {
            assert(s@.take(2)[0] == s@[0]);
            assert(s@.take(2)[1] == s@[1]);
        }
        let rest = s.substring_char(2, n);
        assert(rest@ =~= s@.skip(2));
        strip_bullets_exec(rest)
    } else {
        assert(!(s@.len() >= 2 && s@[0] == '*' && s@[1] == ' ')) by {
            if s@.len() >= 2 && s@[0] == '*' && s@[1] == ' ' {
                assert(s@.take(2) =~= "* "@);
            }
        }
        String::from_str(s)
    }
}

/// A node's markdown text as the lexer keeps it: trailing whitespace
/// removed, or the reason it could not be written back.
pub open spec fn rendered_text(m: Result<Seq<char>, Seq<char>>) -> Seq<char> {
    match m {
        Ok(s) => trim_end_of(s),
        Err(e) => "Error converting node to markdown - "@ + e,
    }
}

/// The block shape that stands for a node shape.
pub open spec fn shape_matches(b: BlockShape, s: NodeShape) -> bool {
    match s {
        NodeShape::Heading(d) => b == BlockShape::Heading(d),
        NodeShape::Paragraph => b is Paragraph,
        NodeShape::List => b is List,
        NodeShape::Definition(i, u) => b matches BlockShape::Definition(i2, u2) && i2@ == i@ && u2@ == u@,
        _ => b is Other,
    }
}

/// The text of each list item among `cs`: written back as markdown,
/// trailing whitespace removed, leading bullets removed.
pub open spec fn list_item_texts(cs: Seq<Node>) -> Seq<Seq<char>>
    decreases cs.len(),
{
    if cs.len() == 0 {
        Seq::empty()
    } else {
        list_item_texts(cs.drop_last()) + if shape_of(cs.last()) is ListItem {
            seq![strip_bullets(rendered_text(markdown_of(cs.last())))]
        } else {
            Seq::empty()
        }
    }
}

/// `b` holds what the grammar reads of node `n`.
pub open spec fn block_matches(b: Block, n: Node) -> bool {
    &&& shape_matches(b.shape, shape_of(n))
    &&& b.text@ == text_of(n)
    &&& b.markdown@ == rendered_text(markdown_of(n))
    &&& match markdown_of(n) {
        Ok(s) => b.words matches Some(w) && word_views(w@) == ascii_words(s),
        Err(_) => b.words is None,
    }
    &&& word_views(b.items@) == if shape_of(n) is List {
        list_item_texts(list_children_of(n))
    } else {
        Seq::empty()
    }
    &&& b.position == position_of(n)
}

/// `nodes` are the classified blocks of the top-level markdown nodes of
/// `text`, one for each, in order.
pub open spec fn lexed(nodes: Seq<ClassifiedNode>, text: Seq<char>) -> bool {
    &&& nodes.len() == mdast_blocks(text).len()
    &&& forall|i: int|
        0 <= i < nodes.len() ==> block_matches(#[trigger] nodes[i].block, mdast_blocks(text)[i])
            && nodes[i].kind == spec_classify(nodes[i].block)
}

/// A node written back as markdown, trailing whitespace removed, or the
/// reason it could not be; and the untrimmed text when it could.
fn rendered(node: &Node) -> (r: (String, Option<String>))
    ensures
        r.0@ == rendered_text(markdown_of(*node)),
        match markdown_of(*node) {
            Ok(s) => r.1 matches Some(x) && x@ == s,
            Err(_) => r.1 is None,
        },
{
    match node_markdown(node) {
        Ok(s) => (trim_end(s.as_str()), Some(s)),
        Err(m) => {
            let mut t = String::from_str("Error converting node to markdown - ");
            t.append(m.as_str());
            (t, None)
        },
    }
}

/// Copies a markdown node into the library's block type.
fn block_of(node: &Node) -> (r: Block)
    ensures
        block_matches(r, *node),
{
    let (markdown, raw) = rendered(node);
    let words = match raw {
        Some(s) => Some(ascii_word_split(s.as_str())),
        None => None,
    };
    let mut items: Vec<String> = Vec::new();
    let node_kind = node_shape(node);
    let shape = match node_kind {
        NodeShape::Heading(d) => BlockShape::Heading(d),
        NodeShape::Paragraph => BlockShape::Paragraph,
        NodeShape::List => {
            let children = list_children(node);
            let mut i: usize = 0;
            while i < children.len()
                invariant
                    i <= children@.len(),
                    children@ == list_children_of(*node),
                    word_views(items@) == list_item_texts(children@.take(i as int)),
                decreases children.len() - i,
            {
                let ghost before = items@;
                proof {
                    assert(children@.take(i + 1).drop_last() =~= children@.take(i as int));
                }
                if matches!(node_shape(&children[i]), NodeShape::ListItem) {
                    let (item, _) = rendered(&children[i]);
                    let x = strip_bullets_exec(item.as_str());
                    items.push(x);
                    proof {
                        assert(word_views(items@) =~= word_views(before).push(x@));
                    }
                }
                proof {
                    assert(word_views(items@) =~= list_item_texts(children@.take(i + 1)));
                }
                i = i + 1;
            }
            proof {
                assert(children@.take(i as int) =~= children@);
            }
            BlockShape::List
        },
        NodeShape::Definition(identifier, url) => BlockShape::Definition(identifier, url),
        _ => BlockShape::Other,
    };
    proof {
        if !(shape_of(*node) is List) {
            assert(word_views(items@) =~= Seq::<Seq<char>>::empty());
        }
    }
    Block { shape, text: node_text(node), markdown, words, items, position: node_position(node) }
}

/// Classifies the top-level blocks of a document: one for each top-level
/// markdown node, in document order, whatever it looks like.
pub fn lex(text: &str) -> (r: Vec<ClassifiedNode>)
    ensures
        lexed(r@, text@),
{
    let nodes = markdown_blocks(text);
    let mut out: Vec<ClassifiedNode> = Vec::new();
    let mut i: usize = 0;
    while i < nodes.len()
        invariant
            i <= nodes.len(),
            nodes@ == mdast_blocks(text@),
            out@.len() == i,
            forall|j: int|
                0 <= j < i ==> block_matches(#[trigger] out@[j].block, nodes@[j]) && out@[j].kind
                    == spec_classify(out@[j].block),
        decreases nodes.len() - i,
    {
        let block = block_of(&nodes[i]);
        let kind = classify(&block);
        out.push(ClassifiedNode { kind, block });
        i = i + 1;
    }
    out
}

} // verus!
