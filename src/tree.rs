//! The concrete syntax tree of a changelog, and what can be read off it.
use vstd::prelude::*;
use crate::change_group::ChangeGroup;
use crate::lexer::Block;
use crate::position::{spec_default_position, Position};
use crate::release_date::ReleaseDate;
use crate::release_link::ReleaseLink;
use crate::release_tag::ReleaseTag;
use crate::release_version::ReleaseVersion;

verus! {

/// What a release link definition names: the Unreleased section or a version.
#[derive(Debug, PartialEq, Eq)]
pub enum ReleaseLinkType {
    Unreleased(ReleaseLink),
    Versioned(ReleaseVersion, ReleaseLink),
}

/// The kind of a tree node.
#[derive(Debug, PartialEq, Eq)]
pub enum TreeKind {
    /// A part of the document that breaks the grammar, with the reason.
    Error(String),
    Title,
    ChangelogFile,
    NotableChanges,
    AboutFormat,
    Unreleased,
    UnreleasedHeader,
    Release,
    ReleaseHeader(ReleaseVersion, ReleaseDate, Option<ReleaseTag>),
    ChangeGroup,
    ChangeGroupHeader(ChangeGroup),
    ChangeGroupList,
    ReleaseLink(ReleaseLinkType),
}

/// A child of a tree node: a markdown block of the document, a nested tree,
/// or a placeholder standing where a required block is missing.
#[derive(Debug, PartialEq, Eq)]
pub enum Child {
    Markdown(Block),
    Tree(Tree),
    Dummy(Position),
}

/// A node of the concrete syntax tree.
#[derive(Debug, PartialEq, Eq)]
pub struct Tree {
    pub kind: TreeKind,
    pub children: Vec<Child>,
}

/// The markdown blocks under a child, in document order.
pub open spec fn child_leaves(c: Child) -> Seq<Block>
    decreases c,
{
    match c {
        Child::Markdown(b) => seq![b],
        Child::Tree(t) => children_leaves(t.children@),
        Child::Dummy(_) => Seq::empty(),
    }
}

/// The markdown blocks under a sequence of children, in document order.
pub open spec fn children_leaves(cs: Seq<Child>) -> Seq<Block>
    decreases cs,
{
    if cs.len() == 0 {
        Seq::empty()
    } else {
        children_leaves(cs.subrange(0, cs.len() - 1)) + child_leaves(cs[cs.len() - 1])
    }
}

/// The markdown blocks under a tree, in document order.
pub open spec fn tree_leaves(t: Tree) -> Seq<Block> {
    children_leaves(t.children@)
}

/// The positions under a child, in document order: those of its markdown
/// blocks that have one, and those of its placeholders.
pub open spec fn child_positions(c: Child) -> Seq<Position>
    decreases c,
{
    match c {
        Child::Markdown(b) => match b.position {
            Some(p) => seq![p],
            None => Seq::empty(),
        },
        Child::Tree(t) => children_positions(t.children@),
        Child::Dummy(p) => seq![p],
    }
}

pub open spec fn children_positions(cs: Seq<Child>) -> Seq<Position>
    decreases cs,
{
    if cs.len() == 0 {
        Seq::empty()
    } else {
        children_positions(cs.subrange(0, cs.len() - 1)) + child_positions(cs[cs.len() - 1])
    }
}

/// The span of a tree: from the start of its first position to the end of
/// its last, or line 1, column 1, offset 0 when it holds no position.
pub open spec fn spec_tree_position(t: Tree) -> Position {
    let ps = children_positions(t.children@);
    if ps.len() == 0 {
        spec_default_position()
    } else {
        Position { start: ps[0].start, end: ps[ps.len() - 1].end }
    }
}

/// The subtrees under a child, the child itself first, in depth-first
/// pre-order.
pub open spec fn child_subtrees(c: Child) -> Seq<Tree>
    decreases c,
{
    match c {
        Child::Tree(t) => seq![t] + children_subtrees(t.children@),
        _ => Seq::empty(),
    }
}

pub open spec fn children_subtrees(cs: Seq<Child>) -> Seq<Tree>
    decreases cs,
{
    if cs.len() == 0 {
        Seq::empty()
    } else {
        children_subtrees(cs.subrange(0, cs.len() - 1)) + child_subtrees(cs[cs.len() - 1])
    }
}

/// Every proper subtree of a tree, in depth-first pre-order.
pub open spec fn tree_subtrees(t: Tree) -> Seq<Tree> {
    children_subtrees(t.children@)
}

} // verus!
