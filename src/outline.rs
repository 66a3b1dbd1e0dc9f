//! A printable outline of a concrete syntax tree: one line per node, indented
//! by depth, naming the node's kind and its values.
use vstd::prelude::*;
use crate::change_group::group_name;
use crate::collaborators::{debug_of, debug_text};
use crate::parser::{parse, parses_to};
use crate::release_tag::ReleaseTag;
use crate::text::{concat2, concat3};
use crate::tree::{Child, ReleaseLinkType, Tree, TreeKind};

verus! {

/// Two spaces per level of depth.
pub open spec fn indent(level: nat) -> Seq<char>
    decreases level,
{
    if level == 0 {
        Seq::empty()
    } else {
        indent((level - 1) as nat) + "  "@
    }
}

pub open spec fn tag_label(t: Option<ReleaseTag>) -> Seq<char> {
    match t {
        None => "None"@,
        Some(ReleaseTag::Yanked) => "Some(Yanked)"@,
        Some(ReleaseTag::NoChanges) => "Some(NoChanges)"@,
    }
}

/// A node kind written as its name and, in parentheses, its values.
pub open spec fn kind_label(k: TreeKind) -> Seq<char> {
    match k {
        TreeKind::Error(m) => "Error(ParserError("@ + debug_of(m@) + "))"@,
        TreeKind::Title => "Title"@,
        TreeKind::ChangelogFile => "ChangelogFile"@,
        TreeKind::NotableChanges => "NotableChanges"@,
        TreeKind::AboutFormat => "AboutFormat"@,
        TreeKind::Unreleased => "Unreleased"@,
        TreeKind::UnreleasedHeader => "UnreleasedHeader"@,
        TreeKind::Release => "Release"@,
        TreeKind::ReleaseHeader(v, d, t) => "ReleaseHeader(ReleaseVersion("@ + debug_of(v@)
            + "), ReleaseDate("@ + debug_of(d@) + "), "@ + tag_label(t) + ")"@,
        TreeKind::ChangeGroup => "ChangeGroup"@,
        TreeKind::ChangeGroupHeader(g) => "ChangeGroupHeader("@ + group_name(g) + ")"@,
        TreeKind::ChangeGroupList => "ChangeGroupList"@,
        TreeKind::ReleaseLink(ReleaseLinkType::Unreleased(l)) => "ReleaseLink(Unreleased(ReleaseLink("@
            + debug_of(l@) + ")))"@,
        TreeKind::ReleaseLink(ReleaseLinkType::Versioned(v, l)) => "ReleaseLink(Versioned(ReleaseVersion("@
            + debug_of(v@) + "), ReleaseLink("@ + debug_of(l@) + ")))"@,
    }
}

/// The outline of the subtrees among `cs`, at depth `level`.
pub open spec fn children_outline(cs: Seq<Child>, level: nat) -> Seq<char>
    decreases cs,
{
    if cs.len() == 0 {
        Seq::empty()
    } else {
        children_outline(cs.subrange(0, cs.len() - 1), level) + child_outline(cs[cs.len() - 1], level)
    }
}

pub open spec fn child_outline(c: Child, level: nat) -> Seq<char>
    decreases c,
{
    match c {
        Child::Tree(t) => indent(level) + kind_label(t.kind) + "\n"@ + children_outline(
            t.children@,
            level + 1,
        ),
        _ => Seq::empty(),
    }
}

/// The outline of a tree: its kind on the first line, then its subtrees,
/// each one level deeper.
pub open spec fn spec_outline(t: Tree) -> Seq<char> {
    kind_label(t.kind) + "\n"@ + children_outline(t.children@, 1)
}

fn tag_text(t: Option<ReleaseTag>) -> (r: &'static str)
    ensures
        r@ == tag_label(t),
{
    match t {
        None => "None",
        Some(ReleaseTag::Yanked) => "Some(Yanked)",
        Some(ReleaseTag::NoChanges) => "Some(NoChanges)",
    }
}

fn kind_text(k: &TreeKind) -> (r: String)
    ensures
        r@ == kind_label(*k),
{
    match k {
        TreeKind::Error(m) => concat3("Error(ParserError(", debug_text(m.as_str()).as_str(), "))"),
        TreeKind::Title => String::from_str("Title"),
        TreeKind::ChangelogFile => String::from_str("ChangelogFile"),
        TreeKind::NotableChanges => String::from_str("NotableChanges"),
        TreeKind::AboutFormat => String::from_str("AboutFormat"),
        TreeKind::Unreleased => String::from_str("Unreleased"),
        TreeKind::UnreleasedHeader => String::from_str("UnreleasedHeader"),
        TreeKind::Release => String::from_str("Release"),
        TreeKind::ReleaseHeader(v, d, t) => {
            let mut s = concat3("ReleaseHeader(ReleaseVersion(", debug_text(v.as_str()).as_str(), "), ReleaseDate(");
            s.append(debug_text(d.as_str()).as_str());
            s.append("), ");
            s.append(tag_text(*t));
            s.append(")");
            s
        },
        TreeKind::ChangeGroup => String::from_str("ChangeGroup"),
        TreeKind::ChangeGroupHeader(g) => concat3("ChangeGroupHeader(", g.name(), ")"),
        TreeKind::ChangeGroupList => String::from_str("ChangeGroupList"),
        TreeKind::ReleaseLink(ReleaseLinkType::Unreleased(l)) => concat3(
            "ReleaseLink(Unreleased(ReleaseLink(",
            debug_text(l.as_str()).as_str(),
            ")))",
        ),
        TreeKind::ReleaseLink(ReleaseLinkType::Versioned(v, l)) => {
            let mut s = concat3("ReleaseLink(Versioned(ReleaseVersion(", debug_text(v.as_str()).as_str(), "), ReleaseLink(");
            s.append(debug_text(l.as_str()).as_str());
            s.append(")))");
            s
        },
    }
}

fn push_children_outline(out: &mut String, cs: &Vec<Child>, prefix: &str, Ghost(level): Ghost<nat>)
    requires
        prefix@ == indent(level),
    ensures
        final(out)@ == old(out)@ + children_outline(cs@, level),
    decreases cs@,
{
    let ghost start = out@;
    let deeper = concat2(prefix, "  ");
    let mut i: usize = 0;
    while i < cs.len()
        invariant
            i <= cs@.len(),
            prefix@ == indent(level),
            deeper@ == indent(level + 1),
            out@ == start + children_outline(cs@.take(i as int), level),
        decreases cs@.len() - i,
    {
        proof {
            assert(cs@.take(i + 1).subrange(0, i as int) =~= cs@.take(i as int));
        }
        let ghost before = out@;
        match &cs[i] {
            Child::Tree(t) => {
                out.append(prefix);
                out.append(kind_text(&t.kind).as_str());
                out.append("\n");
                assert(decreases_to!(cs@ => cs@[i as int]));
                push_children_outline(out, &t.children, deeper.as_str(), Ghost(level + 1));
            },
            _ => {},
        }
        proof {
            assert(out@ =~= before + child_outline(cs@[i as int], level));
        }
        i = i + 1;
    }
    proof {
        assert(cs@.take(cs@.len() as int) =~= cs@);
    }
}

/// The outline of a tree: its kind on the first line, then its subtrees,
/// each one level deeper, two spaces per level.
pub fn tree_outline(t: &Tree) -> (r: String)
    ensures
        r@ == spec_outline(*t),
{
    let mut out = kind_text(&t.kind);
    out.append("\n");
    proof {
        assert(indent(1) =~= "  "@) by {
            assert(indent(0) =~= Seq::<char>::empty());
        }
    }
    push_children_outline(&mut out, &t.children, "  ", Ghost(1));
    out
}

/// The outline of the concrete syntax tree of a changelog document.
pub fn __printable_syntax_tree(contents: &str) -> (r: String)
    ensures
        exists|t: Tree| parses_to(contents, t) && r@ == spec_outline(t),
{
    let tree = parse(contents);
    tree_outline(&tree)
}

} // verus!
