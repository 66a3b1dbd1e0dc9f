//! The second stage: a recursive-descent parser with error recovery over the
//! classified blocks. It writes an event log, from which the tree is built.
//! It never fails: whatever breaks the grammar becomes an `Error` node.
//! Every loop of the parser consumes at least one block per round, which is
//! what its `decreases` clauses prove, so no lookahead budget is kept.
use vstd::prelude::*;
use crate::change_group::ChangeGroup;
use crate::collaborators::{lower_of, semver_error, timestamp_error, to_lowercase, uri_error};
use crate::change_group::spec_parse_group;
use crate::release_date::midnight_suffix;
use crate::release_tag::spec_parse_tag;
use crate::events::{
    advances, depth_of, lemma_prefix_counts, lemma_stays_open_push,
    lemma_update_open, stays_open, Event,
};
use crate::grammar::{
    is_unreleased, is_unreleased_text, spec_split_header, split_header, ABOUT_FORMAT_TEXT, CHANGELOG_TITLE, NOTABLE_CHANGES_TEXT,
    UNRELEASED_HEADER_TEXT,
};
use crate::lexer::{lex, lexed, Block, BlockShape, ClassifiedNode};
use crate::position::{spec_default_position, Point, Position};
use crate::diagnostics::spec_diagnostics;
use crate::laws::{four_missing, lemma_four_missing_diagnostics};
use crate::release_date::ReleaseDate;
use crate::release_link::ReleaseLink;
use crate::release_tag::ReleaseTag;
use crate::release_version::ReleaseVersion;
use crate::text::{concat2, concat3, concat4, str_eq};
use crate::build_model::{
    lemma_missing_node_run, step, BuildState, TreeModel, child_model, children_model, lemma_children_model_push, models, run, spec_build, tree_model,
    with_child, ChildModel,
};
use crate::tree::{child_leaves, children_leaves, tree_leaves, Child, ReleaseLinkType, Tree, TreeKind};

verus! {

/// The blocks of a sequence of classified nodes.
pub open spec fn blocks_of(nodes: Seq<ClassifiedNode>) -> Seq<Block> {
    nodes.map_values(|c: ClassifiedNode| c.block)
}

/// The position given to a placeholder for a missing block: the line after
/// the end of the block consumed before it, column 1, one byte past that
/// block's end but not past the document's end; line 1, column 1, offset 0
/// when no block with a position was consumed before it.
pub open spec fn spec_dummy_position(before: Option<Position>, doc_length: usize) -> Position {
    match before {
        Some(p) => {
            let line = if p.end.line < usize::MAX { (p.end.line + 1) as usize } else { p.end.line };
            let offset = if p.end.offset < doc_length { (p.end.offset + 1) as usize } else { doc_length };
            Position {
                start: Point { line, column: 1, offset },
                end: Point { line, column: 1, offset },
            }
        },
        None => Position {
            start: Point { line: 1, column: 1, offset: 0 },
            end: Point { line: 1, column: 1, offset: 0 },
        },
    }
}

pub fn dummy_position(before: Option<Position>, doc_length: usize) -> (r: Position)
    ensures
        r == spec_dummy_position(before, doc_length),
{
    match before {
        Some(p) => {
            let line = if p.end.line < usize::MAX { p.end.line + 1 } else { p.end.line };
            let offset = if p.end.offset < doc_length { p.end.offset + 1 } else { doc_length };
            Position {
                start: Point { line, column: 1, offset },
                end: Point { line, column: 1, offset },
            }
        },
        None => Position {
            start: Point { line: 1, column: 1, offset: 0 },
            end: Point { line: 1, column: 1, offset: 0 },
        },
    }
}

/// The markdown blocks under a stack of trees, bottom first.
pub open spec fn stack_leaves(s: Seq<Tree>) -> Seq<Block>
    decreases s.len(),
{
    if s.len() == 0 {
        Seq::empty()
    } else {
        stack_leaves(s.drop_last()) + tree_leaves(s.last())
    }
}

proof fn lemma_children_leaves_push(cs: Seq<Child>, c: Child)
    ensures
        children_leaves(cs.push(c)) == children_leaves(cs) + child_leaves(c),
{
    assert(cs.push(c).subrange(0, cs.len() as int) =~= cs);
}

proof fn lemma_stack_leaves_push(s: Seq<Tree>, t: Tree)
    ensures
        stack_leaves(s.push(t)) == stack_leaves(s) + tree_leaves(t),
{
    assert(s.push(t).drop_last() =~= s);
}

proof fn lemma_advances_prefix(s: Seq<Event>, k: int)
    requires
        0 <= k <= s.len(),
    ensures
        advances(s.take(k)) <= advances(s),
    decreases s.len() - k,
{
    if k < s.len() {
        lemma_prefix_counts(s, k);
        lemma_advances_prefix(s, k + 1);
    } else {
        assert(s.take(k) =~= s);
    }
}

proof fn lemma_depth_positive(s: Seq<Event>)
    requires
        stays_open(s),
        s.len() >= 1,
    ensures
        depth_of(s) >= 1,
{
    assert(s.take(s.len() as int) =~= s);
}

/// Builds the tree that an event log describes: `Open` starts a node,
/// `Close` ends it and attaches it to the node around it, `Advance` attaches
/// the next block, `Missing` attaches a placeholder whose position follows the
/// last block attached. The log must describe a single root node that closes
/// last and consumes every block.
pub fn build_tree(nodes: Vec<ClassifiedNode>, events: Vec<Event>, doc_length: usize) -> (r: Tree)
    requires
        events@.len() >= 2,
        events@.last() is Close,
        stays_open(events@.drop_last()),
        depth_of(events@.drop_last()) == 1,
        advances(events@.drop_last()) == nodes@.len(),
        events@[0] matches Event::Open(k) && k is ChangelogFile,
    ensures
        r.kind is ChangelogFile,
        tree_leaves(r) == blocks_of(nodes@),
        tree_model(r) == spec_build(events@, blocks_of(nodes@), doc_length),
{
    let ghost all_events = events@;
    let mut events = events;
    let mut nodes = nodes;
    let _ = events.pop();
    let n = events.len();
    let ghost evs = events@;
    let ghost blocks = blocks_of(nodes@);
    let mut stack: Vec<Tree> = Vec::new();
    let mut k: usize = 0;
    let mut previous: Option<Position> = None;
    let mut i: usize = 0;
    while i < n
        invariant
            n == events@.len(),
            n == evs.len(),
            n >= 1,
            forall|j: int| i <= j < n ==> events@[j] == evs[j],
            nodes@.len() == blocks.len(),
            forall|j: int| k <= j < nodes@.len() ==> nodes@[j].block == blocks[j],
            stays_open(evs),
            depth_of(evs) == 1,
            advances(evs) == blocks.len(),
            evs[0] matches Event::Open(k) && k is ChangelogFile,
            i <= n,
            stack@.len() == depth_of(evs.take(i as int)),
            k == advances(evs.take(i as int)),
            i > 0 ==> stack@[0].kind is ChangelogFile,
            stack_leaves(stack@) == blocks.take(k as int),
            models(stack@) == run(evs, i as int, blocks, doc_length).stack,
            k == run(evs, i as int, blocks, doc_length).next,
            previous == run(evs, i as int, blocks, doc_length).previous,
            evs == all_events.drop_last(),
        decreases n - i,
    {
        let ghost st = run(evs, i as int, blocks, doc_length);
        let ghost s_before = stack@;
        proof {
            lemma_prefix_counts(evs, i as int);
            lemma_advances_prefix(evs, i + 1);
            assert(depth_of(evs.take(i + 1)) >= 1);
        }
        let mut e = Event::Missing;
        std::mem::swap(&mut e, &mut events[i]);
        match e {
            Event::Open(kind) => {
                let t = Tree { kind, children: Vec::new() };
                proof {
                    lemma_stack_leaves_push(stack@, t);
                    assert(children_leaves(t.children@) =~= Seq::<Block>::empty());
                    assert(blocks.take(k as int) + Seq::<Block>::empty() =~= blocks.take(k as int));
                    assert(children_model(t.children@) =~= Seq::<ChildModel>::empty());
                }
                stack.push(t);
                proof {
                    assert(models(stack@) =~= models(s_before).push(tree_model(t)));
                }
            },
            Event::Close => {
                let ghost s0 = stack@;
                let t = stack.pop().unwrap();
                let mut parent = stack.pop().unwrap();
                let ghost rest = stack@;
                let ghost p0 = parent;
                let ghost pc = parent.children@;
                proof {
                    assert(s0 =~= rest.push(p0).push(t));
                    lemma_stack_leaves_push(rest.push(p0), t);
                    lemma_stack_leaves_push(rest, p0);
                }
                parent.children.push(Child::Tree(t));
                proof {
                    lemma_children_leaves_push(pc, Child::Tree(t));
                    lemma_stack_leaves_push(rest, parent);
                    lemma_children_model_push(pc, Child::Tree(t));
                    assert(tree_model(parent) == with_child(tree_model(p0), ChildModel::Tree(tree_model(t))));
                    assert(models(s0).drop_last() =~= models(rest).push(tree_model(p0)));
                }
                stack.push(parent);
                proof {
                    assert(stack@.drop_last() =~= rest);
                    assert(models(stack@) =~= models(rest).push(tree_model(parent)));
                    assert(models(s0).drop_last().drop_last() =~= models(rest));
                }
            },
            Event::Advance => {
                let mut c = ClassifiedNode {
                    kind: crate::lexer::NodeKind::Unrecognized,
                    block: Block {
                        shape: BlockShape::Other,
                        text: String::new(),
                        markdown: String::new(),
                        words: None,
                        items: Vec::new(),
                        position: None,
                    },
                };
                std::mem::swap(&mut c, &mut nodes[k]);
                previous = c.block.position;
                let ghost s0 = stack@;
                let mut top = stack.pop().unwrap();
                let ghost rest = stack@;
                let ghost tc = top.children@;
                let ghost b = c.block;
                proof {
                    assert(s0 =~= rest.push(top));
                    lemma_stack_leaves_push(rest, top);
                }
                let ghost top0 = top;
                top.children.push(Child::Markdown(c.block));
                proof {
                    lemma_children_leaves_push(tc, Child::Markdown(b));
                    lemma_stack_leaves_push(rest, top);
                    assert(blocks.take(k + 1) =~= blocks.take(k as int).push(blocks[k as int]));
                    lemma_children_model_push(tc, Child::Markdown(b));
                    assert(tree_model(top) == with_child(tree_model(top0), ChildModel::Markdown(b)));
                    assert(models(s0).drop_last() =~= models(rest));
                }
                stack.push(top);
                proof {
                    assert(models(stack@) =~= models(rest).push(tree_model(top)));
                }
                assert(k < nodes.len());
                k = k + 1;
            },
            Event::Missing => {
                let ghost s0 = stack@;
                let mut top = stack.pop().unwrap();
                let ghost rest = stack@;
                let ghost tc = top.children@;
                proof {
                    assert(s0 =~= rest.push(top));
                    lemma_stack_leaves_push(rest, top);
                }
                let d = Child::Dummy(dummy_position(previous, doc_length));
                let ghost dg = d;
                let ghost top0 = top;
                top.children.push(d);
                proof {
                    lemma_children_leaves_push(tc, dg);
                    lemma_stack_leaves_push(rest, top);
                    lemma_children_model_push(tc, dg);
                    assert(tree_model(top) == with_child(tree_model(top0), child_model(dg)));
                    assert(models(s0).drop_last() =~= models(rest));
                }
                stack.push(top);
                proof {
                    assert(models(stack@) =~= models(rest).push(tree_model(top)));
                }
            },
        }
        i = i + 1;
    }
    proof {
        assert(evs.take(n as int) =~= evs);
        assert(blocks.take(k as int) =~= blocks);
        assert(stack@.drop_last() =~= Seq::<Tree>::empty());
        assert(stack@.len() == 1);
        assert(stack_leaves(Seq::<Tree>::empty()) =~= Seq::<Block>::empty());
        assert(stack_leaves(stack@) =~= tree_leaves(stack@.last()));
        assert(models(stack@)[0] == tree_model(stack@[0]));
    }
    stack.pop().unwrap()
}


/// An index into the event log where a node was opened.
struct MarkOpened {
    index: usize,
}

/// The parser's state: the classified blocks, the next block to read, and
/// the event log written so far.
struct Parser {
    nodes: Vec<ClassifiedNode>,
    pos: usize,
    events: Vec<Event>,
}

impl Parser {
    /// The log so far keeps at least one node open after every step, and
    /// has consumed exactly the blocks before `pos`.
    spec fn inv(&self) -> bool {
        &&& self.pos <= self.nodes@.len()
        &&& self.events@.len() >= 1
        &&& stays_open(self.events@)
        &&& advances(self.events@) == self.pos
    }

    spec fn depth(&self) -> int {
        depth_of(self.events@)
    }

    /// `self` follows from `before` by a balanced piece of parsing: the same
    /// blocks, no block given back, the earlier log kept, and as many nodes
    /// open as before.
    spec fn grows(&self, before: Parser) -> bool {
        &&& self.inv()
        &&& self.depth() == before.depth()
        &&& self.nodes@ == before.nodes@
        &&& before.pos <= self.pos
        &&& before.events@.len() <= self.events@.len()
        &&& forall|i: int| 0 <= i < before.events@.len() ==> self.events@[i] == before.events@[i]
    }

    spec fn at_end(&self) -> bool {
        self.pos >= self.nodes@.len()
    }

    /// The block at the parser's position.
    spec fn current(&self) -> Block {
        self.nodes@[self.pos as int].block
    }

    fn eof(&self) -> (r: bool)
        requires
            self.inv(),
        ensures
            r == self.at_end(),
    {
        self.pos == self.nodes.len()
    }

    fn at_heading(&self, depth: u8) -> (r: bool)
        requires
            self.inv(),
        ensures
            r == (!self.at_end() && self.current().is_heading(depth)),
    {
        self.pos < self.nodes.len() && self.nodes[self.pos].block.heading(depth)
    }

    fn at_paragraph(&self) -> (r: bool)
        requires
            self.inv(),
        ensures
            r == (!self.at_end() && self.current().is_paragraph()),
    {
        self.pos < self.nodes.len() && self.nodes[self.pos].block.paragraph()
    }

    fn at_list(&self) -> (r: bool)
        requires
            self.inv(),
        ensures
            r == (!self.at_end() && self.current().is_list()),
    {
        self.pos < self.nodes.len() && self.nodes[self.pos].block.list()
    }

    fn at_definition(&self) -> (r: bool)
        requires
            self.inv(),
        ensures
            r == (!self.at_end() && self.current().is_definition()),
    {
        self.pos < self.nodes.len() && self.nodes[self.pos].block.definition()
    }

    fn open(&mut self) -> (m: MarkOpened)
        requires
            old(self).inv(),
        ensures
            final(self).inv(),
            final(self).depth() == old(self).depth() + 1,
            final(self).nodes@ == old(self).nodes@,
            final(self).pos == old(self).pos,
            final(self).events@ == old(self).events@.push(final(self).events@.last()),
            final(self).events@.last() is Open,
            m.index == old(self).events@.len(),
    {
        proof {
            lemma_depth_positive(self.events@);
        }
        let e = Event::Open(TreeKind::Error(String::from_str("Unclosed Event")));
        proof {
            lemma_stays_open_push(self.events@, e);
        }
        let m = MarkOpened { index: self.events.len() };
        self.events.push(e);
        m
    }

    fn close(&mut self, m: MarkOpened, kind: TreeKind)
        requires
            old(self).inv(),
            old(self).depth() >= 2,
            m.index < old(self).events@.len(),
            old(self).events@[m.index as int] is Open,
        ensures
            final(self).inv(),
            final(self).depth() == old(self).depth() - 1,
            final(self).nodes@ == old(self).nodes@,
            final(self).pos == old(self).pos,
            final(self).events@ == old(self).events@.update(m.index as int, Event::Open(kind)).push(
                Event::Close,
            ),
    {
        let ghost e0 = self.events@;
        let x = Event::Open(kind);
        proof {
            lemma_update_open(e0, m.index as int, x);
            lemma_stays_open_push(e0.update(m.index as int, x), Event::Close);
        }
        self.events.set(m.index, x);
        self.events.push(Event::Close);
    }

    fn advance(&mut self)
        requires
            old(self).inv(),
            !old(self).at_end(),
        ensures
            final(self).inv(),
            final(self).depth() == old(self).depth(),
            final(self).nodes@ == old(self).nodes@,
            final(self).pos == old(self).pos + 1,
            final(self).events@ == old(self).events@.push(Event::Advance),
    {
        proof {
            lemma_depth_positive(self.events@);
            lemma_stays_open_push(self.events@, Event::Advance);
        }
        assert(self.pos < self.nodes.len());
        self.events.push(Event::Advance);
        self.pos = self.pos + 1;
    }

    /// Consumes the current block inside an `Error` node with `message`.
    fn advance_with_error(&mut self, message: String)
        requires
            old(self).inv(),
            !old(self).at_end(),
        ensures
            final(self).grows(*old(self)),
            final(self).pos == old(self).pos + 1,
            final(self).events@ == old(self).events@ + seq![
                Event::Open(TreeKind::Error(message)),
                Event::Advance,
                Event::Close,
            ],
    {
        let ghost e0 = self.events@;
        let ghost msg = message;
        let m = self.open();
        self.advance();
        self.close(m, TreeKind::Error(message));
        proof {
            assert(self.events@ =~= e0 + seq![
                Event::Open(TreeKind::Error(msg)),
                Event::Advance,
                Event::Close,
            ]);
        }
    }

    /// Records that a required block is missing, with a placeholder inside an
    /// `Error` node with `message`; consumes nothing.
    fn capture_missing_node(&mut self, message: String)
        requires
            old(self).inv(),
        ensures
            final(self).grows(*old(self)),
            final(self).pos == old(self).pos,
            final(self).events@ == old(self).events@ + seq![
                Event::Open(TreeKind::Error(message)),
                Event::Missing,
                Event::Close,
            ],
    {
        let ghost e0 = self.events@;
        let ghost msg = message;
        let m = self.open();
        proof {
            lemma_stays_open_push(self.events@, Event::Missing);
        }
        self.events.push(Event::Missing);
        self.close(m, TreeKind::Error(message));
        proof {
            assert(self.events@ =~= e0 + seq![
                Event::Open(TreeKind::Error(msg)),
                Event::Missing,
                Event::Close,
            ]);
        }
    }

    /// The current block written back as markdown, for messages.
    fn current_markdown(&self) -> (r: String)
        requires
            self.inv(),
            !self.at_end(),
        ensures
            r@ == self.current().markdown@,
    {
        self.nodes[self.pos].block.markdown.clone()
    }
}


/// `e` opens an `Error` node whose message is `message`.
pub open spec fn error_open(e: Event, message: Seq<char>) -> bool {
    e matches Event::Open(TreeKind::Error(m)) && m@ == message
}

/// From index `n` on, `s` holds a node of `kind` around one block: the
/// block itself when `right`, else an `Error` node with `message` around it.
pub open spec fn section_events(s: Seq<Event>, n: int, kind: TreeKind, right: bool, message: Seq<char>) -> bool {
    if right {
        &&& s.len() == n + 3
        &&& s[n] == Event::Open(kind)
        &&& s[n + 1] is Advance
        &&& s[n + 2] is Close
    } else {
        &&& s.len() == n + 5
        &&& s[n] == Event::Open(kind)
        &&& error_open(s[n + 1], message)
        &&& s[n + 2] is Advance
        &&& s[n + 3] is Close
        &&& s[n + 4] is Close
    }
}

/// From index `n` on, `s` holds an `Error` node with `message` around a
/// placeholder for a missing block.
pub open spec fn missing_events(s: Seq<Event>, n: int, message: Seq<char>) -> bool {
    &&& s.len() == n + 3
    &&& error_open(s[n], message)
    &&& s[n + 1] is Missing
    &&& s[n + 2] is Close
}

pub open spec fn missing_title_message() -> Seq<char> {
    "The following markdown is missing:\n\n# Changelog\n\nIt must appear at the start of the document."@
}

pub open spec fn title_message(text: Seq<char>) -> Seq<char> {
    "Expected '# Changelog' but found '# "@ + text + "'"@
}

pub open spec fn missing_notable_message() -> Seq<char> {
    "The following markdown is missing:\n\n"@ + NOTABLE_CHANGES_TEXT@ + "\n\nIt must appear after:\n\n# Changelog"@
}

pub open spec fn notable_message(markdown: Seq<char>) -> Seq<char> {
    "Expected the following markdown:\n\n"@ + NOTABLE_CHANGES_TEXT@ + "\n\nbut was:\n\n"@ + markdown
}

pub open spec fn missing_about_message() -> Seq<char> {
    "The following markdown is missing:\n\n"@ + ABOUT_FORMAT_TEXT@ + "\n\nIt must appear after:\n\n"@
        + NOTABLE_CHANGES_TEXT@
}

pub open spec fn about_message(markdown: Seq<char>) -> Seq<char> {
    "Expected the following markdown:\n\n"@ + ABOUT_FORMAT_TEXT@ + "\n\nbut was:\n\n"@ + markdown
}

pub open spec fn missing_unreleased_message() -> Seq<char> {
    "The following markdown is missing:\n\n## "@ + UNRELEASED_HEADER_TEXT@ + "\n\nIt must appear after:\n\n"@
        + ABOUT_FORMAT_TEXT@
}

pub open spec fn unreleased_message(markdown: Seq<char>) -> Seq<char> {
    "Expected '## Unreleased' but found '"@ + markdown + "'"@
}

/// From index `n` on, `s` holds an `Error` node with `message` around one
/// consumed block.
pub open spec fn error_block(s: Seq<Event>, n: int, message: Seq<char>) -> bool {
    &&& s.len() == n + 3
    &&& error_open(s[n], message)
    &&& s[n + 1] is Advance
    &&& s[n + 2] is Close
}

/// From index `n` on, `s` holds a node of `kind` around one consumed block.
pub open spec fn node_block(s: Seq<Event>, n: int, kind: TreeKind) -> bool {
    &&& s.len() == n + 3
    &&& s[n] == Event::Open(kind)
    &&& s[n + 1] is Advance
    &&& s[n + 2] is Close
}

pub open spec fn header_shape_message(markdown: Seq<char>) -> Seq<char> {
    "Expected Release Header with the format '[<semver>] - <YYYY>-<MM>-<DD> - [<tag>]' but found '"@
        + markdown + "'"@
}

pub open spec fn version_message(v: Seq<char>, reason: Seq<char>) -> Seq<char> {
    "Invalid release version '"@ + v + "' - "@ + ("Could not parse version '"@ + v
        + "' as semver.\nReason: "@ + reason)
}

pub open spec fn date_message(d: Seq<char>, reason: Seq<char>) -> Seq<char> {
    "Invalid release date '"@ + d + "' - "@ + ("Could not parse release date '"@ + d
        + "' as YYYY-MM-DD.\nReason: "@ + reason)
}

pub open spec fn tag_message(t: Seq<char>) -> Seq<char> {
    "Invalid release tag '"@ + t + "' - "@ + ("Could not parse release tag '"@ + t
        + "'\nExpected: YANKED | NO CHANGES"@)
}

pub open spec fn group_message(markdown: Seq<char>) -> Seq<char> {
    "Expected one of the following change groups:\n\n"@
        + "### Added, ### Changed, ### Deprecated, ### Fixed, ### Removed, ### Security"@
        + "\n\nbut found:\n\n"@ + markdown
}

pub open spec fn link_shape_message(markdown: Seq<char>) -> Seq<char> {
    "Expected Release Link but found:\n\n"@ + markdown
}

pub open spec fn url_message(u: Seq<char>, reason: Seq<char>) -> Seq<char> {
    "Invalid url '"@ + u + "' in release link - "@ + ("Could not parse release link '"@ + u
        + "' as a URI.\nReason: "@ + reason)
}

pub open spec fn link_version_message(i: Seq<char>, reason: Seq<char>) -> Seq<char> {
    "Invalid version '"@ + i + "' in release link - "@ + ("Could not parse version '"@ + i
        + "' as semver.\nReason: "@ + reason)
}

/// The events a release heading with text `text` gives after index `n`:
/// a `ReleaseHeader` node around it when its version, date and tag all
/// read, else an `Error` node around it naming the first part that does not.
pub open spec fn header_events(s: Seq<Event>, n: int, text: Seq<char>, markdown: Seq<char>) -> bool {
    match spec_split_header(text) {
        None => error_block(s, n, header_shape_message(markdown)),
        Some((v, d, t)) => if semver_error(v) is Some {
            error_block(s, n, version_message(v, semver_error(v)->0))
        } else if timestamp_error(d + midnight_suffix()) is Some {
            error_block(s, n, date_message(d, timestamp_error(d + midnight_suffix())->0))
        } else if t is Some && spec_parse_tag(t->0) is None {
            error_block(s, n, tag_message(t->0))
        } else {
            &&& s.len() == n + 3
            &&& s[n] matches Event::Open(TreeKind::ReleaseHeader(ver, date, tag)) && ver@ == v && date@
                == d && tag == match t {
                Some(x) => spec_parse_tag(x),
                None => None,
            }
            &&& s[n + 1] is Advance
            &&& s[n + 2] is Close
        },
    }
}

/// The events a release link definition gives after index `n`.
pub open spec fn link_events(s: Seq<Event>, n: int, b: Block) -> bool {
    match b.shape {
        BlockShape::Definition(i, u) => if uri_error(u@) is Some {
            error_block(s, n, url_message(u@, uri_error(u@)->0))
        } else if lower_of(i@) == "unreleased"@ {
            &&& s.len() == n + 3
            &&& s[n] matches Event::Open(TreeKind::ReleaseLink(ReleaseLinkType::Unreleased(l))) && l@
                == u@
            &&& s[n + 1] is Advance
            &&& s[n + 2] is Close
        } else if semver_error(i@) is Some {
            error_block(s, n, link_version_message(i@, semver_error(i@)->0))
        } else {
            &&& s.len() == n + 3
            &&& s[n] matches Event::Open(TreeKind::ReleaseLink(ReleaseLinkType::Versioned(v, l))) && v@
                == i@ && l@ == u@
            &&& s[n + 1] is Advance
            &&& s[n + 2] is Close
        },
        _ => error_block(s, n, link_shape_message(b.markdown@)),
    }
}

/// Whether a run of change groups stops at `pos`: at the end, or at a
/// depth-2 heading or a link definition.
pub open spec fn stops_groups(nodes: Seq<ClassifiedNode>, pos: int) -> bool {
    pos >= nodes.len() || nodes[pos].block.is_heading(2) || nodes[pos].block.is_definition()
}

/// Whether the block after `pos` is a list.
pub open spec fn list_follows(nodes: Seq<ClassifiedNode>, pos: int) -> bool {
    pos + 1 < nodes.len() && nodes[pos + 1].block.is_list()
}

pub open spec fn missing_list_message() -> Seq<char> {
    "Change Group is missing the required list of changes"@
}

/// The eight events of the change group at `pos`, from index `n` of `t`: the
/// group node, its heading (or an `Error` node around it), its list (or an
/// `Error` node around a placeholder), and the group's close.
pub open spec fn group_node_events(t: Seq<Event>, n: int, nodes: Seq<ClassifiedNode>, pos: int) -> bool {
    let b = nodes[pos].block;
    &&& t.len() == n + 8
    &&& t[n] == Event::Open(TreeKind::ChangeGroup)
    &&& match spec_parse_group(b.text@) {
        Some(g) => node_block(t.take(n + 4), n + 1, TreeKind::ChangeGroupHeader(g)),
        None => error_block(t.take(n + 4), n + 1, group_message(b.markdown@)),
    }
    &&& if list_follows(nodes, pos) {
        node_block(t.take(n + 7), n + 4, TreeKind::ChangeGroupList)
    } else {
        missing_events(t.take(n + 7), n + 4, missing_list_message())
    }
    &&& t[n + 7] is Close
}

pub open spec fn unexpected_message(markdown: Seq<char>, in_release: bool) -> Seq<char> {
    if in_release {
        "Unexpected markdown - Release should be followed by either a Change Group, Release, or Release Link but was:\n\n"@
            + markdown
    } else {
        "Unexpected markdown - '## Unreleased' should be followed by either a Change Group, Release, or Release Link but was:\n\n"@
            + markdown
    }
}

/// The events that the change groups from `pos` on give from index `n` of
/// `s` to its end: for each depth-3 heading a change group, for any other
/// block an `Error` node around it, up to where the run stops.
pub open spec fn groups_log(s: Seq<Event>, n: int, nodes: Seq<ClassifiedNode>, pos: int, in_release: bool) -> bool
    decreases nodes.len() - pos,
{
    if pos < 0 || stops_groups(nodes, pos) {
        s.len() == n
    } else if nodes[pos].block.is_heading(3) {
        &&& s.len() >= n + 8
        &&& group_node_events(s.take(n + 8), n, nodes, pos)
        &&& groups_log(s, n + 8, nodes, pos + if list_follows(nodes, pos) { 2int } else { 1int }, in_release)
    } else {
        &&& s.len() >= n + 3
        &&& error_block(s.take(n + 3), n, unexpected_message(nodes[pos].block.markdown@, in_release))
        &&& groups_log(s, n + 3, nodes, pos + 1, in_release)
    }
}

/// `groups_log` reads only the events from index `n` on.
proof fn lemma_groups_log_suffix(
    s: Seq<Event>,
    s2: Seq<Event>,
    n: int,
    nodes: Seq<ClassifiedNode>,
    pos: int,
    in_release: bool,
)
    requires
        0 <= n,
        groups_log(s, n, nodes, pos, in_release),
        s2.len() == s.len(),
        forall|i: int| n <= i < s.len() ==> s2[i] == s[i],
    ensures
        groups_log(s2, n, nodes, pos, in_release),
    decreases nodes.len() - pos,
{
    if pos < 0 || stops_groups(nodes, pos) {
    } else if nodes[pos].block.is_heading(3) {
        let t = s.take(n + 8);
        let t2 = s2.take(n + 8);
        assert forall|i: int| n <= i < n + 8 implies t2[i] == t[i] by {}
        assert(t2.take(n + 4)[n] == t.take(n + 4)[n]);
        assert(t2.take(n + 4)[n + 1] == t.take(n + 4)[n + 1]);
        assert(t2.take(n + 4)[n + 2] == t.take(n + 4)[n + 2]);
        assert(t2.take(n + 4)[n + 3] == t.take(n + 4)[n + 3]);
        assert(t2.take(n + 7)[n + 4] == t.take(n + 7)[n + 4]);
        assert(t2.take(n + 7)[n + 5] == t.take(n + 7)[n + 5]);
        assert(t2.take(n + 7)[n + 6] == t.take(n + 7)[n + 6]);
        lemma_groups_log_suffix(
            s,
            s2,
            n + 8,
            nodes,
            pos + if list_follows(nodes, pos) { 2int } else { 1int },
            in_release,
        );
    } else {
        let t = s.take(n + 3);
        let t2 = s2.take(n + 3);
        assert(t2[n] == t[n] && t2[n + 1] == t[n + 1] && t2[n + 2] == t[n + 2]);
        lemma_groups_log_suffix(s, s2, n + 3, nodes, pos + 1, in_release);
    }
}

/// The number of events that the change groups from `pos` on give.
pub open spec fn groups_len(nodes: Seq<ClassifiedNode>, pos: int) -> int
    decreases nodes.len() - pos,
{
    if pos < 0 || stops_groups(nodes, pos) {
        0
    } else if nodes[pos].block.is_heading(3) {
        8 + groups_len(nodes, pos + if list_follows(nodes, pos) { 2int } else { 1int })
    } else {
        3 + groups_len(nodes, pos + 1)
    }
}

/// Where the run of change groups from `pos` on stops.
pub open spec fn groups_end(nodes: Seq<ClassifiedNode>, pos: int) -> int
    decreases nodes.len() - pos,
{
    if pos < 0 || stops_groups(nodes, pos) {
        pos
    } else if nodes[pos].block.is_heading(3) {
        groups_end(nodes, pos + if list_follows(nodes, pos) { 2int } else { 1int })
    } else {
        groups_end(nodes, pos + 1)
    }
}

proof fn lemma_groups_shape(s: Seq<Event>, n: int, nodes: Seq<ClassifiedNode>, pos: int, in_release: bool)
    requires
        0 <= pos <= nodes.len(),
        groups_log(s, n, nodes, pos, in_release),
    ensures
        s.len() == n + groups_len(nodes, pos),
        pos <= groups_end(nodes, pos) <= nodes.len(),
    decreases nodes.len() - pos,
{
    if stops_groups(nodes, pos) {
    } else if nodes[pos].block.is_heading(3) {
        lemma_groups_shape(s, n + 8, nodes, pos + if list_follows(nodes, pos) { 2int } else { 1int }, in_release);
    } else {
        lemma_groups_shape(s, n + 3, nodes, pos + 1, in_release);
    }
}

pub open spec fn top_message(markdown: Seq<char>) -> Seq<char> {
    "Unexpected markdown - Expected either a Release Header or Release Link here but found:\n\n"@ + markdown
}

/// The events of the release at `pos`, from index `n` of `t` to its end: the
/// release node, its heading, its change groups, and its close.
pub open spec fn release_log(t: Seq<Event>, n: int, nodes: Seq<ClassifiedNode>, pos: int) -> bool {
    &&& t.len() == n + 5 + groups_len(nodes, pos + 1)
    &&& t[n] == Event::Open(TreeKind::Release)
    &&& header_events(t.take(n + 4), n + 1, nodes[pos].block.text@, nodes[pos].block.markdown@)
    &&& groups_log(t.drop_last(), n + 4, nodes, pos + 1, true)
    &&& t.last() is Close
}

/// The events that the blocks from `pos` on give after the Unreleased
/// section, from index `n` of `s` to its end: a release for each depth-2
/// heading, a release link for each definition, an `Error` node around any
/// other block.
pub open spec fn top_log(s: Seq<Event>, n: int, nodes: Seq<ClassifiedNode>, pos: int) -> bool
    decreases nodes.len() - pos,
{
    if pos < 0 || pos >= nodes.len() {
        s.len() == n
    } else if nodes[pos].block.is_heading(2) {
        let m = n + 5 + groups_len(nodes, pos + 1);
        let q = groups_end(nodes, pos + 1);
        &&& s.len() >= m
        &&& release_log(s.take(m), n, nodes, pos)
        &&& pos < q <= nodes.len()
        &&& top_log(s, m, nodes, q)
    } else if nodes[pos].block.is_definition() {
        &&& s.len() >= n + 3
        &&& link_events(s.take(n + 3), n, nodes[pos].block)
        &&& top_log(s, n + 3, nodes, pos + 1)
    } else {
        &&& s.len() >= n + 3
        &&& error_block(s.take(n + 3), n, top_message(nodes[pos].block.markdown@))
        &&& top_log(s, n + 3, nodes, pos + 1)
    }
}

pub open spec fn title_present(nodes: Seq<ClassifiedNode>, pos: int) -> bool {
    0 <= pos < nodes.len() && nodes[pos].block.is_heading(1)
}

pub open spec fn notable_present(nodes: Seq<ClassifiedNode>, pos: int) -> bool {
    0 <= pos < nodes.len() && nodes[pos].block.is_paragraph() && !nodes[pos].block.spec_matches_about()
}

pub open spec fn about_present(nodes: Seq<ClassifiedNode>, pos: int) -> bool {
    0 <= pos < nodes.len() && nodes[pos].block.is_paragraph()
}

pub open spec fn unreleased_present(nodes: Seq<ClassifiedNode>, pos: int) -> bool {
    0 <= pos < nodes.len() && nodes[pos].block.is_heading(2) && spec_split_header(nodes[pos].block.text@)
        is None
}

/// How many events a section around one block gives: 3, or 5 with an
/// `Error` node inside.
pub open spec fn section_len(present: bool, right: bool) -> int {
    if present && !right {
        5
    } else {
        3
    }
}

pub open spec fn title_right(nodes: Seq<ClassifiedNode>, pos: int) -> bool {
    nodes[pos].block.text@ == CHANGELOG_TITLE@
}

pub open spec fn notable_right(nodes: Seq<ClassifiedNode>, pos: int) -> bool {
    nodes[pos].block.text@ == NOTABLE_CHANGES_TEXT@
}

pub open spec fn about_right(nodes: Seq<ClassifiedNode>, pos: int) -> bool {
    nodes[pos].block.spec_matches_about()
}

pub open spec fn unreleased_right(nodes: Seq<ClassifiedNode>, pos: int) -> bool {
    is_unreleased_text(nodes[pos].block.text@)
}

/// The events of a leading section at `pos`, from index `n` of `t` to its
/// end: the section around its block when present, else an `Error` node
/// around a placeholder.
pub open spec fn leading_section(
    t: Seq<Event>,
    n: int,
    present: bool,
    kind: TreeKind,
    right: bool,
    message: Seq<char>,
    missing: Seq<char>,
) -> bool {
    if present {
        section_events(t, n, kind, right, message)
    } else {
        missing_events(t, n, missing)
    }
}

/// Positions and event indices after each leading section: title, notable
/// changes, about the format, Unreleased.
pub open spec fn leading_marks(nodes: Seq<ClassifiedNode>) -> (Seq<int>, Seq<int>) {
    let p1 = if title_present(nodes, 0) { 1int } else { 0int };
    let n1 = 1 + section_len(title_present(nodes, 0), title_right(nodes, 0));
    let p2 = if notable_present(nodes, p1) { p1 + 1 } else { p1 };
    let n2 = n1 + section_len(notable_present(nodes, p1), notable_right(nodes, p1));
    let p3 = if about_present(nodes, p2) { p2 + 1 } else { p2 };
    let n3 = n2 + section_len(about_present(nodes, p2), about_right(nodes, p2));
    let up = unreleased_present(nodes, p3);
    let h = section_len(true, unreleased_right(nodes, p3));
    let p4 = if up { groups_end(nodes, p3 + 1) } else { p3 };
    let n4 = if up { n3 + 1 + h + groups_len(nodes, p3 + 1) + 1 } else { n3 + 3 };
    (seq![0, p1, p2, p3, p4], seq![1, n1, n2, n3, n4])
}

/// The events of the four leading sections, from index 1 of `s` on.
pub open spec fn leading_log(s: Seq<Event>, nodes: Seq<ClassifiedNode>) -> bool {
    let (ps, ns) = leading_marks(nodes);
    let p3 = ps[3];
    let n3 = ns[3];
    let n4 = ns[4];
    let h = section_len(true, unreleased_right(nodes, p3));
    &&& s.len() >= n4
    &&& leading_section(
        s.take(ns[1]),
        1,
        title_present(nodes, 0),
        TreeKind::Title,
        title_right(nodes, 0),
        title_message(nodes[0].block.text@),
        missing_title_message(),
    )
    &&& leading_section(
        s.take(ns[2]),
        ns[1],
        notable_present(nodes, ps[1]),
        TreeKind::NotableChanges,
        notable_right(nodes, ps[1]),
        notable_message(nodes[ps[1]].block.markdown@),
        missing_notable_message(),
    )
    &&& leading_section(
        s.take(ns[3]),
        ns[2],
        about_present(nodes, ps[2]),
        TreeKind::AboutFormat,
        about_right(nodes, ps[2]),
        about_message(nodes[ps[2]].block.markdown@),
        missing_about_message(),
    )
    &&& if unreleased_present(nodes, p3) {
        &&& s[n3] == Event::Open(TreeKind::Unreleased)
        &&& section_events(
            s.take(n3 + 1 + h),
            n3 + 1,
            TreeKind::UnreleasedHeader,
            unreleased_right(nodes, p3),
            unreleased_message(nodes[p3].block.markdown@),
        )
        &&& groups_log(s.take(n4 - 1), n3 + 1 + h, nodes, p3 + 1, false)
        &&& s[n4 - 1] is Close
    } else {
        missing_events(s.take(n4), n3, missing_unreleased_message())
    }
}

proof fn lemma_groups_len_nonneg(nodes: Seq<ClassifiedNode>, pos: int)
    ensures
        groups_len(nodes, pos) >= 0,
    decreases nodes.len() - pos,
{
    if pos < 0 || stops_groups(nodes, pos) {
    } else if nodes[pos].block.is_heading(3) {
        lemma_groups_len_nonneg(nodes, pos + if list_follows(nodes, pos) { 2int } else { 1int });
    } else {
        lemma_groups_len_nonneg(nodes, pos + 1);
    }
}

/// `leading_log` reads only the events it describes.
proof fn lemma_leading_stable(s1: Seq<Event>, s2: Seq<Event>, nodes: Seq<ClassifiedNode>)
    requires
        leading_log(s1, nodes),
        s2.len() >= s1.len(),
        forall|i: int| 0 <= i < s1.len() ==> s2[i] == s1[i],
    ensures
        leading_log(s2, nodes),
{
    let (ps, ns) = leading_marks(nodes);
    let h = section_len(true, unreleased_right(nodes, ps[3]));
    lemma_groups_len_nonneg(nodes, ps[3] + 1);
    assert(1 <= ns[1] <= ns[2] <= ns[3] <= ns[4]);
    assert(s2.take(ns[1]) =~= s1.take(ns[1]));
    assert(s2.take(ns[2]) =~= s1.take(ns[2]));
    assert(s2.take(ns[3]) =~= s1.take(ns[3]));
    if unreleased_present(nodes, ps[3]) {
        assert(s2.take(ns[3] + 1 + h) =~= s1.take(ns[3] + 1 + h));
        assert(s2.take(ns[4] - 1) =~= s1.take(ns[4] - 1));
        assert(s2[ns[3]] == s1[ns[3]]);
        assert(s2[ns[4] - 1] == s1[ns[4] - 1]);
    } else {
        assert(s2.take(ns[4]) =~= s1.take(ns[4]));
    }
}

/// The list of change group headings, for messages:
/// `### Added, ### Changed, ### Deprecated, ### Fixed, ### Removed, ### Security`.
pub fn format_change_group_headers() -> (r: String)
    ensures
        r@ == "### Added, ### Changed, ### Deprecated, ### Fixed, ### Removed, ### Security"@,
{
    String::from_str("### Added, ### Changed, ### Deprecated, ### Fixed, ### Removed, ### Security")
}

/// `ChangelogFile := Title? NotableChanges? AboutFormat? Unreleased (Release | ReleaseLink)*`;
/// the four leading sections are reported when missing, anything else that
/// follows them is consumed one block at a time inside an `Error` node.
fn changelog_file(p: &mut Parser)
    requires
        old(p).inv(),
        old(p).pos == 0,
        old(p).depth() == 1,
        old(p).events@.len() == 1,
        old(p).events@[0] is Open,
    ensures
        final(p).inv(),
        final(p).depth() == 1,
        final(p).at_end(),
        final(p).nodes@ == old(p).nodes@,
        final(p).events@[0] is Open,
        final(p).events@.len() >= old(p).events@.len(),
        leading_log(final(p).events@, old(p).nodes@),
        top_log(final(p).events@, leading_marks(old(p).nodes@).1[4], old(p).nodes@, leading_marks(old(p).nodes@).0[4]),
        old(p).nodes@.len() == 0 ==> {
            &&& final(p).events@.len() == 13
            &&& missing_events(final(p).events@.take(4), 1, missing_title_message())
            &&& missing_events(final(p).events@.take(7), 4, missing_notable_message())
            &&& missing_events(final(p).events@.take(10), 7, missing_about_message())
            &&& missing_events(final(p).events@, 10, missing_unreleased_message())
        },
{
    let ghost e0 = p.events@;
    title(p);
    let ghost e1 = p.events@;
    notable_changes_text(p);
    let ghost e2 = p.events@;
    about_format_text(p);
    let ghost e3 = p.events@;
    unreleased(p);
    proof {
        if old(p).nodes@.len() == 0 {
            let f = p.events@;
            assert(f.take(4) =~= e1);
            assert(f.take(7) =~= e2);
            assert(f.take(10) =~= e3);
        }
    }
    let ghost e4 = p.events@;
    proof {
        let nodes = old(p).nodes@;
        let (ps, ns) = leading_marks(nodes);
        let h = section_len(true, unreleased_right(nodes, ps[3]));
        assert(e1.len() == ns[1]);
        assert(e2.len() == ns[2]);
        assert(e3.len() == ns[3]);
        assert(e4.take(ns[1]) =~= e1);
        assert(e4.take(ns[2]) =~= e2);
        assert(e4.take(ns[3]) =~= e3);
        if unreleased_present(nodes, ps[3]) {
            lemma_groups_shape(e4.drop_last(), ns[3] + 1 + h, nodes, ps[3] + 1, false);
            assert(e4.take(ns[4] - 1) =~= e4.drop_last());
            assert(e4.take(ns[3] + 1 + h) =~= e4.take(ns[3] + 1 + h));
        } else {
            assert(e4.take(ns[4]) =~= e4);
        }
        assert(leading_log(e4, nodes));
    }
    sections(p);
    proof {
        lemma_leading_stable(e4, p.events@, old(p).nodes@);
        if old(p).nodes@.len() == 0 {
            assert(p.events@ =~= e4);
        }
    }
}

/// `(Release | ReleaseLink)*` after the Unreleased section, to the end of
/// the document; any other block is consumed inside an `Error` node.
fn sections(p: &mut Parser)
    requires
        old(p).inv(),
    ensures
        final(p).grows(*old(p)),
        final(p).at_end(),
        top_log(final(p).events@, old(p).events@.len() as int, old(p).nodes@, old(p).pos as int),
    decreases old(p).nodes@.len() - old(p).pos,
{
    if p.eof() {
        return;
    }
    let ghost before = *p;
    if p.at_heading(2) {
        release(p);
    } else if p.at_definition() {
        release_link(p);
    } else {
        let md = p.current_markdown();
        p.advance_with_error(concat2(
            "Unexpected markdown - Expected either a Release Header or Release Link here but found:\n\n",
            md.as_str(),
        ));
    }
    let ghost mid = p.events@;
    proof {
        let n = before.events@.len() as int;
        let pos = before.pos as int;
        if before.nodes@[pos].block.is_heading(2) {
            lemma_groups_shape(mid.drop_last(), n + 4, before.nodes@, pos + 1, true);
        }
    }
    sections(p);
    proof {
        let k = mid.len() as int;
        assert(p.events@.take(k) =~= mid);
        assert(mid.take(k) =~= mid);
    }
}

/// `Title := heading(depth 1) with the text "Changelog"`.
fn title(p: &mut Parser)
    requires
        old(p).inv(),
    ensures
        final(p).grows(*old(p)),
        !old(p).at_end() && old(p).current().is_heading(1) ==> section_events(
            final(p).events@,
            old(p).events@.len() as int,
            TreeKind::Title,
            old(p).current().text@ == CHANGELOG_TITLE@,
            title_message(old(p).current().text@),
        ),
        !(!old(p).at_end() && old(p).current().is_heading(1)) ==> missing_events(
            final(p).events@,
            old(p).events@.len() as int,
            missing_title_message(),
        ),
        !old(p).at_end() && old(p).current().is_heading(1) ==> final(p).pos == old(p).pos + 1,
        !(!old(p).at_end() && old(p).current().is_heading(1)) ==> final(p).pos == old(p).pos,
{
    if p.at_heading(1) {
        let m = p.open();
        if str_eq(p.nodes[p.pos].block.text.as_str(), CHANGELOG_TITLE) {
            p.advance();
        } else {
            let message = concat3("Expected '# Changelog' but found '# ", p.nodes[p.pos].block.text.as_str(), "'");
            p.advance_with_error(message);
        }
        p.close(m, TreeKind::Title);
    } else {
        p.capture_missing_node(String::from_str(
            "The following markdown is missing:\n\n# Changelog\n\nIt must appear at the start of the document.",
        ));
    }
}

/// `NotableChanges := paragraph with the fixed text`; a paragraph that is the
/// "about the format" text counts as this section missing.
fn notable_changes_text(p: &mut Parser)
    requires
        old(p).inv(),
    ensures
        final(p).grows(*old(p)),
        !old(p).at_end() && old(p).current().is_paragraph() && !old(p).current().spec_matches_about()
            ==> section_events(
            final(p).events@,
            old(p).events@.len() as int,
            TreeKind::NotableChanges,
            old(p).current().text@ == NOTABLE_CHANGES_TEXT@,
            notable_message(old(p).current().markdown@),
        ),
        !(!old(p).at_end() && old(p).current().is_paragraph() && !old(p).current().spec_matches_about())
            ==> missing_events(final(p).events@, old(p).events@.len() as int, missing_notable_message()),
        !old(p).at_end() && old(p).current().is_paragraph() && !old(p).current().spec_matches_about()
            ==> final(p).pos == old(p).pos + 1,
        !(!old(p).at_end() && old(p).current().is_paragraph() && !old(p).current().spec_matches_about())
            ==> final(p).pos == old(p).pos,
{
    if p.at_paragraph() && !p.nodes[p.pos].block.matches_about() {
        let m = p.open();
        if str_eq(p.nodes[p.pos].block.text.as_str(), NOTABLE_CHANGES_TEXT) {
            p.advance();
        } else {
            let message = concat4(
                "Expected the following markdown:\n\n",
                NOTABLE_CHANGES_TEXT,
                "\n\nbut was:\n\n",
                p.nodes[p.pos].block.markdown.as_str(),
            );
            p.advance_with_error(message);
        }
        p.close(m, TreeKind::NotableChanges);
    } else {
        p.capture_missing_node(concat3(
            "The following markdown is missing:\n\n",
            NOTABLE_CHANGES_TEXT,
            "\n\nIt must appear after:\n\n# Changelog",
        ));
    }
}

/// `AboutFormat := paragraph with the fixed text, up to whitespace`.
fn about_format_text(p: &mut Parser)
    requires
        old(p).inv(),
    ensures
        final(p).grows(*old(p)),
        !old(p).at_end() && old(p).current().is_paragraph() ==> section_events(
            final(p).events@,
            old(p).events@.len() as int,
            TreeKind::AboutFormat,
            old(p).current().spec_matches_about(),
            about_message(old(p).current().markdown@),
        ),
        !(!old(p).at_end() && old(p).current().is_paragraph()) ==> missing_events(
            final(p).events@,
            old(p).events@.len() as int,
            missing_about_message(),
        ),
        !old(p).at_end() && old(p).current().is_paragraph() ==> final(p).pos == old(p).pos + 1,
        !(!old(p).at_end() && old(p).current().is_paragraph()) ==> final(p).pos == old(p).pos,
{
    if p.at_paragraph() {
        let m = p.open();
        if p.nodes[p.pos].block.matches_about() {
            p.advance();
        } else {
            let message = concat4(
                "Expected the following markdown:\n\n",
                ABOUT_FORMAT_TEXT,
                "\n\nbut was:\n\n",
                p.nodes[p.pos].block.markdown.as_str(),
            );
            p.advance_with_error(message);
        }
        p.close(m, TreeKind::AboutFormat);
    } else {
        let mut message = concat3("The following markdown is missing:\n\n", ABOUT_FORMAT_TEXT, "\n\nIt must appear after:\n\n");
        message.append(NOTABLE_CHANGES_TEXT);
        p.capture_missing_node(message);
    }
}

/// `Unreleased := UnreleasedHeader ChangeGroup*`, up to the next depth-2
/// heading or link definition. A depth-2 heading shaped like a release
/// heading counts as this section missing.
fn unreleased(p: &mut Parser)
    requires
        old(p).inv(),
    ensures
        final(p).grows(*old(p)),
        !old(p).at_end() && old(p).current().is_heading(2) && spec_split_header(old(p).current().text@)
            is None ==> {
            &&& final(p).events@[old(p).events@.len() as int] == Event::Open(TreeKind::Unreleased)
            &&& section_events(
                final(p).events@.take(
                    old(p).events@.len() as int + if is_unreleased_text(old(p).current().text@) {
                        4int
                    } else {
                        6int
                    },
                ),
                old(p).events@.len() as int + 1,
                TreeKind::UnreleasedHeader,
                is_unreleased_text(old(p).current().text@),
                unreleased_message(old(p).current().markdown@),
            )
            &&& final(p).events@.last() is Close
            &&& final(p).at_end() || final(p).current().is_heading(2) || final(p).current().is_definition()
            &&& groups_log(
                final(p).events@.drop_last(),
                old(p).events@.len() as int + if is_unreleased_text(old(p).current().text@) {
                    4int
                } else {
                    6int
                },
                old(p).nodes@,
                old(p).pos as int + 1,
                false,
            )
            &&& final(p).pos == groups_end(old(p).nodes@, old(p).pos as int + 1)
        },
        !(!old(p).at_end() && old(p).current().is_heading(2) && spec_split_header(
            old(p).current().text@,
        ) is None) ==> missing_events(
            final(p).events@,
            old(p).events@.len() as int,
            missing_unreleased_message(),
        ),
        !old(p).at_end() && old(p).current().is_heading(2) && spec_split_header(old(p).current().text@)
            is None ==> final(p).pos > old(p).pos,
        !(!old(p).at_end() && old(p).current().is_heading(2) && spec_split_header(
            old(p).current().text@,
        ) is None) ==> final(p).pos == old(p).pos,
{
    if p.at_heading(2) && split_header(p.nodes[p.pos].block.text.as_str()).is_none() {
        let m = p.open();
        let h = p.open();
        if is_unreleased(p.nodes[p.pos].block.text.as_str()) {
            p.advance();
        } else {
            let message = concat3("Expected '## Unreleased' but found '", p.nodes[p.pos].block.markdown.as_str(), "'");
            p.advance_with_error(message);
        }
        p.close(h, TreeKind::UnreleasedHeader);
        let ghost g = p.events@.len() as int;
        change_groups(p, false);
        let ghost e1 = p.events@;
        let ghost n = m.index as int;
        p.close(m, TreeKind::Unreleased);
        proof {
            assert(p.events@.drop_last() =~= e1.update(n, Event::Open(TreeKind::Unreleased)));
            lemma_groups_log_suffix(e1, p.events@.drop_last(), g, p.nodes@, old(p).pos as int + 1, false);
        }
    } else {
        let mut message = concat3(
            "The following markdown is missing:\n\n## ",
            UNRELEASED_HEADER_TEXT,
            "\n\nIt must appear after:\n\n",
        );
        message.append(ABOUT_FORMAT_TEXT);
        p.capture_missing_node(message);
    }
}

/// `ChangeGroup*` after the Unreleased or a release heading, up to the next
/// depth-2 heading or link definition; any other block is consumed inside an
/// `Error` node.
fn change_groups(p: &mut Parser, in_release: bool)
    requires
        old(p).inv(),
    ensures
        final(p).grows(*old(p)),
        final(p).at_end() || final(p).current().is_heading(2) || final(p).current().is_definition(),
        groups_log(final(p).events@, old(p).events@.len() as int, old(p).nodes@, old(p).pos as int, in_release),
        final(p).pos == groups_end(old(p).nodes@, old(p).pos as int),
    decreases old(p).nodes@.len() - old(p).pos,
{
    if p.eof() || p.at_heading(2) || p.at_definition() {
        return;
    }
    let ghost before = *p;
    if p.at_heading(3) {
        change_group(p);
    } else {
        let md = p.current_markdown();
        let message = if in_release {
            concat2(
                "Unexpected markdown - Release should be followed by either a Change Group, Release, or Release Link but was:\n\n",
                md.as_str(),
            )
        } else {
            concat2(
                "Unexpected markdown - '## Unreleased' should be followed by either a Change Group, Release, or Release Link but was:\n\n",
                md.as_str(),
            )
        };
        p.advance_with_error(message);
    }
    let ghost mid = p.events@;
    change_groups(p, in_release);
    proof {
        let n = before.events@.len() as int;
        let k = mid.len() as int;
        assert(p.events@.take(k) =~= mid);
        if before.nodes@[before.pos as int].block.is_heading(3) {
            assert(p.events@.take(n + 8) =~= mid.take(n + 8));
            assert(mid.take(n + 8) =~= mid);
        } else {
            assert(p.events@.take(n + 3) =~= mid.take(n + 3));
            assert(mid.take(n + 3) =~= mid);
        }
    }
}

/// `Release := ReleaseHeader ChangeGroup*`, at a depth-2 heading.
fn release(p: &mut Parser)
    requires
        old(p).inv(),
        !old(p).at_end(),
    ensures
        final(p).grows(*old(p)),
        final(p).pos > old(p).pos,
        final(p).events@[old(p).events@.len() as int] == Event::Open(TreeKind::Release),
        header_events(
            final(p).events@.take(old(p).events@.len() as int + 4),
            old(p).events@.len() as int + 1,
            old(p).current().text@,
            old(p).current().markdown@,
        ),
        final(p).events@.last() is Close,
        final(p).at_end() || final(p).current().is_heading(2) || final(p).current().is_definition(),
        groups_log(
            final(p).events@.drop_last(),
            old(p).events@.len() as int + 4,
            old(p).nodes@,
            old(p).pos as int + 1,
            true,
        ),
        final(p).pos == groups_end(old(p).nodes@, old(p).pos as int + 1),
        release_log(final(p).events@, old(p).events@.len() as int, old(p).nodes@, old(p).pos as int),
{
    let m = p.open();
    release_header(p);
    change_groups(p, true);
    let ghost e1 = p.events@;
    let ghost n = m.index as int;
    p.close(m, TreeKind::Release);
    proof {
        assert(p.events@.drop_last() =~= e1.update(n, Event::Open(TreeKind::Release)));
        lemma_groups_log_suffix(e1, p.events@.drop_last(), n + 4, p.nodes@, old(p).pos as int + 1, true);
        lemma_groups_shape(p.events@.drop_last(), n + 4, p.nodes@, old(p).pos as int + 1, true);
    }
}

/// `ReleaseHeader := heading(depth 2) "[<version>] - <date> [<tag>]"`. A
/// heading of another shape, or whose version, date or tag does not parse,
/// is consumed inside an `Error` node that says which.
fn release_header(p: &mut Parser)
    requires
        old(p).inv(),
        !old(p).at_end(),
    ensures
        final(p).grows(*old(p)),
        final(p).pos == old(p).pos + 1,
        header_events(
            final(p).events@,
            old(p).events@.len() as int,
            old(p).current().text@,
            old(p).current().markdown@,
        ),
{
    match split_header(p.nodes[p.pos].block.text.as_str()) {
        Some((v, d, t)) => {
            let version = match ReleaseVersion::from_str(v.as_str()) {
                Ok(x) => x,
                Err(e) => {
                    let message = concat4("Invalid release version '", v.as_str(), "' - ", e.message().as_str());
                    p.advance_with_error(message);
                    return;
                },
            };
            let date = match ReleaseDate::from_str(d.as_str()) {
                Ok(x) => x,
                Err(e) => {
                    let message = concat4("Invalid release date '", d.as_str(), "' - ", e.message().as_str());
                    p.advance_with_error(message);
                    return;
                },
            };
            let tag = match t {
                Some(t) => match ReleaseTag::from_str(t.as_str()) {
                    Ok(x) => Some(x),
                    Err(e) => {
                        let message = concat4("Invalid release tag '", t.as_str(), "' - ", e.message().as_str());
                        p.advance_with_error(message);
                        return;
                    },
                },
                None => None,
            };
            let m = p.open();
            p.advance();
            p.close(m, TreeKind::ReleaseHeader(version, date, tag));
        },
        None => {
            let message = concat3(
                "Expected Release Header with the format '[<semver>] - <YYYY>-<MM>-<DD> - [<tag>]' but found '",
                p.nodes[p.pos].block.markdown.as_str(),
                "'",
            );
            p.advance_with_error(message);
        },
    }
}

/// `ChangeGroup := ChangeGroupHeader ChangeGroupList`, at a depth-3 heading;
/// a missing list is reported with a placeholder.
fn change_group(p: &mut Parser)
    requires
        old(p).inv(),
        !old(p).at_end(),
    ensures
        final(p).grows(*old(p)),
        final(p).pos > old(p).pos,
        old(p).pos + 1 < old(p).nodes@.len() && old(p).nodes@[old(p).pos + 1].block.is_list()
            ==> final(p).pos == old(p).pos + 2,
        !(old(p).pos + 1 < old(p).nodes@.len() && old(p).nodes@[old(p).pos + 1].block.is_list())
            ==> final(p).pos == old(p).pos + 1,
        group_node_events(final(p).events@, old(p).events@.len() as int, old(p).nodes@, old(p).pos as int),
{
    let m = p.open();
    change_group_header(p);
    if p.at_list() {
        let l = p.open();
        p.advance();
        p.close(l, TreeKind::ChangeGroupList);
    } else {
        p.capture_missing_node(String::from_str("Change Group is missing the required list of changes"));
    }
    p.close(m, TreeKind::ChangeGroup);
}

/// `ChangeGroupHeader := heading(depth 3) naming a change group`.
fn change_group_header(p: &mut Parser)
    requires
        old(p).inv(),
        !old(p).at_end(),
    ensures
        final(p).grows(*old(p)),
        final(p).pos == old(p).pos + 1,
        match spec_parse_group(old(p).current().text@) {
            Some(g) => node_block(final(p).events@, old(p).events@.len() as int, TreeKind::ChangeGroupHeader(g)),
            None => error_block(
                final(p).events@,
                old(p).events@.len() as int,
                group_message(old(p).current().markdown@),
            ),
        },
{
    match ChangeGroup::from_str(p.nodes[p.pos].block.text.as_str()) {
        Ok(g) => {
            let m = p.open();
            p.advance();
            p.close(m, TreeKind::ChangeGroupHeader(g));
        },
        Err(_) => {
            let headers = format_change_group_headers();
            let mut message = concat3(
                "Expected one of the following change groups:\n\n",
                headers.as_str(),
                "\n\nbut found:\n\n",
            );
            message.append(p.nodes[p.pos].block.markdown.as_str());
            p.advance_with_error(message);
        },
    }
}

/// `ReleaseLink := definition "[unreleased]: <uri>" or "[<version>]: <uri>"`.
fn release_link(p: &mut Parser)
    requires
        old(p).inv(),
        !old(p).at_end(),
    ensures
        final(p).grows(*old(p)),
        final(p).pos == old(p).pos + 1,
        link_events(final(p).events@, old(p).events@.len() as int, old(p).current()),
{
    let (identifier, url) = match &p.nodes[p.pos].block.shape {
        BlockShape::Definition(i, u) => (i.clone(), u.clone()),
        _ => {
            let message = concat2("Expected Release Link but found:\n\n", p.nodes[p.pos].block.markdown.as_str());
            p.advance_with_error(message);
            return;
        },
    };
    let link = match ReleaseLink::from_str(url.as_str()) {
        Ok(x) => x,
        Err(e) => {
            let message = concat4("Invalid url '", url.as_str(), "' in release link - ", e.message().as_str());
            p.advance_with_error(message);
            return;
        },
    };
    let kind = if str_eq(to_lowercase(identifier.as_str()).as_str(), "unreleased") {
        ReleaseLinkType::Unreleased(link)
    } else {
        match ReleaseVersion::from_str(identifier.as_str()) {
            Ok(v) => ReleaseLinkType::Versioned(v, link),
            Err(e) => {
                let message = concat4(
                    "Invalid version '",
                    identifier.as_str(),
                    "' in release link - ",
                    e.message().as_str(),
                );
                p.advance_with_error(message);
                return;
            },
        }
    };
    let m = p.open();
    p.advance();
    p.close(m, TreeKind::ReleaseLink(kind));
}


/// The messages of the four sections that a document without blocks lacks,
/// in document order.
pub open spec fn missing_section_messages() -> Seq<Seq<char>> {
    seq![
        missing_title_message(),
        missing_notable_message(),
        missing_about_message(),
        missing_unreleased_message(),
    ]
}

/// The tree built from the events that the parser writes for a document
/// without blocks holds the four missing-section errors, each around a
/// placeholder at the document's start.
proof fn lemma_no_blocks_tree(r: Tree, e: Seq<Event>, blocks: Seq<Block>, doc_length: usize)
    requires
        e.len() == 13,
        e[0] matches Event::Open(k) && k is ChangelogFile,
        missing_events(e.take(4), 1, missing_title_message()),
        missing_events(e.take(7), 4, missing_notable_message()),
        missing_events(e.take(10), 7, missing_about_message()),
        missing_events(e, 10, missing_unreleased_message()),
        tree_model(r) == run(e, 13, blocks, doc_length).stack[0],
    ensures
        four_missing(tree_model(r), missing_section_messages(), spec_default_position()),
{
    let p0 = spec_dummy_position(None, doc_length);
    let s0 = run(e, 0, blocks, doc_length);
    assert(s0 == BuildState { stack: Seq::<TreeModel>::empty(), next: 0, previous: None });
    let s1 = run(e, 1, blocks, doc_length);
    assert(s1 == step(s0, e[0], blocks, doc_length));
    assert(s1.stack =~= seq![TreeModel { kind: e[0]->Open_0, children: Seq::empty() }]);
    assert(s1.previous is None);
    assert(e.take(4)[1] == e[1] && e.take(4)[2] == e[2] && e.take(4)[3] == e[3]);
    assert(e.take(7)[4] == e[4] && e.take(7)[5] == e[5] && e.take(7)[6] == e[6]);
    assert(e.take(10)[7] == e[7] && e.take(10)[8] == e[8] && e.take(10)[9] == e[9]);
    lemma_missing_node_run(e, 1, blocks, doc_length);
    lemma_missing_node_run(e, 4, blocks, doc_length);
    lemma_missing_node_run(e, 7, blocks, doc_length);
    lemma_missing_node_run(e, 10, blocks, doc_length);
    assert(run(e, 4, blocks, doc_length).previous is None);
    assert(run(e, 7, blocks, doc_length).previous is None);
    assert(run(e, 10, blocks, doc_length).previous is None);
    let t = run(e, 13, blocks, doc_length).stack[0];
    let node = |j: int| ChildModel::Tree(TreeModel { kind: e[j]->Open_0, children: seq![ChildModel::Dummy(p0)] });
    assert(t.children =~= seq![node(1), node(4), node(7), node(10)]);
    assert(t.children[0] == node(1) && t.children[1] == node(4) && t.children[2] == node(7) && t.children[3] == node(10));
}

/// Parses classified blocks into a tree rooted at `ChangelogFile`. It never
/// fails, and it neither drops, repeats nor reorders a block: the tree's
/// blocks, in depth-first order, are exactly the given ones. The tree is the
/// one that the event log described by `leading_log` and `top_log` builds.
/// Without blocks, the diagnostics are exactly the four missing sections, in
/// document order, each at line 1, column 1, offset 0.
pub fn parse_nodes(nodes: Vec<ClassifiedNode>, doc_length: usize) -> (r: Tree)
    ensures
        r.kind is ChangelogFile,
        tree_leaves(r) == blocks_of(nodes@),
        nodes@.len() == 0 ==> spec_diagnostics(r) == seq![
            (missing_title_message(), spec_default_position()),
            (missing_notable_message(), spec_default_position()),
            (missing_about_message(), spec_default_position()),
            (missing_unreleased_message(), spec_default_position()),
        ],
        exists|events: Seq<Event>|
            {
                &&& leading_log(events, nodes@)
                &&& top_log(events, leading_marks(nodes@).1[4], nodes@, leading_marks(nodes@).0[4])
                &&& tree_model(r) == spec_build(
                    events.update(0, Event::Open(TreeKind::ChangelogFile)).push(Event::Close),
                    blocks_of(nodes@),
                    doc_length,
                )
            },
{
    let ghost no_blocks = nodes@.len() == 0;
    let ghost blocks = blocks_of(nodes@);
    let mut p = Parser { nodes, pos: 0, events: Vec::new() };
    let root = Event::Open(TreeKind::Error(String::from_str("Unclosed Event")));
    proof {
        assert(stays_open(p.events@)) by {
            assert(p.events@.len() == 0);
        }
        lemma_stays_open_push(p.events@, root);
        assert(depth_of(p.events@) == 0);
        assert(advances(p.events@) == 0);
    }
    p.events.push(root);
    changelog_file(&mut p);
    let ghost before = p.events@;
    let x = Event::Open(TreeKind::ChangelogFile);
    proof {
        lemma_update_open(before, 0, x);
    }
    p.events.set(0, x);
    p.events.push(Event::Close);
    let ghost all = p.events@;
    proof {
        assert(p.events@.drop_last() =~= before.update(0, x));
    }
    let r = build_tree(p.nodes, p.events, doc_length);
    proof {
        assert(all == before.update(0, x).push(Event::Close));
        if no_blocks {
            let g = before.update(0, x);
            assert(all.drop_last() == g);
            assert(g.take(4) =~= before.take(4).update(0, x));
            assert(g.take(7) =~= before.take(7).update(0, x));
            assert(g.take(10) =~= before.take(10).update(0, x));
            lemma_no_blocks_tree(r, g, blocks, doc_length);
            lemma_four_missing_diagnostics(r, missing_section_messages(), spec_default_position());
        }
    }
    r
}

/// `r` is the tree of `text`: the tree built from the event log that the
/// grammar gives for the classified top-level markdown blocks of `text`.
pub open spec fn parses_to(text: &str, r: Tree) -> bool {
    &&& r.kind is ChangelogFile
    &&& exists|nodes: Seq<ClassifiedNode>, events: Seq<Event>|
        {
            &&& lexed(nodes, text@)
            &&& tree_leaves(r) == blocks_of(nodes)
            &&& leading_log(events, nodes)
            &&& top_log(events, leading_marks(nodes).1[4], nodes, leading_marks(nodes).0[4])
            &&& tree_model(r) == spec_build(
                events.update(0, Event::Open(TreeKind::ChangelogFile)).push(Event::Close),
                blocks_of(nodes),
                text.len(),
            )
        }
}

/// Parses a changelog document into its concrete syntax tree. It never
/// fails: what breaks the grammar stands in the tree as `Error` nodes. The
/// tree is the one `parse_nodes` gives for the document's top-level markdown
/// blocks, each classified.
pub fn parse(text: &str) -> (r: Tree)
    ensures
        parses_to(text, r),
{
    let nodes = lex(text);
    parse_nodes(nodes, text.len())
}

} // verus!
