//! A mathematical model of concrete syntax trees, and of the stack machine
//! that builds a tree from the parser's event log.
use vstd::prelude::*;
use crate::events::Event;
use crate::lexer::Block;
use crate::parser::spec_dummy_position;
use crate::position::Position;
use crate::tree::{Child, Tree, TreeKind};

verus! {

/// A child of a tree node, as a value.
pub enum ChildModel {
    Markdown(Block),
    Tree(TreeModel),
    Dummy(Position),
}

/// A tree node, as a value: its kind and its children in order.
pub struct TreeModel {
    pub kind: TreeKind,
    pub children: Seq<ChildModel>,
}

pub open spec fn child_model(c: Child) -> ChildModel
    decreases c,
{
    match c {
        Child::Markdown(b) => ChildModel::Markdown(b),
        Child::Tree(t) => ChildModel::Tree(TreeModel { kind: t.kind, children: children_model(t.children@) }),
        Child::Dummy(p) => ChildModel::Dummy(p),
    }
}

pub open spec fn children_model(cs: Seq<Child>) -> Seq<ChildModel>
    decreases cs,
{
    if cs.len() == 0 {
        Seq::empty()
    } else {
        children_model(cs.subrange(0, cs.len() - 1)).push(child_model(cs[cs.len() - 1]))
    }
}

/// The value a tree stands for.
pub open spec fn tree_model(t: Tree) -> TreeModel {
    TreeModel { kind: t.kind, children: children_model(t.children@) }
}

/// The state of the building machine: the open nodes, bottom first, the
/// index of the next block, and the position of the last block consumed.
pub struct BuildState {
    pub stack: Seq<TreeModel>,
    pub next: nat,
    pub previous: Option<Position>,
}

/// `t` with one more child.
pub open spec fn with_child(t: TreeModel, c: ChildModel) -> TreeModel {
    TreeModel { kind: t.kind, children: t.children.push(c) }
}

/// One step of the machine: `Open` starts a node, `Close` attaches the top
/// node to the one under it, `Advance` attaches the next block to the top
/// node, `Missing` attaches a placeholder placed after the last block.
pub open spec fn step(st: BuildState, e: Event, blocks: Seq<Block>, doc_length: usize) -> BuildState {
    match e {
        Event::Open(kind) => BuildState {
            stack: st.stack.push(TreeModel { kind, children: Seq::empty() }),
            ..st
        },
        Event::Close => if st.stack.len() >= 2 {
            let rest = st.stack.drop_last();
            BuildState {
                stack: rest.drop_last().push(with_child(rest.last(), ChildModel::Tree(st.stack.last()))),
                ..st
            }
        } else {
            st
        },
        Event::Advance => if st.stack.len() >= 1 && st.next < blocks.len() {
            let b = blocks[st.next as int];
            BuildState {
                stack: st.stack.drop_last().push(with_child(st.stack.last(), ChildModel::Markdown(b))),
                next: st.next + 1,
                previous: b.position,
            }
        } else {
            st
        },
        Event::Missing => if st.stack.len() >= 1 {
            BuildState {
                stack: st.stack.drop_last().push(
                    with_child(st.stack.last(), ChildModel::Dummy(spec_dummy_position(st.previous, doc_length))),
                ),
                ..st
            }
        } else {
            st
        },
    }
}

/// The machine's state after the first `n` events.
pub open spec fn run(events: Seq<Event>, n: int, blocks: Seq<Block>, doc_length: usize) -> BuildState
    decreases n,
{
    if n <= 0 {
        BuildState { stack: Seq::empty(), next: 0, previous: None }
    } else {
        step(run(events, n - 1, blocks, doc_length), events[n - 1], blocks, doc_length)
    }
}

/// The values a sequence of trees stands for.
pub open spec fn models(s: Seq<Tree>) -> Seq<TreeModel> {
    s.map_values(|t: Tree| tree_model(t))
}

/// The tree an event log describes: the node left at the bottom of the
/// machine's stack after every event but the root's closing one.
pub open spec fn spec_build(events: Seq<Event>, blocks: Seq<Block>, doc_length: usize) -> TreeModel {
    run(events.drop_last(), events.len() - 1, blocks, doc_length).stack[0]
}

pub proof fn lemma_children_model_push(cs: Seq<Child>, c: Child)
    ensures
        children_model(cs.push(c)) == children_model(cs).push(child_model(c)),
{
    assert(cs.push(c).subrange(0, cs.len() as int) =~= cs);
}

pub proof fn lemma_children_model_len(cs: Seq<Child>)
    ensures
        children_model(cs).len() == cs.len(),
    decreases cs.len(),
{
    if cs.len() > 0 {
        lemma_children_model_len(cs.subrange(0, cs.len() - 1));
    }
}

pub proof fn lemma_children_model_index(cs: Seq<Child>, i: int)
    requires
        0 <= i < cs.len(),
    ensures
        children_model(cs)[i] == child_model(cs[i]),
    decreases cs.len(),
{
    lemma_children_model_len(cs.subrange(0, cs.len() - 1));
    if i < cs.len() - 1 {
        lemma_children_model_index(cs.subrange(0, cs.len() - 1), i);
    }
}

} // verus!

verus! {

/// Three events that open a node of `kind`, give it a placeholder and close
/// it attach that node, holding only the placeholder, to the single open node.
pub proof fn lemma_missing_node_run(events: Seq<Event>, j: int, blocks: Seq<Block>, doc_length: usize)
    requires
        1 <= j,
        j + 3 <= events.len(),
        run(events, j, blocks, doc_length).stack.len() == 1,
        events[j] is Open,
        events[j + 1] is Missing,
        events[j + 2] is Close,
    ensures
        run(events, j + 3, blocks, doc_length) == (BuildState {
            stack: seq![
                with_child(
                    run(events, j, blocks, doc_length).stack[0],
                    ChildModel::Tree(
                        TreeModel {
                            kind: events[j]->Open_0,
                            children: seq![
                                ChildModel::Dummy(
                                    spec_dummy_position(run(events, j, blocks, doc_length).previous, doc_length),
                                ),
                            ],
                        },
                    ),
                ),
            ],
            ..run(events, j, blocks, doc_length)
        }),
{
    let st = run(events, j, blocks, doc_length);
    let k = events[j]->Open_0;
    let s1 = run(events, j + 1, blocks, doc_length);
    assert(s1.stack =~= seq![st.stack[0], TreeModel { kind: k, children: Seq::empty() }]);
    let s2 = run(events, j + 2, blocks, doc_length);
    let d = ChildModel::Dummy(spec_dummy_position(st.previous, doc_length));
    assert(s1.stack.drop_last() =~= seq![st.stack[0]]);
    assert(s2.stack =~= seq![st.stack[0], TreeModel { kind: k, children: seq![d] }]) by {
        assert(Seq::<ChildModel>::empty().push(d) =~= seq![d]);
    }
    let s3 = run(events, j + 3, blocks, doc_length);
    assert(s2.stack.drop_last() =~= seq![st.stack[0]]);
    assert(s2.stack.drop_last().drop_last() =~= Seq::<TreeModel>::empty());
    assert(s3.stack =~= seq![
        with_child(st.stack[0], ChildModel::Tree(TreeModel { kind: k, children: seq![d] })),
    ]);
}

} // verus!
