//! The event log that the parser writes and from which the tree is built.
use vstd::prelude::*;
use crate::tree::TreeKind;

verus! {

/// One step of the parse: a node opens (its kind decided when it closes),
/// the open node closes, the next block is consumed, or a required block is
/// found missing.
#[derive(Debug)]
pub enum Event {
    Open(TreeKind),
    Close,
    Advance,
    Missing,
}

/// How an event changes the number of open nodes.
pub open spec fn delta(e: Event) -> int {
    match e {
        Event::Open(_) => 1,
        Event::Close => -1,
        _ => 0,
    }
}

/// The number of nodes left open after a sequence of events.
pub open spec fn depth_of(s: Seq<Event>) -> int
    decreases s.len(),
{
    if s.len() == 0 {
        0
    } else {
        depth_of(s.drop_last()) + delta(s.last())
    }
}

/// The number of blocks consumed by a sequence of events.
pub open spec fn advances(s: Seq<Event>) -> int
    decreases s.len(),
{
    if s.len() == 0 {
        0
    } else {
        advances(s.drop_last()) + if s.last() is Advance {
            1int
        } else {
            0
        }
    }
}

/// After every non-empty prefix of the events at least one node is open.
pub open spec fn stays_open(s: Seq<Event>) -> bool {
    forall|k: int| 1 <= k <= s.len() ==> depth_of(#[trigger] s.take(k)) >= 1
}

pub proof fn lemma_push(s: Seq<Event>, e: Event)
    ensures
        depth_of(s.push(e)) == depth_of(s) + delta(e),
        advances(s.push(e)) == advances(s) + if e is Advance {
            1int
        } else {
            0
        },
{
    assert(s.push(e).drop_last() =~= s);
}

pub proof fn lemma_stays_open_push(s: Seq<Event>, e: Event)
    requires
        stays_open(s),
        depth_of(s) + delta(e) >= 1,
    ensures
        stays_open(s.push(e)),
        depth_of(s.push(e)) == depth_of(s) + delta(e),
        advances(s.push(e)) == advances(s) + if e is Advance {
            1int
        } else {
            0
        },
{
    lemma_push(s, e);
    let t = s.push(e);
    assert forall|k: int| 1 <= k <= t.len() implies depth_of(#[trigger] t.take(k)) >= 1 by {
        if k <= s.len() {
            assert(t.take(k) =~= s.take(k));
        } else {
            assert(t.take(k) =~= t);
        }
    }
}

proof fn lemma_update_open_counts(s: Seq<Event>, i: int, x: Event)
    requires
        0 <= i < s.len(),
        s[i] is Open,
        x is Open,
    ensures
        depth_of(s.update(i, x)) == depth_of(s),
        advances(s.update(i, x)) == advances(s),
    decreases s.len(),
{
    let u = s.update(i, x);
    if i == s.len() - 1 {
        assert(u.drop_last() =~= s.drop_last());
    } else {
        assert(u.drop_last() =~= s.drop_last().update(i, x));
        lemma_update_open_counts(s.drop_last(), i, x);
    }
}

/// Replacing an open event by another leaves every count unchanged.
pub proof fn lemma_update_open(s: Seq<Event>, i: int, x: Event)
    requires
        0 <= i < s.len(),
        s[i] is Open,
        x is Open,
        stays_open(s),
    ensures
        stays_open(s.update(i, x)),
        depth_of(s.update(i, x)) == depth_of(s),
        advances(s.update(i, x)) == advances(s),
{
    lemma_update_open_counts(s, i, x);
    let u = s.update(i, x);
    assert forall|k: int| 1 <= k <= u.len() implies depth_of(#[trigger] u.take(k)) >= 1 by {
        if k <= i {
            assert(u.take(k) =~= s.take(k));
        } else {
            assert(u.take(k) =~= s.take(k).update(i, x));
            lemma_update_open_counts(s.take(k), i, x);
        }
    }
}

pub proof fn lemma_prefix_counts(s: Seq<Event>, k: int)
    requires
        0 <= k < s.len(),
    ensures
        depth_of(s.take(k + 1)) == depth_of(s.take(k)) + delta(s[k]),
        advances(s.take(k + 1)) == advances(s.take(k)) + if s[k] is Advance {
            1int
        } else {
            0
        },
{
    assert(s.take(k + 1).drop_last() =~= s.take(k));
}

} // verus!
