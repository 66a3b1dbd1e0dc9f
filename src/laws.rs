//! Laws of the diagnostics: what every changelog tree with a given defect is
//! reported for, whatever else it holds.
use vstd::prelude::*;
use crate::diagnostics::{
    all_local, header_version, group_diagnostics, group_duplicates, header_before, header_group, link_before,
    link_version, local_diagnostics, orphan_link, orphan_links, spec_diagnostics,
    version_duplicate, version_duplicates,
};
use crate::position::Position;
use crate::change_group::ChangeGroup;
use crate::tree::{
    child_positions, child_subtrees, children_positions, children_subtrees, spec_tree_position, tree_subtrees, Child,
    Tree, TreeKind,
};
use crate::build_model::{
    lemma_children_model_index, lemma_children_model_len, tree_model, ChildModel, TreeModel,
};

verus! {

/// `s` holds `x`.
pub open spec fn holds(s: Seq<(Seq<char>, Position)>, x: (Seq<char>, Position)) -> bool {
    exists|k: int| 0 <= k < s.len() && s[k] == x
}

proof fn lemma_holds_in_sum(a: Seq<(Seq<char>, Position)>, b: Seq<(Seq<char>, Position)>, x: (Seq<char>, Position))
    ensures
        holds(a, x) ==> holds(a + b, x),
        holds(b, x) ==> holds(a + b, x),
{
    if holds(a, x) {
        let k = choose|k: int| 0 <= k < a.len() && a[k] == x;
        assert((a + b)[k] == x);
    }
    if holds(b, x) {
        let k = choose|k: int| 0 <= k < b.len() && b[k] == x;
        assert((a + b)[a.len() + k] == x);
    }
}

proof fn lemma_all_local_grows(subs: Seq<Tree>, m: int, n: int, x: (Seq<char>, Position))
    requires
        0 <= m <= n,
        holds(all_local(subs, m), x),
    ensures
        holds(all_local(subs, n), x),
    decreases n - m,
{
    if m < n {
        lemma_holds_in_sum(all_local(subs, m), local_diagnostics(subs[m]), x);
        lemma_all_local_grows(subs, m + 1, n, x);
    }
}

proof fn lemma_group_duplicates_grow(subs: Seq<Tree>, m: int, n: int, x: (Seq<char>, Position))
    requires
        0 <= m <= n,
        holds(group_duplicates(subs, m), x),
    ensures
        holds(group_duplicates(subs, n), x),
    decreases n - m,
{
    if m < n {
        let extra = group_duplicates(subs, m + 1).subrange(group_duplicates(subs, m).len() as int, group_duplicates(subs, m + 1).len() as int);
        assert(group_duplicates(subs, m + 1) =~= group_duplicates(subs, m) + extra);
        lemma_holds_in_sum(group_duplicates(subs, m), extra, x);
        lemma_group_duplicates_grow(subs, m + 1, n, x);
    }
}

proof fn lemma_version_duplicates_grow(subs: Seq<Tree>, m: int, n: int, x: (Seq<char>, Position))
    requires
        0 <= m <= n,
        holds(version_duplicates(subs, m), x),
    ensures
        holds(version_duplicates(subs, n), x),
    decreases n - m,
{
    if m < n {
        lemma_holds_in_sum(version_duplicates(subs, m), version_duplicate(subs, m), x);
        lemma_version_duplicates_grow(subs, m + 1, n, x);
    }
}

proof fn lemma_orphan_links_grow(subs: Seq<Tree>, m: int, n: int, x: (Seq<char>, Position))
    requires
        0 <= m <= n,
        holds(orphan_links(subs, m), x),
    ensures
        holds(orphan_links(subs, n), x),
    decreases n - m,
{
    if m < n {
        lemma_holds_in_sum(orphan_links(subs, m), orphan_link(subs, m), x);
        lemma_orphan_links_grow(subs, m + 1, n, x);
    }
}

/// A change group heading that repeats an earlier one of the same group
/// within a release or the Unreleased section is reported as a duplicate, at
/// the repeated heading.
pub proof fn law_duplicate_change_group(t: Tree, r: int, a: int, b: int)
    requires
        0 <= r < tree_subtrees(t).len(),
        tree_subtrees(t)[r].kind is Release || tree_subtrees(t)[r].kind is Unreleased,
        0 <= a < b < tree_subtrees(tree_subtrees(t)[r]).len(),
        header_group(tree_subtrees(tree_subtrees(t)[r])[a]) is Some,
        header_group(tree_subtrees(tree_subtrees(t)[r])[a]) == header_group(
            tree_subtrees(tree_subtrees(t)[r])[b],
        ),
    ensures
        holds(
            spec_diagnostics(t),
            ("Duplicate change group found"@, spec_tree_position(tree_subtrees(tree_subtrees(t)[r])[b])),
        ),
{
    let subs = tree_subtrees(t);
    let n = subs.len() as int;
    let rel = subs[r];
    let rs = tree_subtrees(rel);
    let x = ("Duplicate change group found"@, spec_tree_position(rs[b]));
    let g = header_group(rs[b])->0;
    assert(exists|j: int| 0 <= j < b && header_group(#[trigger] rs[j]) == Some(g)) by {
        assert(header_group(rs[a]) == Some(g));
    }
    assert(group_duplicates(rs, b + 1) == group_duplicates(rs, b) + seq![x]);
    lemma_holds_in_sum(group_duplicates(rs, b), seq![x], x);
    assert(seq![x][0] == x);
    lemma_group_duplicates_grow(rs, b + 1, rs.len() as int, x);
    lemma_holds_in_sum(group_duplicates(rs, rs.len() as int), group_diagnostics(rel).subrange(
        group_duplicates(rs, rs.len() as int).len() as int,
        group_diagnostics(rel).len() as int,
    ), x);
    assert(group_diagnostics(rel) =~= group_duplicates(rs, rs.len() as int) + group_diagnostics(
        rel,
    ).subrange(group_duplicates(rs, rs.len() as int).len() as int, group_diagnostics(rel).len() as int));
    assert(local_diagnostics(rel) == group_diagnostics(rel));
    lemma_holds_in_sum(all_local(subs, r), local_diagnostics(rel), x);
    lemma_all_local_grows(subs, r + 1, n, x);
    lemma_holds_in_sum(all_local(subs, n), version_duplicates(subs, n), x);
    lemma_holds_in_sum(all_local(subs, n) + version_duplicates(subs, n), orphan_links(subs, n), x);
}

/// A release link that repeats the version of an earlier release link is
/// reported as a duplicate, at the repeated link.
pub proof fn law_duplicate_release_link(t: Tree, j: int, i: int)
    requires
        0 <= j < i < tree_subtrees(t).len(),
        link_version(tree_subtrees(t)[i]) is Some,
        link_version(tree_subtrees(t)[j]) == link_version(tree_subtrees(t)[i]),
    ensures
        holds(
            spec_diagnostics(t),
            (
                "Duplicate release version link '"@ + link_version(tree_subtrees(t)[i])->0 + "' found"@,
                spec_tree_position(tree_subtrees(t)[i]),
            ),
        ),
{
    let subs = tree_subtrees(t);
    let n = subs.len() as int;
    let v = link_version(subs[i])->0;
    let x = ("Duplicate release version link '"@ + v + "' found"@, spec_tree_position(subs[i]));
    assert(link_before(subs, i, v)) by {
        assert(link_version(subs[j]) == Some(v));
    }
    assert(version_duplicate(subs, i) == seq![x]);
    assert(seq![x][0] == x);
    lemma_holds_in_sum(version_duplicates(subs, i), version_duplicate(subs, i), x);
    lemma_version_duplicates_grow(subs, i + 1, n, x);
    lemma_holds_in_sum(all_local(subs, n), version_duplicates(subs, n), x);
    lemma_holds_in_sum(all_local(subs, n) + version_duplicates(subs, n), orphan_links(subs, n), x);
}

/// The first release link of a version that no release heading of the
/// document declares is reported as matching no release, at that link.
pub proof fn law_orphan_release_link(t: Tree, i: int)
    requires
        0 <= i < tree_subtrees(t).len(),
        link_version(tree_subtrees(t)[i]) is Some,
        !link_before(tree_subtrees(t), i, link_version(tree_subtrees(t)[i])->0),
        !header_before(
            tree_subtrees(t),
            tree_subtrees(t).len() as int,
            link_version(tree_subtrees(t)[i])->0,
        ),
    ensures
        holds(
            spec_diagnostics(t),
            (
                "Release link version does not match any listed releases"@,
                spec_tree_position(tree_subtrees(t)[i]),
            ),
        ),
{
    let subs = tree_subtrees(t);
    let n = subs.len() as int;
    let x = ("Release link version does not match any listed releases"@, spec_tree_position(subs[i]));
    assert(orphan_link(subs, i) == seq![x]);
    assert(seq![x][0] == x);
    lemma_holds_in_sum(orphan_links(subs, i), orphan_link(subs, i), x);
    lemma_orphan_links_grow(subs, i + 1, n, x);
    lemma_holds_in_sum(all_local(subs, n) + version_duplicates(subs, n), orphan_links(subs, n), x);
}

/// A release heading that repeats the version of an earlier release heading
/// is reported as a duplicate, at the repeated heading.
pub proof fn law_duplicate_release_version(t: Tree, j: int, i: int)
    requires
        0 <= j < i < tree_subtrees(t).len(),
        header_version(tree_subtrees(t)[i]) is Some,
        header_version(tree_subtrees(t)[j]) == header_version(tree_subtrees(t)[i]),
    ensures
        holds(
            spec_diagnostics(t),
            (
                "Duplicate release version '"@ + header_version(tree_subtrees(t)[i])->0 + "' found"@,
                spec_tree_position(tree_subtrees(t)[i]),
            ),
        ),
{
    let subs = tree_subtrees(t);
    let n = subs.len() as int;
    let v = header_version(subs[i])->0;
    let x = ("Duplicate release version '"@ + v + "' found"@, spec_tree_position(subs[i]));
    assert(header_before(subs, i, v)) by {
        assert(header_version(subs[j]) == Some(v));
    }
    assert(version_duplicate(subs, i) == seq![x]);
    assert(seq![x][0] == x);
    lemma_holds_in_sum(version_duplicates(subs, i), version_duplicate(subs, i), x);
    lemma_version_duplicates_grow(subs, i + 1, n, x);
    lemma_holds_in_sum(all_local(subs, n), version_duplicates(subs, n), x);
    lemma_holds_in_sum(all_local(subs, n) + version_duplicates(subs, n), orphan_links(subs, n), x);
}

} // verus!

verus! {

/// A node whose only child is a placeholder has no subtrees and the
/// placeholder's position.
proof fn lemma_placeholder_node(e: Tree, p: Position)
    requires
        e.children@.len() == 1,
        e.children@[0] == Child::Dummy(p),
    ensures
        children_subtrees(e.children@) == Seq::<Tree>::empty(),
        child_subtrees(Child::Tree(e)) == seq![e],
        spec_tree_position(e) == p,
{
    let cs = e.children@;
    let none = cs.subrange(0, 0);
    assert(none =~= Seq::<Child>::empty());
    assert(children_subtrees(none) =~= Seq::<Tree>::empty());
    assert(children_positions(none) =~= Seq::<Position>::empty());
    assert(child_subtrees(cs[0]) =~= Seq::<Tree>::empty());
    assert(child_positions(cs[0]) =~= seq![p]);
    assert(children_subtrees(cs) == children_subtrees(none) + child_subtrees(cs[0]));
    assert(children_positions(cs) == children_positions(none) + child_positions(cs[0]));
    assert(children_subtrees(cs) =~= Seq::<Tree>::empty());
    assert(children_positions(cs) =~= seq![p]);
    assert(child_subtrees(Child::Tree(e)) =~= seq![e]);
}

/// The nodes of a tree model whose children are four `Error` nodes, each
/// around a placeholder at `p`, with the given messages.
pub open spec fn four_missing(t: TreeModel, ms: Seq<Seq<char>>, p: Position) -> bool {
    &&& ms.len() == 4
    &&& t.children.len() == 4
    &&& forall|i: int|
        0 <= i < 4 ==> ((#[trigger] t.children[i]) matches ChildModel::Tree(n) && (n.kind matches TreeKind::Error(
            m,
        ) && m@ == ms[i]) && n.children == seq![ChildModel::Dummy(p)])
}

/// A tree whose children are four `Error` nodes, each around a placeholder
/// at `p`, has exactly their four messages as diagnostics, at `p`.
pub proof fn lemma_four_missing_diagnostics(r: Tree, ms: Seq<Seq<char>>, p: Position)
    requires
        four_missing(tree_model(r), ms, p),
    ensures
        spec_diagnostics(r) == seq![(ms[0], p), (ms[1], p), (ms[2], p), (ms[3], p)],
{
    let cs = r.children@;
    lemma_children_model_len(cs);
    assert forall|i: int| 0 <= i < 4 implies ((#[trigger] cs[i]) matches Child::Tree(e) && (e.kind matches TreeKind::Error(m) && m@ == ms[i]) && e.children@.len() == 1 && e.children@[0] == Child::Dummy(p)) by {
        lemma_children_model_index(cs, i);
        match cs[i] {
            Child::Tree(e) => {
                lemma_children_model_len(e.children@);
                lemma_children_model_index(e.children@, 0);
                match e.children@[0] {
                    Child::Markdown(_) => {},
                    Child::Tree(_) => {},
                    Child::Dummy(_) => {},
                }
            },
            Child::Markdown(_) => {},
            Child::Dummy(_) => {},
        }
    }
    let e0 = cs[0]->Tree_0;
    let e1 = cs[1]->Tree_0;
    let e2 = cs[2]->Tree_0;
    let e3 = cs[3]->Tree_0;
    lemma_placeholder_node(e0, p);
    lemma_placeholder_node(e1, p);
    lemma_placeholder_node(e2, p);
    lemma_placeholder_node(e3, p);
    assert(cs.subrange(0, 0) =~= Seq::<Child>::empty());
    assert(cs.subrange(0, 1).subrange(0, 0) =~= cs.subrange(0, 0));
    assert(cs.subrange(0, 2).subrange(0, 1) =~= cs.subrange(0, 1));
    assert(cs.subrange(0, 3).subrange(0, 2) =~= cs.subrange(0, 2));
    assert(children_subtrees(cs.subrange(0, 0)) =~= Seq::<Tree>::empty());
    assert(cs[0] == Child::Tree(e0) && cs[1] == Child::Tree(e1) && cs[2] == Child::Tree(e2) && cs[3] == Child::Tree(e3));
    assert(cs.subrange(0, 1)[0] == cs[0]);
    assert(cs.subrange(0, 2)[1] == cs[1]);
    assert(cs.subrange(0, 3)[2] == cs[2]);
    assert(children_subtrees(cs.subrange(0, 1)) =~= seq![e0]);
    assert(children_subtrees(cs.subrange(0, 2)) =~= seq![e0, e1]);
    assert(children_subtrees(cs.subrange(0, 3)) =~= seq![e0, e1, e2]);
    let subs = tree_subtrees(r);
    assert(subs =~= seq![e0, e1, e2, e3]);
    assert(cs[0] matches Child::Tree(x) && (x.kind matches TreeKind::Error(m) && m@ == ms[0]));
    assert(cs[1] matches Child::Tree(x) && (x.kind matches TreeKind::Error(m) && m@ == ms[1]));
    assert(cs[2] matches Child::Tree(x) && (x.kind matches TreeKind::Error(m) && m@ == ms[2]));
    assert(cs[3] matches Child::Tree(x) && (x.kind matches TreeKind::Error(m) && m@ == ms[3]));
    assert(local_diagnostics(e0) =~= seq![(ms[0], p)]);
    assert(local_diagnostics(e1) =~= seq![(ms[1], p)]);
    assert(local_diagnostics(e2) =~= seq![(ms[2], p)]);
    assert(local_diagnostics(e3) =~= seq![(ms[3], p)]);
    assert(subs[0] == e0 && subs[1] == e1 && subs[2] == e2 && subs[3] == e3);
    assert(all_local(subs, 0) =~= Seq::<(Seq<char>, Position)>::empty());
    assert(all_local(subs, 1) =~= seq![(ms[0], p)]);
    assert(all_local(subs, 2) =~= seq![(ms[0], p), (ms[1], p)]);
    assert(all_local(subs, 3) =~= seq![(ms[0], p), (ms[1], p), (ms[2], p)]);
    assert(all_local(subs, 4) =~= seq![(ms[0], p), (ms[1], p), (ms[2], p), (ms[3], p)]);
    assert(version_duplicates(subs, 4) =~= Seq::<(Seq<char>, Position)>::empty()) by {
        assert(version_duplicates(subs, 0) =~= Seq::<(Seq<char>, Position)>::empty());
        assert(version_duplicate(subs, 0) =~= Seq::<(Seq<char>, Position)>::empty());
        assert(version_duplicate(subs, 1) =~= Seq::<(Seq<char>, Position)>::empty());
        assert(version_duplicate(subs, 2) =~= Seq::<(Seq<char>, Position)>::empty());
        assert(version_duplicate(subs, 3) =~= Seq::<(Seq<char>, Position)>::empty());
        assert(version_duplicates(subs, 1) =~= Seq::<(Seq<char>, Position)>::empty());
        assert(version_duplicates(subs, 2) =~= Seq::<(Seq<char>, Position)>::empty());
        assert(version_duplicates(subs, 3) =~= Seq::<(Seq<char>, Position)>::empty());
    }
    assert(orphan_links(subs, 4) =~= Seq::<(Seq<char>, Position)>::empty()) by {
        assert(orphan_links(subs, 0) =~= Seq::<(Seq<char>, Position)>::empty());
        assert(orphan_link(subs, 0) =~= Seq::<(Seq<char>, Position)>::empty());
        assert(orphan_link(subs, 1) =~= Seq::<(Seq<char>, Position)>::empty());
        assert(orphan_link(subs, 2) =~= Seq::<(Seq<char>, Position)>::empty());
        assert(orphan_link(subs, 3) =~= Seq::<(Seq<char>, Position)>::empty());
        assert(orphan_links(subs, 1) =~= Seq::<(Seq<char>, Position)>::empty());
        assert(orphan_links(subs, 2) =~= Seq::<(Seq<char>, Position)>::empty());
        assert(orphan_links(subs, 3) =~= Seq::<(Seq<char>, Position)>::empty());
    }
    assert(spec_diagnostics(r) =~= seq![(ms[0], p), (ms[1], p), (ms[2], p), (ms[3], p)]);
}

} // verus!

verus! {

proof fn lemma_orphan_origin(subs: Seq<Tree>, m: int, k: int)
    requires
        0 <= m <= subs.len(),
        0 <= k < orphan_links(subs, m).len(),
    ensures
        exists|i: int|
            0 <= i < m && #[trigger] link_version(subs[i]) is Some && !link_before(
                subs,
                i,
                link_version(subs[i])->0,
            ) && !header_before(subs, subs.len() as int, link_version(subs[i])->0)
                && orphan_links(subs, m)[k] == (
                "Release link version does not match any listed releases"@,
                spec_tree_position(subs[i]),
            ),
    decreases m,
{
    let prev = orphan_links(subs, m - 1);
    if k < prev.len() {
        lemma_orphan_origin(subs, m - 1, k);
        let i = choose|i: int|
            0 <= i < m - 1 && #[trigger] link_version(subs[i]) is Some && !link_before(
                subs,
                i,
                link_version(subs[i])->0,
            ) && !header_before(subs, subs.len() as int, link_version(subs[i])->0)
                && prev[k] == (
                "Release link version does not match any listed releases"@,
                spec_tree_position(subs[i]),
            );
        assert(orphan_links(subs, m)[k] == prev[k]);
        assert(link_version(subs[i]) is Some);
    } else {
        assert(orphan_links(subs, m)[k] == orphan_link(subs, m - 1)[k - prev.len()]);
        assert(link_version(subs[m - 1]) is Some);
    }
}

/// Every "matches no release" diagnostic stands at the first release link of
/// a version that no release heading of the document declares; so each such
/// version is reported once, at that link.
pub proof fn law_orphan_reports_are_unmatched_links(t: Tree, k: int)
    requires
        0 <= k < orphan_links(tree_subtrees(t), tree_subtrees(t).len() as int).len(),
    ensures
        exists|i: int|
            0 <= i < tree_subtrees(t).len() && #[trigger] link_version(tree_subtrees(t)[i]) is Some
                && !link_before(tree_subtrees(t), i, link_version(tree_subtrees(t)[i])->0)
                && !header_before(
                tree_subtrees(t),
                tree_subtrees(t).len() as int,
                link_version(tree_subtrees(t)[i])->0,
            ) && spec_diagnostics(t)[(all_local(tree_subtrees(t), tree_subtrees(t).len() as int)
                + version_duplicates(tree_subtrees(t), tree_subtrees(t).len() as int)).len() + k]
                == (
                "Release link version does not match any listed releases"@,
                spec_tree_position(tree_subtrees(t)[i]),
            ),
{
    let subs = tree_subtrees(t);
    let n = subs.len() as int;
    lemma_orphan_origin(subs, n, k);
    let pre = all_local(subs, n) + version_duplicates(subs, n);
    assert(spec_diagnostics(t)[pre.len() + k] == orphan_links(subs, n)[k]);
}

} // verus!

verus! {

/// The number of change group headings among `subs[0..m]`.
pub open spec fn header_count(subs: Seq<Tree>, m: int) -> int
    decreases m,
{
    if m <= 0 {
        0
    } else {
        header_count(subs, m - 1) + if header_group(subs[m - 1]) is Some {
            1int
        } else {
            0
        }
    }
}

/// The distinct change groups named by headings among `subs[0..m]`.
pub open spec fn groups_named(subs: Seq<Tree>, m: int) -> Set<ChangeGroup>
    decreases m,
{
    if m <= 0 {
        Set::empty()
    } else {
        match header_group(subs[m - 1]) {
            Some(g) => groups_named(subs, m - 1).insert(g),
            None => groups_named(subs, m - 1),
        }
    }
}

/// Within a run of subtrees, the change group headings reported as
/// duplicates are as many as the headings less the distinct groups they
/// name.
pub proof fn law_duplicate_change_group_count(subs: Seq<Tree>, m: int)
    requires
        0 <= m <= subs.len(),
    ensures
        groups_named(subs, m).finite(),
        group_duplicates(subs, m).len() == header_count(subs, m) - groups_named(subs, m).len(),
    decreases m,
{
    if m > 0 {
        law_duplicate_change_group_count(subs, m - 1);
        let prev = groups_named(subs, m - 1);
        assert forall|g: ChangeGroup| prev.contains(g) <==> exists|j: int|
            0 <= j < m - 1 && header_group(#[trigger] subs[j]) == Some(g) by {
            lemma_groups_named(subs, m - 1, g);
        }
        match header_group(subs[m - 1]) {
            Some(g) => {
                if prev.contains(g) {
                    assert(prev.insert(g) =~= prev);
                }
            },
            None => {},
        }
    }
}

proof fn lemma_groups_named(subs: Seq<Tree>, m: int, g: ChangeGroup)
    requires
        0 <= m <= subs.len(),
    ensures
        groups_named(subs, m).contains(g) <==> exists|j: int|
            0 <= j < m && header_group(#[trigger] subs[j]) == Some(g),
    decreases m,
{
    if m > 0 {
        lemma_groups_named(subs, m - 1, g);
        if header_group(subs[m - 1]) == Some(g) {
            assert(exists|j: int| 0 <= j < m && header_group(#[trigger] subs[j]) == Some(g));
        }
        if exists|j: int| 0 <= j < m && header_group(#[trigger] subs[j]) == Some(g) {
            let j = choose|j: int| 0 <= j < m && header_group(#[trigger] subs[j]) == Some(g);
            if j < m - 1 {
                assert(exists|j: int| 0 <= j < m - 1 && header_group(#[trigger] subs[j]) == Some(g));
            }
        }
    }
}

} // verus!
