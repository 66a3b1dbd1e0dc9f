//! Reading a changelog's values off its concrete syntax tree.
use vstd::prelude::*;
use indexmap::IndexMap;
use crate::ordered_maps::{
    key_index, lemma_inserted, lemma_key_index, link_entries, link_map_get, link_map_index_of,
    link_map_insert, link_map_new,
};
use crate::seqs::{lemma_take_all, lemma_take_step};
use crate::change_group::ChangeGroup;
use crate::changes::{entry_view, item_views, spec_from_pairs, Changes};
use crate::lexer::{Block, BlockShape};
use crate::release::Release;
use crate::release_date::ReleaseDate;
use crate::release_link::ReleaseLink;
use crate::release_tag::ReleaseTag;
use crate::release_version::ReleaseVersion;
use crate::tree::{Child, ReleaseLinkType, Tree, TreeKind};

verus! {

/// The change group named by the first change group heading among `cs`.
pub open spec fn first_header(cs: Seq<Child>) -> Option<ChangeGroup>
    decreases cs.len(),
{
    if cs.len() == 0 {
        None
    } else {
        match first_header(cs.drop_last()) {
            Some(g) => Some(g),
            None => match cs.last() {
                Child::Tree(t) => match t.kind {
                    TreeKind::ChangeGroupHeader(g) => Some(g),
                    _ => None,
                },
                _ => None,
            },
        }
    }
}

/// The first change group list subtree among `cs`.
pub open spec fn first_list(cs: Seq<Child>) -> Option<Tree>
    decreases cs.len(),
{
    if cs.len() == 0 {
        None
    } else {
        match first_list(cs.drop_last()) {
            Some(t) => Some(t),
            None => match cs.last() {
                Child::Tree(t) => if t.kind is ChangeGroupList {
                    Some(t)
                } else {
                    None
                },
                _ => None,
            },
        }
    }
}

/// The first markdown list block among `cs`.
pub open spec fn first_list_block(cs: Seq<Child>) -> Option<Block>
    decreases cs.len(),
{
    if cs.len() == 0 {
        None
    } else {
        match first_list_block(cs.drop_last()) {
            Some(b) => Some(b),
            None => match cs.last() {
                Child::Markdown(b) => if b.shape is List {
                    Some(b)
                } else {
                    None
                },
                _ => None,
            },
        }
    }
}

/// The group and items of a change group subtree: its heading's group and
/// the items of its list.
pub open spec fn spec_group_entry(t: Tree) -> Option<(ChangeGroup, Seq<Seq<char>>)> {
    match (first_header(t.children@), first_list(t.children@)) {
        (Some(g), Some(l)) => match first_list_block(l.children@) {
            Some(b) => Some((g, item_views(b.items@))),
            None => None,
        },
        _ => None,
    }
}

/// The entries of the change group subtrees among `cs`, in order.
pub open spec fn spec_groups(cs: Seq<Child>) -> Seq<(ChangeGroup, Seq<Seq<char>>)>
    decreases cs.len(),
{
    if cs.len() == 0 {
        Seq::empty()
    } else {
        spec_groups(cs.drop_last()) + match cs.last() {
            Child::Tree(t) => if t.kind is ChangeGroup {
                match spec_group_entry(t) {
                    Some(e) => seq![e],
                    None => Seq::empty(),
                }
            } else {
                Seq::empty()
            },
            _ => Seq::empty(),
        }
    }
}

/// The changes of a Release or Unreleased subtree.
pub open spec fn spec_changes(t: Tree) -> Seq<(ChangeGroup, Seq<Seq<char>>)> {
    spec_from_pairs(spec_groups(t.children@))
}

/// The first Unreleased subtree among `cs`.
pub open spec fn first_unreleased(cs: Seq<Child>) -> Option<Tree>
    decreases cs.len(),
{
    if cs.len() == 0 {
        None
    } else {
        match first_unreleased(cs.drop_last()) {
            Some(t) => Some(t),
            None => match cs.last() {
                Child::Tree(t) => if t.kind is Unreleased {
                    Some(t)
                } else {
                    None
                },
                _ => None,
            },
        }
    }
}

/// The link of the last `[unreleased]` link definition among `cs`.
pub open spec fn spec_unreleased_link(cs: Seq<Child>) -> Option<ReleaseLink>
    decreases cs.len(),
{
    if cs.len() == 0 {
        None
    } else {
        match cs.last() {
            Child::Tree(t) => match t.kind {
                TreeKind::ReleaseLink(ReleaseLinkType::Unreleased(l)) => Some(l),
                _ => spec_unreleased_link(cs.drop_last()),
            },
            _ => spec_unreleased_link(cs.drop_last()),
        }
    }
}

/// The link of the last link definition of version `v` among `cs`.
pub open spec fn spec_version_link(cs: Seq<Child>, v: Seq<char>) -> Option<ReleaseLink>
    decreases cs.len(),
{
    if cs.len() == 0 {
        None
    } else {
        match cs.last() {
            Child::Tree(t) => match t.kind {
                TreeKind::ReleaseLink(ReleaseLinkType::Versioned(w, l)) => if w@ == v {
                    Some(l)
                } else {
                    spec_version_link(cs.drop_last(), v)
                },
                _ => spec_version_link(cs.drop_last(), v),
            },
            _ => spec_version_link(cs.drop_last(), v),
        }
    }
}

/// Version, date and tag of the first release heading among `cs`.
pub open spec fn first_release_header(cs: Seq<Child>) -> Option<(ReleaseVersion, ReleaseDate, Option<ReleaseTag>)>
    decreases cs.len(),
{
    if cs.len() == 0 {
        None
    } else {
        match first_release_header(cs.drop_last()) {
            Some(h) => Some(h),
            None => match cs.last() {
                Child::Tree(t) => match t.kind {
                    TreeKind::ReleaseHeader(v, d, g) => Some((v, d, g)),
                    _ => None,
                },
                _ => None,
            },
        }
    }
}

/// The Release subtrees among `cs` that have a release heading, in order.
pub open spec fn spec_release_trees(cs: Seq<Child>) -> Seq<Tree>
    decreases cs.len(),
{
    if cs.len() == 0 {
        Seq::empty()
    } else {
        spec_release_trees(cs.drop_last()) + match cs.last() {
            Child::Tree(t) => if t.kind is Release && first_release_header(t.children@) is Some {
                seq![t]
            } else {
                Seq::empty()
            },
            _ => Seq::empty(),
        }
    }
}

/// `r` is the release that Release subtree `t` describes, with the link
/// that the definitions among `root` give its version.
pub open spec fn release_matches(r: Release, t: Tree, root: Seq<Child>) -> bool {
    match first_release_header(t.children@) {
        Some((v, d, g)) => {
            &&& r.version == v
            &&& r.date == d
            &&& r.tag == g
            &&& r.link == spec_version_link(root, v@)
            &&& r.changes@ == spec_changes(t)
        },
        None => false,
    }
}



fn group_header_of(cs: &Vec<Child>) -> (r: Option<ChangeGroup>)
    ensures
        r == first_header(cs@),
{
    let mut r: Option<ChangeGroup> = None;
    let mut i: usize = 0;
    while i < cs.len()
        invariant
            i <= cs@.len(),
            r == first_header(cs@.take(i as int)),
        decreases cs@.len() - i,
    {
        proof {
            lemma_take_step(cs@, i as int);
        }
        if r.is_none() {
            match &cs[i] {
                Child::Tree(t) => match &t.kind {
                    TreeKind::ChangeGroupHeader(g) => {
                        r = Some(*g);
                    },
                    _ => {},
                },
                _ => {},
            }
        }
        i = i + 1;
    }
    proof {
        lemma_take_all(cs@);
    }
    r
}

fn group_list_of(cs: &Vec<Child>) -> (r: Option<&Tree>)
    ensures
        match r {
            Some(t) => first_list(cs@) == Some(*t),
            None => first_list(cs@) is None,
        },
{
    let mut r: Option<&Tree> = None;
    let mut i: usize = 0;
    while i < cs.len()
        invariant
            i <= cs@.len(),
            match r {
                Some(t) => first_list(cs@.take(i as int)) == Some(*t),
                None => first_list(cs@.take(i as int)) is None,
            },
        decreases cs@.len() - i,
    {
        proof {
            lemma_take_step(cs@, i as int);
        }
        if r.is_none() {
            match &cs[i] {
                Child::Tree(t) => {
                    if matches!(t.kind, TreeKind::ChangeGroupList) {
                        r = Some(t);
                    }
                },
                _ => {},
            }
        }
        i = i + 1;
    }
    proof {
        lemma_take_all(cs@);
    }
    r
}

fn list_block_of(cs: &Vec<Child>) -> (r: Option<&Block>)
    ensures
        match r {
            Some(b) => first_list_block(cs@) == Some(*b),
            None => first_list_block(cs@) is None,
        },
{
    let mut r: Option<&Block> = None;
    let mut i: usize = 0;
    while i < cs.len()
        invariant
            i <= cs@.len(),
            match r {
                Some(b) => first_list_block(cs@.take(i as int)) == Some(*b),
                None => first_list_block(cs@.take(i as int)) is None,
            },
        decreases cs@.len() - i,
    {
        proof {
            lemma_take_step(cs@, i as int);
        }
        if r.is_none() {
            match &cs[i] {
                Child::Markdown(b) => {
                    if matches!(b.shape, BlockShape::List) {
                        r = Some(b);
                    }
                },
                _ => {},
            }
        }
        i = i + 1;
    }
    proof {
        lemma_take_all(cs@);
    }
    r
}

fn copy_items(items: &Vec<String>) -> (r: Vec<String>)
    ensures
        item_views(r@) == item_views(items@),
{
    let mut r: Vec<String> = Vec::new();
    let mut i: usize = 0;
    while i < items.len()
        invariant
            i <= items@.len(),
            item_views(r@) == item_views(items@.take(i as int)),
        decreases items@.len() - i,
    {
        let ghost old_r = r@;
        let x = String::from_str(items[i].as_str());
        r.push(x);
        proof {
            assert(items@.take(i + 1) =~= items@.take(i as int).push(items@[i as int]));
            assert(item_views(r@) =~= item_views(old_r).push(x@));
            assert(item_views(items@.take(i + 1)) =~= item_views(items@.take(i as int)).push(
                items@[i as int]@,
            ));
        }
        i = i + 1;
    }
    proof {
        assert(items@.take(i as int) =~= items@);
    }
    r
}

fn group_entry(t: &Tree) -> (r: Option<(ChangeGroup, Vec<String>)>)
    ensures
        match r {
            Some(e) => spec_group_entry(*t) == Some(entry_view(e)),
            None => spec_group_entry(*t) is None,
        },
{
    match group_header_of(&t.children) {
        Some(g) => match group_list_of(&t.children) {
            Some(l) => match list_block_of(&l.children) {
                Some(b) => Some((g, copy_items(&b.items))),
                None => None,
            },
            None => None,
        },
        None => None,
    }
}

/// The changes of a Release or Unreleased subtree.
pub fn changes_of(t: &Tree) -> (r: Changes)
    ensures
        r@ == spec_changes(*t),
{
    let cs = &t.children;
    let mut pairs: Vec<(ChangeGroup, Vec<String>)> = Vec::new();
    let mut i: usize = 0;
    while i < cs.len()
        invariant
            cs == &t.children,
            i <= cs@.len(),
            pairs@.map_values(|e: (ChangeGroup, Vec<String>)| entry_view(e)) == spec_groups(
                cs@.take(i as int),
            ),
        decreases cs@.len() - i,
    {
        proof {
            lemma_take_step(cs@, i as int);
        }
        let ghost before = pairs@;
        match &cs[i] {
            Child::Tree(c) => {
                if matches!(c.kind, TreeKind::ChangeGroup) {
                    match group_entry(c) {
                        Some(e) => {
                            pairs.push(e);
                        },
                        None => {},
                    }
                }
            },
            _ => {},
        }
        proof {
            assert(pairs@.map_values(|e: (ChangeGroup, Vec<String>)| entry_view(e)) =~= spec_groups(
                cs@.take(i + 1),
            ));
        }
        i = i + 1;
    }
    proof {
        lemma_take_all(cs@);
    }
    Changes::from_pairs(pairs)
}


/// The link of the last `[unreleased]` link definition among `cs`.
pub fn unreleased_link_of(cs: &Vec<Child>) -> (r: Option<ReleaseLink>)
    ensures
        r == spec_unreleased_link(cs@),
{
    let mut r: Option<ReleaseLink> = None;
    let mut i: usize = 0;
    while i < cs.len()
        invariant
            i <= cs@.len(),
            r == spec_unreleased_link(cs@.take(i as int)),
        decreases cs@.len() - i,
    {
        proof {
            lemma_take_step(cs@, i as int);
        }
        match &cs[i] {
            Child::Tree(t) => match &t.kind {
                TreeKind::ReleaseLink(ReleaseLinkType::Unreleased(l)) => {
                    r = Some(l.clone());
                },
                _ => {},
            },
            _ => {},
        }
        i = i + 1;
    }
    proof {
        lemma_take_all(cs@);
    }
    r
}

/// The map entries hold, for each version, the link of the last link
/// definition of that version among `cs`, and no other version.
pub open spec fn links_agree(e: Seq<(Seq<char>, ReleaseLink)>, cs: Seq<Child>) -> bool {
    forall|v: Seq<char>| link_agrees(e, cs, v, #[trigger] key_index(e, v))
}

pub open spec fn link_agrees(e: Seq<(Seq<char>, ReleaseLink)>, cs: Seq<Child>, v: Seq<char>, at: Option<int>) -> bool {
    match at {
        Some(k) => 0 <= k < e.len() && spec_version_link(cs, v) == Some(e[k].1),
        None => spec_version_link(cs, v) is None,
    }
}

/// The links of the versioned link definitions among `cs`, keyed by
/// version; a version defined again takes the later link.
pub fn release_links_of(cs: &Vec<Child>) -> (m: IndexMap<String, ReleaseLink>)
    ensures
        links_agree(link_entries(m), cs@),
{
    let mut m = link_map_new();
    let mut i: usize = 0;
    while i < cs.len()
        invariant
            i <= cs@.len(),
            links_agree(link_entries(m), cs@.take(i as int)),
        decreases cs@.len() - i,
    {
        proof {
            lemma_take_step(cs@, i as int);
        }
        let ghost e0 = link_entries(m);
        match &cs[i] {
            Child::Tree(t) => match &t.kind {
                TreeKind::ReleaseLink(ReleaseLinkType::Versioned(w, l)) => {
                    let key = String::from_str(w.as_str());
                    let copy = l.clone();
                    link_map_insert(&mut m, key, copy);
                    proof {
                        let e1 = link_entries(m);
                        assert forall|v: Seq<char>| link_agrees(e1, cs@.take(i + 1), v, #[trigger] key_index(e1, v)) by {
                            lemma_inserted(e0, w@, copy, v);
                            lemma_key_index(e1, v);
                            assert(link_agrees(e0, cs@.take(i as int), v, key_index(e0, v)));
                        }
                    }
                },
                _ => {
                    proof {
                        assert forall|v: Seq<char>| link_agrees(e0, cs@.take(i + 1), v, #[trigger] key_index(e0, v)) by {
                            assert(link_agrees(e0, cs@.take(i as int), v, key_index(e0, v)));
                        }
                    }
                },
            },
            _ => {
                proof {
                    assert forall|v: Seq<char>| link_agrees(e0, cs@.take(i + 1), v, #[trigger] key_index(e0, v)) by {
                        assert(link_agrees(e0, cs@.take(i as int), v, key_index(e0, v)));
                    }
                }
            },
        }
        i = i + 1;
    }
    proof {
        lemma_take_all(cs@);
    }
    m
}

/// The link that the definitions among `cs` give version `v`, read off
/// their map.
fn link_for(m: &IndexMap<String, ReleaseLink>, v: &ReleaseVersion, Ghost(cs): Ghost<Seq<Child>>) -> (r: Option<ReleaseLink>)
    requires
        links_agree(link_entries(*m), cs),
    ensures
        r == spec_version_link(cs, v@),
{
    proof {
        assert(link_agrees(link_entries(*m), cs, v@, key_index(link_entries(*m), v@)));
    }
    match link_map_index_of(m, v.as_str()) {
        Some(k) => Some(link_map_get(m, k).clone()),
        None => None,
    }
}

/// The first Unreleased subtree among `cs`.
pub fn unreleased_tree_of(cs: &Vec<Child>) -> (r: Option<&Tree>)
    ensures
        match r {
            Some(t) => first_unreleased(cs@) == Some(*t),
            None => first_unreleased(cs@) is None,
        },
{
    let mut r: Option<&Tree> = None;
    let mut i: usize = 0;
    while i < cs.len()
        invariant
            i <= cs@.len(),
            match r {
                Some(t) => first_unreleased(cs@.take(i as int)) == Some(*t),
                None => first_unreleased(cs@.take(i as int)) is None,
            },
        decreases cs@.len() - i,
    {
        proof {
            lemma_take_step(cs@, i as int);
        }
        if r.is_none() {
            match &cs[i] {
                Child::Tree(t) => {
                    if matches!(t.kind, TreeKind::Unreleased) {
                        r = Some(t);
                    }
                },
                _ => {},
            }
        }
        i = i + 1;
    }
    proof {
        lemma_take_all(cs@);
    }
    r
}

/// Version, date and tag of the first release heading among `cs`.
pub fn release_header_of(cs: &Vec<Child>) -> (r: Option<(&ReleaseVersion, &ReleaseDate, Option<ReleaseTag>)>)
    ensures
        match r {
            Some((v, d, g)) => first_release_header(cs@) == Some((*v, *d, g)),
            None => first_release_header(cs@) is None,
        },
{
    let mut r: Option<(&ReleaseVersion, &ReleaseDate, Option<ReleaseTag>)> = None;
    let mut i: usize = 0;
    while i < cs.len()
        invariant
            i <= cs@.len(),
            match r {
                Some((v, d, g)) => first_release_header(cs@.take(i as int)) == Some((*v, *d, g)),
                None => first_release_header(cs@.take(i as int)) is None,
            },
        decreases cs@.len() - i,
    {
        proof {
            lemma_take_step(cs@, i as int);
        }
        if r.is_none() {
            match &cs[i] {
                Child::Tree(t) => match &t.kind {
                    TreeKind::ReleaseHeader(v, d, g) => {
                        r = Some((v, d, *g));
                    },
                    _ => {},
                },
                _ => {},
            }
        }
        i = i + 1;
    }
    proof {
        lemma_take_all(cs@);
    }
    r
}

/// The releases that the Release subtrees among `cs` describe, in order,
/// each with the link that the definitions among `cs` give its version.
pub fn releases_of(cs: &Vec<Child>) -> (r: Vec<Release>)
    ensures
        r@.len() == spec_release_trees(cs@).len(),
        forall|i: int| 0 <= i < r@.len() ==> release_matches(#[trigger] r@[i], spec_release_trees(cs@)[i], cs@),
{
    let links = release_links_of(cs);
    let mut r: Vec<Release> = Vec::new();
    let mut i: usize = 0;
    while i < cs.len()
        invariant
            i <= cs@.len(),
            links_agree(link_entries(links), cs@),
            r@.len() == spec_release_trees(cs@.take(i as int)).len(),
            forall|j: int|
                0 <= j < r@.len() ==> release_matches(#[trigger] r@[j], spec_release_trees(cs@.take(i as int))[j], cs@),
        decreases cs@.len() - i,
    {
        proof {
            lemma_take_step(cs@, i as int);
        }
        let ghost prev = spec_release_trees(cs@.take(i as int));
        match &cs[i] {
            Child::Tree(t) => {
                if matches!(t.kind, TreeKind::Release) {
                    match release_header_of(&t.children) {
                        Some((v, d, g)) => {
                            let release = Release {
                                version: v.clone(),
                                date: d.clone(),
                                tag: g,
                                link: link_for(&links, v, Ghost(cs@)),
                                changes: changes_of(t),
                            };
                            r.push(release);
                            proof {
                                assert(spec_release_trees(cs@.take(i + 1)) == prev.push(*t));
                            }
                        },
                        None => {},
                    }
                }
            },
            _ => {},
        }
        proof {
            let now = spec_release_trees(cs@.take(i + 1));
            assert forall|j: int| 0 <= j < r@.len() implies release_matches(#[trigger] r@[j], now[j], cs@) by {
                if j < prev.len() {
                    assert(now[j] == prev[j]);
                }
            }
        }
        i = i + 1;
    }
    proof {
        lemma_take_all(cs@);
    }
    r
}

} // verus!
