//! The changes of a release, grouped by kind of change.
use vstd::prelude::*;
use indexmap::IndexMap;
use crate::change_group::ChangeGroup;
use crate::ordered_maps::{
    group_entries, group_map_get, group_map_index_of, group_map_insert, group_map_len,
    group_map_new, inserted, item_texts, key_index, lemma_key_index,
};

verus! {

/// The text of each item of a list of changes.
pub open spec fn item_views(items: Seq<String>) -> Seq<Seq<char>> {
    items.map_values(|s: String| s@)
}

/// The view of one group of changes: the group and its items.
pub open spec fn entry_view(e: (ChangeGroup, Vec<String>)) -> (ChangeGroup, Seq<Seq<char>>) {
    (e.0, item_views(e.1@))
}

/// No change group appears twice.
pub open spec fn unique_groups(s: Seq<(ChangeGroup, Seq<Seq<char>>)>) -> bool {
    forall|i: int, j: int| 0 <= i < j < s.len() ==> s[i].0 != s[j].0
}

/// `s` with `items` stored under `g`: in the place of `g`'s items when `g` is
/// there, else as a new last group.
pub open spec fn spec_insert_group(
    s: Seq<(ChangeGroup, Seq<Seq<char>>)>,
    g: ChangeGroup,
    items: Seq<Seq<char>>,
) -> Seq<(ChangeGroup, Seq<Seq<char>>)> {
    inserted(s, g, items)
}

/// `s` with `item` added at the end of `g`'s items, `g` added as a new last
/// group when it is not there.
pub open spec fn spec_add_item(
    s: Seq<(ChangeGroup, Seq<Seq<char>>)>,
    g: ChangeGroup,
    item: Seq<char>,
) -> Seq<(ChangeGroup, Seq<Seq<char>>)> {
    match key_index(s, g) {
        Some(i) => s.update(i, (g, s[i].1.push(item))),
        None => s.push((g, seq![item])),
    }
}

/// The groups that storing each pair in turn gives, starting from none.
pub open spec fn spec_from_pairs(ps: Seq<(ChangeGroup, Seq<Seq<char>>)>) -> Seq<(ChangeGroup, Seq<Seq<char>>)>
    decreases ps.len(),
{
    if ps.len() == 0 {
        Seq::empty()
    } else {
        let last = ps.last();
        spec_insert_group(spec_from_pairs(ps.drop_last()), last.0, last.1)
    }
}

/// The code under which a change group is kept in the map.
pub open spec fn group_code(g: ChangeGroup) -> u8 {
    match g {
        ChangeGroup::Added => 0,
        ChangeGroup::Changed => 1,
        ChangeGroup::Deprecated => 2,
        ChangeGroup::Fixed => 3,
        ChangeGroup::Removed => 4,
        ChangeGroup::Security => 5,
    }
}

/// The change group kept under a code.
pub open spec fn code_group(c: u8) -> ChangeGroup {
    if c == 0 {
        ChangeGroup::Added
    } else if c == 1 {
        ChangeGroup::Changed
    } else if c == 2 {
        ChangeGroup::Deprecated
    } else if c == 3 {
        ChangeGroup::Fixed
    } else if c == 4 {
        ChangeGroup::Removed
    } else {
        ChangeGroup::Security
    }
}

pub fn code_of(g: ChangeGroup) -> (r: u8)
    ensures
        r == group_code(g),
{
    match g {
        ChangeGroup::Added => 0,
        ChangeGroup::Changed => 1,
        ChangeGroup::Deprecated => 2,
        ChangeGroup::Fixed => 3,
        ChangeGroup::Removed => 4,
        ChangeGroup::Security => 5,
    }
}

fn group_of(c: u8) -> (r: ChangeGroup)
    ensures
        r == code_group(c),
{
    if c == 0 {
        ChangeGroup::Added
    } else if c == 1 {
        ChangeGroup::Changed
    } else if c == 2 {
        ChangeGroup::Deprecated
    } else if c == 3 {
        ChangeGroup::Fixed
    } else if c == 4 {
        ChangeGroup::Removed
    } else {
        ChangeGroup::Security
    }
}

/// Raw entries whose codes all name a group, none twice.
pub open spec fn codes_ok(s: Seq<(u8, Seq<Seq<char>>)>) -> bool {
    &&& forall|i: int| 0 <= i < s.len() ==> (#[trigger] s[i]).0 < 6
    &&& forall|i: int, j: int| 0 <= i < j < s.len() ==> s[i].0 != s[j].0
}

/// The groups that raw entries stand for.
pub open spec fn decode(s: Seq<(u8, Seq<Seq<char>>)>) -> Seq<(ChangeGroup, Seq<Seq<char>>)> {
    s.map_values(|e: (u8, Seq<Seq<char>>)| (code_group(e.0), e.1))
}

proof fn lemma_decode_index(s: Seq<(u8, Seq<Seq<char>>)>, g: ChangeGroup)
    requires
        codes_ok(s),
    ensures
        key_index(decode(s), g) == key_index(s, group_code(g)),
        unique_groups(decode(s)),
{
    let d = decode(s);
    assert forall|j: int| 0 <= j < s.len() implies (#[trigger] d[j]).0 == g <==> s[j].0 == group_code(g) by {
        assert(s[j].0 < 6);
    }
    lemma_key_index(d, g);
    lemma_key_index(s, group_code(g));
    assert forall|i: int, j: int| 0 <= i < j < d.len() implies d[i].0 != d[j].0 by {
        assert(s[i].0 < 6 && s[j].0 < 6);
        assert(s[i].0 != s[j].0);
    }
    match (key_index(d, g), key_index(s, group_code(g))) {
        (Some(a), Some(b)) => {
            if a < b {
                assert(d[a].0 == g);
            } else if b < a {
                assert(s[b].0 == group_code(g));
                assert(d[b].0 == g);
            }
        },
        (Some(a), None) => {
            assert(d[a].0 == g);
        },
        (None, Some(b)) => {
            assert(s[b].0 == group_code(g));
            assert(d[b].0 == g);
        },
        (None, None) => {},
    }
}

/// Represents the changes that went into a release: an ordered map from
/// change group to the list of changes, in the order the groups were added.
#[derive(Debug, PartialEq, Eq)]
pub struct Changes {
    map: IndexMap<u8, Vec<String>>,
}

impl View for Changes {
    type V = Seq<(ChangeGroup, Seq<Seq<char>>)>;

    closed spec fn view(&self) -> Seq<(ChangeGroup, Seq<Seq<char>>)> {
        decode(group_entries(self.map))
    }
}

impl Changes {
    #[verifier::type_invariant]
    spec fn codes_valid(self) -> bool {
        codes_ok(group_entries(self.map))
    }

    /// No changes at all.
    pub fn new() -> (r: Changes)
        ensures
            r@ == Seq::<(ChangeGroup, Seq<Seq<char>>)>::empty(),
            unique_groups(r@),
    {
        let r = Changes { map: group_map_new() };
        assert(r@ =~= Seq::<(ChangeGroup, Seq<Seq<char>>)>::empty());
        r
    }

    /// Returns true if there are no changes.
    pub fn is_empty(&self) -> (r: bool)
        ensures
            r == forall|i: int| 0 <= i < self@.len() ==> #[trigger] self@[i].1.len() == 0,
    {
        let n = group_map_len(&self.map);
        let mut i: usize = 0;
        while i < n
            invariant
                n == self@.len(),
                i <= n,
                forall|j: int| 0 <= j < i ==> #[trigger] self@[j].1.len() == 0,
            decreases n - i,
        {
            let (_, items) = group_map_get(&self.map, i);
            if items.len() != 0 {
                assert(self@[i as int].1.len() != 0);
                return false;
            }
            i = i + 1;
        }
        true
    }

    /// Stores `items` under code `k` in a map taken out of `self`.
    fn store(&mut self, k: u8, items: Vec<String>)
        requires
            k < 6,
        ensures
            group_entries(final(self).map) == inserted(group_entries(old(self).map), k, item_texts(items@)),
    {
        proof {
            use_type_invariant(&*self);
        }
        let ghost s = group_entries(self.map);
        let mut map = group_map_new();
        std::mem::swap(&mut map, &mut self.map);
        group_map_insert(&mut map, k, items);
        proof {
            let t = group_entries(map);
            lemma_key_index(s, k);
            assert forall|i: int| 0 <= i < t.len() implies (#[trigger] t[i]).0 < 6 by {
                if i < s.len() {
                    assert(s[i].0 < 6);
                }
            }
            assert forall|i: int, j: int| 0 <= i < j < t.len() implies t[i].0 != t[j].0 by {
                if j < s.len() {
                    assert(s[i].0 != s[j].0);
                }
            }
        }
        self.map = map;
    }

    /// Adds `item` at the end of the changes listed under `g`, listing `g`
    /// after the other groups when it was not there.
    pub fn add(&mut self, g: ChangeGroup, item: &str)
        ensures
            final(self)@ == spec_add_item(old(self)@, g, item@),
            unique_groups(final(self)@),
    {
        proof {
            use_type_invariant(&*self);
        }
        let ghost s = group_entries(self.map);
        proof {
            lemma_decode_index(s, g);
        }
        let k = code_of(g);
        let mut items: Vec<String> = Vec::new();
        let ghost mut expected: Seq<Seq<char>> = Seq::empty();
        match group_map_index_of(&self.map, k) {
            Some(i) => {
                proof {
                    lemma_key_index(s, k);
                }
                let (_, old_items) = group_map_get(&self.map, i);
                proof {
                    expected = s[i as int].1;
                }
                let mut j: usize = 0;
                while j < old_items.len()
                    invariant
                        j <= old_items@.len(),
                        item_views(items@) == item_views(old_items@.take(j as int)),
                    decreases old_items@.len() - j,
                {
                    let ghost before = items@;
                    let x = String::from_str(old_items[j].as_str());
                    items.push(x);
                    proof {
                        assert(old_items@.take(j + 1) =~= old_items@.take(j as int).push(old_items@[j as int]));
                        assert(item_views(items@) =~= item_views(before).push(x@));
                        assert(item_views(old_items@.take(j + 1)) =~= item_views(old_items@.take(j as int)).push(
                            old_items@[j as int]@,
                        ));
                    }
                    j = j + 1;
                }
                proof {
                    assert(old_items@.take(j as int) =~= old_items@);
                    assert(item_views(old_items@) == item_texts(old_items@));
                }
            },
            None => {
                assert(item_views(items@) =~= expected);
            },
        }
        assert(item_views(items@) == expected);
        let ghost prev = items@;
        items.push(String::from_str(item));
        proof {
            assert(item_views(items@) =~= item_views(prev).push(item@));
            assert(item_texts(items@) == item_views(items@));
        }
        self.store(k, items);
        proof {
            lemma_key_index(s, k);
            let d = decode(s);
            assert(code_group(group_code(g)) == g);
            match key_index(s, k) {
                Some(i) => {
                    assert(d[i].1 == s[i].1);
                    assert(self@ =~= d.update(i, (g, d[i].1.push(item@))));
                },
                None => {
                    assert(self@ =~= d.push((g, seq![item@])));
                },
            }
        }
    }

    /// Stores each pair in turn: a group seen again replaces the items it
    /// had and keeps its place.
    pub fn from_pairs(pairs: Vec<(ChangeGroup, Vec<String>)>) -> (r: Changes)
        ensures
            r@ == spec_from_pairs(pairs@.map_values(|e: (ChangeGroup, Vec<String>)| entry_view(e))),
            unique_groups(r@),
    {
        let ghost ps = pairs@.map_values(|e: (ChangeGroup, Vec<String>)| entry_view(e));
        let mut pairs = pairs;
        let mut rev: Vec<(ChangeGroup, Vec<String>)> = Vec::new();
        while pairs.len() > 0
            invariant
                pairs@.len() + rev@.len() == ps.len(),
                forall|j: int| 0 <= j < pairs@.len() ==> entry_view(#[trigger] pairs@[j]) == ps[j],
                forall|j: int|
                    0 <= j < rev@.len() ==> entry_view(#[trigger] rev@[j]) == ps[ps.len() - 1 - j],
            decreases pairs@.len(),
        {
            let e = pairs.pop().unwrap();
            rev.push(e);
        }
        let mut r = Changes::new();
        let mut k: usize = 0;
        let n = rev.len();
        while rev.len() > 0
            invariant
                n == ps.len(),
                k + rev@.len() == n,
                forall|j: int|
                    0 <= j < rev@.len() ==> entry_view(#[trigger] rev@[j]) == ps[ps.len() - 1 - j],
                r@ == spec_from_pairs(ps.take(k as int)),
            decreases rev@.len(),
        {
            let e = rev.pop().unwrap();
            proof {
                assert(entry_view(e) == ps[k as int]);
                assert(ps.take(k + 1).drop_last() =~= ps.take(k as int));
            }
            r.insert_group(e.0, e.1);
            k = k + 1;
        }
        proof {
            assert(ps.take(k as int) =~= ps);
            use_type_invariant(&r);
            lemma_decode_index(group_entries(r.map), ChangeGroup::Added);
        }
        r
    }

    /// Stores `items` under `g`, in `g`'s place when it is there, else last.
    fn insert_group(&mut self, g: ChangeGroup, items: Vec<String>)
        ensures
            final(self)@ == spec_insert_group(old(self)@, g, item_views(items@)),
    {
        proof {
            use_type_invariant(&*self);
        }
        let ghost s = group_entries(self.map);
        proof {
            lemma_decode_index(s, g);
            lemma_key_index(s, group_code(g));
            assert(item_texts(items@) == item_views(items@));
        }
        let k = code_of(g);
        self.store(k, items);
        proof {
            assert(self@ =~= spec_insert_group(decode(s), g, item_views(items@)));
        }
    }

    /// The groups and their changes, in order.
    pub fn iter(&self) -> (r: Vec<(ChangeGroup, &Vec<String>)>)
        ensures
            r@.len() == self@.len(),
            forall|i: int|
                0 <= i < r@.len() ==> (#[trigger] r@[i]).0 == self@[i].0 && item_views(r@[i].1@)
                    == self@[i].1,
            unique_groups(self@),
    {
        proof {
            use_type_invariant(self);
            lemma_decode_index(group_entries(self.map), ChangeGroup::Added);
        }
        let n = group_map_len(&self.map);
        let mut r: Vec<(ChangeGroup, &Vec<String>)> = Vec::new();
        let mut i: usize = 0;
        while i < n
            invariant
                n == self@.len(),
                i <= n,
                r@.len() == i,
                forall|j: int|
                    0 <= j < i ==> (#[trigger] r@[j]).0 == self@[j].0 && item_views(r@[j].1@) == self@[j].1,
            decreases n - i,
        {
            let (k, items) = group_map_get(&self.map, i);
            r.push((group_of(k), items));
            i = i + 1;
        }
        r
    }
}


impl Default for Changes {
    fn default() -> (r: Changes)
        ensures
            r@ == Seq::<(ChangeGroup, Seq<Seq<char>>)>::empty(),
    {
        Changes::new()
    }
}


impl Clone for Changes {
    /// A copy with the same groups, in the same order, with the same items.
    fn clone(&self) -> (r: Changes)
        ensures
            r@ == self@,
    {
        proof {
            use_type_invariant(self);
        }
        let ghost s = group_entries(self.map);
        let n = group_map_len(&self.map);
        let mut map = group_map_new();
        let mut i: usize = 0;
        while i < n
            invariant
                s == group_entries(self.map),
                codes_ok(s),
                n == s.len(),
                i <= n,
                group_entries(map) == s.take(i as int),
            decreases n - i,
        {
            let (k, items) = group_map_get(&self.map, i);
            let mut copy: Vec<String> = Vec::new();
            let mut j: usize = 0;
            while j < items.len()
                invariant
                    j <= items@.len(),
                    item_views(copy@) == item_views(items@.take(j as int)),
                decreases items@.len() - j,
            {
                let ghost before = copy@;
                let x = String::from_str(items[j].as_str());
                copy.push(x);
                proof {
                    assert(items@.take(j + 1) =~= items@.take(j as int).push(items@[j as int]));
                    assert(item_views(copy@) =~= item_views(before).push(x@));
                    assert(item_views(items@.take(j + 1)) =~= item_views(items@.take(j as int)).push(
                        items@[j as int]@,
                    ));
                }
                j = j + 1;
            }
            proof {
                assert(items@.take(j as int) =~= items@);
                lemma_key_index(s.take(i as int), k);
                assert forall|m: int| 0 <= m < i implies s.take(i as int)[m].0 != k by {
                    assert(s[m].0 != s[i as int].0);
                }
                assert(item_texts(copy@) == item_views(copy@));
            }
            group_map_insert(&mut map, k, copy);
            proof {
                assert(s.take(i + 1) =~= s.take(i as int).push(s[i as int]));
            }
            i = i + 1;
        }
        proof {
            assert(s.take(n as int) =~= s);
        }
        Changes { map }
    }
}

} // verus!
