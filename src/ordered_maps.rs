//! Trusted boundary to `indexmap::IndexMap`, the insertion-ordered map that
//! holds change groups and releases. Every item here is believed, not proved.
use vstd::prelude::*;
use indexmap::IndexMap;
use crate::release::Release;
use crate::release_link::ReleaseLink;

verus! {

#[verifier::external_type_specification]
#[verifier::external_body]
#[verifier::reject_recursive_types(K)]
#[verifier::reject_recursive_types(V)]
#[verifier::reject_recursive_types(S)]
pub struct ExIndexMap<K, V, S>(IndexMap<K, V, S>);

/// The entries of a map from change group code to items, in map order.
pub uninterp spec fn group_entries(m: IndexMap<u8, Vec<String>>) -> Seq<(u8, Seq<Seq<char>>)>;

/// The entries of a map from version to release, in map order.
pub uninterp spec fn release_entries(m: IndexMap<String, Release>) -> Seq<(Seq<char>, Release)>;

/// The entries of a map from version to release link, in map order.
pub uninterp spec fn link_entries(m: IndexMap<String, ReleaseLink>) -> Seq<(Seq<char>, ReleaseLink)>;

/// The entries of a map from version to whether a release heading and a
/// release link of that version were seen, in map order.
pub uninterp spec fn seen_entries(m: IndexMap<String, (bool, bool)>) -> Seq<(Seq<char>, (bool, bool))>;

/// The index of the first entry of `s` with key `k`, if any.
pub open spec fn key_index<K, V>(s: Seq<(K, V)>, k: K) -> Option<int>
    decreases s.len(),
{
    if s.len() == 0 {
        None
    } else {
        match key_index(s.drop_last(), k) {
            Some(i) => Some(i),
            None => if s.last().0 == k {
                Some(s.len() - 1)
            } else {
                None
            },
        }
    }
}

/// What `IndexMap::insert` does to the entries: an existing key keeps its
/// place and takes the new value, a new key goes last.
pub open spec fn inserted<K, V>(s: Seq<(K, V)>, k: K, v: V) -> Seq<(K, V)> {
    match key_index(s, k) {
        Some(i) => s.update(i, (k, v)),
        None => s.push((k, v)),
    }
}

pub open spec fn item_texts(items: Seq<String>) -> Seq<Seq<char>> {
    items.map_values(|s: String| s@)
}

/// Relies on `IndexMap::new`: an empty map.
#[verifier::external_body]
pub fn group_map_new() -> (r: IndexMap<u8, Vec<String>>)
    ensures
        group_entries(r) == Seq::<(u8, Seq<Seq<char>>)>::empty(),
{
    IndexMap::new()
}

/// Relies on `IndexMap::insert`, as its documentation states it.
#[verifier::external_body]
pub fn group_map_insert(m: &mut IndexMap<u8, Vec<String>>, k: u8, v: Vec<String>)
    ensures
        group_entries(*final(m)) == inserted(group_entries(*old(m)), k, item_texts(v@)),
{
    m.insert(k, v);
}

/// Relies on `IndexMap::get_index_of`: the place of key `k`, if present.
#[verifier::external_body]
pub fn group_map_index_of(m: &IndexMap<u8, Vec<String>>, k: u8) -> (r: Option<usize>)
    ensures
        match r {
            Some(i) => key_index(group_entries(*m), k) == Some(i as int),
            None => key_index(group_entries(*m), k) is None,
        },
{
    m.get_index_of(&k)
}

/// Relies on `IndexMap::len`: the number of entries.
#[verifier::external_body]
pub fn group_map_len(m: &IndexMap<u8, Vec<String>>) -> (r: usize)
    ensures
        r == group_entries(*m).len(),
{
    m.len()
}

/// Relies on `IndexMap::get_index`: the entry at place `i`, which exists.
#[verifier::external_body]
pub fn group_map_get(m: &IndexMap<u8, Vec<String>>, i: usize) -> (r: (u8, &Vec<String>))
    requires
        i < group_entries(*m).len(),
    ensures
        r.0 == group_entries(*m)[i as int].0,
        item_texts(r.1@) == group_entries(*m)[i as int].1,
{
    let (k, v) = m.get_index(i).unwrap();
    (*k, v)
}

/// Relies on `IndexMap::new`: an empty map.
#[verifier::external_body]
pub fn release_map_new() -> (r: IndexMap<String, Release>)
    ensures
        release_entries(r) == Seq::<(Seq<char>, Release)>::empty(),
{
    IndexMap::new()
}

/// Relies on `IndexMap::insert`, as its documentation states it.
#[verifier::external_body]
pub fn release_map_insert(m: &mut IndexMap<String, Release>, k: String, v: Release)
    ensures
        release_entries(*final(m)) == inserted(release_entries(*old(m)), k@, v),
{
    m.insert(k, v);
}

/// Relies on `IndexMap::shift_insert` at place 0 for a key that is not in
/// the map: the new entry goes first, the others follow in their order.
#[verifier::external_body]
pub fn release_map_insert_first(m: &mut IndexMap<String, Release>, k: String, v: Release)
    requires
        key_index(release_entries(*old(m)), k@) is None,
    ensures
        release_entries(*final(m)) == seq![(k@, v)] + release_entries(*old(m)),
{
    m.shift_insert(0, k, v);
}

/// Relies on `IndexMap::get_index_of`: the place of key `k`, if present.
#[verifier::external_body]
pub fn release_map_index_of(m: &IndexMap<String, Release>, k: &str) -> (r: Option<usize>)
    ensures
        match r {
            Some(i) => key_index(release_entries(*m), k@) == Some(i as int),
            None => key_index(release_entries(*m), k@) is None,
        },
{
    m.get_index_of(k)
}

/// Relies on `IndexMap::len`: the number of entries.
#[verifier::external_body]
pub fn release_map_len(m: &IndexMap<String, Release>) -> (r: usize)
    ensures
        r == release_entries(*m).len(),
{
    m.len()
}

/// Relies on `IndexMap::get_index`: the release at place `i`, which exists.
#[verifier::external_body]
pub fn release_map_get(m: &IndexMap<String, Release>, i: usize) -> (r: &Release)
    requires
        i < release_entries(*m).len(),
    ensures
        *r == release_entries(*m)[i as int].1,
{
    m.get_index(i).unwrap().1
}

} // verus!

verus! {

/// `key_index` finds the first entry with the key, and only when there is one.
pub proof fn lemma_key_index<K, V>(s: Seq<(K, V)>, k: K)
    ensures
        match key_index(s, k) {
            Some(i) => 0 <= i < s.len() && s[i].0 == k && forall|j: int| 0 <= j < i ==> s[j].0 != k,
            None => forall|j: int| 0 <= j < s.len() ==> s[j].0 != k,
        },
    decreases s.len(),
{
    if s.len() > 0 {
        lemma_key_index(s.drop_last(), k);
        assert forall|j: int| 0 <= j < s.len() - 1 implies s.drop_last()[j] == s[j] by {}
    }
}

/// Relies on `IndexMap::new`: an empty map.
#[verifier::external_body]
pub fn link_map_new() -> (r: IndexMap<String, ReleaseLink>)
    ensures
        link_entries(r) == Seq::<(Seq<char>, ReleaseLink)>::empty(),
{
    IndexMap::new()
}

/// Relies on `IndexMap::insert`, as its documentation states it.
#[verifier::external_body]
pub fn link_map_insert(m: &mut IndexMap<String, ReleaseLink>, k: String, v: ReleaseLink)
    ensures
        link_entries(*final(m)) == inserted(link_entries(*old(m)), k@, v),
{
    m.insert(k, v);
}

/// Relies on `IndexMap::get_index_of`: the place of key `k`, if present.
#[verifier::external_body]
pub fn link_map_index_of(m: &IndexMap<String, ReleaseLink>, k: &str) -> (r: Option<usize>)
    ensures
        match r {
            Some(i) => key_index(link_entries(*m), k@) == Some(i as int),
            None => key_index(link_entries(*m), k@) is None,
        },
{
    m.get_index_of(k)
}

/// Relies on `IndexMap::get_index`: the link at place `i`, which exists.
#[verifier::external_body]
pub fn link_map_get(m: &IndexMap<String, ReleaseLink>, i: usize) -> (r: &ReleaseLink)
    requires
        i < link_entries(*m).len(),
    ensures
        *r == link_entries(*m)[i as int].1,
{
    m.get_index(i).unwrap().1
}

/// Relies on `IndexMap::new`: an empty map.
#[verifier::external_body]
pub fn seen_map_new() -> (r: IndexMap<String, (bool, bool)>)
    ensures
        seen_entries(r) == Seq::<(Seq<char>, (bool, bool))>::empty(),
{
    IndexMap::new()
}

/// Relies on `IndexMap::insert`, as its documentation states it.
#[verifier::external_body]
pub fn seen_map_insert(m: &mut IndexMap<String, (bool, bool)>, k: String, v: (bool, bool))
    ensures
        seen_entries(*final(m)) == inserted(seen_entries(*old(m)), k@, v),
{
    m.insert(k, v);
}

/// Relies on `IndexMap::get_full`: the place and value of key `k`, if present.
#[verifier::external_body]
pub fn seen_map_get(m: &IndexMap<String, (bool, bool)>, k: &str) -> (r: Option<(usize, (bool, bool))>)
    ensures
        match r {
            Some((i, v)) => key_index(seen_entries(*m), k@) == Some(i as int) && i < seen_entries(*m).len()
                && seen_entries(*m)[i as int].1 == v,
            None => key_index(seen_entries(*m), k@) is None,
        },
{
    m.get_full(k).map(|(i, _, v)| (i, *v))
}

} // verus!

verus! {

/// After `inserted`, key `k` holds `v`, and every other key keeps its entry.
pub proof fn lemma_inserted<K, V>(s: Seq<(K, V)>, k: K, v: V, q: K)
    ensures
        q == k ==> (key_index(inserted(s, k, v), q) matches Some(i) && inserted(s, k, v)[i].1 == v),
        q != k ==> key_index(inserted(s, k, v), q) == key_index(s, q),
        q != k ==> (key_index(s, q) matches Some(i) ==> inserted(s, k, v)[i] == s[i]),
{
    let t = inserted(s, k, v);
    lemma_key_index(s, k);
    lemma_key_index(s, q);
    lemma_key_index(t, q);
    match key_index(s, k) {
        Some(i) => {
            assert(t == s.update(i, (k, v)));
            assert(t[i] == (k, v));
            match (key_index(t, q), key_index(s, q)) {
                (Some(a), Some(b)) => {
                    if a < b {
                        assert(t[a].0 == q);
                        if a != i { assert(s[a] == t[a]); }
                    } else if b < a {
                        if b == i { assert(s[b].0 == k); } else { assert(t[b] == s[b]); }
                    }
                },
                (Some(a), None) => {
                    if a != i { assert(s[a] == t[a]); }
                },
                (None, Some(b)) => {
                    if b == i { assert(t[b].0 == k); } else { assert(t[b] == s[b]); }
                },
                (None, None) => {},
            }
        },
        None => {
            assert(t == s.push((k, v)));
            assert(t[s.len() as int] == (k, v));
            match (key_index(t, q), key_index(s, q)) {
                (Some(a), Some(b)) => {
                    if a < b {
                        if a < s.len() { assert(s[a] == t[a]); }
                    } else if b < a {
                        assert(t[b] == s[b]);
                    }
                },
                (Some(a), None) => {
                    if a < s.len() { assert(s[a] == t[a]); }
                },
                (None, Some(b)) => {
                    assert(t[b] == s[b]);
                },
                (None, None) => {},
            }
        },
    }
}

} // verus!
