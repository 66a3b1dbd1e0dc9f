//! The releases of a changelog, newest first.
use vstd::prelude::*;
use indexmap::IndexMap;
use crate::ordered_maps::{
    inserted, key_index, lemma_key_index, release_entries, release_map_get, release_map_index_of,
    release_map_insert, release_map_insert_first, release_map_len, release_map_new,
};
use crate::release::{same_release, Release};
use crate::release_version::ReleaseVersion;

verus! {

/// Whether a release of version `v` is in `s`.
pub open spec fn has_version(s: Seq<Release>, v: Seq<char>) -> bool {
    exists|i: int| 0 <= i < s.len() && #[trigger] s[i].version@ == v
}

/// No version appears twice.
pub open spec fn unique_versions(s: Seq<Release>) -> bool {
    forall|i: int, j: int| 0 <= i < j < s.len() ==> s[i].version@ != s[j].version@
}

proof fn lemma_unique_values(s: Seq<(Seq<char>, Release)>)
    requires
        keyed_ok(s),
    ensures
        unique_versions(values(s)),
{
    assert forall|i: int, j: int| 0 <= i < j < values(s).len() implies values(s)[i].version@
        != values(s)[j].version@ by {
        assert(s[i].0 == s[i].1.version@ && s[j].0 == s[j].1.version@);
    }
}

/// Each release paired with its version.
pub open spec fn version_keyed(s: Seq<Release>) -> Seq<(Seq<char>, Release)> {
    s.map_values(|r: Release| (r.version@, r))
}

/// `s` with release `r` stored: in the place of the release of the same
/// version when there is one, else last.
pub open spec fn spec_insert_release(s: Seq<Release>, r: Release) -> Seq<Release> {
    match key_index(version_keyed(s), r.version@) {
        Some(i) => s.update(i, r),
        None => s.push(r),
    }
}

/// The releases that storing each of `rs` in turn gives, starting from none.
pub open spec fn spec_from_releases(rs: Seq<Release>) -> Seq<Release>
    decreases rs.len(),
{
    if rs.len() == 0 {
        Seq::empty()
    } else {
        spec_insert_release(spec_from_releases(rs.drop_last()), rs.last())
    }
}

/// Map entries keyed by their release's version, no key twice.
pub open spec fn keyed_ok(s: Seq<(Seq<char>, Release)>) -> bool {
    &&& forall|i: int| 0 <= i < s.len() ==> (#[trigger] s[i]).0 == s[i].1.version@
    &&& forall|i: int, j: int| 0 <= i < j < s.len() ==> s[i].0 != s[j].0
}

pub open spec fn values(s: Seq<(Seq<char>, Release)>) -> Seq<Release> {
    s.map_values(|e: (Seq<char>, Release)| e.1)
}

proof fn lemma_keyed(s: Seq<(Seq<char>, Release)>)
    requires
        keyed_ok(s),
    ensures
        version_keyed(values(s)) == s,
{
    assert(version_keyed(values(s)) =~= s);
}

/// The list of releases in the changelog: an ordered map from version to
/// release.
#[derive(Debug, PartialEq, Eq)]
pub struct Releases {
    map: IndexMap<String, Release>,
}

impl View for Releases {
    type V = Seq<Release>;

    closed spec fn view(&self) -> Seq<Release> {
        values(release_entries(self.map))
    }
}

impl Releases {
    #[verifier::type_invariant]
    spec fn keyed_by_version(self) -> bool {
        keyed_ok(release_entries(self.map))
    }

    /// No releases.
    pub fn new() -> (r: Releases)
        ensures
            r@ == Seq::<Release>::empty(),
            unique_versions(r@),
    {
        let r = Releases { map: release_map_new() };
        assert(r@ =~= Seq::<Release>::empty());
        r
    }

    fn find(&self, version: &ReleaseVersion) -> (r: Option<usize>)
        ensures
            match r {
                Some(i) => i < self@.len() && self@[i as int].version@ == version@,
                None => !has_version(self@, version@),
            },
    {
        proof {
            use_type_invariant(self);
            lemma_key_index(release_entries(self.map), version@);
        }
        let r = release_map_index_of(&self.map, version.as_str());
        proof {
            let s = release_entries(self.map);
            if r is None {
                assert forall|i: int| 0 <= i < self@.len() implies #[trigger] self@[i].version@ != version@ by {
                    assert(s[i].0 == s[i].1.version@);
                }
            }
        }
        r
    }

    /// Returns the release matching the requested `version` if it exists in the changelog.
    pub fn get_version(&self, version: &ReleaseVersion) -> (r: Option<&Release>)
        ensures
            match r {
                Some(x) => has_version(self@, version@) && x.version@ == version@ && exists|i: int|
                    0 <= i < self@.len() && self@[i] == *x,
                None => !has_version(self@, version@),
            },
    {
        match self.find(version) {
            Some(i) => Some(release_map_get(&self.map, i)),
            None => None,
        }
    }

    /// Returns true if the requested `version` exists in the changelog.
    pub fn contains_version(&self, version: &ReleaseVersion) -> (r: bool)
        ensures
            r == has_version(self@, version@),
    {
        self.find(version).is_some()
    }

    /// The releases, in order.
    pub fn iter(&self) -> (r: Vec<&Release>)
        ensures
            r@.len() == self@.len(),
            forall|i: int| 0 <= i < r@.len() ==> *(#[trigger] r@[i]) == self@[i],
            unique_versions(self@),
    {
        proof {
            use_type_invariant(self);
            lemma_unique_values(release_entries(self.map));
        }
        let n = release_map_len(&self.map);
        let mut r: Vec<&Release> = Vec::new();
        let mut i: usize = 0;
        while i < n
            invariant
                n == self@.len(),
                i <= n,
                r@.len() == i,
                forall|j: int| 0 <= j < i ==> *(#[trigger] r@[j]) == self@[j],
            decreases n - i,
        {
            r.push(release_map_get(&self.map, i));
            i = i + 1;
        }
        r
    }

    /// Puts `release` first, before every other release.
    pub fn prepend(&mut self, release: Release)
        requires
            !has_version(old(self)@, release.version@),
        ensures
            final(self)@ == seq![release].add(old(self)@),
            unique_versions(final(self)@),
    {
        proof {
            use_type_invariant(&*self);
        }
        let ghost s = release_entries(self.map);
        let ghost r0 = release;
        let key = String::from_str(release.version.as_str());
        proof {
            lemma_key_index(s, key@);
            if key_index(s, key@) is Some {
                let i = key_index(s, key@)->0;
                assert(values(s)[i].version@ == key@);
            }
        }
        let mut map = release_map_new();
        std::mem::swap(&mut map, &mut self.map);
        release_map_insert_first(&mut map, key, release);
        proof {
            let t = release_entries(map);
            assert(t =~= seq![(r0.version@, r0)] + s);
            assert forall|i: int, j: int| 0 <= i < j < t.len() implies t[i].0 != t[j].0 by {
                if i == 0 {
                    assert(values(s)[j - 1].version@ == s[j - 1].0);
                }
            }
            assert(values(t) =~= seq![r0].add(values(s)));
        }
        self.map = map;
        proof {
            use_type_invariant(&*self);
            lemma_unique_values(release_entries(self.map));
        }
    }

    /// Stores `release`: in the place of the release of the same version
    /// when there is one, else last.
    fn insert(&mut self, release: Release)
        ensures
            final(self)@ == spec_insert_release(old(self)@, release),
    {
        proof {
            use_type_invariant(&*self);
        }
        let ghost s = release_entries(self.map);
        let ghost r0 = release;
        proof {
            lemma_keyed(s);
            lemma_key_index(s, r0.version@);
        }
        let key = String::from_str(release.version.as_str());
        let mut map = release_map_new();
        std::mem::swap(&mut map, &mut self.map);
        release_map_insert(&mut map, key, release);
        proof {
            let t = release_entries(map);
            assert(t == inserted(s, r0.version@, r0));
            assert forall|i: int, j: int| 0 <= i < j < t.len() implies t[i].0 != t[j].0 by {
                if j < s.len() {
                    assert(s[i].0 != s[j].0);
                }
            }
            match key_index(s, r0.version@) {
                Some(i) => {
                    assert(values(t) =~= values(s).update(i, r0));
                },
                None => {
                    assert(values(t) =~= values(s).push(r0));
                },
            }
        }
        self.map = map;
    }

    /// Stores each release in turn: a version seen again replaces the
    /// release it had and keeps its place.
    pub fn from_releases(releases: Vec<Release>) -> (r: Releases)
        ensures
            r@ == spec_from_releases(releases@),
            unique_versions(r@),
    {
        let ghost rs = releases@;
        let mut releases = releases;
        let mut rev: Vec<Release> = Vec::new();
        while releases.len() > 0
            invariant
                releases@.len() + rev@.len() == rs.len(),
                forall|j: int| 0 <= j < releases@.len() ==> #[trigger] releases@[j] == rs[j],
                forall|j: int| 0 <= j < rev@.len() ==> #[trigger] rev@[j] == rs[rs.len() - 1 - j],
            decreases releases@.len(),
        {
            let e = releases.pop().unwrap();
            rev.push(e);
        }
        let mut out = Releases::new();
        let mut k: usize = 0;
        let n = rev.len();
        while rev.len() > 0
            invariant
                n == rs.len(),
                k + rev@.len() == n,
                forall|j: int| 0 <= j < rev@.len() ==> #[trigger] rev@[j] == rs[rs.len() - 1 - j],
                out@ == spec_from_releases(rs.take(k as int)),
            decreases rev@.len(),
        {
            let e = rev.pop().unwrap();
            proof {
                assert(e == rs[k as int]);
                assert(rs.take(k + 1).drop_last() =~= rs.take(k as int));
            }
            out.insert(e);
            k = k + 1;
        }
        proof {
            assert(rs.take(k as int) =~= rs);
            use_type_invariant(&out);
            lemma_unique_values(release_entries(out.map));
        }
        out
    }
}


impl Default for Releases {
    fn default() -> (r: Releases)
        ensures
            r@ == Seq::<Release>::empty(),
    {
        Releases::new()
    }
}


impl Clone for Releases {
    /// A copy with the same releases in the same order.
    fn clone(&self) -> (r: Releases)
        ensures
            r@.len() == self@.len(),
            forall|i: int| 0 <= i < r@.len() ==> same_release(#[trigger] r@[i], self@[i]),
    {
        proof {
            use_type_invariant(self);
        }
        let ghost s = release_entries(self.map);
        let n = release_map_len(&self.map);
        let mut map = release_map_new();
        let mut i: usize = 0;
        while i < n
            invariant
                s == release_entries(self.map),
                keyed_ok(s),
                n == s.len(),
                i <= n,
                release_entries(map).len() == i,
                keyed_ok(release_entries(map)),
                forall|m: int|
                    0 <= m < i ==> (#[trigger] release_entries(map)[m]).0 == s[m].0 && same_release(
                        release_entries(map)[m].1,
                        s[m].1,
                    ),
            decreases n - i,
        {
            let release = release_map_get(&self.map, i);
            let copy = release.clone();
            let key = String::from_str(copy.version.as_str());
            let ghost t = release_entries(map);
            proof {
                lemma_key_index(t, key@);
                assert forall|m: int| 0 <= m < t.len() implies t[m].0 != key@ by {
                    assert(t[m].0 == s[m].0);
                    assert(s[i as int].0 == s[i as int].1.version@);
                    assert(s[m].0 != s[i as int].0);
                }
            }
            release_map_insert(&mut map, key, copy);
            proof {
                let u = release_entries(map);
                assert(u == t.push((key@, copy)));
                assert forall|a: int, b: int| 0 <= a < b < u.len() implies u[a].0 != u[b].0 by {
                    if b == t.len() {
                        assert(t[a].0 == s[a].0);
                        assert(s[a].0 != s[i as int].0);
                        assert(s[i as int].0 == s[i as int].1.version@);
                    }
                }
            }
            i = i + 1;
        }
        let r = Releases { map };
        proof {
            assert forall|m: int| 0 <= m < r@.len() implies same_release(#[trigger] r@[m], self@[m]) by {
                assert(r@[m] == release_entries(map)[m].1);
            }
        }
        r
    }
}

} // verus!
