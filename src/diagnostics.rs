//! Diagnostics: the `Error` nodes of a tree, duplicate change groups, empty
//! releases, and release links that do not match the releases.
use vstd::prelude::*;
use std::collections::HashSet;
use indexmap::IndexMap;
use crate::ordered_maps::{key_index, lemma_inserted, lemma_key_index, seen_entries, seen_map_get, seen_map_insert, seen_map_new};
use crate::changes::{code_of, group_code};
use crate::change_group::ChangeGroup;
use crate::position::{default_position, Position};
use crate::release_tag::ReleaseTag;
use crate::release_version::ReleaseVersion;
use crate::text::concat3;
use crate::tree::{
    child_positions, children_positions, children_subtrees, child_subtrees, spec_tree_position,
    tree_subtrees, Child, ReleaseLinkType, Tree, TreeKind,
};

verus! {

/// Describes a problem or hint for a piece of the changelog document.
#[derive(Debug, PartialEq, Eq)]
pub struct Diagnostic {
    /// The message associated with this diagnostic.
    pub message: String,
    /// Location of the diagnostic in a changelog document.
    pub position: Position,
}

impl View for Diagnostic {
    type V = (Seq<char>, Position);

    open spec fn view(&self) -> (Seq<char>, Position) {
        (self.message@, self.position)
    }
}

impl Diagnostic {
    /// The diagnostic as `line:column message`.
    pub fn to_string(&self) -> (r: String)
        ensures
            r@ == spec_usize_text(self.position.start.line as nat) + ":"@ + spec_usize_text(
                self.position.start.column as nat,
            ) + " "@ + self.message@,
    {
        let mut s = crate::text::concat2(usize_text(self.position.start.line).as_str(), ":");
        s.append(usize_text(self.position.start.column).as_str());
        s.append(" ");
        s.append(self.message.as_str());
        s
    }
}

/// The decimal digits of a number.
pub open spec fn spec_usize_text(n: nat) -> Seq<char>
    decreases n,
{
    let d = (n % 10) as int;
    let c = "0123456789"@[d];
    if n < 10 {
        seq![c]
    } else {
        spec_usize_text(n / 10).push(c)
    }
}

fn usize_text(n: usize) -> (r: String)
    ensures
        r@ == spec_usize_text(n as nat),
    decreases n,
{
    let digits = "0123456789";
    proof {
        reveal_strlit("0123456789");
    }
    let d = n % 10;
    let c = digits.substring_char(d, d + 1);
    if n < 10 {
        proof {
            assert(c@ =~= seq!["0123456789"@[d as int]]);
        }
        String::from_str(c)
    } else {
        let mut s = usize_text(n / 10);
        s.append(c);
        proof {
            assert(c@ =~= seq!["0123456789"@[d as int]]);
        }
        s
    }
}

/// The change group a subtree's heading names, when it is a change group heading.
pub open spec fn header_group(t: Tree) -> Option<ChangeGroup> {
    match t.kind {
        TreeKind::ChangeGroupHeader(g) => Some(g),
        _ => None,
    }
}

/// The diagnostics for change group headings among `subs[0..n]` that repeat
/// an earlier one.
pub open spec fn group_duplicates(subs: Seq<Tree>, n: int) -> Seq<(Seq<char>, Position)>
    decreases n,
{
    if n <= 0 {
        Seq::empty()
    } else {
        group_duplicates(subs, n - 1) + match header_group(subs[n - 1]) {
            Some(g) => if exists|j: int| 0 <= j < n - 1 && header_group(#[trigger] subs[j]) == Some(g) {
                seq![("Duplicate change group found"@, spec_tree_position(subs[n - 1]))]
            } else {
                Seq::empty()
            },
            None => Seq::empty(),
        }
    }
}

/// Whether a release's heading carries the NO CHANGES tag.
pub open spec fn tagged_no_changes(t: Tree) -> bool {
    exists|i: int|
        0 <= i < t.children@.len() && (#[trigger] t.children@[i] matches Child::Tree(c)
            && c.kind matches TreeKind::ReleaseHeader(_, _, Some(tag)) && tag == ReleaseTag::NoChanges)
}

/// The change group diagnostics of a Release or Unreleased subtree:
/// repeated change groups, and for a release, no change group at all while
/// not tagged NO CHANGES.
pub open spec fn group_diagnostics(t: Tree) -> Seq<(Seq<char>, Position)> {
    let subs = tree_subtrees(t);
    group_duplicates(subs, subs.len() as int) + if t.kind is Release && !(exists|j: int|
        0 <= j < subs.len() && #[trigger] header_group(subs[j]) is Some) && !tagged_no_changes(t) {
        seq![
            (
                "Release must have at least one change group listed or be tagged with [NO CHANGES]"@,
                spec_tree_position(t),
            ),
        ]
    } else {
        Seq::empty()
    }
}

/// The diagnostics that one subtree gives by itself.
pub open spec fn local_diagnostics(t: Tree) -> Seq<(Seq<char>, Position)> {
    match t.kind {
        TreeKind::Error(m) => seq![(m@, spec_tree_position(t))],
        TreeKind::Release => group_diagnostics(t),
        TreeKind::Unreleased => group_diagnostics(t),
        _ => Seq::empty(),
    }
}

/// The local diagnostics of `subs[0..n]`, in order.
pub open spec fn all_local(subs: Seq<Tree>, n: int) -> Seq<(Seq<char>, Position)>
    decreases n,
{
    if n <= 0 {
        Seq::empty()
    } else {
        all_local(subs, n - 1) + local_diagnostics(subs[n - 1])
    }
}

/// The version of a release heading subtree.
pub open spec fn header_version(t: Tree) -> Option<Seq<char>> {
    match t.kind {
        TreeKind::ReleaseHeader(v, _, _) => Some(v@),
        _ => None,
    }
}

/// The version of a versioned release link subtree.
pub open spec fn link_version(t: Tree) -> Option<Seq<char>> {
    match t.kind {
        TreeKind::ReleaseLink(ReleaseLinkType::Versioned(v, _)) => Some(v@),
        _ => None,
    }
}

pub open spec fn header_before(subs: Seq<Tree>, n: int, v: Seq<char>) -> bool {
    exists|j: int| 0 <= j < n && #[trigger] header_version(subs[j]) == Some(v)
}

pub open spec fn link_before(subs: Seq<Tree>, n: int, v: Seq<char>) -> bool {
    exists|j: int| 0 <= j < n && #[trigger] link_version(subs[j]) == Some(v)
}

/// The diagnostic for `subs[i]` when it repeats an earlier release heading
/// or versioned release link of the same version.
pub open spec fn version_duplicate(subs: Seq<Tree>, i: int) -> Seq<(Seq<char>, Position)> {
    match header_version(subs[i]) {
        Some(v) => if header_before(subs, i, v) {
            seq![("Duplicate release version '"@ + v + "' found"@, spec_tree_position(subs[i]))]
        } else {
            Seq::empty()
        },
        None => match link_version(subs[i]) {
            Some(v) => if link_before(subs, i, v) {
                seq![("Duplicate release version link '"@ + v + "' found"@, spec_tree_position(subs[i]))]
            } else {
                Seq::empty()
            },
            None => Seq::empty(),
        },
    }
}

pub open spec fn version_duplicates(subs: Seq<Tree>, n: int) -> Seq<(Seq<char>, Position)>
    decreases n,
{
    if n <= 0 {
        Seq::empty()
    } else {
        version_duplicates(subs, n - 1) + version_duplicate(subs, n - 1)
    }
}

/// The diagnostic for `subs[i]` when it is the first link of a version that
/// no release heading anywhere declares.
pub open spec fn orphan_link(subs: Seq<Tree>, i: int) -> Seq<(Seq<char>, Position)> {
    match link_version(subs[i]) {
        Some(v) => if !link_before(subs, i, v) && !header_before(subs, subs.len() as int, v) {
            seq![("Release link version does not match any listed releases"@, spec_tree_position(subs[i]))]
        } else {
            Seq::empty()
        },
        None => Seq::empty(),
    }
}

pub open spec fn orphan_links(subs: Seq<Tree>, n: int) -> Seq<(Seq<char>, Position)>
    decreases n,
{
    if n <= 0 {
        Seq::empty()
    } else {
        orphan_links(subs, n - 1) + orphan_link(subs, n - 1)
    }
}

/// Every diagnostic of a changelog tree, in order: for each subtree in
/// depth-first pre-order its `Error` message or its change group problems;
/// then repeated release versions and release links; then links that match
/// no release.
pub open spec fn spec_diagnostics(t: Tree) -> Seq<(Seq<char>, Position)> {
    let subs = tree_subtrees(t);
    let n = subs.len() as int;
    all_local(subs, n) + version_duplicates(subs, n) + orphan_links(subs, n)
}


proof fn lemma_children_positions_step(cs: Seq<Child>, i: int)
    requires
        0 <= i < cs.len(),
    ensures
        children_positions(cs.take(i + 1)) == children_positions(cs.take(i)) + child_positions(cs[i]),
{
    assert(cs.take(i + 1).subrange(0, i) =~= cs.take(i));
}

proof fn lemma_children_subtrees_step(cs: Seq<Child>, i: int)
    requires
        0 <= i < cs.len(),
    ensures
        children_subtrees(cs.take(i + 1)) == children_subtrees(cs.take(i)) + child_subtrees(cs[i]),
{
    assert(cs.take(i + 1).subrange(0, i) =~= cs.take(i));
}

/// Appends the positions under `cs`, in document order.
fn collect_positions(cs: &Vec<Child>, out: &mut Vec<Position>)
    ensures
        final(out)@ == old(out)@ + children_positions(cs@),
    decreases cs@,
{
    let ghost start = out@;
    let mut i: usize = 0;
    while i < cs.len()
        invariant
            i <= cs@.len(),
            out@ == start + children_positions(cs@.take(i as int)),
        decreases cs@.len() - i,
    {
        proof {
            lemma_children_positions_step(cs@, i as int);
        }
        let ghost before = out@;
        match &cs[i] {
            Child::Markdown(b) => {
                match b.position {
                    Some(p) => out.push(p),
                    None => {},
                }
            },
            Child::Tree(t) => {
                assert(decreases_to!(cs@ => cs@[i as int]));
                collect_positions(&t.children, out);
            },
            Child::Dummy(p) => out.push(*p),
        }
        proof {
            assert(out@ =~= before + child_positions(cs@[i as int]));
        }
        i = i + 1;
    }
    proof {
        assert(cs@.take(cs@.len() as int) =~= cs@);
    }
}

/// The span of a tree: from the start of its first position to the end of
/// its last, or line 1, column 1, offset 0 when it holds none.
pub fn tree_position(t: &Tree) -> (r: Position)
    ensures
        r == spec_tree_position(*t),
{
    let mut ps: Vec<Position> = Vec::new();
    collect_positions(&t.children, &mut ps);
    proof {
        assert(ps@ =~= children_positions(t.children@));
    }
    if ps.len() == 0 {
        default_position()
    } else {
        Position { start: ps[0].start, end: ps[ps.len() - 1].end }
    }
}

/// The trees that a sequence of references points at.
pub open spec fn derefs(s: Seq<&Tree>) -> Seq<Tree> {
    s.map_values(|t: &Tree| *t)
}

/// Appends the subtrees under `cs` in depth-first pre-order.
fn collect_subtrees<'a>(cs: &'a Vec<Child>, out: &mut Vec<&'a Tree>)
    ensures
        derefs(final(out)@) == derefs(old(out)@) + children_subtrees(cs@),
    decreases cs@,
{
    let ghost start = derefs(out@);
    let mut i: usize = 0;
    while i < cs.len()
        invariant
            i <= cs@.len(),
            derefs(out@) == start + children_subtrees(cs@.take(i as int)),
        decreases cs@.len() - i,
    {
        proof {
            lemma_children_subtrees_step(cs@, i as int);
        }
        let ghost before = derefs(out@);
        match &cs[i] {
            Child::Tree(t) => {
                out.push(t);
                proof {
                    assert(derefs(out@) =~= before + seq![*t]);
                }
                assert(decreases_to!(cs@ => cs@[i as int]));
                collect_subtrees(&t.children, out);
            },
            _ => {},
        }
        proof {
            assert(derefs(out@) =~= before + child_subtrees(cs@[i as int]));
        }
        i = i + 1;
    }
    proof {
        assert(cs@.take(cs@.len() as int) =~= cs@);
    }
}


/// The views of a sequence of diagnostics.
pub open spec fn diagnostic_views(v: Seq<Diagnostic>) -> Seq<(Seq<char>, Position)> {
    v.map_values(|d: Diagnostic| d@)
}

proof fn lemma_views_push(v: Seq<Diagnostic>, d: Diagnostic)
    ensures
        diagnostic_views(v.push(d)) == diagnostic_views(v) + seq![d@],
{
    assert(diagnostic_views(v.push(d)) =~= diagnostic_views(v) + seq![d@]);
}

fn push_diagnostic(out: &mut Vec<Diagnostic>, message: String, position: Position)
    ensures
        diagnostic_views(final(out)@) == diagnostic_views(old(out)@) + seq![(message@, position)],
{
    let d = Diagnostic { message, position };
    proof {
        lemma_views_push(out@, d);
    }
    out.push(d);
}

fn group_of(t: &Tree) -> (r: Option<ChangeGroup>)
    ensures
        r == header_group(*t),
{
    match &t.kind {
        TreeKind::ChangeGroupHeader(g) => Some(*g),
        _ => None,
    }
}

fn has_no_changes_tag(t: &Tree) -> (r: bool)
    ensures
        r == tagged_no_changes(*t),
{
    let mut i: usize = 0;
    while i < t.children.len()
        invariant
            i <= t.children@.len(),
            forall|j: int| 0 <= j < i ==> !(#[trigger] t.children@[j] matches Child::Tree(c)
                && c.kind matches TreeKind::ReleaseHeader(_, _, Some(tag)) && tag == ReleaseTag::NoChanges),
        decreases t.children@.len() - i,
    {
        match &t.children[i] {
            Child::Tree(c) => {
                match &c.kind {
                    TreeKind::ReleaseHeader(_, _, Some(ReleaseTag::NoChanges)) => {
                        return true;
                    },
                    _ => {},
                }
            },
            _ => {},
        }
        i = i + 1;
    }
    false
}

/// Appends the change group diagnostics of a Release or Unreleased subtree.
fn push_group_diagnostics(t: &Tree, out: &mut Vec<Diagnostic>)
    ensures
        diagnostic_views(final(out)@) == diagnostic_views(old(out)@) + group_diagnostics(*t),
{
    broadcast use vstd::std_specs::hash::group_hash_axioms;

    let mut subs: Vec<&Tree> = Vec::new();
    collect_subtrees(&t.children, &mut subs);
    let ghost st = tree_subtrees(*t);
    proof {
        assert(derefs(subs@) =~= st);
    }
    let ghost start = diagnostic_views(out@);
    let mut any_group = false;
    let mut seen: HashSet<u8> = HashSet::new();
    let mut i: usize = 0;
    while i < subs.len()
        invariant
            derefs(subs@) == st,
            i <= subs@.len(),
            diagnostic_views(out@) == start + group_duplicates(st, i as int),
            any_group == exists|j: int| 0 <= j < i && #[trigger] header_group(st[j]) is Some,
            forall|g: ChangeGroup|
                seen@.contains(#[trigger] group_code(g)) <==> exists|j: int|
                    0 <= j < i && header_group(#[trigger] st[j]) == Some(g),
            forall|c: u8| seen@.contains(c) ==> c < 6,
        decreases subs@.len() - i,
    {
        assert(st[i as int] == *subs@[i as int]);
        match group_of(subs[i]) {
            Some(g) => {
                let code = code_of(g);
                if seen.contains(&code) {
                    let p = tree_position(subs[i]);
                    push_diagnostic(out, String::from_str("Duplicate change group found"), p);
                }
                seen.insert(code);
                any_group = true;
                proof {
                    assert forall|h: ChangeGroup|
                        seen@.contains(#[trigger] group_code(h)) <==> exists|j: int|
                            0 <= j < i + 1 && header_group(#[trigger] st[j]) == Some(h) by {
                        if group_code(h) == group_code(g) {
                            assert(h == g);
                        }
                    }
                }
            },
            None => {},
        }
        proof {
            assert(diagnostic_views(out@) =~= start + group_duplicates(st, i + 1));
        }
        i = i + 1;
    }
    if matches!(t.kind, TreeKind::Release) && !any_group && !has_no_changes_tag(t) {
        let p = tree_position(t);
        push_diagnostic(
            out,
            String::from_str("Release must have at least one change group listed or be tagged with [NO CHANGES]"),
            p,
        );
    }
    proof {
        assert(diagnostic_views(out@) =~= start + group_diagnostics(*t));
    }
}

/// Appends the diagnostics that one subtree gives by itself.
fn push_local(t: &Tree, out: &mut Vec<Diagnostic>)
    ensures
        diagnostic_views(final(out)@) == diagnostic_views(old(out)@) + local_diagnostics(*t),
{
    match &t.kind {
        TreeKind::Error(m) => {
            let p = tree_position(t);
            push_diagnostic(out, m.clone(), p);
        },
        TreeKind::Release => push_group_diagnostics(t, out),
        TreeKind::Unreleased => push_group_diagnostics(t, out),
        _ => {
            assert(diagnostic_views(out@) =~= diagnostic_views(out@) + local_diagnostics(*t));
        },
    }
}


fn header_version_of(t: &Tree) -> (r: Option<&ReleaseVersion>)
    ensures
        match r {
            Some(v) => header_version(*t) == Some(v@),
            None => header_version(*t) is None,
        },
{
    match &t.kind {
        TreeKind::ReleaseHeader(v, _, _) => Some(v),
        _ => None,
    }
}

fn link_version_of(t: &Tree) -> (r: Option<&ReleaseVersion>)
    ensures
        match r {
            Some(v) => link_version(*t) == Some(v@),
            None => link_version(*t) is None,
        },
{
    match &t.kind {
        TreeKind::ReleaseLink(ReleaseLinkType::Versioned(v, _)) => Some(v),
        _ => None,
    }
}

/// What the map says of version `v`, found at `at`, agrees with the first
/// `i` subtrees: whether a release heading and a release link of `v` stand
/// among them.
pub open spec fn seen_agrees(e: Seq<(Seq<char>, (bool, bool))>, subs: Seq<Tree>, i: int, v: Seq<char>, at: Option<int>) -> bool {
    match at {
        Some(k) => 0 <= k < e.len() && e[k].1 == (header_before(subs, i, v), link_before(subs, i, v)),
        None => !header_before(subs, i, v) && !link_before(subs, i, v),
    }
}

pub open spec fn seen_agree(e: Seq<(Seq<char>, (bool, bool))>, subs: Seq<Tree>, i: int) -> bool {
    forall|v: Seq<char>| seen_agrees(e, subs, i, v, #[trigger] key_index(e, v))
}

proof fn lemma_before_step(subs: Seq<Tree>, i: int, v: Seq<char>)
    requires
        0 <= i < subs.len(),
    ensures
        header_before(subs, i + 1, v) == (header_before(subs, i, v) || header_version(subs[i]) == Some(v)),
        link_before(subs, i + 1, v) == (link_before(subs, i, v) || link_version(subs[i]) == Some(v)),
{
    if header_version(subs[i]) == Some(v) {
        assert(header_before(subs, i + 1, v));
    }
    if link_version(subs[i]) == Some(v) {
        assert(link_before(subs, i + 1, v));
    }
    if header_before(subs, i + 1, v) && header_version(subs[i]) != Some(v) {
        let j = choose|j: int| 0 <= j < i + 1 && #[trigger] header_version(subs[j]) == Some(v);
        assert(j < i);
    }
    if link_before(subs, i + 1, v) && link_version(subs[i]) != Some(v) {
        let j = choose|j: int| 0 <= j < i + 1 && #[trigger] link_version(subs[j]) == Some(v);
        assert(j < i);
    }
}

/// Whether a release heading and a release link of version `v` stand among
/// the first `i` subtrees, read off their map.
fn seen_of(m: &IndexMap<String, (bool, bool)>, v: &ReleaseVersion, Ghost(subs): Ghost<Seq<Tree>>, Ghost(i): Ghost<int>) -> (r: (bool, bool))
    requires
        seen_agree(seen_entries(*m), subs, i),
    ensures
        r == (header_before(subs, i, v@), link_before(subs, i, v@)),
{
    proof {
        assert(seen_agrees(seen_entries(*m), subs, i, v@, key_index(seen_entries(*m), v@)));
    }
    match seen_map_get(m, v.as_str()) {
        Some((_, seen)) => seen,
        None => (false, false),
    }
}

/// Records in the map what subtree `i` declares.
fn note(m: &mut IndexMap<String, (bool, bool)>, t: &Tree, Ghost(subs): Ghost<Seq<Tree>>, Ghost(i): Ghost<int>)
    requires
        0 <= i < subs.len(),
        subs[i] == *t,
        seen_agree(seen_entries(*old(m)), subs, i),
    ensures
        seen_agree(seen_entries(*final(m)), subs, i + 1),
{
    let ghost e0 = seen_entries(*m);
    match header_version_of(t) {
        Some(v) => {
            let (_, l) = seen_of(m, v, Ghost(subs), Ghost(i));
            seen_map_insert(m, String::from_str(v.as_str()), (true, l));
            proof {
                let e1 = seen_entries(*m);
                assert(header_version(subs[i]) == Some(v@));
                assert(link_version(subs[i]) is None);
                assert forall|w: Seq<char>| seen_agrees(e1, subs, i + 1, w, #[trigger] key_index(e1, w)) by {
                    lemma_inserted(e0, v@, (true, l), w);
                    lemma_before_step(subs, i, w);
                    lemma_key_index(e1, w);
                    assert(seen_agrees(e0, subs, i, w, key_index(e0, w)));
                }
            }
        },
        None => match link_version_of(t) {
            Some(v) => {
                let (h, _) = seen_of(m, v, Ghost(subs), Ghost(i));
                seen_map_insert(m, String::from_str(v.as_str()), (h, true));
                proof {
                    let e1 = seen_entries(*m);
                    assert(link_version(subs[i]) == Some(v@));
                    assert(header_version(subs[i]) is None);
                    assert forall|w: Seq<char>| seen_agrees(e1, subs, i + 1, w, #[trigger] key_index(e1, w)) by {
                        lemma_inserted(e0, v@, (h, true), w);
                        lemma_before_step(subs, i, w);
                        lemma_key_index(e1, w);
                        assert(seen_agrees(e0, subs, i, w, key_index(e0, w)));
                    }
                }
            },
            None => {
                proof {
                    assert forall|w: Seq<char>| seen_agrees(e0, subs, i + 1, w, #[trigger] key_index(e0, w)) by {
                        lemma_before_step(subs, i, w);
                        assert(seen_agrees(e0, subs, i, w, key_index(e0, w)));
                    }
                }
            },
        },
    }
}

/// Every diagnostic of a changelog tree: the message of each `Error` node,
/// each repeated change group within a release or the Unreleased section,
/// each release with no change group that is not tagged NO CHANGES, each
/// repeated release version or release link, and each release link whose
/// version no release declares. The order is fixed by `spec_diagnostics`.
pub fn get_diagnostics(tree: &Tree) -> (r: Vec<Diagnostic>)
    requires
        tree.kind is ChangelogFile,
    ensures
        diagnostic_views(r@) == spec_diagnostics(*tree),
{
    let mut subs: Vec<&Tree> = Vec::new();
    collect_subtrees(&tree.children, &mut subs);
    let ghost st = tree_subtrees(*tree);
    proof {
        assert(derefs(subs@) =~= st);
    }
    let n = subs.len();
    let mut out: Vec<Diagnostic> = Vec::new();
    let mut i: usize = 0;
    while i < n
        invariant
            derefs(subs@) == st,
            n == subs@.len(),
            i <= n,
            diagnostic_views(out@) == all_local(st, i as int),
        decreases n - i,
    {
        assert(st[i as int] == *subs@[i as int]);
        push_local(subs[i], &mut out);
        i = i + 1;
    }
    let ghost locals = diagnostic_views(out@);
    let mut seen = seen_map_new();
    i = 0;
    while i < n
        invariant
            derefs(subs@) == st,
            n == subs@.len(),
            i <= n,
            locals == all_local(st, n as int),
            diagnostic_views(out@) == locals + version_duplicates(st, i as int),
            seen_agree(seen_entries(seen), st, i as int),
        decreases n - i,
    {
        assert(st[i as int] == *subs@[i as int]);
        let t = subs[i];
        match header_version_of(t) {
            Some(v) => {
                if seen_of(&seen, v, Ghost(st), Ghost(i as int)).0 {
                    let p = tree_position(t);
                    push_diagnostic(&mut out, concat3("Duplicate release version '", v.as_str(), "' found"), p);
                }
            },
            None => match link_version_of(t) {
                Some(v) => {
                    if seen_of(&seen, v, Ghost(st), Ghost(i as int)).1 {
                        let p = tree_position(t);
                        push_diagnostic(
                            &mut out,
                            concat3("Duplicate release version link '", v.as_str(), "' found"),
                            p,
                        );
                    }
                },
                None => {},
            },
        }
        proof {
            assert(diagnostic_views(out@) =~= locals + version_duplicates(st, i + 1));
        }
        note(&mut seen, t, Ghost(st), Ghost(i as int));
        i = i + 1;
    }
    let ghost dups = diagnostic_views(out@);
    let mut earlier = seen_map_new();
    i = 0;
    while i < n
        invariant
            derefs(subs@) == st,
            n == subs@.len(),
            i <= n,
            dups == all_local(st, n as int) + version_duplicates(st, n as int),
            diagnostic_views(out@) == dups + orphan_links(st, i as int),
            seen_agree(seen_entries(seen), st, n as int),
            seen_agree(seen_entries(earlier), st, i as int),
        decreases n - i,
    {
        assert(st[i as int] == *subs@[i as int]);
        let t = subs[i];
        match link_version_of(t) {
            Some(v) => {
                if !seen_of(&earlier, v, Ghost(st), Ghost(i as int)).1 && !seen_of(&seen, v, Ghost(st), Ghost(n as int)).0 {
                    let p = tree_position(t);
                    push_diagnostic(
                        &mut out,
                        String::from_str("Release link version does not match any listed releases"),
                        p,
                    );
                }
            },
            None => {},
        }
        proof {
            assert(diagnostic_views(out@) =~= dups + orphan_links(st, i + 1));
        }
        note(&mut earlier, t, Ghost(st), Ghost(i as int));
        i = i + 1;
    }
    out
}

} // verus!
