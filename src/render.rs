//! Writing a changelog back as markdown text.
use vstd::prelude::*;
use crate::seqs::{lemma_take_all, lemma_take_step};
use crate::change_group::{group_name, ChangeGroup};
use crate::changes::{item_views, Changes};
use crate::grammar::{ABOUT_FORMAT_TEXT, NOTABLE_CHANGES_TEXT};
use crate::release::Release;
use crate::release_tag::tag_text;

verus! {

/// The items of a change group as a bullet list, one `- item` per line.
pub open spec fn bullets(items: Seq<Seq<char>>) -> Seq<char>
    decreases items.len(),
{
    if items.len() == 0 {
        Seq::empty()
    } else {
        bullets(items.drop_last()) + (if items.len() > 1 { "\n"@ } else { Seq::empty() }) + "- "@
            + items.last()
    }
}

/// Each change group as a `### Group` heading followed by its bullet list.
pub open spec fn groups_text(s: Seq<(ChangeGroup, Seq<Seq<char>>)>) -> Seq<char>
    decreases s.len(),
{
    if s.len() == 0 {
        Seq::empty()
    } else {
        groups_text(s.drop_last()) + "\n\n### "@ + group_name(s.last().0) + "\n\n"@ + bullets(
            s.last().1,
        )
    }
}

/// A release's heading `## [version] - date`, its tag in brackets if any,
/// and its change groups.
pub open spec fn release_text(r: Release) -> Seq<char> {
    "\n\n## ["@ + r.version@ + "] - "@ + r.date@ + match r.tag {
        Some(t) => " ["@ + tag_text(t) + "]"@,
        None => Seq::empty(),
    } + groups_text(r.changes@)
}

pub open spec fn releases_text(rs: Seq<Release>) -> Seq<char>
    decreases rs.len(),
{
    if rs.len() == 0 {
        Seq::empty()
    } else {
        releases_text(rs.drop_last()) + release_text(rs.last())
    }
}

/// A `[version]: link` line for each release with a link.
pub open spec fn links_text(rs: Seq<Release>) -> Seq<char>
    decreases rs.len(),
{
    if rs.len() == 0 {
        Seq::empty()
    } else {
        links_text(rs.drop_last()) + match rs.last().link {
            Some(l) => "\n["@ + rs.last().version@ + "]: "@ + l@,
            None => Seq::empty(),
        }
    }
}

/// The fixed start of every changelog: title and the two paragraphs.
pub open spec fn preamble() -> Seq<char> {
    "# Changelog\n\n"@ + NOTABLE_CHANGES_TEXT@ + "\n\n"@ + ABOUT_FORMAT_TEXT@ + "\n\n"@
}



/// Appends the bullet list of `items`.
fn push_bullets(out: &mut String, items: &Vec<String>)
    ensures
        final(out)@ == old(out)@ + bullets(items@.map_values(|s: String| s@)),
{
    let ghost start = out@;
    let ghost iv = items@.map_values(|s: String| s@);
    let mut i: usize = 0;
    while i < items.len()
        invariant
            i <= items@.len(),
            iv == items@.map_values(|s: String| s@),
            out@ == start + bullets(iv.take(i as int)),
        decreases items@.len() - i,
    {
        proof {
            lemma_take_step(iv, i as int);
        }
        if i > 0 {
            out.append("\n");
        }
        out.append("- ");
        out.append(items[i].as_str());
        proof {
            reveal_strlit("\n");
            assert(out@ =~= start + bullets(iv.take(i + 1)));
        }
        i = i + 1;
    }
    proof {
        lemma_take_all(iv);
    }
}

/// Appends each change group with its heading and bullet list.
pub fn push_groups(out: &mut String, changes: &Changes)
    ensures
        final(out)@ == old(out)@ + groups_text(changes@),
{
    let entries = changes.iter();
    let ghost start = out@;
    let ghost ev = changes@;
    let mut i: usize = 0;
    while i < entries.len()
        invariant
            i <= entries@.len(),
            ev == changes@,
            entries@.len() == ev.len(),
            forall|j: int|
                0 <= j < entries@.len() ==> (#[trigger] entries@[j]).0 == ev[j].0 && item_views(
                    entries@[j].1@,
                ) == ev[j].1,
            out@ == start + groups_text(ev.take(i as int)),
        decreases entries@.len() - i,
    {
        proof {
            lemma_take_step(ev, i as int);
        }
        out.append("\n\n### ");
        out.append(entries[i].0.name());
        out.append("\n\n");
        push_bullets(out, entries[i].1);
        proof {
            assert(entries@[i as int].0 == ev[i as int].0);
            assert(out@ =~= start + groups_text(ev.take(i + 1)));
        }
        i = i + 1;
    }
    proof {
        lemma_take_all(ev);
    }
}

/// Appends each release with its heading and change groups.
pub fn push_releases(out: &mut String, releases: &Vec<&Release>)
    ensures
        final(out)@ == old(out)@ + releases_text(release_values(releases@)),
{
    let ghost start = out@;
    let ghost rv = release_values(releases@);
    let mut i: usize = 0;
    while i < releases.len()
        invariant
            i <= releases@.len(),
            rv == release_values(releases@),
            rv.len() == releases@.len(),
            out@ == start + releases_text(rv.take(i as int)),
        decreases releases@.len() - i,
    {
        proof {
            lemma_take_step(rv, i as int);
        }
        let r: &Release = releases[i];
        out.append("\n\n## [");
        out.append(r.version.as_str());
        out.append("] - ");
        out.append(r.date.as_str());
        match r.tag {
            Some(t) => {
                out.append(" [");
                out.append(t.text());
                out.append("]");
            },
            None => {},
        }
        push_groups(out, &r.changes);
        proof {
            assert(out@ =~= start + releases_text(rv.take(i + 1)));
        }
        i = i + 1;
    }
    proof {
        lemma_take_all(rv);
    }
}

/// The releases that a sequence of references points at.
pub open spec fn release_values(s: Seq<&Release>) -> Seq<Release> {
    s.map_values(|r: &Release| *r)
}

/// Whether some release has a link.
pub open spec fn any_link(rs: Seq<Release>) -> bool {
    exists|i: int| 0 <= i < rs.len() && (#[trigger] rs[i]).link is Some
}

pub fn has_link(releases: &Vec<&Release>) -> (r: bool)
    ensures
        r == any_link(release_values(releases@)),
{
    let mut i: usize = 0;
    while i < releases.len()
        invariant
            i <= releases@.len(),
            forall|j: int| 0 <= j < i ==> (#[trigger] release_values(releases@)[j]).link is None,
        decreases releases@.len() - i,
    {
        let r: &Release = releases[i];
        if r.link.is_some() {
            assert(release_values(releases@)[i as int].link is Some);
            return true;
        }
        i = i + 1;
    }
    false
}

/// Appends a `[version]: link` line for each release with a link.
pub fn push_links(out: &mut String, releases: &Vec<&Release>)
    ensures
        final(out)@ == old(out)@ + links_text(release_values(releases@)),
{
    let ghost start = out@;
    let ghost rv = release_values(releases@);
    let mut i: usize = 0;
    while i < releases.len()
        invariant
            i <= releases@.len(),
            rv == release_values(releases@),
            rv.len() == releases@.len(),
            out@ == start + links_text(rv.take(i as int)),
        decreases releases@.len() - i,
    {
        proof {
            lemma_take_step(rv, i as int);
        }
        let r: &Release = releases[i];
        match &r.link {
            Some(l) => {
                out.append("\n[");
                out.append(r.version.as_str());
                out.append("]: ");
                out.append(l.as_str());
            },
            None => {},
        }
        proof {
            assert(out@ =~= start + links_text(rv.take(i + 1)));
        }
        i = i + 1;
    }
    proof {
        lemma_take_all(rv);
    }
}

/// The text of a changelog: the fixed preamble, the Unreleased heading and
/// its change groups, each release, and the link definitions after a blank
/// line when there are any, ending with a line feed.
pub open spec fn spec_text(
    unreleased_link: Option<Seq<char>>,
    unreleased: Seq<(ChangeGroup, Seq<Seq<char>>)>,
    rs: Seq<Release>,
) -> Seq<char> {
    preamble() + "## [Unreleased]"@ + groups_text(unreleased) + releases_text(rs) + (if unreleased_link
        is Some || any_link(rs) {
        "\n"@
    } else {
        Seq::empty()
    }) + match unreleased_link {
        Some(l) => "\n[unreleased]: "@ + l,
        None => Seq::empty(),
    } + links_text(rs) + "\n"@
}

} // verus!
