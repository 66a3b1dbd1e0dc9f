//! A whole changelog: reading it from text, promoting its unreleased
//! changes, and writing it back.
use vstd::prelude::*;
use crate::changes::Changes;
use crate::release::{same_release, Release};
use crate::release_date::{midnight_suffix, ReleaseDate};
use crate::collaborators::timestamp_error;
use crate::release_link::ReleaseLink;
use crate::release_tag::ReleaseTag;
use crate::release_version::ReleaseVersion;
use crate::releases::{has_version, Releases};
use crate::text::concat3;
use crate::unreleased::Unreleased;
use crate::assemble::{
    changes_of, first_unreleased, release_matches, releases_of, spec_changes,
    spec_release_trees, spec_unreleased_link, unreleased_link_of, unreleased_tree_of,
};
use crate::diagnostics::{diagnostic_views, get_diagnostics, spec_diagnostics, Diagnostic};
use crate::parser::{parse, parses_to};
use crate::releases::spec_from_releases;
use crate::tree::Tree;
use crate::render::{has_link, push_groups, push_links, push_releases, spec_text};
use crate::grammar::{ABOUT_FORMAT_TEXT, NOTABLE_CHANGES_TEXT};

verus! {

/// Represents a changelog written in [Keep a Changelog](https://keepachangelog.com/en/1.1.0/) format.
/// The changelog is a curated, chronologically ordered list of notable changes for each version of a project.
#[derive(Debug, PartialEq, Eq)]
pub struct Changelog {
    /// The Unreleased section is always present in the changelog to communicate upcoming changes.
    pub unreleased: Unreleased,
    /// The list of releases
    pub releases: Releases,
}

/// Error when promoting unreleased to a version that already exists in the changelog.
#[derive(Debug)]
pub struct PromoteUnreleasedError(pub ReleaseVersion);

impl PromoteUnreleasedError {
    pub fn message(&self) -> (r: String)
        ensures
            r@ == "Could not promote unreleased to release version "@ + self.0@
                + " because it that version already exists in the changelog"@,
    {
        concat3(
            "Could not promote unreleased to release version ",
            self.0.as_str(),
            " because it that version already exists in the changelog",
        )
    }
}

/// Options for customizing the details of a promoted release.
#[derive(Debug)]
pub struct PromoteOptions {
    version: ReleaseVersion,
    date: Option<ReleaseDate>,
    tag: Option<ReleaseTag>,
    link: Option<ReleaseLink>,
}

impl PromoteOptions {
    pub closed spec fn spec_version(&self) -> ReleaseVersion {
        self.version
    }

    pub closed spec fn spec_date(&self) -> Option<ReleaseDate> {
        self.date
    }

    pub closed spec fn spec_tag(&self) -> Option<ReleaseTag> {
        self.tag
    }

    pub closed spec fn spec_link(&self) -> Option<ReleaseLink> {
        self.link
    }

    /// Construct a new [`PromoteOptions`] instance.
    pub fn new(version: ReleaseVersion) -> (r: Self)
        ensures
            r.spec_version() == version,
            r.spec_date() is None,
            r.spec_tag() is None,
            r.spec_link() is None,
    {
        Self { version, date: None, tag: None, link: None }
    }

    /// Set the date to use when promoting the release.
    pub fn with_date(self, date: ReleaseDate) -> (r: Self)
        ensures
            r.spec_version() == self.spec_version(),
            r.spec_date() == Some(date),
            r.spec_tag() == self.spec_tag(),
            r.spec_link() == self.spec_link(),
    {
        Self { date: Some(date), ..self }
    }

    /// Set the release tag to use when promoting the release.
    pub fn with_tag(self, tag: ReleaseTag) -> (r: Self)
        ensures
            r.spec_version() == self.spec_version(),
            r.spec_date() == self.spec_date(),
            r.spec_tag() == Some(tag),
            r.spec_link() == self.spec_link(),
    {
        Self { tag: Some(tag), ..self }
    }

    /// Set the link to use when promoting the release.
    pub fn with_link(self, link: ReleaseLink) -> (r: Self)
        ensures
            r.spec_version() == self.spec_version(),
            r.spec_date() == self.spec_date(),
            r.spec_tag() == self.spec_tag(),
            r.spec_link() == Some(link),
    {
        Self { link: Some(link), ..self }
    }
}

fn clone_link(link: &Option<ReleaseLink>) -> (r: Option<ReleaseLink>)
    ensures
        r == *link,
{
    match link {
        Some(l) => Some(l.clone()),
        None => None,
    }
}

impl Changelog {
    /// Moves all the changes from the unreleased section of the changelog into a new release which
    /// is added to the top of the changelog. The version, date, and other fields of the new release
    /// can be customized using the `promote_options` argument. If no date is given in the `promote_options`
    /// then the date will default to the current date.
    ///
    /// Fails, changing nothing, when the version being promoted already
    /// exists in the changelog.
    pub fn promote_unreleased(&mut self, promote_options: &PromoteOptions) -> (r: Result<(), PromoteUnreleasedError>)
        ensures
            has_version(old(self).releases@, promote_options.spec_version()@) ==> {
                &&& r matches Err(e) && e.0 == promote_options.spec_version()
                &&& *final(self) == *old(self)
            },
            !has_version(old(self).releases@, promote_options.spec_version()@) ==> {
                &&& r is Ok
                &&& final(self).unreleased.changes@.len() == 0
                &&& final(self).unreleased.link == old(self).unreleased.link
                &&& final(self).releases@.len() == old(self).releases@.len() + 1
                &&& final(self).releases@.subrange(1, final(self).releases@.len() as int)
                    == old(self).releases@
                &&& final(self).releases@[0].version == promote_options.spec_version()
                &&& final(self).releases@[0].tag == promote_options.spec_tag()
                &&& final(self).releases@[0].link == promote_options.spec_link()
                &&& final(self).releases@[0].changes == old(self).unreleased.changes
                &&& (promote_options.spec_date() matches Some(d) ==> final(self).releases@[0].date == d)
                &&& (promote_options.spec_date() is None ==> timestamp_error(
                    final(self).releases@[0].date@ + midnight_suffix(),
                ) is None)
            },
    {
        let today = match &promote_options.date {
            Some(d) => d.clone(),
            None => ReleaseDate::today(),
        };
        self.promote_unreleased_on(promote_options, today)
    }

    /// Promotes as `promote_unreleased` does, with `today` as the date when
    /// the options give none.
    pub fn promote_unreleased_on(
        &mut self,
        promote_options: &PromoteOptions,
        today: ReleaseDate,
    ) -> (r: Result<(), PromoteUnreleasedError>)
        ensures
            has_version(old(self).releases@, promote_options.spec_version()@) ==> {
                &&& r matches Err(e) && e.0 == promote_options.spec_version()
                &&& *final(self) == *old(self)
            },
            !has_version(old(self).releases@, promote_options.spec_version()@) ==> {
                &&& r is Ok
                &&& final(self).unreleased.changes@.len() == 0
                &&& final(self).unreleased.link == old(self).unreleased.link
                &&& final(self).releases@.len() == old(self).releases@.len() + 1
                &&& final(self).releases@.subrange(1, final(self).releases@.len() as int)
                    == old(self).releases@
                &&& final(self).releases@[0] == (Release {
                    version: promote_options.spec_version(),
                    date: match promote_options.spec_date() {
                        Some(d) => d,
                        None => today,
                    },
                    tag: promote_options.spec_tag(),
                    link: promote_options.spec_link(),
                    changes: old(self).unreleased.changes,
                })
            },
    {
        if self.releases.contains_version(&promote_options.version) {
            return Err(PromoteUnreleasedError(promote_options.version.clone()));
        }
        let date = match &promote_options.date {
            Some(d) => d.clone(),
            None => today,
        };
        let mut changes = Changes::new();
        std::mem::swap(&mut changes, &mut self.unreleased.changes);
        let release = Release {
            version: promote_options.version.clone(),
            date,
            tag: promote_options.tag,
            link: clone_link(&promote_options.link),
            changes,
        };
        let ghost old_releases = self.releases@;
        self.releases.prepend(release);
        proof {
            assert(self.releases@.subrange(1, self.releases@.len() as int) =~= old_releases);
        }
        Ok(())
    }
}


/// `c` is the changelog that tree `t` describes: the Unreleased section's
/// link and changes, and the releases in document order, a version seen
/// again taking the place of the earlier release of that version.
pub open spec fn describes(c: Changelog, t: Tree) -> bool {
    let cs = t.children@;
    &&& c.unreleased.link == spec_unreleased_link(cs)
    &&& c.unreleased.changes@ == match first_unreleased(cs) {
        Some(u) => spec_changes(u),
        None => Seq::empty(),
    }
    &&& exists|rs: Seq<Release>|
        {
            &&& rs.len() == spec_release_trees(cs).len()
            &&& forall|i: int|
                0 <= i < rs.len() ==> release_matches(#[trigger] rs[i], spec_release_trees(cs)[i], cs)
            &&& c.releases@ == spec_from_releases(rs)
        }
}

impl Changelog {
    /// Reads a changelog off its tree: fails with the tree's diagnostics
    /// exactly when there are any, else gives the changelog the tree
    /// describes.
    pub fn from_tree(tree: &Tree) -> (r: Result<Changelog, Vec<Diagnostic>>)
        requires
            tree.kind is ChangelogFile,
        ensures
            r is Ok <==> spec_diagnostics(*tree).len() == 0,
            r matches Err(d) ==> diagnostic_views(d@) == spec_diagnostics(*tree),
            r matches Ok(c) ==> describes(c, *tree),
    {
        let diagnostics = get_diagnostics(tree);
        if diagnostics.len() > 0 {
            return Err(diagnostics);
        }
        let link = unreleased_link_of(&tree.children);
        let changes = match unreleased_tree_of(&tree.children) {
            Some(u) => changes_of(u),
            None => Changes::new(),
        };
        let rs = releases_of(&tree.children);
        let ghost rsv = rs@;
        let releases = Releases::from_releases(rs);
        let c = Changelog { unreleased: Unreleased { link, changes }, releases };
        proof {
            assert(rsv.len() == spec_release_trees(tree.children@).len());
        }
        Ok(c)
    }

    /// Parses a changelog document: fails with every diagnostic of the
    /// document's tree (the one `parses_to` fixes for `text`) exactly when
    /// there is any, else gives the changelog that tree describes.
    pub fn from_text(text: &str) -> (r: Result<Changelog, Vec<Diagnostic>>)
        ensures
            exists|t: Tree|
                {
                    &&& parses_to(text, t)
                    &&& (r is Ok <==> spec_diagnostics(t).len() == 0)
                    &&& (r matches Err(d) ==> diagnostic_views(d@) == spec_diagnostics(t))
                    &&& (r matches Ok(c) ==> describes(c, t))
                },
    {
        let tree = parse(text);
        Changelog::from_tree(&tree)
    }
}

impl std::str::FromStr for Changelog {
    type Err = Vec<Diagnostic>;

    fn from_str(value: &str) -> Result<Changelog, Vec<Diagnostic>> {
        Changelog::from_text(value)
    }
}


impl Changelog {
    /// The changelog written as markdown.
    pub fn to_text(&self) -> (r: String)
        ensures
            r@ == spec_text(
                match self.unreleased.link {
                    Some(l) => Some(l@),
                    None => None,
                },
                self.unreleased.changes@,
                self.releases@,
            ),
    {
        let mut out = String::from_str("# Changelog\n\n");
        out.append(NOTABLE_CHANGES_TEXT);
        out.append("\n\n");
        out.append(ABOUT_FORMAT_TEXT);
        out.append("\n\n");
        out.append("## [Unreleased]");
        push_groups(&mut out, &self.unreleased.changes);
        let releases = self.releases.iter();
        proof {
            assert(crate::render::release_values(releases@) =~= self.releases@);
        }
        push_releases(&mut out, &releases);
        if self.unreleased.link.is_some() || has_link(&releases) {
            out.append("\n");
        }
        match &self.unreleased.link {
            Some(l) => {
                out.append("\n[unreleased]: ");
                out.append(l.as_str());
            },
            None => {},
        }
        push_links(&mut out, &releases);
        out.append("\n");
        out
    }

    /// The changelog written as markdown.
    pub fn to_string(&self) -> (r: String)
        ensures
            r@ == spec_text(
                match self.unreleased.link {
                    Some(l) => Some(l@),
                    None => None,
                },
                self.unreleased.changes@,
                self.releases@,
            ),
    {
        self.to_text()
    }
}


impl Default for Changelog {
    /// A changelog with an empty Unreleased section and no releases.
    fn default() -> (r: Changelog)
        ensures
            r.unreleased.link is None,
            r.unreleased.changes@.len() == 0,
            r.releases@.len() == 0,
    {
        Changelog { unreleased: Unreleased::new(), releases: Releases::new() }
    }
}


impl Clone for Changelog {
    /// A copy with the same Unreleased section and the same releases.
    fn clone(&self) -> (r: Changelog)
        ensures
            r.unreleased.link == self.unreleased.link,
            r.unreleased.changes@ == self.unreleased.changes@,
            r.releases@.len() == self.releases@.len(),
            forall|i: int| 0 <= i < r.releases@.len() ==> same_release(#[trigger] r.releases@[i], self.releases@[i]),
    {
        Changelog { unreleased: self.unreleased.clone(), releases: self.releases.clone() }
    }
}

} // verus!
