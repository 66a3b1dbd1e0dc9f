//! A released version and its changes.
use vstd::prelude::*;
use crate::changes::Changes;
use crate::release_date::ReleaseDate;
use crate::release_link::ReleaseLink;
use crate::release_tag::ReleaseTag;
use crate::release_version::ReleaseVersion;

verus! {

/// Represents release information such as the version, date, link to release, list of changes, and so on.
#[derive(Debug, PartialEq, Eq)]
pub struct Release {
    /// The version of the release in [semver](https://semver.org/spec/v2.0.0.html) format.
    pub version: ReleaseVersion,
    /// The date the release was created.
    pub date: ReleaseDate,
    /// A tag can be used to indicate if a release was yanked or when the version was bumped with no changes.
    pub tag: Option<ReleaseTag>,
    /// The link to the release.
    pub link: Option<ReleaseLink>,
    /// An ordered map of the changes in a release grouped by the type of change.
    pub changes: Changes,
}


/// `a` and `b` hold the same release: the same version, date, tag, link and
/// changes.
pub open spec fn same_release(a: Release, b: Release) -> bool {
    &&& a.version == b.version
    &&& a.date == b.date
    &&& a.tag == b.tag
    &&& a.link == b.link
    &&& a.changes@ == b.changes@
}

impl Clone for Release {
    fn clone(&self) -> (r: Release)
        ensures
            same_release(r, *self),
    {
        let link = match &self.link {
            Some(l) => Some(l.clone()),
            None => None,
        };
        Release {
            version: self.version.clone(),
            date: self.date.clone(),
            tag: self.tag,
            link,
            changes: self.changes.clone(),
        }
    }
}

} // verus!
