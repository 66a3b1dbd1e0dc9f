//! The section of upcoming changes.
use vstd::prelude::*;
use crate::change_group::ChangeGroup;
use crate::changes::{spec_add_item, Changes};
use crate::release_link::ReleaseLink;

verus! {

/// Tracks upcoming changes. You can move the Unreleased changes into a new
/// [`Release`](crate::Release) using
/// [`promote_unreleased`](crate::Changelog::promote_unreleased).
#[derive(Debug, PartialEq, Eq)]
pub struct Unreleased {
    /// A link to all unreleased changes.
    pub link: Option<ReleaseLink>,
    /// A grouped list of all unreleased changes.
    pub changes: Changes,
}

impl Unreleased {
    /// An Unreleased section with no link and no changes.
    pub fn new() -> (r: Unreleased)
        ensures
            r.link is None,
            r.changes@.len() == 0,
    {
        Unreleased { link: None, changes: Changes::new() }
    }

    /// Adds the given `item` to the unreleased section under the provided `change_group` heading.
    pub fn add(&mut self, change_group: ChangeGroup, item: &str)
        ensures
            final(self).changes@ == spec_add_item(old(self).changes@, change_group, item@),
            final(self).link == old(self).link,
    {
        self.changes.add(change_group, item);
    }
}


impl Default for Unreleased {
    fn default() -> (r: Unreleased)
        ensures
            r.link is None,
            r.changes@.len() == 0,
    {
        Unreleased::new()
    }
}


impl Clone for Unreleased {
    fn clone(&self) -> (r: Unreleased)
        ensures
            r.link == self.link,
            r.changes@ == self.changes@,
    {
        let link = match &self.link {
            Some(l) => Some(l.clone()),
            None => None,
        };
        Unreleased { link, changes: self.changes.clone() }
    }
}

} // verus!
