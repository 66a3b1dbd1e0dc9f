//! Tags that mark a release as yanked or as having no changes.
use vstd::prelude::*;
use crate::collaborators::{lower_of, to_lowercase};
use crate::text::str_eq;

verus! {

/// A release tag can be used to indicate:
/// - If a release was yanked due to a serious bug or security issue.
/// - If a release version was bumped but there were no changes which can be common in projects that
///   use a fixed version strategy to release a set of artifacts.
#[derive(Debug, Clone, Copy, PartialEq, Eq, Structural)]
pub enum ReleaseTag {
    /// A yanked release.
    Yanked,
    /// A release with no changes.
    NoChanges,
}

/// How a tag is written in a release heading.
pub open spec fn tag_text(t: ReleaseTag) -> Seq<char> {
    match t {
        ReleaseTag::Yanked => "YANKED"@,
        ReleaseTag::NoChanges => "NO CHANGES"@,
    }
}

/// The tag a text names, in any letter case.
pub open spec fn spec_parse_tag(s: Seq<char>) -> Option<ReleaseTag> {
    if lower_of(s) == "no changes"@ {
        Some(ReleaseTag::NoChanges)
    } else if lower_of(s) == "yanked"@ {
        Some(ReleaseTag::Yanked)
    } else {
        None
    }
}

/// Error for a text that names no release tag; holds the text.
#[derive(Debug)]
pub struct ParseReleaseTagError(pub String);

impl ParseReleaseTagError {
    pub fn message(&self) -> (r: String)
        ensures
            r@ == "Could not parse release tag '"@ + self.0@ + "'\nExpected: YANKED | NO CHANGES"@,
    {
        let mut s = String::from_str("Could not parse release tag '");
        s.append(self.0.as_str());
        s.append("'\nExpected: YANKED | NO CHANGES");
        s
    }
}

impl ReleaseTag {
    /// The tag as written in a release heading.
    pub fn text(&self) -> (r: &'static str)
        ensures
            r@ == tag_text(*self),
    {
        match self {
            ReleaseTag::Yanked => "YANKED",
            ReleaseTag::NoChanges => "NO CHANGES",
        }
    }

    /// Reads a tag, in any letter case.
    pub fn from_str(value: &str) -> (r: Result<ReleaseTag, ParseReleaseTagError>)
        ensures
            match r {
                Ok(t) => spec_parse_tag(value@) == Some(t),
                Err(e) => spec_parse_tag(value@) is None && e.0@ == value@,
            },
    {
        let lower = to_lowercase(value);
        if str_eq(lower.as_str(), "no changes") {
            Ok(ReleaseTag::NoChanges)
        } else if str_eq(lower.as_str(), "yanked") {
            Ok(ReleaseTag::Yanked)
        } else {
            Err(ParseReleaseTagError(String::from_str(value)))
        }
    }
}

impl std::str::FromStr for ReleaseTag {
    type Err = ParseReleaseTagError;

    fn from_str(value: &str) -> Result<ReleaseTag, ParseReleaseTagError> {
        ReleaseTag::from_str(value)
    }
}

} // verus!
