//! The kinds of change a release lists.
use vstd::prelude::*;
use crate::collaborators::{lower_of, to_lowercase, trim, trim_of};
use crate::text::str_eq;

verus! {

/// Changes in a release are grouped into one of several types.
#[derive(Debug, Clone, Copy, PartialEq, Eq, Structural, Hash)]
pub enum ChangeGroup {
    /// For new features.
    Added,
    /// For changes in existing functionality.
    Changed,
    /// For soon-to-be removed features.
    Deprecated,
    /// For any bug fixes.
    Fixed,
    /// For new removed features.
    Removed,
    /// In case of vulnerabilities.
    Security,
}

/// The name of a change group as it is written in a heading.
pub open spec fn group_name(g: ChangeGroup) -> Seq<char> {
    match g {
        ChangeGroup::Added => "Added"@,
        ChangeGroup::Changed => "Changed"@,
        ChangeGroup::Deprecated => "Deprecated"@,
        ChangeGroup::Fixed => "Fixed"@,
        ChangeGroup::Removed => "Removed"@,
        ChangeGroup::Security => "Security"@,
    }
}

/// The change group whose lower-case name is `s`, if any.
pub open spec fn group_from_lower(s: Seq<char>) -> Option<ChangeGroup> {
    if s == "added"@ {
        Some(ChangeGroup::Added)
    } else if s == "changed"@ {
        Some(ChangeGroup::Changed)
    } else if s == "deprecated"@ {
        Some(ChangeGroup::Deprecated)
    } else if s == "removed"@ {
        Some(ChangeGroup::Removed)
    } else if s == "fixed"@ {
        Some(ChangeGroup::Fixed)
    } else if s == "security"@ {
        Some(ChangeGroup::Security)
    } else {
        None
    }
}

/// The change group a heading's text names: trimmed, in any letter case.
pub open spec fn spec_parse_group(s: Seq<char>) -> Option<ChangeGroup> {
    group_from_lower(lower_of(trim_of(s)))
}

/// Error for a heading that names no change group; holds the heading's text.
#[derive(Debug)]
pub struct ParseChangeGroupError(pub String);

impl ParseChangeGroupError {
    pub fn message(&self) -> (r: String)
        ensures
            r@ == "Could not parse release tag '"@ + self.0@
                + "'\nExpected: Added | Changed | Deprecated | Removed | Fixed | Security"@,
    {
        let mut s = String::from_str("Could not parse release tag '");
        s.append(self.0.as_str());
        s.append("'\nExpected: Added | Changed | Deprecated | Removed | Fixed | Security");
        s
    }
}

impl ChangeGroup {
    /// The name of the group as written in a heading.
    pub fn name(&self) -> (r: &'static str)
        ensures
            r@ == group_name(*self),
    {
        match self {
            ChangeGroup::Added => "Added",
            ChangeGroup::Changed => "Changed",
            ChangeGroup::Deprecated => "Deprecated",
            ChangeGroup::Fixed => "Fixed",
            ChangeGroup::Removed => "Removed",
            ChangeGroup::Security => "Security",
        }
    }

    /// Reads a change group from a heading's text, ignoring surrounding
    /// whitespace and letter case.
    pub fn from_str(value: &str) -> (r: Result<ChangeGroup, ParseChangeGroupError>)
        ensures
            match r {
                Ok(g) => spec_parse_group(value@) == Some(g),
                Err(e) => spec_parse_group(value@) is None && e.0@ == value@,
            },
    {
        let trimmed = trim(value);
        let lower = to_lowercase(trimmed.as_str());
        let l = lower.as_str();
        if str_eq(l, "added") {
            Ok(ChangeGroup::Added)
        } else if str_eq(l, "changed") {
            Ok(ChangeGroup::Changed)
        } else if str_eq(l, "deprecated") {
            Ok(ChangeGroup::Deprecated)
        } else if str_eq(l, "removed") {
            Ok(ChangeGroup::Removed)
        } else if str_eq(l, "fixed") {
            Ok(ChangeGroup::Fixed)
        } else if str_eq(l, "security") {
            Ok(ChangeGroup::Security)
        } else {
            Err(ParseChangeGroupError(String::from_str(value)))
        }
    }
}

impl std::str::FromStr for ChangeGroup {
    type Err = ParseChangeGroupError;

    fn from_str(value: &str) -> Result<ChangeGroup, ParseChangeGroupError> {
        ChangeGroup::from_str(value)
    }
}

} // verus!
