//! Release versions in semantic versioning format.
use vstd::prelude::*;
use crate::collaborators::{check_semver, semver_error};

verus! {

/// The version of a release in [Semantic Versioning](https://semver.org/) format.
#[derive(Debug, PartialEq, Eq, Hash)]
pub struct ReleaseVersion {
    value: String,
}

/// An error for when the version cannot be parsed into [Semantic Versioning](https://semver.org/) format.
#[derive(Debug)]
pub struct ParseVersionError(pub String, pub String);

impl ParseVersionError {
    pub fn message(&self) -> (r: String)
        ensures
            r@ == "Could not parse version '"@ + self.0@ + "' as semver.\nReason: "@ + self.1@,
    {
        let mut s = String::from_str("Could not parse version '");
        s.append(self.0.as_str());
        s.append("' as semver.\nReason: ");
        s.append(self.1.as_str());
        s
    }
}

impl View for ReleaseVersion {
    type V = Seq<char>;

    closed spec fn view(&self) -> Seq<char> {
        self.value@
    }
}

impl Clone for ReleaseVersion {
    fn clone(&self) -> (r: Self)
        ensures
            r == *self,
    {
        ReleaseVersion { value: self.value.clone() }
    }
}

impl ReleaseVersion {
    /// Accepts exactly the strings that are valid semantic versions.
    pub fn from_str(value: &str) -> (r: Result<ReleaseVersion, ParseVersionError>)
        ensures
            match r {
                Ok(v) => semver_error(value@) is None && v@ == value@,
                Err(e) => semver_error(value@) == Some(e.1@) && e.0@ == value@,
            },
    {
        match check_semver(value) {
            Ok(()) => Ok(ReleaseVersion { value: String::from_str(value) }),
            Err(m) => Err(ParseVersionError(String::from_str(value), m)),
        }
    }

    /// The version as written.
    pub fn as_str(&self) -> (r: &str)
        ensures
            r@ == self@,
    {
        self.value.as_str()
    }

    /// Whether two versions are written the same way.
    pub fn same(&self, other: &ReleaseVersion) -> (r: bool)
        ensures
            r == (self@ == other@),
    {
        self.value == other.value
    }
}

impl std::str::FromStr for ReleaseVersion {
    type Err = ParseVersionError;

    fn from_str(value: &str) -> Result<ReleaseVersion, ParseVersionError> {
        ReleaseVersion::from_str(value)
    }
}

} // verus!
