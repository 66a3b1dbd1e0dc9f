//! Links to the changes of a release.
use vstd::prelude::*;
use crate::collaborators::{check_uri, uri_error};

verus! {

/// URI to the set of changes in a release.
#[derive(Debug, PartialEq, Eq)]
pub struct ReleaseLink {
    value: String,
}

/// Error for when a release link cannot be parsed.
#[derive(Debug)]
pub struct ParseReleaseLinkError(pub String, pub String);

impl ParseReleaseLinkError {
    pub fn message(&self) -> (r: String)
        ensures
            r@ == "Could not parse release link '"@ + self.0@ + "' as a URI.\nReason: "@ + self.1@,
    {
        let mut s = String::from_str("Could not parse release link '");
        s.append(self.0.as_str());
        s.append("' as a URI.\nReason: ");
        s.append(self.1.as_str());
        s
    }
}

impl View for ReleaseLink {
    type V = Seq<char>;

    closed spec fn view(&self) -> Seq<char> {
        self.value@
    }
}

impl Clone for ReleaseLink {
    fn clone(&self) -> (r: Self)
        ensures
            r == *self,
    {
        ReleaseLink { value: self.value.clone() }
    }
}

impl ReleaseLink {
    /// Accepts exactly the strings that are valid URIs.
    pub fn from_str(value: &str) -> (r: Result<ReleaseLink, ParseReleaseLinkError>)
        ensures
            match r {
                Ok(l) => uri_error(value@) is None && l@ == value@,
                Err(e) => uri_error(value@) == Some(e.1@) && e.0@ == value@,
            },
    {
        match check_uri(value) {
            Ok(()) => Ok(ReleaseLink { value: String::from_str(value) }),
            Err(m) => Err(ParseReleaseLinkError(String::from_str(value), m)),
        }
    }

    /// The link as written.
    pub fn as_str(&self) -> (r: &str)
        ensures
            r@ == self@,
    {
        self.value.as_str()
    }
}

impl std::str::FromStr for ReleaseLink {
    type Err = ParseReleaseLinkError;

    fn from_str(value: &str) -> Result<ReleaseLink, ParseReleaseLinkError> {
        ReleaseLink::from_str(value)
    }
}

} // verus!
