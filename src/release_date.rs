//! Release dates in ISO 8601 format.
use vstd::prelude::*;
use crate::collaborators::{check_timestamp, timestamp_error, today_utc};

verus! {

/// The time of day and zone appended to a date to read it as a timestamp.
pub open spec fn midnight_suffix() -> Seq<char> {
    "T00:00:00Z"@
}

/// Release dates are in ISO 8601 date format (YYYY-MM-DD)
#[derive(Debug, PartialEq, Eq)]
pub struct ReleaseDate {
    value: String,
}

/// An error for release dates that cannot be parsed.
#[derive(Debug)]
pub struct ParseReleaseDateError(pub String, pub String);

impl ParseReleaseDateError {
    pub fn message(&self) -> (r: String)
        ensures
            r@ == "Could not parse release date '"@ + self.0@ + "' as YYYY-MM-DD.\nReason: "@
                + self.1@,
    {
        let mut s = String::from_str("Could not parse release date '");
        s.append(self.0.as_str());
        s.append("' as YYYY-MM-DD.\nReason: ");
        s.append(self.1.as_str());
        s
    }
}

impl View for ReleaseDate {
    type V = Seq<char>;

    closed spec fn view(&self) -> Seq<char> {
        self.value@
    }
}

impl Clone for ReleaseDate {
    fn clone(&self) -> (r: Self)
        ensures
            r == *self,
    {
        ReleaseDate { value: self.value.clone() }
    }
}

impl ReleaseDate {
    /// Creates a [`ReleaseDate`] instance for the current date.
    pub fn today() -> (r: ReleaseDate)
        ensures
            timestamp_error(r@ + midnight_suffix()) is None,
    {
        ReleaseDate { value: today_utc() }
    }

    /// Accepts a date exactly when it is a calendar date written as
    /// `YYYY-MM-DD`: the date followed by midnight UTC must be a valid
    /// timestamp.
    pub fn from_str(value: &str) -> (r: Result<ReleaseDate, ParseReleaseDateError>)
        ensures
            match r {
                Ok(d) => timestamp_error(value@ + midnight_suffix()) is None && d@ == value@,
                Err(e) => timestamp_error(value@ + midnight_suffix()) == Some(e.1@) && e.0@
                    == value@,
            },
    {
        let mut stamp = String::from_str(value);
        stamp.append("T00:00:00Z");
        proof {
            reveal_strlit("T00:00:00Z");
        }
        match check_timestamp(stamp.as_str()) {
            Ok(()) => Ok(ReleaseDate { value: String::from_str(value) }),
            Err(m) => Err(ParseReleaseDateError(String::from_str(value), m)),
        }
    }

    /// The date as written.
    pub fn as_str(&self) -> (r: &str)
        ensures
            r@ == self@,
    {
        self.value.as_str()
    }
}

impl std::str::FromStr for ReleaseDate {
    type Err = ParseReleaseDateError;

    fn from_str(value: &str) -> Result<ReleaseDate, ParseReleaseDateError> {
        ReleaseDate::from_str(value)
    }
}

} // verus!
