//! The HTTP verbs that a signed request can carry.

use vstd::prelude::*;
use vstd::string::*;

verus! {

/// The verb of a request.
#[derive(Debug, Copy, Clone, PartialEq, Eq, Structural)]
pub enum HttpMethod {
    Get,
    Post,
}

impl HttpMethod {
    /// The verb's name as it stands in the canonical request: upper case.
    pub open spec fn name(self) -> Seq<char> {
        match self {
            HttpMethod::Get => "GET"@,
            HttpMethod::Post => "POST"@,
        }
    }

    /// The verb's name, upper case.
    pub fn as_str(&self) -> (name: &'static str)
        ensures
            name@ == self.name(),
    {
        match self {
            HttpMethod::Get => "GET",
            HttpMethod::Post => "POST",
        }
    }

    /// The verb's name as an owned string.
    pub fn to_string(&self) -> (name: String)
        ensures
            name@ == self.name(),
    {
        String::from_str(self.as_str())
    }
}

} // verus!
