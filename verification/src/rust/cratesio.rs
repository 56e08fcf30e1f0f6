//! The document that crates.io holds of a crate.

use vstd::prelude::*;
use vstd::string::StringExecFns;
use crate::endpoint::{address_of, address_outcome};
use crate::model::Error;

verus! {

/// One published version of a crate.
#[derive(Debug, Clone, PartialEq, Eq)]
pub struct Version {
    pub license: Option<String>,
}

/// What crates.io states of a crate as a whole.
#[derive(Debug, Clone, PartialEq, Eq)]
pub struct Crate {
    pub name: String,
    pub homepage: Option<String>,
}

impl Crate {
    /// The text of the page of the crate `name`.
    pub open spec fn page(name: Seq<char>) -> Seq<char> {
        "https://crates.io/crates/"@ + name
    }

    /// The page of this crate on crates.io.
    pub fn url(&self) -> (url: String)
        ensures
            url@ == Crate::page(self.name@),
    {
        let mut url = String::from_str("https://crates.io/crates/");
        url.append(self.name.as_str());
        url
    }
}

/// The document of crates.io: the crate, and its versions in the order in
/// which the registry lists them.
#[derive(Debug, Clone, PartialEq, Eq)]
pub struct CrateResource {
    pub crate_: Crate,
    pub versions: Vec<Version>,
}

/// The text that addresses the document of the crate `name`.
pub open spec fn request_address(name: Seq<char>) -> Seq<char> {
    "https://crates.io/api/v1/crates/"@ + name
}

/// The address of the document that crates.io holds of the crate `name`.
pub fn request_url(name: &str) -> (url: Result<String, Error>)
    ensures
        address_outcome(request_address(name@), "rust crate"@, name@, url),
{
    let mut text = String::from_str("https://crates.io/api/v1/crates/");
    text.append(name);
    address_of(text.as_str(), "rust crate", name)
}

} // verus!
