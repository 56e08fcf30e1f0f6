//! The document that PyPI holds of a package.

use vstd::prelude::*;
use vstd::string::StringExecFns;
use crate::endpoint::{address_of, address_outcome};
use crate::model::Error;

verus! {

/// What PyPI states of a package.
#[derive(Debug, Clone, PartialEq, Eq)]
pub struct Info {
    /// The license; empty where the package names none.
    pub license: String,
    pub name: String,
    pub project_url: String,
    pub home_page: Option<String>,
}

/// PyPI's document of a package.
#[derive(Debug, Clone, PartialEq, Eq)]
pub struct Package {
    pub info: Info,
}

/// The text that addresses PyPI's document of the package `name`.
pub open spec fn request_address(name: Seq<char>) -> Seq<char> {
    "https://pypi.org/pypi/"@ + name + "/json"@
}

/// The address of PyPI's document of the package `name`.
pub fn request_url(name: &str) -> (url: Result<String, Error>)
    ensures
        address_outcome(request_address(name@), "pypi package"@, name@, url),
{
    let mut text = String::from_str("https://pypi.org/pypi/");
    text.append(name);
    text.append("/json");
    address_of(text.as_str(), "pypi package", name)
}

} // verus!
