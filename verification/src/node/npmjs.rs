//! The document that the npm registry holds of a package.

use vstd::prelude::*;
use vstd::string::StringExecFns;
use crate::endpoint::{address_of, address_outcome};
use crate::model::Error;
use crate::string_map::StringMap;

verus! {

/// A license given as an object: its `type` is the name.
#[derive(Debug, Clone, PartialEq, Eq)]
pub struct LicenseDetails {
    pub type_: String,
}

/// A license, in one of the two forms in which packages state it.
#[derive(Debug, Clone, PartialEq, Eq)]
pub enum License {
    /// The name alone.
    Plain(String),
    /// An object that holds the name.
    Detailed(LicenseDetails),
}

impl License {
    /// The name of the license, whichever form states it.
    pub open spec fn name_text(&self) -> Seq<char> {
        match self {
            License::Plain(name) => name@,
            License::Detailed(details) => details.type_@,
        }
    }

    /// The name of the license.
    pub fn name(&self) -> (name: &str)
        ensures
            name@ == self.name_text(),
    {
        match self {
            License::Plain(string) => string.as_str(),
            License::Detailed(details) => details.type_.as_str(),
        }
    }

    /// The name of the license, taken out of it.
    pub fn to_license_name(self) -> (name: String)
        ensures
            name@ == self.name_text(),
    {
        match self {
            License::Plain(string) => string,
            License::Detailed(details) => details.type_,
        }
    }
}

/// One license, or a list of them.
#[derive(Debug, Clone, PartialEq, Eq)]
pub enum OneOrMany {
    One(License),
    Many(Vec<License>),
}

impl OneOrMany {
    /// The license that counts: the only one, or the first of the list.
    pub open spec fn first(&self) -> Option<License> {
        match self {
            OneOrMany::One(one) => Some(*one),
            OneOrMany::Many(many) => if many@.len() > 0 {
                Some(many@[0])
            } else {
                None
            },
        }
    }

    /// The license that counts: the only one, or the first of the list.
    pub fn get_license(&self) -> (license: Option<&License>)
        ensures
            match license {
                Some(found) => self.first() == Some(*found),
                None => self.first() is None,
            },
    {
        match self {
            OneOrMany::One(one) => Some(one),
            OneOrMany::Many(many) => if many.len() > 0 {
                Some(&many[0])
            } else {
                None
            },
        }
    }

    /// The license that counts, taken out of the value.
    pub fn into_license(self) -> (license: Option<License>)
        ensures
            license == self.first(),
    {
        match self {
            OneOrMany::One(one) => Some(one),
            OneOrMany::Many(many) => {
                let mut many = many;
                if many.len() > 0 {
                    Some(many.swap_remove(0))
                } else {
                    None
                }
            },
        }
    }
}

/// The metadata of one version of a package.
#[derive(Debug, Clone, PartialEq, Eq)]
pub struct Version {
    /// The license, as packages state it today.
    pub license: Option<OneOrMany>,
    /// The license, as older packages state it.
    pub licenses: Option<OneOrMany>,
    pub homepage: Option<String>,
}

impl Version {
    /// The license of this version: what `license` gives where the field is
    /// there, else what `licenses` gives. A field that is there and holds an
    /// empty list gives no license.
    pub open spec fn chosen(&self) -> Option<License> {
        match self.license {
            Some(one_or_many) => one_or_many.first(),
            None => match self.licenses {
                Some(one_or_many) => one_or_many.first(),
                None => None,
            },
        }
    }

    /// The license of this version.
    pub fn get_license(&self) -> (license: Option<&License>)
        ensures
            match license {
                Some(found) => self.chosen() == Some(*found),
                None => self.chosen() is None,
            },
    {
        match &self.license {
            Some(one_or_many) => one_or_many.get_license(),
            None => match &self.licenses {
                Some(one_or_many) => one_or_many.get_license(),
                None => None,
            },
        }
    }

    /// The license of this version, taken out of it.
    pub fn license(self) -> (license: Option<License>)
        ensures
            license == self.chosen(),
    {
        match self.license {
            Some(one_or_many) => one_or_many.into_license(),
            None => match self.licenses {
                Some(one_or_many) => one_or_many.into_license(),
                None => None,
            },
        }
    }
}

/// Where the field `license` is there, `licenses` does not count.
pub proof fn lemma_license_before_licenses(version: Version)
    requires
        version.license is Some,
    ensures
        version.chosen() == version.license->0.first(),
{
}

/// The tags that point at versions.
#[derive(Debug, Clone, PartialEq, Eq)]
pub struct DistTags {
    pub latest: String,
}

/// The document of the npm registry.
#[derive(Debug)]
pub struct Package {
    /// The name; the registry leaves it empty for some packages.
    pub name: String,
    pub dist_tags: DistTags,
    /// The metadata of each version, by its number.
    pub versions: StringMap<Version>,
}

impl Package {
    /// The text of the page of the package `name`.
    pub open spec fn page(name: Seq<char>) -> Seq<char> {
        "https://www.npmjs.com/package/"@ + name
    }

    /// Whether the document holds the metadata of the version tagged latest.
    pub open spec fn has_latest(&self) -> bool {
        self.versions@.contains_key(self.dist_tags.latest@)
    }

    /// The page of this package on npmjs.com.
    pub fn url(&self) -> (url: String)
        ensures
            url@ == Package::page(self.name@),
    {
        let mut url = String::from_str("https://www.npmjs.com/package/");
        url.append(self.name.as_str());
        url
    }

    /// Whether the document holds the metadata of the version tagged latest.
    pub fn has_latest_version(&self) -> (held: bool)
        ensures
            held == self.has_latest(),
    {
        self.versions.contains_key(self.dist_tags.latest.as_str())
    }

    /// The metadata of the version tagged latest.
    pub fn latest_version(&self) -> (version: &Version)
        requires
            self.has_latest(),
        ensures
            *version == self.versions@[self.dist_tags.latest@],
    {
        self.versions.get(self.dist_tags.latest.as_str()).unwrap()
    }

    /// The document under the name that was asked for, where the registry
    /// left the name empty.
    pub fn named(self, requested: &str) -> (package: Package)
        ensures
            package.name@ == if self.name@.len() == 0 {
                requested@
            } else {
                self.name@
            },
            package.dist_tags == self.dist_tags,
            package.versions == self.versions,
    {
        let mut package = self;
        if package.name.as_str().is_empty() {
            package.name = String::from_str(requested);
        }
        package
    }
}

/// The text that addresses the document of the package `name`.
pub open spec fn request_address(name: Seq<char>) -> Seq<char> {
    "https://registry.npmjs.org/"@ + name
}

/// The address of the document that the npm registry holds of the package
/// `name`.
pub fn request_url(name: &str) -> (url: Result<String, Error>)
    ensures
        address_outcome(request_address(name@), "npm package"@, name@, url),
{
    let mut text = String::from_str("https://registry.npmjs.org/");
    text.append(name);
    address_of(text.as_str(), "npm package", name)
}

} // verus!
