//! Node: dependencies that a `package.json` declares, resolved by the npm
//! registry.

pub mod npmjs;
pub mod packagejson;

use vstd::prelude::*;
use crate::names::Ecosystem;
use crate::model::{
    copy_text, opt_text, stated, stated_license, with_override, Dependency,
    DependencyOverride, DependencyOverrides, DependencyView, Error, Resolve,
};
use crate::node::npmjs::{License, Package};

verus! {

/// The name of a license, if there is one.
pub open spec fn license_name(license: Option<License>) -> Option<Seq<char>> {
    match license {
        Some(found) => Some(found.name_text()),
        None => None,
    }
}

/// The dependency that the document of the npm registry describes, or nothing
/// where it holds no metadata for the version tagged latest. License and
/// homepage are those of that version.
pub open spec fn dependency_of(package: Package) -> Option<DependencyView> {
    if package.has_latest() {
        let version = package.versions@[package.dist_tags.latest@];
        Some(
            DependencyView {
                category: Ecosystem::Node.category_text(),
                name: package.name@,
                url: Package::page(package.name@),
                license: stated(license_name(version.chosen())),
                homepage: opt_text(version.homepage),
            },
        )
    } else {
        None
    }
}

/// What the document of the npm registry resolves to under `overrides`, or nothing
/// where the document is refused.
pub open spec fn resolved(
    record: Package,
    overrides: Map<Seq<char>, DependencyOverride>,
) -> Option<DependencyView> {
    match dependency_of(record) {
        Some(dependency) => Some(with_override(dependency, overrides)),
        None => None,
    }
}

/// The dependency that the document of the npm registry describes. A
/// document without the metadata of its latest version is refused.
pub fn dependency(package: Package) -> (made: Result<Dependency, Error>)
    ensures
        match made {
            Ok(dependency) => dependency_of(package) == Some(dependency@),
            Err(Error::NoLatestVersion { name }) => dependency_of(package) is None && name@
                == package.name@,
            Err(_) => false,
        },
{
    if !package.has_latest_version() {
        return Err(Error::NoLatestVersion { name: package.name });
    }
    let url = package.url();
    let version = package.latest_version();
    let license = match version.get_license() {
        Some(license) => Some(license.name().to_owned()),
        None => None,
    };
    let homepage = copy_text(&version.homepage);
    Ok(
        Dependency {
            category: Ecosystem::Node.category(),
            name: package.name,
            url,
            license: stated_license(license),
            homepage,
        },
    )
}

/// Resolves the documents of the npm registry, with the overrides for Node
/// applied.
pub struct Resolver<'a> {
    overrides: &'a DependencyOverrides,
}

impl<'a> Resolver<'a> {
    /// The overrides that this resolver applies.
    pub closed spec fn overrides(&self) -> Map<Seq<char>, DependencyOverride> {
        self.overrides@
    }

    /// A resolver that applies `overrides`.
    pub fn new(overrides: &'a DependencyOverrides) -> (resolver: Self)
        ensures
            resolver.overrides() == overrides@,
    {
        Resolver { overrides }
    }
}

impl<'a> Resolve for Resolver<'a> {
    type Record = Package;

    open spec fn resolution(&self, record: Package) -> Option<DependencyView> {
        resolved(record, self.overrides())
    }

    fn resolve(&self, record: Package) -> (resolved: Result<Dependency, Error>)
        ensures
            resolved matches Err(error) ==> error matches Error::NoLatestVersion { name }
                && name@ == record.name@,
    {
        match dependency(record) {
            Ok(dependency) => Ok(dependency.with_override(self.overrides)),
            Err(error) => Err(error),
        }
    }
}

} // verus!
