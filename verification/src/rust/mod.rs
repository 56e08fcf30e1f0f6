//! Rust: dependencies that a `Cargo.toml` declares, resolved by crates.io.

pub mod cargo;
pub mod cratesio;

use vstd::prelude::*;
use crate::names::Ecosystem;
use crate::model::{
    opt_text, stated, stated_license, with_override, Dependency, DependencyOverride,
    DependencyOverrides, DependencyView, Error, Resolve,
};
use crate::rust::cratesio::{Crate, CrateResource};

verus! {

/// The dependency that the document of crates.io describes, or nothing where
/// it lists no version. The license is that of the version listed first.
pub open spec fn dependency_of(resource: CrateResource) -> Option<DependencyView> {
    if resource.versions@.len() == 0 {
        None
    } else {
        Some(
            DependencyView {
                category: Ecosystem::Rust.category_text(),
                name: resource.crate_.name@,
                url: Crate::page(resource.crate_.name@),
                license: stated(opt_text(resource.versions@[0].license)),
                homepage: opt_text(resource.crate_.homepage),
            },
        )
    }
}

/// What the document of crates.io resolves to under `overrides`, or nothing
/// where the document is refused.
pub open spec fn resolved(
    record: CrateResource,
    overrides: Map<Seq<char>, DependencyOverride>,
) -> Option<DependencyView> {
    match dependency_of(record) {
        Some(dependency) => Some(with_override(dependency, overrides)),
        None => None,
    }
}

/// The dependency that the document of crates.io describes. A crate without
/// versions is refused.
pub fn dependency(resource: CrateResource) -> (made: Result<Dependency, Error>)
    ensures
        match made {
            Ok(dependency) => dependency_of(resource) == Some(dependency@),
            Err(Error::NoVersions { name }) => dependency_of(resource) is None && name@
                == resource.crate_.name@,
            Err(_) => false,
        },
{
    let CrateResource { crate_, versions } = resource;
    let mut versions = versions;
    if versions.len() == 0 {
        return Err(Error::NoVersions { name: crate_.name });
    }
    let first = versions.swap_remove(0);
    let url = crate_.url();
    Ok(
        Dependency {
            category: Ecosystem::Rust.category(),
            name: crate_.name,
            url,
            license: stated_license(first.license),
            homepage: crate_.homepage,
        },
    )
}

/// Resolves the documents of crates.io, with the overrides for Rust applied.
pub struct Resolver<'a> {
    overrides: &'a DependencyOverrides,
}

impl<'a> Resolver<'a> {
    /// The overrides that this resolver applies.
    pub closed spec fn overrides(&self) -> Map<Seq<char>, DependencyOverride> {
        self.overrides@
    }

    /// A resolver that applies `overrides`.
    pub fn new(overrides: &'a DependencyOverrides) -> (resolver: Self)
        ensures
            resolver.overrides() == overrides@,
    {
        Resolver { overrides }
    }
}

impl<'a> Resolve for Resolver<'a> {
    type Record = CrateResource;

    open spec fn resolution(&self, record: CrateResource) -> Option<DependencyView> {
        resolved(record, self.overrides())
    }

    fn resolve(&self, record: CrateResource) -> (resolved: Result<Dependency, Error>)
        ensures
            resolved matches Err(error) ==> error matches Error::NoVersions { name } && name@
                == record.crate_.name@,
    {
        match dependency(record) {
            Ok(dependency) => Ok(dependency.with_override(self.overrides)),
            Err(error) => Err(error),
        }
    }
}

} // verus!
