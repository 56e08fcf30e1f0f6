//! Python: dependencies that a `pyproject.toml` declares, resolved by PyPI.

pub mod pypi;
pub mod pyproject;

use vstd::prelude::*;
use crate::names::Ecosystem;
use crate::model::{
    opt_text, stated, stated_license, with_override, Dependency, DependencyOverride,
    DependencyOverrides, DependencyView, Error, Resolve,
};
use crate::python::pypi::Package;

verus! {

/// The dependency that PyPI's document of a package describes. A license
/// that the document leaves empty is no license.
pub open spec fn dependency_of(package: Package) -> DependencyView {
    DependencyView {
        category: Ecosystem::Python.category_text(),
        name: package.info.name@,
        url: package.info.project_url@,
        license: stated(Some(package.info.license@)),
        homepage: opt_text(package.info.home_page),
    }
}

/// What PyPI's document of a package resolves to under `overrides`.
pub open spec fn resolved(
    package: Package,
    overrides: Map<Seq<char>, DependencyOverride>,
) -> Option<DependencyView> {
    Some(with_override(dependency_of(package), overrides))
}

/// The dependency that PyPI's document of a package describes.
pub fn dependency(package: Package) -> (dependency: Dependency)
    ensures
        dependency@ == dependency_of(package),
{
    let info = package.info;
    Dependency {
        category: Ecosystem::Python.category(),
        name: info.name,
        url: info.project_url,
        license: stated_license(Some(info.license)),
        homepage: info.home_page,
    }
}

/// Resolves the documents of PyPI, with the overrides for Python applied.
pub struct Resolver<'a> {
    overrides: &'a DependencyOverrides,
}

impl<'a> Resolver<'a> {
    /// The overrides that this resolver applies.
    pub closed spec fn overrides(&self) -> Map<Seq<char>, DependencyOverride> {
        self.overrides@
    }

    /// A resolver that applies `overrides`.
    pub fn new(overrides: &'a DependencyOverrides) -> (resolver: Self)
        ensures
            resolver.overrides() == overrides@,
    {
        Resolver { overrides }
    }
}

impl<'a> Resolve for Resolver<'a> {
    type Record = Package;

    open spec fn resolution(&self, record: Package) -> Option<DependencyView> {
        resolved(record, self.overrides())
    }

    fn resolve(&self, record: Package) -> (resolved: Result<Dependency, Error>) {
        Ok(dependency(record).with_override(self.overrides))
    }
}

} // verus!
