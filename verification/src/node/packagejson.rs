//! The `package.json` of a package.

use vstd::prelude::*;
use crate::model::{
    lemma_select_all, lemma_select_push, lemma_select_skip, selects, DependencyNames,
};
use crate::string_map::StringMap;
use crate::text::{starts_with, texts};

verus! {

/// A `package.json`, as far as it declares dependencies: under the name of
/// each, what the manifest asks for.
#[derive(Debug)]
pub struct PackageJson {
    pub dependencies: StringMap<String>,
}

/// Whether the npm registry is to be asked for the dependency `name`, of
/// which the manifest asks for `wanted`. It is not where `wanted` points at a
/// directory beside the package, nor for the packages of Font Awesome Pro,
/// which the public registry does not hold.
pub open spec fn from_registry(name: Seq<char>, wanted: Seq<char>) -> bool {
    !("../"@.is_prefix_of(wanted) || "@fortawesome/pro"@.is_prefix_of(name))
}

impl DependencyNames for PackageJson {
    /// The names in the dependency map for which the registry is to be asked.
    open spec fn declares(&self, name: Seq<char>) -> bool {
        self.dependencies@.contains_key(name) && from_registry(name, self.dependencies@[name]@)
    }

    fn dependency_names(&self) -> (names: Vec<String>) {
        let ghost keys = self.dependencies.keys();
        let ghost held = self.dependencies@;
        let ghost keep = |name: Seq<char>| from_registry(name, held[name]@);
        let count = self.dependencies.len();
        let mut names: Vec<String> = Vec::new();
        let mut i: usize = 0;
        assert(texts(names@) =~= Seq::<Seq<char>>::empty());
        while i < count
            invariant
                i <= count,
                count == keys.len(),
                keys == self.dependencies.keys(),
                held == self.dependencies@,
                keys.no_duplicates(),
                keep == |name: Seq<char>| from_registry(name, held[name]@),
                selects(texts(names@), keys, i as int, keep),
            decreases count - i,
        {
            let (name, wanted) = self.dependencies.entry(i).unwrap();
            let local = starts_with(wanted.as_str(), "../") || starts_with(
                name.as_str(),
                "@fortawesome/pro",
            );
            assert(!local == keep(name@));
            if local {
                proof {
                    lemma_select_skip(texts(names@), keys, i as int, keep);
                }
            } else {
                proof {
                    lemma_select_push(texts(names@), keys, i as int, keep);
                    assert(texts(names@.push(*name)) =~= texts(names@).push(name@));
                }
                names.push(name.clone());
            }
            i = i + 1;
        }
        proof {
            lemma_select_all(texts(names@), keys, keep);
            self.dependencies.lemma_keys();
        }
        names
    }
}

/// A dependency whose value begins with `../` is not among the names.
pub proof fn lemma_local_not_declared(manifest: PackageJson, name: Seq<char>)
    requires
        manifest.dependencies@.contains_key(name),
        "../"@.is_prefix_of(manifest.dependencies@[name]@),
    ensures
        !manifest.declares(name),
{
}

} // verus!
