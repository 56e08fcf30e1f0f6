//! The `Cargo.toml` of a package.

use vstd::prelude::*;
use crate::model::{
    lemma_select_all, lemma_select_push, lemma_select_skip, selects, DependencyNames,
};
use crate::table::{entries_of, entry_keys, get, table_entries, Entry, Shape};
use crate::text::texts;

verus! {

/// A `Cargo.toml`, as far as it declares dependencies.
pub struct Cargo {
    pub dependencies: toml::value::Table,
}

/// Whether an entry of a dependency table names a crate of the registry: it
/// gives a version requirement as a text, or a table without the key `path`.
/// A table with that key places the crate in the local file system.
pub open spec fn from_registry(shape: Shape) -> bool {
    match shape {
        Shape::Text => true,
        Shape::Table(keys) => !keys.contains("path"@),
        Shape::Other => false,
    }
}

impl DependencyNames for Cargo {
    /// The keys of the dependency table whose entries name a crate of the
    /// registry.
    open spec fn declares(&self, name: Seq<char>) -> bool {
        table_entries(self.dependencies).contains_key(name) && from_registry(
            table_entries(self.dependencies)[name],
        )
    }

    fn dependency_names(&self) -> (names: Vec<String>) {
        let entries = entries_of(&self.dependencies);
        let ghost keys = entry_keys(entries@);
        let ghost held = table_entries(self.dependencies);
        let ghost keep = |name: Seq<char>| from_registry(held[name]);
        let mut names: Vec<String> = Vec::new();
        let mut i: usize = 0;
        assert(texts(names@) =~= Seq::<Seq<char>>::empty());
        while i < entries.len()
            invariant
                i <= entries@.len(),
                keys == entry_keys(entries@),
                keys.no_duplicates(),
                held == table_entries(self.dependencies),
                forall|j: int| 0 <= j < entries@.len() ==>
                    (#[trigger] entries@[j]).1.shape() == held[entries@[j].0@],
                keep == |name: Seq<char>| from_registry(held[name]),
                selects(texts(names@), keys, i as int, keep),
            decreases entries@.len() - i,
        {
            let key: &String = entries[i].0;
            assert(key@ == keys[i as int]);
            assert(entries@[i as int].1.shape() == held[key@]);
            let wanted = match &entries[i].1 {
                Entry::Text(_) => true,
                Entry::Table(settings) => get(settings, "path").is_none(),
                Entry::Other => false,
            };
            assert(wanted == keep(key@));
            if wanted {
                proof {
                    lemma_select_push(texts(names@), keys, i as int, keep);
                    assert(texts(names@.push(*key)) =~= texts(names@).push(key@));
                }
                names.push(key.clone());
            } else {
                proof {
                    lemma_select_skip(texts(names@), keys, i as int, keep);
                }
            }
            i = i + 1;
        }
        proof {
            lemma_select_all(texts(names@), keys, keep);
            assert forall|name: Seq<char>| texts(names@).contains(name) <==> self.declares(name) by {
                assert(keys.contains(name) <==> keys.to_set().contains(name));
            }
        }
        names
    }
}

/// An entry with the key `path` is not among the names.
pub proof fn lemma_path_entries_not_declared(manifest: Cargo, name: Seq<char>)
    requires
        table_entries(manifest.dependencies).contains_key(name),
        table_entries(manifest.dependencies)[name] matches Shape::Table(keys) && keys.contains(
            "path"@,
        ),
    ensures
        !manifest.declares(name),
{
}

/// An entry without the key `path` is among the names, whether it is a text
/// or a table.
pub proof fn lemma_registry_entries_declared(manifest: Cargo, name: Seq<char>)
    requires
        table_entries(manifest.dependencies).contains_key(name),
        match table_entries(manifest.dependencies)[name] {
            Shape::Text => true,
            Shape::Table(keys) => !keys.contains("path"@),
            Shape::Other => false,
        },
    ensures
        manifest.declares(name),
{
}

} // verus!
