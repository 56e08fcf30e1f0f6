//! The `pyproject.toml` of a project that Poetry manages.

use vstd::prelude::*;
use crate::model::{
    lemma_select_all, lemma_select_push, lemma_select_skip, selects, DependencyNames,
};
use crate::table::{entries_of, entry_keys, table_entries};
use crate::text::{same_text, texts};

verus! {

/// Poetry's part of the manifest.
pub struct Poetry {
    pub dependencies: toml::value::Table,
}

/// The settings of tools.
pub struct Tool {
    pub poetry: Poetry,
}

/// A `pyproject.toml`.
pub struct PyProject {
    pub tool: Tool,
}

impl DependencyNames for PyProject {
    /// Every key of Poetry's dependency table but `python`, which states the
    /// version of the language and names no package.
    open spec fn declares(&self, name: Seq<char>) -> bool {
        table_entries(self.tool.poetry.dependencies).contains_key(name) && name != "python"@
    }

    fn dependency_names(&self) -> (names: Vec<String>) {
        let entries = entries_of(&self.tool.poetry.dependencies);
        let ghost keys = entry_keys(entries@);
        let ghost keep = |name: Seq<char>| name != "python"@;
        let mut names: Vec<String> = Vec::new();
        let mut i: usize = 0;
        assert(texts(names@) =~= Seq::<Seq<char>>::empty());
        while i < entries.len()
            invariant
                i <= entries@.len(),
                keys == entry_keys(entries@),
                keys.no_duplicates(),
                keep == |name: Seq<char>| name != "python"@,
                selects(texts(names@), keys, i as int, keep),
            decreases entries@.len() - i,
        {
            let key: &String = entries[i].0;
            assert(key@ == keys[i as int]);
            if same_text(key.as_str(), "python") {
                proof {
                    lemma_select_skip(texts(names@), keys, i as int, keep);
                }
            } else {
                proof {
                    lemma_select_push(texts(names@), keys, i as int, keep);
                    assert(texts(names@.push(*key)) =~= texts(names@).push(key@));
                }
                names.push(key.clone());
            }
            i = i + 1;
        }
        proof {
            lemma_select_all(texts(names@), keys, keep);
            assert forall|name: Seq<char>| texts(names@).contains(name) <==> self.declares(name) by {
                assert(keys.contains(name) <==> keys.to_set().contains(name));
            }
        }
        names
    }
}

/// The entry that states the version of Python is not among the names, even
/// where the manifest holds it.
pub proof fn lemma_python_not_declared(manifest: PyProject)
    ensures
        !manifest.declares("python"@),
{
}

/// Every other key of the dependency table is among the names.
pub proof fn lemma_packages_declared(manifest: PyProject, name: Seq<char>)
    requires
        table_entries(manifest.tool.poetry.dependencies).contains_key(name),
        name != "python"@,
    ensures
        manifest.declares(name),
{
}

} // verus!
