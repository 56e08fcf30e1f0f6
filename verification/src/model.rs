//! The records that the library produces, and what configures a run.

use std::path::PathBuf;
use vstd::prelude::*;
use vstd::string::StringExecFns;
use crate::string_map::StringMap;
use crate::text::texts;

verus! {

/// `std::path::PathBuf`, the path of a manifest. It is handed on as it came.
#[verifier::external_type_specification]
#[verifier::external_body]
pub struct ExPathBuf(std::path::PathBuf);

/// What an optional text holds.
pub open spec fn opt_text(text: Option<String>) -> Option<Seq<char>> {
    match text {
        Some(t) => Some(t@),
        None => None,
    }
}

/// A copy of an optional text.
pub fn copy_text(text: &Option<String>) -> (copy: Option<String>)
    ensures
        opt_text(copy) == opt_text(*text),
{
    match text {
        Some(t) => Some(t.clone()),
        None => None,
    }
}

/// A license as a registry states it; an empty text states none.
pub open spec fn stated(license: Option<Seq<char>>) -> Option<Seq<char>> {
    match license {
        Some(text) => if text.len() == 0 {
            None
        } else {
            Some(text)
        },
        None => None,
    }
}

/// The license that a registry states, if it states one: an empty text is no
/// license.
pub fn stated_license(license: Option<String>) -> (known: Option<String>)
    ensures
        opt_text(known) == stated(opt_text(license)),
{
    match license {
        Some(text) => if text.as_str().is_empty() {
            None
        } else {
            Some(text)
        },
        None => None,
    }
}

/// A dependency with what is known of its license.
#[derive(Debug, Clone, PartialEq, Eq)]
pub struct Dependency {
    /// The ecosystem: `python`, `rust` or `node`.
    pub category: &'static str,
    /// The name under which the registry lists the package.
    pub name: String,
    /// The page of the package.
    pub url: String,
    /// The license, as far as a source has given one.
    pub license: Option<String>,
    /// The project's own page; it serves to find the repository.
    pub homepage: Option<String>,
}

/// What a `Dependency` holds.
pub ghost struct DependencyView {
    pub category: Seq<char>,
    pub name: Seq<char>,
    pub url: Seq<char>,
    pub license: Option<Seq<char>>,
    pub homepage: Option<Seq<char>>,
}

impl View for Dependency {
    type V = DependencyView;

    open spec fn view(&self) -> DependencyView {
        DependencyView {
            category: self.category@,
            name: self.name@,
            url: self.url@,
            license: opt_text(self.license),
            homepage: opt_text(self.homepage),
        }
    }
}

/// What the configuration states of one dependency by hand.
#[derive(Debug, Clone, PartialEq, Eq)]
pub struct DependencyOverride {
    /// The license to report, whatever the registry says.
    pub license: Option<String>,
}

impl Default for DependencyOverride {
    fn default() -> (made: Self)
        ensures
            made.license is None,
    {
        DependencyOverride { license: None }
    }
}

/// The overrides of one ecosystem, by the name of the dependency.
pub type DependencyOverrides = StringMap<DependencyOverride>;

/// The license that `overrides` states for `name`, if any.
pub open spec fn override_license(
    overrides: Map<Seq<char>, DependencyOverride>,
    name: Seq<char>,
) -> Option<Seq<char>> {
    if overrides.contains_key(name) {
        opt_text(overrides[name].license)
    } else {
        None
    }
}

/// `dependency` with the license that `overrides` states for its name in
/// place of its own; unchanged where they state none.
pub open spec fn with_override(
    dependency: DependencyView,
    overrides: Map<Seq<char>, DependencyOverride>,
) -> DependencyView {
    match override_license(overrides, dependency.name) {
        Some(license) => DependencyView { license: Some(license), ..dependency },
        None => dependency,
    }
}

/// An override that states a license wins over whatever license was known.
pub proof fn lemma_override_wins(
    dependency: DependencyView,
    overrides: Map<Seq<char>, DependencyOverride>,
)
    requires
        overrides.contains_key(dependency.name),
        overrides[dependency.name].license is Some,
    ensures
        with_override(dependency, overrides).license == opt_text(
            overrides[dependency.name].license,
        ),
{
}

/// Overrides touch the license alone, and never take a license away.
pub proof fn lemma_override_keeps(
    dependency: DependencyView,
    overrides: Map<Seq<char>, DependencyOverride>,
)
    ensures
        with_override(dependency, overrides) == (DependencyView {
            license: with_override(dependency, overrides).license,
            ..dependency
        }),
        dependency.license is Some ==> with_override(dependency, overrides).license is Some,
        override_license(overrides, dependency.name) is None ==> with_override(
            dependency,
            overrides,
        ) == dependency,
{
}

impl Dependency {
    /// Replaces the license by the one that `overrides` states for this
    /// dependency's name, whether or not a license was known.
    pub fn with_override(self, overrides: &DependencyOverrides) -> (overridden: Dependency)
        ensures
            overridden@ == with_override(self@, overrides@),
    {
        let mut dependency = self;
        if let Some(dependency_override) = overrides.get(dependency.name.as_str()) {
            if let Some(license) = &dependency_override.license {
                dependency.license = Some(license.clone());
            }
        }
        dependency
    }
}

/// The manifests of one ecosystem and the overrides for its dependencies.
#[derive(Debug)]
pub struct Language {
    pub manifests: Vec<PathBuf>,
    pub overrides: DependencyOverrides,
}

impl Default for Language {
    fn default() -> (made: Self)
        ensures
            made.manifests@.len() == 0,
            made.overrides@ == Map::<Seq<char>, DependencyOverride>::empty(),
    {
        Language { manifests: Vec::new(), overrides: StringMap::new() }
    }
}

/// The three ecosystems.
#[derive(Debug)]
pub struct Languages {
    pub python: Language,
    pub rust: Language,
    pub node: Language,
}

/// What configures a run.
#[derive(Debug)]
pub struct Config {
    pub languages: Languages,
    /// Sent with every request to a registry.
    pub user_agent: String,
}

/// Why a dependency could not be resolved.
#[derive(Debug)]
pub enum Error {
    /// No address could be formed for the document of a dependency. `context`
    /// names the dependency.
    InvalidUrl { context: String, cause: url::ParseError },
    /// The registry lists the crate `name` without a version.
    NoVersions { name: String },
    /// The registry tags a latest version of the package `name` and holds no
    /// metadata for it.
    NoLatestVersion { name: String },
}

/// The message of an error that names a dependency: `before`, the name, `after`.
pub open spec fn naming(before: Seq<char>, name: Seq<char>, after: Seq<char>) -> Seq<char> {
    before + name + after
}

/// `before`, then `name`, then `after`.
pub fn name_in(before: &str, name: &str, after: &str) -> (message: String)
    ensures
        message@ == naming(before@, name@, after@),
{
    let mut message = String::from_str(before);
    message.append(name);
    message.append(after);
    message
}

impl Error {
    /// What the message of this error reads.
    pub open spec fn message_text(&self) -> Seq<char> {
        match self {
            Error::InvalidUrl { context, .. } => context@,
            Error::NoVersions { name } => naming(
                "Rust crate '"@,
                name@,
                "' must have at least one version."@,
            ),
            Error::NoLatestVersion { name } => naming(
                "Latest version of npm package '"@,
                name@,
                "' has no metadata."@,
            ),
        }
    }

    /// A message that names the dependency at fault.
    pub fn message(&self) -> (message: String)
        ensures
            message@ == self.message_text(),
    {
        match self {
            Error::InvalidUrl { context, .. } => context.clone(),
            Error::NoVersions { name } => name_in(
                "Rust crate '",
                name.as_str(),
                "' must have at least one version.",
            ),
            Error::NoLatestVersion { name } => name_in(
                "Latest version of npm package '",
                name.as_str(),
                "' has no metadata.",
            ),
        }
    }
}

/// A manifest that declares dependencies.
pub trait DependencyNames {
    /// Whether the manifest declares `name` as a dependency that a registry
    /// is to be asked for.
    spec fn declares(&self, name: Seq<char>) -> bool;

    /// The names of the dependencies that a registry is to be asked for, each
    /// once.
    fn dependency_names(&self) -> (names: Vec<String>)
        ensures
            texts(names@).no_duplicates(),
            forall|name: Seq<char>| texts(names@).contains(name) <==> self.declares(name),
    ;
}

/// `names` holds, each once, those of the first `upto` of `keys` that `keep`
/// accepts.
pub open spec fn selects(
    names: Seq<Seq<char>>,
    keys: Seq<Seq<char>>,
    upto: int,
    keep: spec_fn(Seq<char>) -> bool,
) -> bool {
    &&& names.no_duplicates()
    &&& forall|name: Seq<char>|
        names.contains(name) <==> (exists|j: int|
            0 <= j < upto && #[trigger] keys[j] == name && keep(name))
}

/// A selection stays one when a key that `keep` refuses is passed over.
pub proof fn lemma_select_skip(
    names: Seq<Seq<char>>,
    keys: Seq<Seq<char>>,
    upto: int,
    keep: spec_fn(Seq<char>) -> bool,
)
    requires
        selects(names, keys, upto, keep),
        0 <= upto < keys.len(),
        !keep(keys[upto]),
    ensures
        selects(names, keys, upto + 1, keep),
{
    assert forall|name: Seq<char>|
        names.contains(name) <==> (exists|j: int|
            0 <= j < upto + 1 && #[trigger] keys[j] == name && keep(name)) by {
        if exists|j: int| 0 <= j < upto + 1 && #[trigger] keys[j] == name && keep(name) {
            let j = choose|j: int| 0 <= j < upto + 1 && #[trigger] keys[j] == name && keep(name);
            assert(j < upto);
        }
        if names.contains(name) {
            let j = choose|j: int| 0 <= j < upto && #[trigger] keys[j] == name && keep(name);
            assert(0 <= j < upto + 1 && keys[j] == name && keep(name));
        }
    }
}

/// A selection stays one when a key that `keep` accepts is added to it.
pub proof fn lemma_select_push(
    names: Seq<Seq<char>>,
    keys: Seq<Seq<char>>,
    upto: int,
    keep: spec_fn(Seq<char>) -> bool,
)
    requires
        selects(names, keys, upto, keep),
        keys.no_duplicates(),
        0 <= upto < keys.len(),
        keep(keys[upto]),
    ensures
        selects(names.push(keys[upto]), keys, upto + 1, keep),
{
    let key = keys[upto];
    let grown = names.push(key);
    if names.contains(key) {
        let j = choose|j: int| 0 <= j < upto && #[trigger] keys[j] == key && keep(key);
        assert(keys[j] == keys[upto]);
    }
    assert forall|name: Seq<char>|
        grown.contains(name) <==> (exists|j: int|
            0 <= j < upto + 1 && #[trigger] keys[j] == name && keep(name)) by {
        if grown.contains(name) {
            let k = choose|k: int| 0 <= k < grown.len() && grown[k] == name;
            if k < names.len() {
                assert(names[k] == name);
                assert(names.contains(name));
                let j = choose|j: int| 0 <= j < upto && #[trigger] keys[j] == name && keep(name);
                assert(0 <= j < upto + 1 && keys[j] == name && keep(name));
            } else {
                assert(keys[upto] == name);
            }
        }
        if exists|j: int| 0 <= j < upto + 1 && #[trigger] keys[j] == name && keep(name) {
            let j = choose|j: int| 0 <= j < upto + 1 && #[trigger] keys[j] == name && keep(name);
            if j < upto {
                assert(names.contains(name));
                let k = choose|k: int| 0 <= k < names.len() && names[k] == name;
                assert(grown[k] == name);
            } else {
                assert(grown[names.len() as int] == name);
            }
        }
    }
}

/// A selection from all of `keys` holds the keys that `keep` accepts.
pub proof fn lemma_select_all(
    names: Seq<Seq<char>>,
    keys: Seq<Seq<char>>,
    keep: spec_fn(Seq<char>) -> bool,
)
    requires
        selects(names, keys, keys.len() as int, keep),
    ensures
        forall|name: Seq<char>| names.contains(name) <==> keys.contains(name) && keep(name),
{
    assert forall|name: Seq<char>| names.contains(name) <==> keys.contains(name) && keep(name) by {
        if names.contains(name) {
            let j = choose|j: int| 0 <= j < keys.len() && #[trigger] keys[j] == name && keep(name);
            assert(keys.contains(name));
        }
        if keys.contains(name) && keep(name) {
            let j = choose|j: int| 0 <= j < keys.len() && keys[j] == name;
            assert(0 <= j < keys.len() && keys[j] == name && keep(name));
        }
    }
}

/// Turns the document that a registry holds of a package into a dependency.
pub trait Resolve {
    /// The document of the registry.
    type Record;

    /// The dependency that `record` resolves to, or nothing where the record
    /// is refused.
    spec fn resolution(&self, record: Self::Record) -> Option<DependencyView>;

    /// Resolves `record` to a dependency, with the overrides applied.
    fn resolve(&self, record: Self::Record) -> (resolved: Result<Dependency, Error>)
        ensures
            match resolved {
                Ok(dependency) => self.resolution(record) == Some(dependency@),
                Err(_) => self.resolution(record) is None,
            },
    ;
}

} // verus!
