//! A run, step by step. The pipeline decides what is to be fetched next and
//! what becomes of the answer; fetching is left to the caller.
//!
//! Every dependency is resolved first, in the order of the names, then those
//! that still lack a license are taken to GitHub, in the same order. A
//! document that is refused ends the run: there is no pipeline to go on with.

use vstd::prelude::*;
use crate::github::{self, enrichment, lookup_for, Repo};
use crate::model::{
    Dependency, DependencyOverride, DependencyView, Error, Languages, Resolve,
};
use crate::names::{work, Ecosystem, Names};
use crate::node;
use crate::python;
use crate::rust;

verus! {

/// What each of `dependencies` holds.
pub open spec fn views(dependencies: Seq<Dependency>) -> Seq<DependencyView> {
    dependencies.map_values(|dependency: Dependency| dependency@)
}

/// The place of the first of `dependencies`, from `from` on, on whose behalf
/// GitHub is to be asked; their number where there is none.
pub open spec fn first_lookup(dependencies: Seq<DependencyView>, from: nat) -> nat
    decreases dependencies.len() - from,
{
    if from >= dependencies.len() {
        dependencies.len()
    } else if lookup_for(dependencies[from as int]) is Some {
        from
    } else {
        first_lookup(dependencies, from + 1)
    }
}

/// What `first_lookup` finds: the dependencies that it passes over are those
/// on whose behalf GitHub is not to be asked, and the one at which it stops
/// has no license. GitHub is never asked on behalf of a dependency that has
/// a license.
pub proof fn lemma_first_lookup(dependencies: Seq<DependencyView>, from: nat)
    requires
        from <= dependencies.len(),
    ensures
        from <= first_lookup(dependencies, from) <= dependencies.len(),
        forall|k: int|
            from <= k < first_lookup(dependencies, from) ==> lookup_for(
                #[trigger] dependencies[k],
            ) is None,
        first_lookup(dependencies, from) < dependencies.len() ==> {
            let found = dependencies[first_lookup(dependencies, from) as int];
            lookup_for(found) is Some && found.license is None
        },
    decreases dependencies.len() - from,
{
    if from < dependencies.len() && lookup_for(dependencies[from as int]) is None {
        lemma_first_lookup(dependencies, from + 1);
    }
}

/// How far a run has come.
pub ghost struct Progress {
    /// The overrides for Python.
    pub python: Map<Seq<char>, DependencyOverride>,
    /// The overrides for Rust.
    pub rust: Map<Seq<char>, DependencyOverride>,
    /// The overrides for Node.
    pub node: Map<Seq<char>, DependencyOverride>,
    /// The names to resolve, in the order of their resolution.
    pub order: Seq<(Ecosystem, Seq<char>)>,
    /// What the first of the names resolved to.
    pub dependencies: Seq<DependencyView>,
    /// How many of the dependencies have been through the fallback to GitHub.
    pub enriched: nat,
}

impl Progress {
    /// Every dependency stands for the name at its place, and none is taken
    /// to GitHub before all are resolved.
    pub open spec fn well_formed(self) -> bool {
        &&& self.dependencies.len() <= self.order.len()
        &&& self.enriched <= self.dependencies.len()
        &&& self.enriched > 0 ==> self.dependencies.len() == self.order.len()
        &&& forall|i: int|
            0 <= i < self.dependencies.len() ==> (#[trigger] self.dependencies[i]).category
                == self.order[i].0.category_text()
    }

    /// A name is still to be resolved.
    pub open spec fn resolving(self) -> bool {
        self.dependencies.len() < self.order.len()
    }

    /// The name to resolve next.
    pub open spec fn due(self) -> (Ecosystem, Seq<char>) {
        self.order[self.dependencies.len() as int]
    }

    /// The run after the name that was due resolved to `dependency`.
    pub open spec fn with_resolved(self, dependency: DependencyView) -> Progress {
        Progress { dependencies: self.dependencies.push(dependency), ..self }
    }

    /// The run, moved on to the next dependency on whose behalf GitHub is to
    /// be asked.
    pub open spec fn at_lookup(self) -> Progress {
        Progress { enriched: first_lookup(self.dependencies, self.enriched), ..self }
    }

    /// The dependency that is being taken to GitHub.
    pub open spec fn asking_for(self) -> DependencyView {
        self.dependencies[self.enriched as int]
    }

    /// The run after GitHub answered `fetched` on behalf of the dependency
    /// that was being taken to it.
    pub open spec fn with_enriched(self, fetched: Repo) -> Progress {
        Progress {
            dependencies: self.dependencies.update(
                self.enriched as int,
                enrichment(self.asking_for(), fetched),
            ),
            enriched: self.enriched + 1,
            ..self
        }
    }
}

/// When nothing is left to resolve there is one dependency for each name, in
/// the order of the names: those of Python, then those of Rust, then those of
/// Node.
pub proof fn lemma_records_follow_names(progress: Progress)
    requires
        progress.well_formed(),
        !progress.resolving(),
    ensures
        progress.dependencies.len() == progress.order.len(),
        forall|i: int|
            0 <= i < progress.order.len() ==> (#[trigger] progress.dependencies[i]).category
                == progress.order[i].0.category_text(),
{
}

/// A run between two steps.
pub struct Pipeline<'a> {
    python: python::Resolver<'a>,
    rust: rust::Resolver<'a>,
    node: node::Resolver<'a>,
    order: Vec<(Ecosystem, &'a str)>,
    dependencies: Vec<Dependency>,
    enriched: usize,
}

impl<'a> View for Pipeline<'a> {
    type V = Progress;

    /// How far the run has come.
    closed spec fn view(&self) -> Progress {
        Progress {
            python: self.python.overrides(),
            rust: self.rust.overrides(),
            node: self.node.overrides(),
            order: work(self.order@),
            dependencies: views(self.dependencies@),
            enriched: self.enriched as nat,
        }
    }
}

/// What a run is to do next.
pub enum Step<'a> {
    /// Fetch PyPI's document of a package.
    Python(PythonStep<'a>),
    /// Fetch the document that crates.io holds of a crate.
    Rust(RustStep<'a>),
    /// Fetch the document that the npm registry holds of a package.
    Node(NodeStep<'a>),
    /// Fetch GitHub's document of a repository.
    Github(Enricher<'a>),
    /// Nothing: these are the dependencies, in the order of the names.
    Done(Vec<Dependency>),
}

impl<'a> Pipeline<'a> {
    #[verifier::type_invariant]
    spec fn sound(self) -> bool {
        self@.well_formed()
    }

    /// A run that is to resolve `names` under the overrides of `languages`.
    pub fn new(languages: &'a Languages, names: &'a Names) -> (pipeline: Self)
        ensures
            pipeline@ == (Progress {
                python: languages.python.overrides@,
                rust: languages.rust.overrides@,
                node: languages.node.overrides@,
                order: names.order(),
                dependencies: Seq::<DependencyView>::empty(),
                enriched: 0,
            }),
            pipeline@.well_formed(),
    {
        let pipeline = Pipeline {
            python: python::Resolver::new(&languages.python.overrides),
            rust: rust::Resolver::new(&languages.rust.overrides),
            node: node::Resolver::new(&languages.node.overrides),
            order: names.resolution_order(),
            dependencies: Vec::new(),
            enriched: 0,
        };
        assert(views(pipeline.dependencies@) =~= Seq::<DependencyView>::empty());
        pipeline
    }

    /// What is to be done next: the next name is to be resolved; or, when all
    /// are, GitHub is to be asked on behalf of the next dependency that has
    /// no license and a homepage there; or nothing is left to do.
    pub fn step(self) -> (step: Step<'a>)
        ensures
            self@.well_formed(),
            match step {
                Step::Python(pending) => pending@ == self@ && self@.resolving() && self@.due().0
                    == Ecosystem::Python,
                Step::Rust(pending) => pending@ == self@ && self@.resolving() && self@.due().0
                    == Ecosystem::Rust,
                Step::Node(pending) => pending@ == self@ && self@.resolving() && self@.due().0
                    == Ecosystem::Node,
                Step::Github(pending) => pending@ == self@.at_lookup() && !self@.resolving()
                    && pending@.enriched < self@.dependencies.len(),
                Step::Done(dependencies) => views(dependencies@) == self@.dependencies
                    && !self@.resolving() && self@.at_lookup().enriched
                    == self@.dependencies.len(),
            },
    {
        proof {
            use_type_invariant(&self);
        }
        if self.dependencies.len() < self.order.len() {
            let ecosystem = self.order[self.dependencies.len()].0;
            assert(self@.due().0 == ecosystem);
            match ecosystem {
                Ecosystem::Python => Step::Python(PythonStep { pipeline: self }),
                Ecosystem::Rust => Step::Rust(RustStep { pipeline: self }),
                Ecosystem::Node => Step::Node(NodeStep { pipeline: self }),
            }
        } else {
            let Pipeline { python, rust, node, order, dependencies, enriched } = self;
            let mut at = enriched;
            while at < dependencies.len() && github::lookup(&dependencies[at]).is_none()
                invariant
                    enriched <= at <= dependencies@.len(),
                    first_lookup(views(dependencies@), at as nat) == first_lookup(
                        views(dependencies@),
                        enriched as nat,
                    ),
                decreases dependencies@.len() - at,
            {
                at = at + 1;
            }
            if at < dependencies.len() {
                let pipeline = Pipeline { python, rust, node, order, dependencies, enriched: at };
                Step::Github(Enricher { pipeline })
            } else {
                Step::Done(dependencies)
            }
        }
    }

    /// The name that is due.
    fn due_name(&self) -> (name: &'a str)
        requires
            self@.resolving(),
        ensures
            name@ == self@.due().1,
    {
        self.order[self.dependencies.len()].1
    }

    /// The run after the name that was due resolved to `dependency`.
    fn advance(self, dependency: Dependency) -> (pipeline: Pipeline<'a>)
        requires
            self@.resolving(),
            dependency@.category == self@.due().0.category_text(),
        ensures
            pipeline@ == self@.with_resolved(dependency@),
            pipeline@.well_formed(),
    {
        proof {
            use_type_invariant(&self);
        }
        let Pipeline { python, rust, node, order, dependencies, enriched } = self;
        let mut dependencies = dependencies;
        let ghost before = views(dependencies@);
        dependencies.push(dependency);
        assert(views(dependencies@) =~= before.push(dependency@));
        Pipeline { python, rust, node, order, dependencies, enriched }
    }
}

/// A run that waits for PyPI's document of a package.
pub struct PythonStep<'a> {
    pipeline: Pipeline<'a>,
}

impl<'a> View for PythonStep<'a> {
    type V = Progress;

    closed spec fn view(&self) -> Progress {
        self.pipeline@
    }
}

impl<'a> PythonStep<'a> {
    #[verifier::type_invariant]
    spec fn due(self) -> bool {
        &&& self.pipeline@.well_formed()
        &&& self.pipeline@.resolving()
        &&& self.pipeline@.due().0 == Ecosystem::Python
    }

    /// The name of the package to ask PyPI for.
    pub fn name(&self) -> (name: &'a str)
        ensures
            self@.resolving(),
            name@ == self@.due().1,
    {
        proof {
            use_type_invariant(self);
        }
        self.pipeline.due_name()
    }

    /// Takes what PyPI answered.
    pub fn resolve(self, document: python::pypi::Package) -> (next: Result<Pipeline<'a>, Error>)
        ensures
            match next {
                Ok(pipeline) => pipeline@.well_formed() && (python::resolved(
                    document,
                    self@.python,
                ) matches Some(dependency) && pipeline@ == self@.with_resolved(dependency)),
                Err(_) => python::resolved(document, self@.python) is None,
            },
    {
        proof {
            use_type_invariant(&self);
        }
        let PythonStep { pipeline } = self;
        match pipeline.python.resolve(document) {
            Ok(dependency) => Ok(pipeline.advance(dependency)),
            Err(error) => Err(error),
        }
    }
}

/// A run that waits for the document that crates.io holds of a crate.
pub struct RustStep<'a> {
    pipeline: Pipeline<'a>,
}

impl<'a> View for RustStep<'a> {
    type V = Progress;

    closed spec fn view(&self) -> Progress {
        self.pipeline@
    }
}

impl<'a> RustStep<'a> {
    #[verifier::type_invariant]
    spec fn due(self) -> bool {
        &&& self.pipeline@.well_formed()
        &&& self.pipeline@.resolving()
        &&& self.pipeline@.due().0 == Ecosystem::Rust
    }

    /// The name of the crate to ask crates.io for.
    pub fn name(&self) -> (name: &'a str)
        ensures
            self@.resolving(),
            name@ == self@.due().1,
    {
        proof {
            use_type_invariant(self);
        }
        self.pipeline.due_name()
    }

    /// Takes what crates.io answered. A crate without versions ends the run.
    pub fn resolve(self, document: rust::cratesio::CrateResource) -> (next: Result<
        Pipeline<'a>,
        Error,
    >)
        ensures
            match next {
                Ok(pipeline) => pipeline@.well_formed() && (rust::resolved(
                    document,
                    self@.rust,
                ) matches Some(dependency) && pipeline@ == self@.with_resolved(dependency)),
                Err(error) => rust::resolved(document, self@.rust) is None && (
                error matches Error::NoVersions { name } && name@ == document.crate_.name@),
            },
    {
        proof {
            use_type_invariant(&self);
        }
        let RustStep { pipeline } = self;
        match pipeline.rust.resolve(document) {
            Ok(dependency) => Ok(pipeline.advance(dependency)),
            Err(error) => Err(error),
        }
    }
}

/// A run that waits for the document that the npm registry holds of a
/// package.
pub struct NodeStep<'a> {
    pipeline: Pipeline<'a>,
}

impl<'a> View for NodeStep<'a> {
    type V = Progress;

    closed spec fn view(&self) -> Progress {
        self.pipeline@
    }
}

impl<'a> NodeStep<'a> {
    #[verifier::type_invariant]
    spec fn due(self) -> bool {
        &&& self.pipeline@.well_formed()
        &&& self.pipeline@.resolving()
        &&& self.pipeline@.due().0 == Ecosystem::Node
    }

    /// The name of the package to ask the npm registry for.
    pub fn name(&self) -> (name: &'a str)
        ensures
            self@.resolving(),
            name@ == self@.due().1,
    {
        proof {
            use_type_invariant(self);
        }
        self.pipeline.due_name()
    }

    /// Takes what the npm registry answered. A document without the metadata
    /// of its latest version ends the run.
    pub fn resolve(self, document: node::npmjs::Package) -> (next: Result<Pipeline<'a>, Error>)
        ensures
            match next {
                Ok(pipeline) => pipeline@.well_formed() && (node::resolved(
                    document,
                    self@.node,
                ) matches Some(dependency) && pipeline@ == self@.with_resolved(dependency)),
                Err(error) => node::resolved(document, self@.node) is None && (
                error matches Error::NoLatestVersion { name } && name@ == document.name@),
            },
    {
        proof {
            use_type_invariant(&self);
        }
        let NodeStep { pipeline } = self;
        match pipeline.node.resolve(document) {
            Ok(dependency) => Ok(pipeline.advance(dependency)),
            Err(error) => Err(error),
        }
    }
}

/// A run that waits for GitHub's document of the repository of a dependency
/// that has no license.
pub struct Enricher<'a> {
    pipeline: Pipeline<'a>,
}

impl<'a> View for Enricher<'a> {
    type V = Progress;

    closed spec fn view(&self) -> Progress {
        self.pipeline@
    }
}

impl<'a> Enricher<'a> {
    #[verifier::type_invariant]
    spec fn due(self) -> bool {
        &&& self.pipeline@.well_formed()
        &&& !self.pipeline@.resolving()
        &&& self.pipeline@.enriched < self.pipeline@.dependencies.len()
        &&& lookup_for(self.pipeline@.asking_for()) is Some
    }

    /// The owner and the name of the repository to ask GitHub for.
    pub fn repository(&self) -> (wanted: (&str, &str))
        ensures
            self@.enriched < self@.dependencies.len(),
            lookup_for(self@.asking_for()) == Some((wanted.0@, wanted.1@)),
    {
        proof {
            use_type_invariant(self);
            use_type_invariant(&self.pipeline);
        }
        let dependency = &self.pipeline.dependencies[self.pipeline.enriched];
        assert(dependency@ == self.pipeline@.asking_for());
        github::lookup(dependency).unwrap()
    }

    /// Takes what GitHub answered: the dependency adopts the license of the
    /// repository, unless GitHub names it `Other` or knows none.
    pub fn enrich(self, fetched: Repo) -> (pipeline: Pipeline<'a>)
        ensures
            self@.enriched < self@.dependencies.len(),
            pipeline@ == self@.with_enriched(fetched),
            pipeline@.well_formed(),
    {
        proof {
            use_type_invariant(&self);
        }
        let Enricher { pipeline } = self;
        let Pipeline { python, rust, node, order, dependencies, enriched } = pipeline;
        let mut dependencies = dependencies;
        let ghost before = views(dependencies@);
        github::enrich(&mut dependencies[enriched], fetched);
        assert(views(dependencies@) =~= before.update(
            enriched as int,
            enrichment(before[enriched as int], fetched),
        ));
        assert(enriched < dependencies.len());
        Pipeline { python, rust, node, order, dependencies, enriched: enriched + 1 }
    }
}

} // verus!
