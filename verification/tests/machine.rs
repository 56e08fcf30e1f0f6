use yalich::github::{License, Repo};
use yalich::model::{
    Dependency, DependencyOverride, DependencyOverrides, Error, Language, Languages,
};
use yalich::names::Names;
use yalich::node::npmjs;
use yalich::pipeline::{Pipeline, Step};
use yalich::python::pypi;
use yalich::rust::cratesio;
use yalich::string_map::StringMap;

fn no_overrides() -> Languages {
    Languages {
        python: Language::default(),
        rust: Language::default(),
        node: Language::default(),
    }
}

fn declared(python: &[&str], rust: &[&str], node: &[&str]) -> Names {
    let mut names = Names::new();
    names.python.extend(python.iter().map(|name| (*name).to_owned()).collect());
    names.rust.extend(rust.iter().map(|name| (*name).to_owned()).collect());
    names.node.extend(node.iter().map(|name| (*name).to_owned()).collect());
    names
}

fn python_document(name: &str, license: &str, home_page: Option<&str>) -> pypi::Package {
    pypi::Package {
        info: pypi::Info {
            license: license.to_owned(),
            name: name.to_owned(),
            project_url: format!("https://pypi.org/project/{}", name),
            home_page: home_page.map(|page| page.to_owned()),
        },
    }
}

fn rust_document(name: &str, license: Option<&str>, homepage: Option<&str>) -> cratesio::CrateResource {
    cratesio::CrateResource {
        crate_: cratesio::Crate {
            name: name.to_owned(),
            homepage: homepage.map(|page| page.to_owned()),
        },
        versions: vec![cratesio::Version { license: license.map(|l| l.to_owned()) }],
    }
}

fn node_document(name: &str, license: Option<&str>, homepage: Option<&str>) -> npmjs::Package {
    let mut versions = StringMap::new();
    versions.insert(
        "1.0.0".to_owned(),
        npmjs::Version {
            license: license.map(|l| npmjs::OneOrMany::One(npmjs::License::Plain(l.to_owned()))),
            licenses: None,
            homepage: homepage.map(|page| page.to_owned()),
        },
    );
    npmjs::Package {
        name: name.to_owned(),
        dist_tags: npmjs::DistTags { latest: "1.0.0".to_owned() },
        versions,
    }
}

fn repository(license: Option<&str>) -> Repo {
    Repo {
        full_name: "acme/widget".to_owned(),
        license: license.map(|name| License { name: name.to_owned() }),
        html_url: "https://github.com/acme/widget".to_owned(),
    }
}

fn record(category: &'static str, name: &str, url: &str, license: Option<&str>, homepage: Option<&str>) -> Dependency {
    Dependency {
        category,
        name: name.to_owned(),
        url: url.to_owned(),
        license: license.map(|l| l.to_owned()),
        homepage: homepage.map(|page| page.to_owned()),
    }
}

/// Runs the pipeline, answering each request for a document of a registry
/// from the name that is asked for, and each request to GitHub with
/// `github`. The log holds what was asked, in order.
fn run(
    languages: &Languages,
    names: &Names,
    homepage: Option<&str>,
    license: Option<&str>,
    github: Option<&str>,
) -> (Result<Vec<Dependency>, Error>, Vec<String>) {
    let mut log = Vec::new();
    let mut pipeline = Pipeline::new(languages, names);
    loop {
        let next = match pipeline.step() {
            Step::Python(pending) => {
                let name = pending.name();
                log.push(format!("pypi {}", name));
                pending.resolve(python_document(name, license.unwrap_or(""), homepage))
            }
            Step::Rust(pending) => {
                let name = pending.name();
                log.push(format!("crates.io {}", name));
                pending.resolve(rust_document(name, license, homepage))
            }
            Step::Node(pending) => {
                let name = pending.name();
                log.push(format!("npm {}", name));
                pending.resolve(node_document(name, license, homepage))
            }
            Step::Github(pending) => {
                let (organisation, repo) = pending.repository();
                log.push(format!("github {}/{}", organisation, repo));
                Ok(pending.enrich(repository(github)))
            }
            Step::Done(dependencies) => return (Ok(dependencies), log),
        };
        pipeline = match next {
            Ok(pipeline) => pipeline,
            Err(error) => return (Err(error), log),
        };
    }
}

#[test]
fn pipeline_without_names_is_done_at_once() {
    let languages = no_overrides();
    let names = Names::new();
    match Pipeline::new(&languages, &names).step() {
        Step::Done(dependencies) => assert_eq!(dependencies, vec![]),
        _ => panic!("a step is due"),
    }
}

#[test]
fn pipeline_reports_one_python_dependency() {
    let languages = no_overrides();
    let names = declared(&["requests"], &[], &[]);
    let pending = match Pipeline::new(&languages, &names).step() {
        Step::Python(pending) => pending,
        _ => panic!("another step is due"),
    };
    assert_eq!(pending.name(), "requests");
    let document = pypi::Package {
        info: pypi::Info {
            name: "requests".to_owned(),
            license: "Apache 2.0".to_owned(),
            project_url: "https://pypi.org/project/requests".to_owned(),
            home_page: None,
        },
    };
    match pending.resolve(document).unwrap().step() {
        Step::Done(dependencies) => assert_eq!(
            dependencies,
            vec![record(
                "python",
                "requests",
                "https://pypi.org/project/requests",
                Some("Apache 2.0"),
                None
            )]
        ),
        _ => panic!("another step is due"),
    }
}

#[test]
fn pipeline_resolves_python_then_rust_then_node() {
    let languages = no_overrides();
    let names = declared(&["requests", "flask"], &["url", "anyhow"], &["react"]);
    let (outcome, log) = run(&languages, &names, None, Some("MIT"), None);
    assert_eq!(
        log,
        vec!["pypi flask", "pypi requests", "crates.io anyhow", "crates.io url", "npm react"]
    );
    let dependencies = outcome.unwrap();
    let listed: Vec<(&str, &str)> = dependencies
        .iter()
        .map(|dependency| (dependency.category, dependency.name.as_str()))
        .collect();
    assert_eq!(
        listed,
        vec![
            ("python", "flask"),
            ("python", "requests"),
            ("rust", "anyhow"),
            ("rust", "url"),
            ("node", "react")
        ]
    );
}

#[test]
fn pipeline_asks_github_only_after_every_name_is_resolved() {
    let languages = no_overrides();
    let names = declared(&["flask"], &["anyhow"], &["react"]);
    let (outcome, log) =
        run(&languages, &names, Some("https://github.com/acme/widget"), None, Some("MIT License"));
    assert_eq!(
        log,
        vec![
            "pypi flask",
            "crates.io anyhow",
            "npm react",
            "github acme/widget",
            "github acme/widget",
            "github acme/widget"
        ]
    );
    for dependency in outcome.unwrap() {
        assert_eq!(dependency.license, Some("MIT License".to_owned()));
    }
}

#[test]
fn pipeline_never_asks_github_for_a_licensed_dependency() {
    let languages = no_overrides();
    let names = declared(&["flask"], &["anyhow"], &["react"]);
    let (outcome, log) =
        run(&languages, &names, Some("https://github.com/acme/widget"), Some("MIT"), Some("ISC"));
    assert_eq!(log, vec!["pypi flask", "crates.io anyhow", "npm react"]);
    for dependency in outcome.unwrap() {
        assert_eq!(dependency.license, Some("MIT".to_owned()));
    }
}

#[test]
fn pipeline_never_asks_github_for_an_overridden_dependency() {
    let mut overrides = DependencyOverrides::new();
    overrides.insert("anyhow".to_owned(), DependencyOverride { license: Some("MIT".to_owned()) });
    let mut languages = no_overrides();
    languages.rust.overrides = overrides;
    let names = declared(&[], &["anyhow", "url"], &[]);
    let pending = match Pipeline::new(&languages, &names).step() {
        Step::Rust(pending) => pending,
        _ => panic!("another step is due"),
    };
    assert_eq!(pending.name(), "anyhow");
    let pipeline = pending
        .resolve(rust_document("anyhow", None, Some("https://github.com/acme/anyhow")))
        .unwrap();
    let pending = match pipeline.step() {
        Step::Rust(pending) => pending,
        _ => panic!("another step is due"),
    };
    assert_eq!(pending.name(), "url");
    let pipeline =
        pending.resolve(rust_document("url", None, Some("https://github.com/acme/url"))).unwrap();
    let pending = match pipeline.step() {
        Step::Github(pending) => pending,
        _ => panic!("another step is due"),
    };
    assert_eq!(pending.repository(), ("acme", "url"));
    match pending.enrich(repository(Some("Apache License 2.0"))).step() {
        Step::Done(dependencies) => assert_eq!(
            dependencies,
            vec![
                record(
                    "rust",
                    "anyhow",
                    "https://crates.io/crates/anyhow",
                    Some("MIT"),
                    Some("https://github.com/acme/anyhow")
                ),
                record(
                    "rust",
                    "url",
                    "https://crates.io/crates/url",
                    Some("Apache License 2.0"),
                    Some("https://github.com/acme/url")
                ),
            ]
        ),
        _ => panic!("another step is due"),
    }
}

#[test]
fn pipeline_passes_over_homepages_elsewhere() {
    let languages = no_overrides();
    let names = declared(&["flask", "requests"], &[], &[]);
    let (outcome, log) = run(&languages, &names, Some("https://example.com"), None, Some("MIT"));
    assert_eq!(log, vec!["pypi flask", "pypi requests"]);
    for dependency in outcome.unwrap() {
        assert_eq!(dependency.license, None);
    }
}

#[test]
fn pipeline_leaves_the_license_open_when_github_names_it_other() {
    let languages = no_overrides();
    let names = declared(&[], &[], &["react"]);
    let (outcome, log) =
        run(&languages, &names, Some("https://github.com/acme/widget/"), None, Some("Other"));
    assert_eq!(log, vec!["npm react", "github acme/widget"]);
    assert_eq!(
        outcome.unwrap(),
        vec![record(
            "node",
            "react",
            "https://www.npmjs.com/package/react",
            None,
            Some("https://github.com/acme/widget/")
        )]
    );
}

#[test]
fn pipeline_ends_at_the_first_document_that_is_refused() {
    let languages = no_overrides();
    let names = declared(&["flask"], &["anyhow", "url"], &["react"]);
    let pipeline = match Pipeline::new(&languages, &names).step() {
        Step::Python(pending) => pending.resolve(python_document("flask", "BSD", None)).unwrap(),
        _ => panic!("another step is due"),
    };
    let pending = match pipeline.step() {
        Step::Rust(pending) => pending,
        _ => panic!("another step is due"),
    };
    let without_versions = cratesio::CrateResource {
        crate_: cratesio::Crate { name: "anyhow".to_owned(), homepage: None },
        versions: vec![],
    };
    match pending.resolve(without_versions) {
        Err(Error::NoVersions { name }) => assert_eq!(name, "anyhow"),
        Err(other) => panic!("unexpected: {:?}", other),
        Ok(_) => panic!("the run goes on"),
    }
}

#[test]
fn pipeline_refuses_an_npm_document_without_its_latest_version() {
    let languages = no_overrides();
    let names = declared(&[], &[], &["react"]);
    let pending = match Pipeline::new(&languages, &names).step() {
        Step::Node(pending) => pending,
        _ => panic!("another step is due"),
    };
    let mut document = node_document("react", Some("MIT"), None);
    document.dist_tags.latest = "2.0.0".to_owned();
    match pending.resolve(document) {
        Err(Error::NoLatestVersion { name }) => assert_eq!(name, "react"),
        Err(other) => panic!("unexpected: {:?}", other),
        Ok(_) => panic!("the run goes on"),
    }
}

#[test]
fn pipeline_gives_the_same_records_however_the_names_were_declared() {
    let languages = no_overrides();
    let first = declared(&["requests", "flask", "requests"], &["url"], &["react", "left-pad"]);
    let second = declared(&["flask", "requests"], &["url", "url"], &["left-pad", "react"]);
    let (first_outcome, first_log) =
        run(&languages, &first, Some("https://github.com/acme/widget"), None, Some("MIT"));
    let (second_outcome, second_log) =
        run(&languages, &second, Some("https://github.com/acme/widget"), None, Some("MIT"));
    assert_eq!(first_log, second_log);
    assert_eq!(first_outcome.unwrap(), second_outcome.unwrap());
}
