use yalich::model::{DependencyNames, DependencyOverride, DependencyOverrides, Resolve};
use yalich::python::pypi::{request_url, Info, Package};
use yalich::python::pyproject::{Poetry, PyProject, Tool};
use yalich::python::{dependency, Resolver};

fn requests(license: &str) -> Package {
    Package {
        info: Info {
            license: license.to_owned(),
            name: "requests".to_owned(),
            project_url: "https://pypi.org/project/requests".to_owned(),
            home_page: Some("https://requests.readthedocs.io".to_owned()),
        },
    }
}

fn manifest(entries: Vec<(&str, toml::Value)>) -> PyProject {
    let mut dependencies = toml::value::Table::new();
    for (name, value) in entries {
        dependencies.insert(name.to_owned(), value);
    }
    PyProject { tool: Tool { poetry: Poetry { dependencies } } }
}

fn text(value: &str) -> toml::Value {
    toml::Value::String(value.to_owned())
}

fn sorted(mut names: Vec<String>) -> Vec<String> {
    names.sort();
    names
}

#[test]
fn python_end_to_end_row() {
    let declared = manifest(vec![("requests", text("^2.0"))]);
    let names = declared.dependency_names();
    assert_eq!(names, vec!["requests".to_owned()]);
    let overrides = DependencyOverrides::new();
    let resolver = Resolver::new(&overrides);
    let document = Package {
        info: Info {
            license: "Apache 2.0".to_owned(),
            name: "requests".to_owned(),
            project_url: "https://pypi.org/project/requests".to_owned(),
            home_page: None,
        },
    };
    let resolved = resolver.resolve(document).unwrap();
    assert_eq!(resolved.category, "python");
    assert_eq!(resolved.name, "requests");
    assert_eq!(resolved.url, "https://pypi.org/project/requests");
    assert_eq!(resolved.license, Some("Apache 2.0".to_owned()));
}

#[test]
fn python_empty_license_is_no_license() {
    let made = dependency(requests(""));
    assert_eq!(made.license, None);
    assert_eq!(made.homepage, Some("https://requests.readthedocs.io".to_owned()));
}

#[test]
fn python_override_replaces_the_license_of_the_registry() {
    let mut overrides = DependencyOverrides::new();
    overrides
        .insert("requests".to_owned(), DependencyOverride { license: Some("Apache-2.0".to_owned()) });
    let resolver = Resolver::new(&overrides);
    assert_eq!(resolver.resolve(requests("MIT")).unwrap().license, Some("Apache-2.0".to_owned()));
}

#[test]
fn python_override_fills_a_missing_license() {
    let mut overrides = DependencyOverrides::new();
    overrides
        .insert("requests".to_owned(), DependencyOverride { license: Some("Apache-2.0".to_owned()) });
    let resolver = Resolver::new(&overrides);
    assert_eq!(resolver.resolve(requests("")).unwrap().license, Some("Apache-2.0".to_owned()));
}

#[test]
fn python_override_without_license_changes_nothing() {
    let mut overrides = DependencyOverrides::new();
    overrides.insert("requests".to_owned(), DependencyOverride::default());
    let resolver = Resolver::new(&overrides);
    assert_eq!(resolver.resolve(requests("MIT")).unwrap().license, Some("MIT".to_owned()));
}

#[test]
fn python_override_of_another_name_changes_nothing() {
    let mut overrides = DependencyOverrides::new();
    overrides.insert("flask".to_owned(), DependencyOverride { license: Some("BSD".to_owned()) });
    let resolver = Resolver::new(&overrides);
    assert_eq!(resolver.resolve(requests("MIT")).unwrap().license, Some("MIT".to_owned()));
}

#[test]
fn python_override_goes_by_the_name_of_the_registry() {
    let mut overrides = DependencyOverrides::new();
    overrides.insert("Requests".to_owned(), DependencyOverride { license: Some("BSD".to_owned()) });
    let resolver = Resolver::new(&overrides);
    assert_eq!(resolver.resolve(requests("MIT")).unwrap().license, Some("MIT".to_owned()));
}

#[test]
fn python_manifest_leaves_out_the_language() {
    let declared = manifest(vec![
        ("python", text("^3.8")),
        ("requests", text("^2.0")),
        ("flask", text("*")),
    ]);
    assert_eq!(sorted(declared.dependency_names()), vec!["flask".to_owned(), "requests".to_owned()]);
}

#[test]
fn python_manifest_keeps_every_kind_of_entry() {
    let mut settings = toml::value::Table::new();
    settings.insert("path".to_owned(), text("../local"));
    let declared = manifest(vec![
        ("local", toml::Value::Table(settings)),
        ("pinned", toml::Value::Integer(3)),
        ("Python", text("no language")),
    ]);
    assert_eq!(
        sorted(declared.dependency_names()),
        vec!["Python".to_owned(), "local".to_owned(), "pinned".to_owned()]
    );
}

#[test]
fn python_manifest_with_the_language_alone_declares_nothing() {
    assert_eq!(manifest(vec![("python", text("^3.8"))]).dependency_names(), Vec::<String>::new());
    assert_eq!(manifest(vec![]).dependency_names(), Vec::<String>::new());
}

#[test]
fn python_request_url_names_the_package() {
    assert_eq!(request_url("requests").unwrap(), "https://pypi.org/pypi/requests/json");
}

#[test]
fn python_request_url_is_what_the_parser_serializes() {
    assert_eq!(request_url("a b").unwrap(), "https://pypi.org/pypi/a%20b/json");
}
