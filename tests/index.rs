use reapack_index::config::{ActionListSection, PackageType};
use reapack_index::entrypoints::Entrypoints;
use reapack_index::index::{
    category_of, is_version_config, IndexError, Package, Repository, Source, Version,
};

fn source(rel_version: &str, rel_repo: &str) -> Source {
    Source {
        path: format!("/repo/{}", rel_repo),
        relpath_from_version: rel_version.to_string(),
        relpath_from_repo: rel_repo.to_string(),
    }
}

fn version(name: &str, sources: Vec<Source>) -> Version {
    Version {
        path: format!("/repo/pkg/{}", name),
        name: name.to_string(),
        time: "2024-01-02T03:04:05+00:00".to_string(),
        changelog: None,
        entrypoints: None,
        sources,
    }
}

fn script_package(category: &str, pattern: &str, versions: Vec<Version>) -> Package {
    Package {
        path: "/repo/pkg".to_string(),
        dir_name: "pkg".to_string(),
        identifier: None,
        name: None,
        category: category.to_string(),
        kind: PackageType::Script,
        author: None,
        readme: None,
        entrypoints: Some(Entrypoints {
            sections: vec![(ActionListSection::Main, vec![pattern.to_string()])],
        }),
        versions,
    }
}

fn repository(packages: Vec<Package>) -> Repository {
    Repository {
        path: "/repo".to_string(),
        dir_name: "repo".to_string(),
        identifier: None,
        author: "Jane".to_string(),
        url_pattern: "https://host/{relpath}".to_string(),
        readme: None,
        packages,
    }
}

fn one_script_repo() -> Repository {
    let v = version(
        "0.0.1",
        vec![
            source("main.lua", "pkg/0.0.1/main.lua"),
            source("lib/util.lua", "pkg/0.0.1/lib/util.lua"),
        ],
    );
    repository(vec![script_package("Utility", "*.lua", vec![v])])
}

#[test]
fn end_to_end_index() {
    let repo = one_script_repo();
    let xml = repo.generate_index(None).unwrap();
    assert_eq!(xml.matches("<category ").count(), 1);
    assert_eq!(xml.matches("<reapack ").count(), 1);
    assert_eq!(xml.matches("<version ").count(), 1);
    assert_eq!(xml.matches("<source ").count(), 2);
    assert_eq!(xml.matches(" main=\"").count(), 1);
    assert!(xml.contains("main=\"main\""));
    assert!(xml.contains("https://host/pkg/0.0.1/main.lua"));
    assert!(xml.contains("file=\"../pkg/main.lua\""));
    assert!(xml.contains("name=\"repo\""));
    assert!(xml.contains("author=\"Jane\""));
    assert!(xml.contains("type=\"script\""));
    assert!(xml.contains("version=\"1.1\""));
}

#[test]
fn document_model() {
    let repo = one_script_repo();
    let doc = repo.element(None).unwrap();
    assert_eq!(doc.name, "repo");
    assert_eq!(doc.categories.len(), 1);
    assert_eq!(doc.categories[0].name, "Utility");
    assert_eq!(doc.categories[0].members, vec![0]);
    let pkg = &doc.packages[0];
    assert_eq!(pkg.desc, "pkg");
    assert_eq!(pkg.name, "pkg");
    let ver = &pkg.versions[0];
    assert_eq!(ver.author, "Jane");
    assert_eq!(ver.sources[0].main.as_deref(), Some("main"));
    assert_eq!(ver.sources[1].main, None);
    assert_eq!(ver.sources[1].file, "../pkg/lib/util.lua");
}

#[test]
fn packages_grouped_by_category() {
    let mk = |dir: &str, cat: &str| {
        let mut p = script_package(
            cat,
            "*.lua",
            vec![version("1.0", vec![source("a.lua", &format!("{}/1.0/a.lua", dir))])],
        );
        p.dir_name = dir.to_string();
        p
    };
    let repo = repository(vec![mk("a", "X"), mk("b", "Y/Z"), mk("c", "X"), mk("d", "./Y/Z")]);
    let doc = repo.element(None).unwrap();
    assert_eq!(doc.categories.len(), 2);
    assert_eq!(doc.categories[0].name, "X");
    assert_eq!(doc.categories[0].members, vec![0, 2]);
    assert_eq!(doc.categories[1].name, "Y/Z");
    assert_eq!(doc.categories[1].members, vec![1, 3]);
    assert_eq!(doc.packages[1].versions[0].sources[0].file, "../../b/a.lua");
}

#[test]
fn category_depth_and_escape() {
    let c = category_of("a/b/c").unwrap();
    assert_eq!(c.name, "a/b/c");
    assert_eq!(c.depth, 3);
    assert_eq!(category_of("").unwrap().depth, 0);
    assert!(category_of("../x").is_none());
    let repo = repository(vec![script_package("../up", "*.lua", vec![])]);
    assert!(matches!(repo.element(None), Err(IndexError::CategoryEscapesRoot(_))));
}

#[test]
fn identifiers_and_authors_fall_back() {
    let mut repo = one_script_repo();
    repo.identifier = Some("custom".to_string());
    repo.packages[0].identifier = Some("ident".to_string());
    repo.packages[0].author = Some("Pkg Author".to_string());
    assert_eq!(repo.identifier(), "custom");
    assert_eq!(repo.packages[0].name(), "ident");
    let doc = repo.element(None).unwrap();
    assert_eq!(doc.name, "custom");
    assert_eq!(doc.packages[0].versions[0].author, "Pkg Author");
    assert_eq!(doc.packages[0].versions[0].sources[0].file, "../ident/main.lua");
}

#[test]
fn descriptions_are_cdata() {
    let mut repo = one_script_repo();
    repo.readme = Some("a]]>b".to_string());
    repo.packages[0].versions[0].changelog = Some("fixed".to_string());
    let xml = repo.generate_index(None).unwrap();
    assert!(xml.contains("<![CDATA[a]]]]><![CDATA[>b]]>"));
    assert!(xml.contains("<![CDATA[fixed]]>"));
}

#[test]
fn version_without_sources_fails() {
    let repo = repository(vec![script_package("X", "*.lua", vec![version("1.0", vec![])])]);
    assert!(matches!(repo.generate_index(None), Err(IndexError::NoSourcesFound(_))));
}

#[test]
fn script_without_matching_source_fails() {
    let v = version("1.0", vec![source("doc.txt", "pkg/1.0/doc.txt")]);
    let repo = repository(vec![script_package("X", "*.lua", vec![v])]);
    assert!(matches!(
        repo.generate_index(None),
        Err(IndexError::NoEntrypointsFoundForScriptPackage(_))
    ));
}

#[test]
fn non_script_with_patterns_fails() {
    let mut repo = one_script_repo();
    repo.packages[0].kind = PackageType::Effect;
    assert!(matches!(
        repo.generate_index(None),
        Err(IndexError::EntrypointsOnlyAllowedInScriptPackages(_))
    ));
}

#[test]
fn unknown_url_variable_fails() {
    let mut repo = one_script_repo();
    repo.url_pattern = "https://host/{foo}".to_string();
    assert!(matches!(repo.generate_index(None), Err(IndexError::UrlTemplate(_, _))));
}

#[test]
fn find_package_by_identifier() {
    let mut repo = one_script_repo();
    assert_eq!(repo.find_package("pkg"), Some(0));
    assert_eq!(repo.find_package("other"), None);
    repo.packages[0].identifier = Some("other".to_string());
    assert_eq!(repo.find_package("other"), Some(0));
    assert_eq!(repo.find_package("pkg"), None);
}

#[test]
fn script_without_patterns_fails() {
    let mut repo = one_script_repo();
    repo.packages[0].entrypoints = None;
    assert!(matches!(
        repo.generate_index(None),
        Err(IndexError::NoEntrypointsDefinedForScriptPackage(_))
    ));
}

#[test]
fn invalid_pattern_fails() {
    let mut repo = one_script_repo();
    repo.packages[0].versions[0].entrypoints = Some(Entrypoints {
        sections: vec![(ActionListSection::Main, vec!["[".to_string()])],
    });
    assert!(matches!(
        repo.generate_index(None),
        Err(IndexError::InvalidEntrypointPattern(_, _))
    ));
}

#[test]
fn commit_is_substituted() {
    let mut repo = one_script_repo();
    repo.url_pattern = "https://host/{git_commit}/{relpath}".to_string();
    let xml = repo.generate_index(Some("deadbeef")).unwrap();
    assert!(xml.contains("https://host/deadbeef/pkg/0.0.1/main.lua"));
    assert!(matches!(
        repo.generate_index(None),
        Err(IndexError::UrlTemplate(_, reapack_index::url::UrlError::CommitUnavailable))
    ));
}

#[test]
fn backslash_paths_are_not_portable() {
    let mut repo = one_script_repo();
    assert!(repo.paths_portable());
    repo.packages[0].versions[0].sources[1].relpath_from_version = "lib\\util.lua".to_string();
    assert!(!repo.paths_portable());
}

#[test]
fn version_config_is_recognised() {
    assert!(is_version_config("version.toml"));
    assert!(!is_version_config("sub/version.toml"));
    assert!(!is_version_config("main.lua"));
}

#[test]
fn index_document_layout() {
    let xml = one_script_repo().generate_index(None).unwrap();
    let root = xml.find("<index").unwrap();
    let category = xml.find("<category").unwrap();
    let reapack = xml.find("<reapack").unwrap();
    let version = xml.find("<version ").unwrap();
    assert!(root < category && category < reapack && reapack < version);
    assert!(xml[root..].starts_with("<index version=\"1\" name=\"repo\""));
}
