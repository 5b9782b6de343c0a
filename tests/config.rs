use reapack_index::config::{
    generate_repository_config, ActionListSection, PackageType, RepositoryConfigParams,
};

#[test]
fn package_type_tokens_round_trip() {
    let all = [
        PackageType::Script,
        PackageType::Extension,
        PackageType::Effect,
        PackageType::Data,
        PackageType::Theme,
        PackageType::LangPack,
        PackageType::WebInterface,
        PackageType::ProjectTemplate,
        PackageType::TrackTemplate,
        PackageType::MIDINoteNames,
        PackageType::AutomationItem,
    ];
    for t in all {
        assert_eq!(PackageType::from_str(t.as_str()).unwrap(), t);
    }
    assert_eq!(PackageType::ProjectTemplate.as_str(), "projecttpl");
    assert_eq!(PackageType::AutomationItem.as_str(), "autoitem");
}

#[test]
fn package_type_rejects_other_tokens() {
    let err = PackageType::from_str("Script").unwrap_err();
    assert_eq!(err.0, "Script");
    assert!(PackageType::from_str("scripts").is_err());
    assert!(PackageType::from_str("").is_err());
}

#[test]
fn section_tokens_round_trip() {
    let all = [
        ActionListSection::Main,
        ActionListSection::MIDIEditor,
        ActionListSection::MIDIInlineEditor,
        ActionListSection::MIDIEventListEditor,
        ActionListSection::MediaExplorer,
    ];
    for s in all {
        assert_eq!(ActionListSection::from_str(s.as_str()).unwrap(), s);
    }
    assert_eq!(ActionListSection::MIDIEditor.as_str(), "midi_editor");
    let err = ActionListSection::from_str("midi").unwrap_err();
    assert_eq!(err.0, "midi");
}

#[test]
fn params_setters_and_lookup() {
    let mut p = RepositoryConfigParams::default();
    assert_eq!(p.get_value("author").unwrap(), "Your Name");
    p.author("Jane");
    p.identifier("my-repo");
    p.url_pattern("https://x/{relpath}");
    assert_eq!(p.get_value("author").unwrap(), "Jane");
    assert_eq!(p.get_value("identifier").unwrap(), "my-repo");
    assert_eq!(p.get_value("url_pattern").unwrap(), "https://x/{relpath}");
    assert!(p.get_value("other").is_none());
}

#[test]
fn repository_config_is_filled() {
    let mut p = RepositoryConfigParams::default();
    p.identifier("my-repo");
    let text = generate_repository_config(&p).unwrap();
    assert!(text.contains("identifier = \"my-repo\""));
    assert!(text.contains("author = \"Your Name\""));
    assert!(text.contains(
        "url_pattern = \"https://raw.githubusercontent.com/YOUR_USERNAME/YOUR_REPOSITORY/{git_commit}/{relpath}\""
    ));
}
