use reapack_index::config::{ActionListSection, PackageType};
use reapack_index::entrypoints::{
    check_entrypoint_policy, classify, effective_entrypoints, source_sections, EntrypointError,
    Entrypoints,
};

fn main_only(pattern: &str) -> Entrypoints {
    Entrypoints { sections: vec![(ActionListSection::Main, vec![pattern.to_string()])] }
}

#[test]
fn star_does_not_cross_separator() {
    let m = main_only("scripts/*.lua");
    assert_eq!(classify(&m, "scripts/foo.lua").unwrap(), vec![ActionListSection::Main]);
    assert!(classify(&m, "scripts/sub/foo.lua").unwrap().is_empty());
}

#[test]
fn sections_come_in_canonical_order_once_each() {
    let m = Entrypoints {
        sections: vec![
            (ActionListSection::MediaExplorer, vec!["*.lua".to_string()]),
            (ActionListSection::Main, vec!["x.txt".to_string(), "*.lua".to_string()]),
            (ActionListSection::Main, vec!["a.lua".to_string()]),
            (ActionListSection::MIDIEditor, vec!["*.eel".to_string()]),
        ],
    };
    assert_eq!(
        classify(&m, "a.lua").unwrap(),
        vec![ActionListSection::Main, ActionListSection::MediaExplorer]
    );
    assert_eq!(classify(&m, "b.eel").unwrap(), vec![ActionListSection::MIDIEditor]);
}

#[test]
fn invalid_pattern_is_an_error() {
    let m = main_only("a[");
    assert!(classify(&m, "a.lua").is_err());
}

#[test]
fn version_patterns_replace_package_patterns() {
    let version = Some(main_only("v/*.lua"));
    let package = Some(main_only("p/*.lua"));
    let eff = effective_entrypoints(&version, &package);
    let secs = source_sections(PackageType::Script, eff, "p/x.lua").unwrap();
    assert!(secs.is_empty());
    let none: Option<Entrypoints> = None;
    let eff = effective_entrypoints(&none, &package);
    assert_eq!(
        source_sections(PackageType::Script, eff, "p/x.lua").unwrap(),
        vec![ActionListSection::Main]
    );
}

#[test]
fn script_needs_patterns() {
    let none: Option<Entrypoints> = None;
    assert!(matches!(
        check_entrypoint_policy(PackageType::Script, &none),
        Err(EntrypointError::NotDefinedForScript)
    ));
    let empty = Some(Entrypoints { sections: vec![(ActionListSection::Main, vec![])] });
    assert!(matches!(
        check_entrypoint_policy(PackageType::Script, &empty),
        Err(EntrypointError::NotDefinedForScript)
    ));
}

#[test]
fn only_scripts_may_have_patterns() {
    let some = Some(main_only("*.lua"));
    assert!(matches!(
        check_entrypoint_policy(PackageType::Effect, &some),
        Err(EntrypointError::OnlyAllowedInScripts)
    ));
    let empty = Some(Entrypoints { sections: vec![(ActionListSection::Main, vec![])] });
    assert!(check_entrypoint_policy(PackageType::Effect, &empty).is_ok());
    let none: Option<Entrypoints> = None;
    assert!(check_entrypoint_policy(PackageType::Theme, &none).is_ok());
    assert!(source_sections(PackageType::Data, &none, "x.lua").unwrap().is_empty());
}

#[test]
fn invalid_pattern_surfaces_from_source_sections() {
    let m = Some(main_only("scripts/[.lua"));
    assert!(matches!(
        source_sections(PackageType::Script, &m, "scripts/a.lua"),
        Err(EntrypointError::InvalidPattern(_))
    ));
}
