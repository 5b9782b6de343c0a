use reapack_index::url::{pattern_uses_commit, render_url, url_encode_path, UrlError};

#[test]
fn test_01() {
    let input = "fx-chunk-data/0.0.1/Copy chunk data from last-focused FX.lua";
    let expected = "fx-chunk-data/0.0.1/Copy%20chunk%20data%20from%20last-focused%20FX.lua";
    let result = url_encode_path(input);
    assert_eq!(result, expected);
}

#[test]
fn encode_escapes_reserved_and_non_ascii() {
    assert_eq!(url_encode_path("a+b#c.lua"), "a%2Bb%23c.lua");
    assert_eq!(url_encode_path("caf\u{e9}.lua"), "caf%C3%A9.lua");
    assert_eq!(url_encode_path("A_z-0.9/x"), "A_z-0.9/x");
}

#[test]
fn encode_normalises_first() {
    assert_eq!(url_encode_path("a/./b/../c.lua"), "a/c.lua");
}

#[test]
fn render_relpath() {
    let url = render_url("https://host/{relpath}", "a b/c.lua", None).unwrap();
    assert_eq!(url, "https://host/a%20b/c.lua");
}

#[test]
fn render_unknown_variable_names_it() {
    match render_url("https://host/{foo}/{relpath}", "c.lua", None) {
        Err(UrlError::UnknownVariable(name)) => assert_eq!(name, "{foo}"),
        other => panic!("unexpected result: {:?}", other),
    }
}

#[test]
fn render_commit() {
    let url = render_url("https://host/{git_commit}/{relpath}", "x/y.lua", Some("abc123")).unwrap();
    assert_eq!(url, "https://host/abc123/x/y.lua");
    assert!(matches!(
        render_url("https://host/{git_commit}/{relpath}", "x/y.lua", None),
        Err(UrlError::CommitUnavailable)
    ));
}

#[test]
fn render_first_missing_key_decides() {
    assert!(matches!(
        render_url("{git_commit}/{foo}", "x.lua", None),
        Err(UrlError::CommitUnavailable)
    ));
    assert!(matches!(
        render_url("{foo}/{git_commit}", "x.lua", None),
        Err(UrlError::UnknownVariable(_))
    ));
}

#[test]
fn render_invalid_pattern() {
    assert!(matches!(
        render_url("https://host/{relpath", "x.lua", None),
        Err(UrlError::InvalidPattern)
    ));
}

#[test]
fn commit_use_is_detected() {
    assert!(pattern_uses_commit("https://h/{git_commit}/{relpath}").unwrap());
    assert!(!pattern_uses_commit("https://h/{relpath}").unwrap());
    assert!(pattern_uses_commit("{").is_err());
}
