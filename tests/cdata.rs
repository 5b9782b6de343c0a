use reapack_index::text::{cdata, same_text};

#[test]
fn cdata_01() {
    let result = cdata("apple");
    let expected = "<![CDATA[apple]]>";
    assert_eq!(result, expected);
}

#[test]
fn cdata_02() {
    let result = cdata("app]] > < [] &le");
    let expected = "<![CDATA[app]] > < [] &le]]>";
    assert_eq!(result, expected);
}

#[test]
fn cdata_03() {
    let result = cdata("app]]>le");
    let expected = "<![CDATA[app]]]]><![CDATA[>le]]>";
    assert_eq!(result, expected);
}

#[test]
fn cdata_empty_and_plain() {
    assert_eq!(cdata(""), "<![CDATA[]]>");
    let t = "plain <text> & more ]] >";
    assert_eq!(cdata(t), format!("<![CDATA[{}]]>", t));
}

#[test]
fn cdata_splits_every_terminator() {
    assert_eq!(
        cdata("]]>]]>"),
        "<![CDATA[]]]]><![CDATA[>]]]]><![CDATA[>]]>"
    );
    assert_eq!(cdata("a]]]>b"), "<![CDATA[a]]]]]><![CDATA[>b]]>");
}

#[test]
fn same_text_compares_characters() {
    assert!(same_text("abc", "abc"));
    assert!(!same_text("abc", "abd"));
    assert!(!same_text("abc", "ab"));
}
