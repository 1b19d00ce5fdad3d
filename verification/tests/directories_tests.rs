use moxide::directories::{parse_directory_config, ParseDirectoryError};
use moxide::strutil::dir_name;

#[test]
fn parse_alias_and_bare_lines() {
    let dirs = parse_directory_config("foo: /a/b\n/x/y/bar").unwrap();
    assert_eq!(dirs.get("foo"), Some(&"/a/b".to_string()));
    assert_eq!(dirs.get("bar"), Some(&"/x/y/bar".to_string()));
    assert_eq!(dirs.get("baz"), None);
    assert_eq!(dirs.names(), vec!["foo".to_string(), "bar".to_string()]);
}

#[test]
fn parse_duplicate_alias_name() {
    let err = parse_directory_config("foo: /a/b\nfoo: /c/d").unwrap_err();
    assert_eq!(
        err,
        ParseDirectoryError::DuplicateName {
            name: "foo".to_string(),
            values: ("/a/b".to_string(), "/c/d".to_string()),
        }
    );
}

#[test]
fn parse_duplicate_derived_name() {
    let err = parse_directory_config("foo: /a/b\n/x/foo").unwrap_err();
    assert_eq!(
        err,
        ParseDirectoryError::DuplicateName {
            name: "foo".to_string(),
            values: ("/a/b".to_string(), "/x/foo".to_string()),
        }
    );
}

#[test]
fn parse_skips_comment_lines() {
    let dirs = parse_directory_config("# a comment\nfoo: /a/b").unwrap();
    assert_eq!(dirs.names(), vec!["foo".to_string()]);
}

#[test]
fn parse_no_derivable_name() {
    let err = parse_directory_config("/").unwrap_err();
    assert_eq!(err, ParseDirectoryError::NoDirName { dir: "/".to_string() });
    let err = parse_directory_config("..").unwrap_err();
    assert_eq!(err, ParseDirectoryError::NoDirName { dir: "..".to_string() });
}

#[test]
fn parse_trims_names_and_paths() {
    let dirs = parse_directory_config("  foo  :  /a/b  ").unwrap();
    assert_eq!(dirs.get("foo"), Some(&"/a/b".to_string()));
}

#[test]
fn parse_trailing_slash_derives_name() {
    let dirs = parse_directory_config("/x/y/bar/").unwrap();
    assert_eq!(dirs.get("bar"), Some(&"/x/y/bar/".to_string()));
}

#[test]
fn dir_name_takes_final_segment() {
    assert_eq!(dir_name("/a/b/c"), "c".to_string());
    assert_eq!(dir_name("/a/b/c//"), "c".to_string());
    assert_eq!(dir_name("plain"), "plain".to_string());
    assert_eq!(dir_name("/"), "".to_string());
    assert_eq!(dir_name(""), "".to_string());
}

#[test]
fn parse_handles_crlf_line_endings() {
    let dirs = parse_directory_config("foo: /a\r\nbar: /b").unwrap();
    assert_eq!(dirs.get("foo"), Some(&"/a".to_string()));
    assert_eq!(dirs.get("bar"), Some(&"/b".to_string()));
}

#[test]
fn parse_skips_trailing_dot_components() {
    let dirs = parse_directory_config("x/.").unwrap();
    assert_eq!(dirs.get("x"), Some(&"x/.".to_string()));
    let dirs = parse_directory_config("foo.txt/.").unwrap();
    assert_eq!(dirs.get("foo.txt"), Some(&"foo.txt/.".to_string()));
    let err = parse_directory_config(".").unwrap_err();
    assert_eq!(err, ParseDirectoryError::NoDirName { dir: ".".to_string() });
    let dirs = parse_directory_config("x.").unwrap();
    assert_eq!(dirs.get("x."), Some(&"x.".to_string()));
}
