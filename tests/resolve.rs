use okie::{parse_file_name, resolve_against, split_identifier, ResolveError, REMOTE_BASE};

fn joined(base: &str, input: &str) -> String {
    let base = reqwest::Url::parse(base).unwrap();
    base.join(input).unwrap().as_str().to_string()
}

#[test]
fn test_parse_file_name() {
    let target = parse_file_name("Cargo.toml").unwrap();
    assert_eq!(target.file_path, "Cargo.toml");
    assert_eq!(target.url, joined(REMOTE_BASE, "Cargo.toml"));

    let target = parse_file_name("Cargo.toml@rust").unwrap();
    assert_eq!(target.file_path, "Cargo.toml");
    assert_eq!(target.url, joined(REMOTE_BASE, "@rust/Cargo.toml"));
}

#[test]
fn untagged_identifier_resolves_under_base() {
    let target = resolve_against("https://example.org/static/", "Cargo.toml").unwrap();
    assert_eq!(target.url, "https://example.org/static/Cargo.toml");
    assert_eq!(target.file_path, "Cargo.toml");
}

#[test]
fn tagged_identifier_resolves_under_tag_segment() {
    let target = resolve_against("https://example.org/static/", "Cargo.toml@v2").unwrap();
    assert_eq!(target.url, "https://example.org/static/@v2/Cargo.toml");
    assert_eq!(target.file_path, "Cargo.toml");
}

#[test]
fn nested_path_keeps_directories() {
    let target = resolve_against("https://example.org/static/", "src/lib.rs@next").unwrap();
    assert_eq!(target.url, "https://example.org/static/@next/src/lib.rs");
    assert_eq!(target.file_path, "src/lib.rs");
}

#[test]
fn fixed_base_is_the_project_root() {
    let target = parse_file_name(".gitignore").unwrap();
    assert_eq!(
        target.url,
        "https://raw.githubusercontent.com/aslilac/okie/main/static/.gitignore"
    );
}

#[test]
fn split_takes_the_rightmost_at() {
    let (path, tag) = split_identifier("a@b@c");
    assert_eq!(path, "a@b");
    assert_eq!(tag.as_deref(), Some("c"));
}

#[test]
fn split_without_at_has_no_tag() {
    let (path, tag) = split_identifier("dir/file.txt");
    assert_eq!(path, "dir/file.txt");
    assert_eq!(tag, None);
}

#[test]
fn split_with_trailing_at_has_empty_tag() {
    let (path, tag) = split_identifier("file.txt@");
    assert_eq!(path, "file.txt");
    assert_eq!(tag.as_deref(), Some(""));
}

#[test]
fn split_empty_identifier() {
    let (path, tag) = split_identifier("");
    assert_eq!(path, "");
    assert_eq!(tag, None);
}

#[test]
fn unparsable_base_is_a_url_error() {
    let r = resolve_against("not a url", "Cargo.toml");
    assert!(matches!(r, Err(ResolveError::InvalidUrl)));
}

#[test]
fn bad_host_in_path_is_a_url_error() {
    let r = resolve_against("https://example.org/static/", "//[bad");
    assert!(matches!(r, Err(ResolveError::InvalidUrl)));
}
