use workspaces::path::AbsPath;

fn p(s: &str) -> AbsPath {
    AbsPath::from_segs(s.split('/').filter(|x| !x.is_empty()).map(|x| x.to_string()).collect())
}

fn segs(a: &AbsPath) -> Vec<String> {
    a.segs.clone()
}

#[test]
fn join_resolves_dots() {
    let base = p("/a/b");
    let j = base.join_rel("../c");
    assert_eq!(segs(&j), vec!["a".to_string(), "c".to_string()]);
}

#[test]
fn join_keeps_plain_segments() {
    let base = p("/r");
    let j = base.join_rel("crates/foo");
    assert_eq!(segs(&j), vec!["r".to_string(), "crates".to_string(), "foo".to_string()]);
}

#[test]
fn join_ignores_current_dir_and_empty() {
    let base = p("/r");
    let j = base.join_rel("././/x");
    assert_eq!(segs(&j), vec!["r".to_string(), "x".to_string()]);
}

#[test]
fn parent_of_root_is_root() {
    let base = p("/");
    let j = base.join_rel("../..");
    assert_eq!(segs(&j), Vec::<String>::new());
}

#[test]
fn normalize_resolves_inner_dots() {
    let raw = p("/a/x/../b/./c");
    let n = raw.normalize();
    assert_eq!(segs(&n), vec!["a".to_string(), "b".to_string(), "c".to_string()]);
}

#[test]
fn render_prefixes_each_segment() {
    assert_eq!(p("/a/b").render(), "/a/b".to_string());
    assert_eq!(p("/").render(), "".to_string());
}

#[test]
fn starts_with_is_prefix() {
    assert!(p("/a/b/c").starts_with(&p("/a/b")));
    assert!(p("/a/b").starts_with(&p("/a/b")));
    assert!(!p("/a/b").starts_with(&p("/a/b/c")));
    assert!(!p("/a/x").starts_with(&p("/a/b")));
}
