use workspaces::path::AbsPath;
use workspaces::manifest::{
    Dependency, DepSource, MaybePackage, Package, Profiles, VirtualManifest, WorkspaceConfig,
};
use workspaces::fsys::{Fsys, ManifestFile};
use workspaces::workspace::Workspace;
use workspaces::errors::WorkspaceError;

fn p(s: &str) -> AbsPath {
    AbsPath::from_segs(s.split('/').filter(|x| !x.is_empty()).map(|x| x.to_string()).collect())
}

fn root_cfg(members: Option<Vec<&str>>, exclude: Vec<&str>) -> WorkspaceConfig {
    WorkspaceConfig::Root {
        members: members.map(|v| v.iter().map(|x| x.to_string()).collect()),
        exclude: exclude.iter().map(|x| x.to_string()).collect(),
    }
}

fn member_cfg(ptr: Option<&str>) -> WorkspaceConfig {
    WorkspaceConfig::Member { root: ptr.map(|x| x.to_string()) }
}

fn dep(path: &str) -> Dependency {
    Dependency { name: "edge".to_string(), source: DepSource::LocalPath(p(path)) }
}

fn pkg(name: &str, config: WorkspaceConfig, deps: Vec<Dependency>) -> ManifestFile {
    ManifestFile::Loaded(MaybePackage::Package(Package {
        name: name.to_string(),
        dependencies: deps,
        config,
        profiles: Profiles::default(),
        replace: Vec::new(),
    }))
}

fn virt(config: WorkspaceConfig) -> ManifestFile {
    ManifestFile::Loaded(MaybePackage::Virtual(VirtualManifest {
        config,
        profiles: Profiles::default(),
        replace: Vec::new(),
    }))
}

fn rendered(v: &Vec<AbsPath>) -> Vec<String> {
    v.iter().map(|a| a.render()).collect()
}

#[test]
fn standalone_package_is_its_own_member() {
    let mut fs = Fsys::new();
    fs.add(p("/a"), pkg("a", member_cfg(None), vec![]));
    fs.add(p("/a/b/c"), pkg("c", member_cfg(None), vec![]));
    let ws = Workspace::new(fs, p("/a/b/c"), None).unwrap();
    assert!(ws.root_manifest.is_none());
    assert_eq!(rendered(&ws.members), vec!["/a/b/c".to_string()]);
    assert_eq!(ws.root().render(), "/a/b/c".to_string());
}

#[test]
fn pointer_short_circuits_over_nearer_root() {
    let mut fs = Fsys::new();
    fs.add(p("/w/other"), virt(root_cfg(Some(vec!["../sub/pkg"]), vec![])));
    fs.add(p("/w/sub"), virt(root_cfg(Some(vec!["pkg"]), vec![])));
    fs.add(p("/w/sub/pkg"), pkg("pkg", member_cfg(Some("../../other")), vec![]));
    let ws = Workspace::new(fs, p("/w/sub/pkg"), None).unwrap();
    assert_eq!(ws.root().render(), "/w/other".to_string());
    assert_eq!(
        rendered(&ws.members),
        vec!["/w/sub/pkg".to_string(), "/w/other".to_string()]
    );
}

#[test]
fn excluded_root_candidate_is_climbed_past() {
    let mut fs = Fsys::new();
    fs.add(p("/top"), virt(root_cfg(Some(vec!["mid/pkg"]), vec![])));
    fs.add(p("/top/mid"), virt(root_cfg(None, vec!["pkg"])));
    fs.add(p("/top/mid/pkg"), pkg("pkg", member_cfg(None), vec![]));
    let ws = Workspace::new(fs, p("/top/mid/pkg"), None).unwrap();
    assert_eq!(ws.root().render(), "/top".to_string());
    assert_eq!(
        rendered(&ws.members),
        vec!["/top/mid/pkg".to_string(), "/top".to_string()]
    );
}

#[test]
fn dependency_cycle_terminates_and_agrees() {
    let build = || {
        let mut fs = Fsys::new();
        fs.add(p("/r"), pkg("r", root_cfg(None, vec![]), vec![dep("/r/b")]));
        fs.add(p("/r/b"), pkg("b", member_cfg(None), vec![dep("/r")]));
        fs
    };
    let from_root = Workspace::new(build(), p("/r"), None).unwrap();
    let from_leaf = Workspace::new(build(), p("/r/b"), None).unwrap();
    assert_eq!(rendered(&from_root.members), vec!["/r".to_string(), "/r/b".to_string()]);
    assert_eq!(rendered(&from_leaf.members), rendered(&from_root.members));
}

#[test]
fn discovery_is_idempotent() {
    let build = || {
        let mut fs = Fsys::new();
        fs.add(p("/r"), virt(root_cfg(Some(vec!["crates/*"]), vec![])));
        fs.add(p("/r/crates/x"), pkg("x", member_cfg(None), vec![]));
        fs.add(p("/r/crates/y"), pkg("y", member_cfg(None), vec![dep("/r/crates/x")]));
        fs
    };
    let first = Workspace::new(build(), p("/r/crates/x"), None).unwrap();
    let second = Workspace::new(build(), p("/r/crates/x"), None).unwrap();
    assert_eq!(rendered(&first.members), rendered(&second.members));
    assert_eq!(
        rendered(&first.members),
        vec!["/r/crates/x".to_string(), "/r/crates/y".to_string(), "/r".to_string()]
    );
}

#[test]
fn glob_pattern_expands_to_matching_directories() {
    let mut fs = Fsys::new();
    fs.add(p("/r"), virt(root_cfg(Some(vec!["crates/*"]), vec![])));
    fs.add(p("/r/crates/a"), pkg("a", member_cfg(None), vec![]));
    fs.add(p("/r/crates/b"), pkg("b", member_cfg(None), vec![]));
    let ws = Workspace::new(fs, p("/r"), None).unwrap();
    assert_eq!(
        rendered(&ws.members),
        vec!["/r/crates/a".to_string(), "/r/crates/b".to_string(), "/r".to_string()]
    );
}

#[test]
fn glob_with_zero_matches_keeps_literal_path() {
    let mut fs = Fsys::new();
    fs.add(p("/r"), virt(root_cfg(Some(vec!["nomatch-*"]), vec![])));
    let err = Workspace::new(fs, p("/r"), None).unwrap_err();
    match err {
        WorkspaceError::ManifestIo { dir } => {
            assert_eq!(dir.segs, vec!["r".to_string(), "nomatch-*".to_string()]);
        },
        _ => panic!("expected a manifest loading failure for the literal path"),
    }
}

#[test]
fn foreign_path_dependency_is_not_absorbed() {
    let mut fs = Fsys::new();
    fs.add(p("/r"), virt(root_cfg(Some(vec!["m"]), vec![])));
    fs.add(p("/r/m"), pkg("m", member_cfg(None), vec![dep("/x")]));
    fs.add(p("/x"), pkg("x", root_cfg(None, vec![]), vec![]));
    let ws = Workspace::new(fs, p("/r"), None).unwrap();
    assert_eq!(rendered(&ws.members), vec!["/r/m".to_string(), "/r".to_string()]);
}

#[test]
fn sibling_path_dependency_in_same_workspace_is_absorbed() {
    let mut fs = Fsys::new();
    fs.add(p("/r"), virt(root_cfg(Some(vec!["m"]), vec![])));
    fs.add(p("/r/m"), pkg("m", member_cfg(None), vec![dep("/r/n")]));
    fs.add(p("/r/n"), pkg("n", member_cfg(None), vec![]));
    let ws = Workspace::new(fs, p("/r"), None).unwrap();
    assert_eq!(
        rendered(&ws.members),
        vec!["/r/m".to_string(), "/r/n".to_string(), "/r".to_string()]
    );
}

#[test]
fn excluded_path_dependency_is_dropped() {
    let mut fs = Fsys::new();
    fs.add(p("/r"), pkg("r", root_cfg(None, vec!["vendor"]), vec![dep("/r/vendor/v")]));
    fs.add(p("/r/vendor/v"), pkg("v", member_cfg(None), vec![]));
    let ws = Workspace::new(fs, p("/r"), None).unwrap();
    assert_eq!(rendered(&ws.members), vec!["/r".to_string()]);
}

#[test]
fn explicit_member_wins_over_exclude() {
    let mut fs = Fsys::new();
    fs.add(p("/r"), virt(root_cfg(Some(vec!["crates/keep"]), vec!["crates"])));
    fs.add(p("/r/crates/keep"), pkg("keep", member_cfg(None), vec![]));
    let ws = Workspace::new(fs, p("/r"), None).unwrap();
    assert_eq!(
        rendered(&ws.members),
        vec!["/r/crates/keep".to_string(), "/r".to_string()]
    );
}

#[test]
fn broken_entry_manifest_reports_parse_error() {
    let mut fs = Fsys::new();
    fs.add(p("/r"), ManifestFile::Broken);
    let err = Workspace::new(fs, p("/r"), None).unwrap_err();
    assert!(matches!(err, WorkspaceError::ManifestParse { .. }));
}

#[test]
fn bad_member_pattern_is_rejected() {
    let mut fs = Fsys::new();
    fs.add(p("/r"), virt(root_cfg(Some(vec!["a***"]), vec![])));
    let err = Workspace::new(fs, p("/r"), None).unwrap_err();
    match err {
        WorkspaceError::BadPattern { pattern } => {
            assert_eq!(pattern, "/r/a***".to_string());
        },
        _ => panic!("expected the malformed pattern to be rejected"),
    }
}

#[test]
fn is_excluded_exposes_precedence() {
    let members = Some(vec!["crates/foo".to_string()]);
    let exclude = vec!["crates".to_string()];
    let root = p("/r");
    assert!(!workspaces::discover::is_excluded(
        &members,
        &exclude,
        &root,
        &p("/r/crates/foo")
    ));
    assert!(workspaces::discover::is_excluded(
        &members,
        &exclude,
        &root,
        &p("/r/crates/bar")
    ));
    assert!(!workspaces::discover::is_excluded(&None, &vec![], &root, &p("/r/anything")));
}

#[test]
fn pointer_to_a_non_root_is_rejected() {
    let mut fs = Fsys::new();
    fs.add(p("/a"), pkg("a", member_cfg(Some("../b")), vec![]));
    fs.add(p("/b"), pkg("b", member_cfg(None), vec![]));
    let err = Workspace::new(fs, p("/a"), None).unwrap_err();
    match err {
        WorkspaceError::RootMisdeclared { root } => {
            assert_eq!(root.render(), "/b".to_string());
        },
        _ => panic!("expected the pointer target to be refused as a root"),
    }
}

#[test]
fn unreadable_manifest_reports_io_error() {
    let mut fs = Fsys::new();
    fs.add(p("/r"), ManifestFile::Unreadable);
    let err = Workspace::new(fs, p("/r"), None).unwrap_err();
    match err {
        WorkspaceError::ManifestIo { dir } => {
            assert_eq!(dir.render(), "/r".to_string());
        },
        _ => panic!("expected an unreadable manifest to fail loading"),
    }
}
