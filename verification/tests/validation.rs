use workspaces::path::AbsPath;
use workspaces::manifest::{
    Dependency, DepSource, MaybePackage, Package, Profiles, VirtualManifest, WorkspaceConfig,
};
use workspaces::fsys::{Fsys, ManifestFile};
use workspaces::workspace::Workspace;
use workspaces::errors::{SuggestedFix, WorkspaceError};

fn p(s: &str) -> AbsPath {
    AbsPath::from_segs(s.split('/').filter(|x| !x.is_empty()).map(|x| x.to_string()).collect())
}

fn root_cfg(members: Option<Vec<&str>>, exclude: Vec<&str>) -> WorkspaceConfig {
    WorkspaceConfig::Root {
        members: members.map(|v| v.iter().map(|x| x.to_string()).collect()),
        exclude: exclude.iter().map(|x| x.to_string()).collect(),
    }
}

fn member_cfg(ptr: Option<&str>) -> WorkspaceConfig {
    WorkspaceConfig::Member { root: ptr.map(|x| x.to_string()) }
}

fn pkg_with_profiles(name: &str, config: WorkspaceConfig, profiles: Profiles) -> ManifestFile {
    ManifestFile::Loaded(MaybePackage::Package(Package {
        name: name.to_string(),
        dependencies: Vec::new(),
        config,
        profiles,
        replace: Vec::new(),
    }))
}

fn pkg(name: &str, config: WorkspaceConfig) -> ManifestFile {
    pkg_with_profiles(name, config, Profiles::default())
}

fn virt(config: WorkspaceConfig) -> ManifestFile {
    ManifestFile::Loaded(MaybePackage::Virtual(VirtualManifest {
        config,
        profiles: Profiles::default(),
        replace: Vec::new(),
    }))
}

#[test]
fn duplicate_names_cite_both_manifests() {
    let mut fs = Fsys::new();
    fs.add(p("/r"), virt(root_cfg(Some(vec!["a", "b"]), vec![])));
    fs.add(p("/r/a"), pkg("foo", member_cfg(None)));
    fs.add(p("/r/b"), pkg("foo", member_cfg(None)));
    let err = Workspace::new(fs, p("/r"), None).unwrap_err();
    match err {
        WorkspaceError::DuplicateName { name, first, second } => {
            assert_eq!(name, "foo".to_string());
            assert_eq!(first.render(), "/r/a".to_string());
            assert_eq!(second.render(), "/r/b".to_string());
        },
        _ => panic!("expected a duplicate name error"),
    }
}

#[test]
fn multiple_roots_are_rejected() {
    let mut fs = Fsys::new();
    fs.add(p("/r"), virt(root_cfg(Some(vec!["sub"]), vec![])));
    fs.add(p("/r/sub"), virt(root_cfg(Some(vec![]), vec![])));
    let err = Workspace::new(fs, p("/r"), None).unwrap_err();
    match err {
        WorkspaceError::MultipleRoots { roots } => {
            let r: Vec<String> = roots.iter().map(|a| a.render()).collect();
            assert_eq!(r, vec!["/r/sub".to_string(), "/r".to_string()]);
        },
        _ => panic!("expected a multiple roots error"),
    }
}

#[test]
fn root_excluding_itself_leaves_no_root() {
    let mut fs = Fsys::new();
    fs.add(p("/r"), virt(root_cfg(Some(vec![]), vec!["."])));
    let err = Workspace::new(fs, p("/r"), None).unwrap_err();
    assert!(matches!(err, WorkspaceError::NoRootConfigured { .. }));
}

#[test]
fn member_of_a_different_workspace_is_rejected() {
    let mut fs = Fsys::new();
    fs.add(p("/r"), virt(root_cfg(Some(vec!["m"]), vec![])));
    fs.add(p("/r/m"), pkg("m", member_cfg(Some("../../q"))));
    let err = Workspace::new(fs, p("/r"), None).unwrap_err();
    match err {
        WorkspaceError::WrongWorkspace { member, expected, actual } => {
            assert_eq!(member.render(), "/r/m".to_string());
            assert_eq!(expected.render(), "/r".to_string());
            assert_eq!(actual.render(), "/q".to_string());
        },
        _ => panic!("expected a wrong workspace error"),
    }
}

#[test]
fn member_outside_root_tree_is_rejected() {
    let mut fs = Fsys::new();
    fs.add(p("/r"), virt(root_cfg(Some(vec!["../m"]), vec![])));
    fs.add(p("/m"), pkg("m", member_cfg(None)));
    let err = Workspace::new(fs, p("/r"), None).unwrap_err();
    match err {
        WorkspaceError::NotHierarchicallyBelow { member, root } => {
            assert_eq!(member.render(), "/m".to_string());
            assert_eq!(root.render(), "/r".to_string());
        },
        _ => panic!("expected a containment error"),
    }
}

#[test]
fn entry_below_root_but_unlisted_suggests_relative_path() {
    let mut fs = Fsys::new();
    fs.add(p("/r"), virt(root_cfg(Some(vec!["a"]), vec![])));
    fs.add(p("/r/a"), pkg("a", member_cfg(None)));
    fs.add(p("/r/x"), pkg("x", member_cfg(None)));
    let err = Workspace::new(fs, p("/r/x"), None).unwrap_err();
    match err {
        WorkspaceError::NotAMember { current, root, fix } => {
            assert_eq!(current.render(), "/r/x".to_string());
            assert_eq!(root.render(), "/r".to_string());
            match fix {
                SuggestedFix::AddMember { rel } => {
                    assert_eq!(rel, Some(vec!["x".to_string()]));
                },
                _ => panic!("expected a member list suggestion"),
            }
        },
        _ => panic!("expected a membership error"),
    }
}

#[test]
fn unlisted_entry_below_inferring_root_still_names_relative_path() {
    let mut fs = Fsys::new();
    fs.add(p("/r"), pkg("r", root_cfg(None, vec![])));
    fs.add(p("/r/x"), pkg("x", member_cfg(None)));
    let err = Workspace::new(fs, p("/r/x"), None).unwrap_err();
    match err {
        WorkspaceError::NotAMember { fix, .. } => match fix {
            SuggestedFix::AddMember { rel } => {
                assert_eq!(rel, Some(vec!["x".to_string()]));
            },
            _ => panic!("a descendant entry gets the member list suggestion"),
        },
        _ => panic!("expected a membership error"),
    }
}

#[test]
fn outside_entry_under_inferring_root_suggests_dependency() {
    let mut fs = Fsys::new();
    fs.add(p("/r"), pkg("r", root_cfg(None, vec![])));
    fs.add(p("/m"), pkg("m", member_cfg(Some("../r"))));
    let err = Workspace::new(fs, p("/m"), None).unwrap_err();
    match err {
        WorkspaceError::NotAMember { fix, .. } => {
            assert!(matches!(fix, SuggestedFix::AddDependency));
        },
        _ => panic!("expected a membership error"),
    }
}

#[test]
fn outside_entry_under_listing_root_suggests_a_member() {
    let mut fs = Fsys::new();
    fs.add(p("/r"), virt(root_cfg(Some(vec!["a"]), vec![])));
    fs.add(p("/r/a"), pkg("a", member_cfg(None)));
    fs.add(p("/m"), pkg("m", member_cfg(Some("../r"))));
    let err = Workspace::new(fs, p("/m"), None).unwrap_err();
    match err {
        WorkspaceError::NotAMember { fix, .. } => {
            assert!(matches!(fix, SuggestedFix::AddMember { rel: None }));
        },
        _ => panic!("expected a membership error"),
    }
}

#[test]
fn missing_root_is_reported_before_duplicate_names() {
    let mut fs = Fsys::new();
    fs.add(p("/r"), virt(root_cfg(Some(vec!["a", "b"]), vec!["."])));
    fs.add(p("/r/a"), pkg("foo", member_cfg(None)));
    fs.add(p("/r/b"), pkg("foo", member_cfg(None)));
    let err = Workspace::new(fs, p("/r"), None).unwrap_err();
    assert!(matches!(err, WorkspaceError::NoRootConfigured { .. }));
}

#[test]
fn non_root_profile_customization_draws_warning() {
    let custom = Profiles { opt_level: 3, debug_info: false, debug_assertions: false };
    let mut fs = Fsys::new();
    fs.add(p("/r"), virt(root_cfg(Some(vec!["a", "b"]), vec![])));
    fs.add(p("/r/a"), pkg_with_profiles("a", member_cfg(None), custom));
    fs.add(p("/r/b"), pkg("b", member_cfg(None)));
    let ws = Workspace::new(fs, p("/r"), None).unwrap();
    let warned: Vec<String> = ws.profile_warnings.iter().map(|a| a.render()).collect();
    assert_eq!(warned, vec!["/r/a".to_string()]);
    assert_eq!(ws.profiles(), Profiles::default());
}
