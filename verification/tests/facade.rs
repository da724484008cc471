use workspaces::path::AbsPath;
use workspaces::manifest::{
    Dependency, DepSource, MaybePackage, Package, Profiles, VirtualManifest, WorkspaceConfig,
};
use workspaces::fsys::{Fsys, ManifestFile};
use workspaces::workspace::Workspace;
use workspaces::errors::WorkspaceError;

fn p(s: &str) -> AbsPath {
    AbsPath::from_segs(s.split('/').filter(|x| !x.is_empty()).map(|x| x.to_string()).collect())
}

fn plain_pkg(name: &str, config: WorkspaceConfig) -> Package {
    Package {
        name: name.to_string(),
        dependencies: Vec::new(),
        config,
        profiles: Profiles::default(),
        replace: Vec::new(),
    }
}

fn virt(config: WorkspaceConfig) -> ManifestFile {
    ManifestFile::Loaded(MaybePackage::Virtual(VirtualManifest {
        config,
        profiles: Profiles::default(),
        replace: Vec::new(),
    }))
}

fn root_cfg(members: Option<Vec<&str>>) -> WorkspaceConfig {
    WorkspaceConfig::Root {
        members: members.map(|v| v.iter().map(|x| x.to_string()).collect()),
        exclude: Vec::new(),
    }
}

fn member_cfg() -> WorkspaceConfig {
    WorkspaceConfig::Member { root: None }
}

#[test]
fn ephemeral_workspace_holds_one_package() {
    let ws = Workspace::ephemeral(
        plain_pkg("solo", member_cfg()),
        p("/s"),
        None,
        false,
    )
    .unwrap();
    assert!(ws.is_ephemeral());
    assert!(!ws.require_optional_deps());
    assert!(ws.root_manifest.is_none());
    assert_eq!(ws.root().render(), "/s".to_string());
    assert_eq!(ws.target_dir().render(), "/s/target".to_string());
    let cur = ws.current().unwrap();
    assert_eq!(cur.name, "solo".to_string());
}

#[test]
fn ephemeral_workspace_honors_target_override() {
    let ws = Workspace::ephemeral(
        plain_pkg("solo", member_cfg()),
        p("/s"),
        Some(p("/out")),
        true,
    )
    .unwrap();
    assert!(ws.require_optional_deps());
    assert_eq!(ws.target_dir().render(), "/out".to_string());
}

#[test]
fn virtual_entry_has_no_current_package() {
    let mut fs = Fsys::new();
    fs.add(p("/r"), virt(root_cfg(None)));
    let ws = Workspace::new(fs, p("/r"), None).unwrap();
    assert!(ws.current_opt().is_none());
    match ws.current().unwrap_err() {
        WorkspaceError::CurrentIsVirtual { dir } => {
            assert_eq!(dir.render(), "/r".to_string());
        },
        _ => panic!("expected the virtual entry to be refused"),
    }
    assert!(ws.members().is_empty());
}

#[test]
fn default_target_dir_sits_under_root() {
    let mut fs = Fsys::new();
    fs.add(p("/r"), virt(root_cfg(Some(vec!["a"]))));
    fs.add(
        p("/r/a"),
        ManifestFile::Loaded(MaybePackage::Package(plain_pkg("a", member_cfg()))),
    );
    let ws = Workspace::new(fs, p("/r/a"), None).unwrap();
    assert_eq!(ws.root().render(), "/r".to_string());
    assert_eq!(ws.target_dir().render(), "/r/target".to_string());
    let ws2 = {
        let mut fs2 = Fsys::new();
        fs2.add(p("/r"), virt(root_cfg(Some(vec!["a"]))));
        fs2.add(
            p("/r/a"),
            ManifestFile::Loaded(MaybePackage::Package(plain_pkg("a", member_cfg()))),
        );
        Workspace::new(fs2, p("/r/a"), Some(p("/elsewhere"))).unwrap()
    };
    assert_eq!(ws2.target_dir().render(), "/elsewhere".to_string());
}

#[test]
fn members_iterator_skips_virtual_manifests() {
    let mut fs = Fsys::new();
    fs.add(p("/r"), virt(root_cfg(Some(vec!["a", "b"]))));
    fs.add(
        p("/r/a"),
        ManifestFile::Loaded(MaybePackage::Package(plain_pkg("a", member_cfg()))),
    );
    fs.add(
        p("/r/b"),
        ManifestFile::Loaded(MaybePackage::Package(plain_pkg("b", member_cfg()))),
    );
    let ws = Workspace::new(fs, p("/r/a"), None).unwrap();
    let mut it = ws.members();
    let mut names: Vec<String> = Vec::new();
    while let Some(pkg) = it.next() {
        names.push(pkg.name.clone());
    }
    assert_eq!(names, vec!["a".to_string(), "b".to_string()]);
    assert!(!ws.members().is_empty());
}

#[test]
fn root_replace_comes_from_the_root_manifest() {
    let over = (
        "spec:1.0".to_string(),
        Dependency { name: "spec".to_string(), source: DepSource::Registry },
    );
    let mut fs = Fsys::new();
    fs.add(
        p("/r"),
        ManifestFile::Loaded(MaybePackage::Virtual(VirtualManifest {
            config: root_cfg(Some(vec!["a"])),
            profiles: Profiles::default(),
            replace: vec![over],
        })),
    );
    fs.add(
        p("/r/a"),
        ManifestFile::Loaded(MaybePackage::Package(plain_pkg("a", member_cfg()))),
    );
    let ws = Workspace::new(fs, p("/r/a"), None).unwrap();
    let table = ws.root_replace();
    assert_eq!(table.len(), 1);
    assert_eq!(table[0].0, "spec:1.0".to_string());
}
