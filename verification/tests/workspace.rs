use std::path::PathBuf;
use zenutils::workspace::{pkg_ref, PackageMeta, TargetMeta, WorkspaceMeta};

fn target(name: &str, kinds: &[&str]) -> TargetMeta {
    TargetMeta {
        name: Some(name.to_owned()),
        kind: Some(kinds.iter().map(|k| (*k).to_owned()).collect()),
    }
}

#[test]
fn pkg_ref_disambiguates_spec_and_honors_lib_name_override() {
    let meta = WorkspaceMeta {
        workspace_root: None,
        target_directory: Some("/ws/target".to_owned()),
        packages: vec![PackageMeta {
            name: Some("my-crate".to_owned()),
            version: Some("0.1.2".to_owned()),
            publish: None,
            targets: Some(vec![
                target("my-crate-cli", &["bin"]),
                target("custom-lib-name", &["lib"]),
            ]),
            features: None,
        }],
    };
    let pkg = pkg_ref(&meta, "my-crate").ok().expect("my-crate in metadata");
    // `name@version` spec stays unambiguous even when the registry
    // release of the same crate is in the resolve graph.
    assert_eq!(pkg.spec, "my-crate@0.1.2");
    // rustdoc's JSON filename comes from the lib target name (which a
    // `[lib] name` override can change), not the package name.
    assert_eq!(pkg.json_name, "custom_lib_name");
    assert_eq!(PathBuf::from(&pkg.target_dir), PathBuf::from("/ws/target"));
}

use zenutils::workspace::{discover_publishable_libs, split_features, MetaError};

fn pkg(name: &str, features: Option<&[&str]>) -> PackageMeta {
    PackageMeta {
        name: Some(name.to_owned()),
        version: Some("1.0.0".to_owned()),
        publish: None,
        targets: Some(vec![target(name, &["lib"])]),
        features: features.map(|f| f.iter().map(|s| (*s).to_owned()).collect()),
    }
}

#[test]
fn features_split_into_included_and_excluded() {
    let meta = WorkspaceMeta {
        workspace_root: None,
        target_directory: Some("/t".to_owned()),
        packages: vec![pkg("demo", Some(&["zeta", "default", "_private", "alpha", "experimental"]))],
    };
    let (inc, exc) = split_features(&meta, "demo", &vec!["experimental".to_owned()]).ok().unwrap();
    assert_eq!(inc, ["alpha", "zeta"]);
    assert_eq!(exc, ["_private", "experimental"]);
}

#[test]
fn metadata_errors_name_the_missing_field() {
    let mut meta = WorkspaceMeta {
        workspace_root: None,
        target_directory: None,
        packages: vec![pkg("demo", None)],
    };
    assert!(matches!(split_features(&meta, "other", &Vec::new()), Err(MetaError::NotInWorkspace)));
    assert!(matches!(split_features(&meta, "demo", &Vec::new()), Err(MetaError::NoFeatures)));
    assert!(matches!(pkg_ref(&meta, "demo"), Err(MetaError::NoTargetDirectory)));
    meta.packages[0].targets = None;
    assert!(matches!(pkg_ref(&meta, "demo"), Err(MetaError::NoTargets)));
    meta.packages[0].version = None;
    assert!(matches!(pkg_ref(&meta, "demo"), Err(MetaError::NoVersion)));
}

#[test]
fn lib_name_falls_back_to_package_name() {
    let mut p = pkg("my-tool", Some(&[]));
    p.targets = Some(vec![target("my-tool", &["bin"])]);
    let meta = WorkspaceMeta {
        workspace_root: None,
        target_directory: Some("/t".to_owned()),
        packages: vec![p],
    };
    let r = pkg_ref(&meta, "my-tool").ok().unwrap();
    assert_eq!(r.json_name, "my_tool");
    assert!(discover_publishable_libs(&meta).is_empty());
}
