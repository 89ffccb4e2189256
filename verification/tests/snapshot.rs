use zenutils::apidoc::Extra;
use zenutils::snapshot::{plan_for, Phase, Snapshot, SnapshotPlan};
use zenutils::workspace::{MetaError, PackageMeta, TargetMeta, WorkspaceMeta};

fn strs(v: &[&str]) -> Vec<String> {
    v.iter().map(|s| (*s).to_owned()).collect()
}

fn meta() -> WorkspaceMeta {
    WorkspaceMeta {
        workspace_root: Some("/ws".to_owned()),
        target_directory: Some("/ws/target".to_owned()),
        packages: vec![PackageMeta {
            name: Some("my-crate".to_owned()),
            version: Some("1.0.0".to_owned()),
            publish: None,
            targets: Some(vec![TargetMeta {
                name: Some("my-crate".to_owned()),
                kind: Some(strs(&["lib"])),
            }]),
            features: Some(strs(&["default", "beta", "alpha", "_internal"])),
        }],
    }
}

fn plan(extra: Extra, attribute: bool, base: &[&str]) -> SnapshotPlan {
    plan_for(&meta(), "my-crate", &extra, &Vec::new(), attribute, &strs(base))
        .ok()
        .expect("plan")
}

/// Runs every build the snapshot asks for, answering each from `answer`.
fn drive(plan: SnapshotPlan, answer: impl Fn(&[String], bool) -> Result<Vec<String>, String>) -> Snapshot {
    let mut s = Snapshot::start(plan);
    while let Some(b) = s.next_build() {
        let out = answer(&b.features, b.hidden);
        assert!(out.is_ok() || !b.required);
        s = s.advance(out);
    }
    assert!(s.phase == Phase::Done);
    s
}

#[test]
fn plan_labels_and_orders_features() {
    let p = plan(Extra::PublicFeatures, false, &["std"]);
    assert_eq!(p.crate_ident, "my_crate");
    assert_eq!(p.pkg.spec, "my-crate@1.0.0");
    assert_eq!(p.feature_label, "alpha,beta");
    assert_eq!(p.included_feats, ["alpha", "beta", "std"]);
    assert_eq!(p.excluded_feats, ["_internal"]);
    assert_eq!(p.with_excluded_feats, ["alpha", "beta", "std", "_internal"]);
    let pinned = plan(Extra::Pinned("x,y".to_owned()), false, &["y"]);
    assert_eq!(pinned.feature_label, "x,y");
    assert_eq!(pinned.included_feats, ["x", "y"]);
    let none = plan(Extra::NoFeatures, false, &[]);
    assert_eq!(none.feature_label, "");
    assert!(none.included_feats.is_empty());
}

#[test]
fn plan_fails_without_the_package() {
    let r = plan_for(&meta(), "missing", &Extra::PublicFeatures, &Vec::new(), false, &Vec::new());
    assert!(matches!(r, Err(MetaError::NotInWorkspace)));
}

#[test]
fn builds_and_files_of_a_full_snapshot() {
    let p = plan(Extra::PublicFeatures, true, &[]);
    let base = strs(&["pub fn my_crate::a()"]);
    let s = drive(p, |features, hidden| {
        let f: Vec<&str> = features.iter().map(String::as_str).collect();
        match (f.as_slice(), hidden) {
            ([], false) => Ok(base.clone()),
            (["alpha", "beta"], false) => Ok(strs(&[
                "pub fn my_crate::a()",
                "pub fn my_crate::b()",
                "pub fn my_crate::c()",
            ])),
            (["alpha", "beta", "_internal"], false) => {
                Err("error: could not compile\nmore detail".to_owned())
            }
            (["alpha", "beta"], true) => Ok(strs(&[
                "pub fn my_crate::a()",
                "pub fn my_crate::b()",
                "pub fn my_crate::c()",
                "pub fn my_crate::__private()",
            ])),
            (["alpha"], false) => Ok(strs(&["pub fn my_crate::a()", "pub fn my_crate::b()"])),
            (["beta"], false) => Err("boom".to_owned()),
            other => panic!("unexpected build {other:?}"),
        }
    });
    assert_eq!(s.attribution.len(), 2);
    let files = s.render();
    assert_eq!(files.main_lines, 1);
    assert_eq!(files.feature_lines, 2);
    assert_eq!(files.internal_lines, 1);
    assert_eq!(files.hidden_lines, 1);
    assert_eq!(files.excluded_lines, 0);

    assert!(files.main.starts_with(
        "# my-crate public API — supported surface (default features)\n\
         # (regenerated on every `cargo test` by zenutils-apidoc; ZEN_API_DOC=check verifies, =off skips).\n"
    ));
    assert!(files.main.contains(
        "#\n# files: my-crate.txt 1 lines (supported surface) | my-crate.features.txt 2 added \
         (features: alpha,beta) | my-crate.internal.txt 1 lines (1 hidden + 0 excluded-feature)\n"
    ));
    assert!(files.main.ends_with("\n## items (1 lines)\n\npub fn a()\n"));

    assert!(files.features.starts_with(
        "# my-crate public API — additions from non-default features\n# features: alpha,beta\n"
    ));
    assert!(files.features.contains("\n## added by feature: alpha (1 lines)\n\npub fn b()\n"));
    assert!(files.features.contains("\nNOTE: feature beta not buildable alone: boom\n"));
    assert!(files.features.ends_with(
        "\n## feature interactions (lines requiring several features) (1 lines)\n\npub fn c()\n"
    ));
    assert!(!files.features.contains("removed by features"));

    assert!(files.internal.starts_with(
        "# my-crate public API — doc(hidden) items and excluded-feature surface\n\
         # excluded features: _internal\n"
    ));
    assert!(files.internal.contains(
        "NOTE: excluded-feature surface (_internal) not buildable: error: could not compile\n"
    ));
    assert!(files.internal.ends_with("pub fn __private()\n"));
}

#[test]
fn empty_feature_surface_skips_attribution() {
    let p = plan(Extra::PublicFeatures, true, &[]);
    let s = drive(p, |_, _| Ok(strs(&["pub fn my_crate::a()"])));
    assert!(s.attribution.is_empty());
    let files = s.render();
    assert!(files.features.ends_with("\n(no additional public surface)\n"));
    assert!(files.internal.ends_with("\n(no hidden or excluded-feature surface)\n"));
}

#[test]
fn removed_lines_and_baseline_header() {
    let p = plan(Extra::Pinned("slim".to_owned()), false, &["std"]);
    let s = drive(p, |features, _| {
        if features.len() == 1 {
            Ok(strs(&["pub fn my_crate::a()", "pub fn my_crate::fat()"]))
        } else {
            Ok(strs(&["pub fn my_crate::a()"]))
        }
    });
    let files = s.render();
    assert!(files
        .main
        .starts_with("# my-crate public API — supported surface (default features + std)\n"));
    assert!(files.features.contains("\n## removed by features (1 lines)\n\npub fn fat()\n"));
}

#[test]
fn hidden_build_uses_widest_set_that_built() {
    let p = plan(Extra::PublicFeatures, false, &[]);
    let mut s = Snapshot::start(p);
    s = s.advance(Ok(Vec::new()));
    s = s.advance(Ok(Vec::new()));
    assert!(s.phase == Phase::Excluded);
    s = s.advance(Ok(strs(&["pub fn my_crate::x()"])));
    let b = s.next_build().unwrap();
    assert!(b.hidden && !b.required);
    assert_eq!(b.features, ["alpha", "beta", "_internal"]);
    s = s.advance(Err("".to_owned()));
    assert_eq!(s.notes, ["doc(hidden) surface not buildable: unknown error"]);
    assert!(s.phase == Phase::Done);
    let files = s.render();
    assert_eq!(files.excluded_lines, 1);
    assert_eq!(files.hidden_lines, 0);
}

#[test]
fn no_line_lands_in_two_files() {
    let p = plan(Extra::PublicFeatures, false, &[]);
    let s = drive(p, |features, hidden| {
        if features.is_empty() {
            Ok(strs(&["pub fn my_crate::a()"]))
        } else if features.len() == 2 && !hidden {
            Ok(Vec::new())
        } else {
            Ok(strs(&["pub fn my_crate::a()"]))
        }
    });
    let files = s.render();
    assert_eq!(files.excluded_lines, 0);
    assert_eq!(files.hidden_lines, 0);
    assert!(files.main.ends_with("\npub fn a()\n"));
    assert!(files.features.contains("\n## removed by features (1 lines)\n\npub fn a()\n"));
    assert!(files.internal.ends_with("\n(no hidden or excluded-feature surface)\n"));
}
