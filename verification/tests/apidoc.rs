use zenutils::apidoc::{
    build_failure_message, decide_mode, file_action, packaging_violations, rustdoc_args,
    split_at_char, toolchain_of, ApiDoc, Extra, FileAction, Mode,
};
use zenutils::workspace::{PackageMeta, TargetMeta, WorkspaceMeta};

fn strs(v: &[&str]) -> Vec<String> {
    v.iter().map(|s| (*s).to_owned()).collect()
}

fn lib_package(name: &str, publish: Option<Vec<String>>, kinds: &[&str]) -> PackageMeta {
    PackageMeta {
        name: Some(name.to_owned()),
        version: Some("0.1.0".to_owned()),
        publish,
        targets: Some(vec![TargetMeta { name: Some(name.to_owned()), kind: Some(strs(kinds)) }]),
        features: Some(Vec::new()),
    }
}

#[test]
fn first_override_wins_and_exclusions_accumulate() {
    let doc = ApiDoc::new()
        .pinned_features("zencodecs", "jxl-encode,cms")
        .no_extra_section("zencodecs")
        .exclude_features("zenfilters", strs(&["experimental"]))
        .exclude_features("zenfilters", strs(&["_bench", "nightly"]))
        .base_features("zenfilters", "std,simd")
        .base_features("zenfilters", "ignored")
        .attribute_features("zenfilters")
        .skip_packaging_check("zencodecs");
    let c = doc.package_config("zencodecs");
    assert!(matches!(c.extra, Extra::Pinned(ref csv) if csv == "jxl-encode,cms"));
    assert!(c.excluded_cfg.is_empty());
    assert!(!c.check_packaging);
    assert!(!c.attribute);
    assert!(c.base_feats.is_empty());
    let f = doc.package_config("zenfilters");
    assert!(matches!(f.extra, Extra::PublicFeatures));
    assert_eq!(f.excluded_cfg, ["experimental", "_bench", "nightly"]);
    assert!(f.check_packaging);
    assert!(f.attribute);
    assert_eq!(f.base_feats, ["std", "simd"]);
}

#[test]
fn no_extra_section_yields_no_features_mode() {
    let c = ApiDoc::new().no_extra_section("zenpipe").package_config("zenpipe");
    assert!(matches!(c.extra, Extra::NoFeatures));
}

#[test]
fn mode_table() {
    assert!(matches!(decide_mode(Some("off"), false), Mode::Off));
    assert!(matches!(decide_mode(Some("check"), true), Mode::Check));
    assert!(matches!(decide_mode(Some("regen"), true), Mode::Regen));
    assert!(matches!(decide_mode(Some("bogus"), false), Mode::Unknown(ref v) if v == "bogus"));
    assert!(matches!(decide_mode(Some(""), true), Mode::OffUnderCi));
    assert!(matches!(decide_mode(Some(""), false), Mode::Unknown(ref v) if v.is_empty()));
    assert!(matches!(decide_mode(None, true), Mode::OffUnderCi));
    assert!(matches!(decide_mode(None, false), Mode::Regen));
}

#[test]
fn toolchain_defaults_to_nightly() {
    assert_eq!(toolchain_of(None), "nightly");
    assert_eq!(toolchain_of(Some("nightly-2025-01-01")), "nightly-2025-01-01");
}

#[test]
fn check_mode_never_writes_and_regen_never_fails() {
    assert!(matches!(file_action(true, Some("a\n"), "a\n"), FileAction::Unchanged));
    assert!(matches!(file_action(true, Some("a\n"), "b\n"), FileAction::Stale));
    assert!(matches!(file_action(true, None, "b\n"), FileAction::Stale));
    assert!(matches!(file_action(false, Some("a\n"), "a\n"), FileAction::Unchanged));
    assert!(matches!(file_action(false, Some("a\n"), "b\n"), FileAction::Write));
    assert!(matches!(file_action(false, None, ""), FileAction::Write));
}

#[test]
fn out_dir_defaults_under_workspace_root() {
    assert_eq!(ApiDoc::new().out_dir_rel(), "docs/public-api");
    assert_eq!(ApiDoc::new().out_dir("api").out_dir_rel(), "api");
}

#[test]
fn crates_explicit_or_discovered() {
    let meta = WorkspaceMeta {
        workspace_root: Some("/ws".to_owned()),
        target_directory: Some("/ws/target".to_owned()),
        packages: vec![
            lib_package("zeta", None, &["lib"]),
            lib_package("alpha", Some(Vec::new()), &["lib"]),
            lib_package("tool", None, &["bin"]),
            lib_package("macros", Some(strs(&["crates-io"])), &["proc-macro"]),
        ],
    };
    let found = ApiDoc::new().resolve_crates(&meta).expect("publishable libs");
    assert_eq!(found, ["macros", "zeta"]);
    let explicit = ApiDoc::new().crates(strs(&["tool"])).resolve_crates(&meta).unwrap();
    assert_eq!(explicit, ["tool"]);
    assert!(ApiDoc::new().crates(Vec::new()).resolve_crates(&meta).is_none());
    let empty = WorkspaceMeta { workspace_root: None, target_directory: None, packages: Vec::new() };
    assert!(ApiDoc::new().resolve_crates(&empty).is_none());
}

#[test]
fn packaging_listing_violations() {
    let listing = "Cargo.toml\nsrc/lib.rs\ndocs/public-api/demo.txt\ntests/public_api_doc.rs\nFEEDBACK.md\nnotes/secret.key\n";
    let v = packaging_violations(listing, &Vec::new());
    assert_eq!(v, ["docs/public-api/demo.txt", "tests/public_api_doc.rs", "FEEDBACK.md"]);
    let v = packaging_violations(listing, &strs(&["secret"]));
    assert_eq!(
        v,
        ["docs/public-api/demo.txt", "tests/public_api_doc.rs", "FEEDBACK.md", "notes/secret.key"]
    );
    assert!(packaging_violations("Cargo.toml\nsrc/lib.rs\n", &Vec::new()).is_empty());
}

#[test]
fn rustdoc_failure_names_first_error_line() {
    assert_eq!(
        build_failure_message("   Compiling demo\nerror[E0432]: unresolved import\nerror: aborting\n"),
        "rustdoc JSON build failed: error[E0432]: unresolved import"
    );
    assert_eq!(
        build_failure_message("warning: unused\n"),
        "rustdoc JSON build failed: see rustdoc output"
    );
}

#[test]
fn rustdoc_invocation_arguments() {
    let plain = rustdoc_args("nightly", "/ws/Cargo.toml", "demo@0.1.0", &Vec::new(), false);
    assert_eq!(
        plain,
        [
            "run", "nightly", "cargo", "rustdoc", "--manifest-path", "/ws/Cargo.toml", "--package",
            "demo@0.1.0", "--lib", "--quiet", "--", "-Z", "unstable-options", "--output-format",
            "json", "--cap-lints", "allow",
        ]
    );
    let full = rustdoc_args("nightly", "/ws/Cargo.toml", "demo@0.1.0", &strs(&["a", "b"]), true);
    assert_eq!(full[10], "--features");
    assert_eq!(full[11], "a,b");
    assert_eq!(full.last().unwrap(), "--document-hidden-items");
    assert_eq!(full.len(), plain.len() + 3);
}

#[test]
fn csv_split_keeps_empty_pieces() {
    let t: Vec<char> = "a,,b".chars().collect();
    let pieces: Vec<String> = split_at_char(&t, ',').iter().map(|p| p.iter().collect()).collect();
    assert_eq!(pieces, ["a", "", "b"]);
    let e: Vec<char> = Vec::new();
    assert_eq!(split_at_char(&e, ',').len(), 1);
}
