use std::path::PathBuf;
use zenutils::fuzz::{
    entry_kind, is_hidden_name, seed_verdict, EntryKind, RegressionReport, RegressionSuite,
    ScanOutcome, SeedExpectation, SuiteFailure,
};

type Target = Box<dyn Fn(&[u8])>;

fn suite() -> RegressionSuite<Target> {
    RegressionSuite::new(PathBuf::from("fuzz/regression"))
}

#[test]
fn nothing_declared_refuses_before_scanning() {
    let s = suite().target("t", Box::new(|_: &[u8]| {}));
    let f = s.precheck().expect("undeclared");
    assert!(matches!(f, SuiteFailure::Undeclared));
    let msg = f.message("\"fuzz/regression\"", "[]");
    assert!(msg.contains("no seed expectation declared"));
    assert!(msg.contains("min_seeds"));
    assert!(msg.contains("allow_empty_corpus"));
}

#[test]
fn no_targets_refused() {
    let s = suite().min_seeds(1);
    let f = s.precheck().expect("no targets");
    assert!(matches!(f, SuiteFailure::NoTargets));
    assert!(f.message("\"d\"", "").contains("no targets registered"));
    assert!(suite().allow_empty_corpus().target("t", Box::new(|_: &[u8]| {})).precheck().is_none());
}

#[test]
fn last_declaration_wins() {
    let s = suite().allow_empty_corpus().min_seeds(3);
    assert_eq!(s.expectation, SeedExpectation::AtLeast(3));
    let s = s.allow_empty_corpus();
    assert_eq!(s.expectation, SeedExpectation::AllowEmpty);
    let s = s.target("a", Box::new(|_: &[u8]| {})).target("b", Box::new(|_: &[u8]| {}));
    let names: Vec<&str> = s.targets.iter().map(|(n, _)| n.as_str()).collect();
    assert_eq!(names, ["a", "b"]);
}

fn unreadable() -> ScanOutcome {
    ScanOutcome::Unreadable { path: "\"x\"".to_owned(), error: "not a directory".to_owned() }
}

#[test]
fn expectation_table_rows() {
    // allow_empty_corpus
    assert!(matches!(seed_verdict(SeedExpectation::AllowEmpty, ScanOutcome::Absent), Ok(0)));
    assert!(matches!(seed_verdict(SeedExpectation::AllowEmpty, unreadable()), Err(SuiteFailure::Unreadable { .. })));
    assert!(matches!(seed_verdict(SeedExpectation::AllowEmpty, ScanOutcome::Found(0)), Ok(0)));
    assert!(matches!(seed_verdict(SeedExpectation::AllowEmpty, ScanOutcome::Found(5)), Ok(5)));
    // min_seeds(0)
    assert!(matches!(seed_verdict(SeedExpectation::AtLeast(0), ScanOutcome::Absent), Err(SuiteFailure::Absent { required: 0 })));
    assert!(matches!(seed_verdict(SeedExpectation::AtLeast(0), unreadable()), Err(SuiteFailure::Unreadable { .. })));
    assert!(matches!(seed_verdict(SeedExpectation::AtLeast(0), ScanOutcome::Found(0)), Ok(0)));
    // min_seeds(n >= 1)
    assert!(matches!(seed_verdict(SeedExpectation::AtLeast(2), ScanOutcome::Absent), Err(SuiteFailure::Absent { required: 2 })));
    assert!(matches!(seed_verdict(SeedExpectation::AtLeast(2), ScanOutcome::Found(0)), Err(SuiteFailure::Empty { required: 2 })));
    assert!(matches!(
        seed_verdict(SeedExpectation::AtLeast(2), ScanOutcome::Found(1)),
        Err(SuiteFailure::Missing { found: 1, required: 2 })
    ));
    assert!(matches!(seed_verdict(SeedExpectation::AtLeast(2), ScanOutcome::Found(2)), Ok(2)));
    // nothing declared
    assert!(matches!(seed_verdict(SeedExpectation::Undeclared, ScanOutcome::Found(9)), Err(SuiteFailure::Undeclared)));
}

#[test]
fn failure_messages_name_their_cause() {
    let absent = SuiteFailure::Absent { required: 1 }.message("\"nope\"", "");
    assert!(absent.starts_with("RegressionSuite: seed directory \"nope\" does not exist, but at least 1 seed(s)"));
    assert!(absent.contains("allow_empty_corpus"));
    let empty = SuiteFailure::Empty { required: 2 }.message("\"d\"", "");
    assert!(empty.contains("contains no seeds, and at least 2 were required"));
    let short = SuiteFailure::Missing { found: 1, required: 4 }.message("\"d\"", "[\"d/seed\"]");
    assert!(short.contains("yielded 1 seed(s)"));
    assert!(short.contains("3 seed(s) went missing. Replayed: [\"d/seed\"]"));
    let io = SuiteFailure::Unreadable { path: "\"d\"".to_owned(), error: "not a directory".to_owned() }
        .message("\"d\"", "");
    assert!(io.contains("could not be scanned (\"d\": not a directory)"));
}

#[test]
fn meta_files_and_dotfiles_are_not_seeds() {
    assert!(is_hidden_name(".gitkeep"));
    assert!(!is_hidden_name("seed"));
    assert_eq!(entry_kind(".gitkeep", false, true), EntryKind::Skip);
    assert_eq!(entry_kind(".hidden", true, false), EntryKind::Skip);
    assert_eq!(entry_kind("README.md", false, true), EntryKind::Skip);
    assert_eq!(entry_kind("notes.txt", false, true), EntryKind::Skip);
    assert_eq!(entry_kind("PROVENANCE.MD", false, true), EntryKind::Skip);
    assert_eq!(entry_kind("Notes.TxT", false, true), EntryKind::Skip);
    assert_eq!(entry_kind("real_seed.bin", false, true), EntryKind::Seed);
    assert_eq!(entry_kind("md", false, true), EntryKind::Seed);
    assert_eq!(entry_kind("sub", true, false), EntryKind::Descend);
    assert_eq!(entry_kind("fifo", false, false), EntryKind::Skip);
}

#[test]
fn report_counts_and_summary() {
    let dir = PathBuf::from("/tmp/corpus");
    let seeds = vec![dir.join("a"), dir.join("b"), dir.join("c")];
    let r = RegressionReport::new(dir.clone(), seeds.clone(), 2);
    assert_eq!(r.seeds_replayed(), 3);
    assert_eq!(r.targets(), 2);
    assert_eq!(r.invocations(), 6);
    assert_eq!(r.seed_paths(), seeds.as_slice());
    assert_eq!(r.seed_dir(), &dir);
    let line = r.describe();
    assert_eq!(
        line,
        "fuzz regression: replayed 3 seed(s) from \"/tmp/corpus\" through 2 target(s) = 6 invocation(s)"
    );
    assert_eq!(
        r.describe_with("D"),
        "fuzz regression: replayed 3 seed(s) from D through 2 target(s) = 6 invocation(s)"
    );
}
