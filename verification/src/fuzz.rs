//! Rules of a fuzz-regression replay: the declared seed expectation, which
//! corpus entries are seeds, when a scan of the corpus fails the suite, and
//! the report of a replay.
//!
//! Scanning the corpus, reading seeds and running targets are outside work
//! (file system access and catching panics); the suite hands their results
//! to the decisions here.
use vstd::prelude::*;
use std::path::PathBuf;
use crate::text::{append, append_decimal, append_str, ascii_lower, decimal, has_suffix, lower_ends_with, text, to_string};

verus! {

#[verifier::external_type_specification]
#[verifier::external_body]
pub struct ExPathBuf(PathBuf);

/// What the suite expects of the corpus.
#[derive(PartialEq, Eq, Structural, Clone, Copy, Debug)]
pub enum SeedExpectation {
    /// Nothing declared: the suite refuses to run.
    Undeclared,
    /// The corpus may be absent or empty.
    AllowEmpty,
    /// The corpus directory must exist and yield at least this many seeds.
    AtLeast(usize),
}

/// A replay of a seed corpus through named targets of type `T`.
pub struct RegressionSuite<T> {
    pub seed_dir: PathBuf,
    pub targets: Vec<(String, T)>,
    pub expectation: SeedExpectation,
}

/// The names of the targets, in registration order.
pub open spec fn target_names<T>(ts: Seq<(String, T)>) -> Seq<Seq<char>> {
    ts.map_values(|t: (String, T)| t.0@)
}

impl<T> RegressionSuite<T> {
    /// A suite over the corpus at `seed_dir`, with no target and no
    /// declared expectation.
    pub fn new(seed_dir: PathBuf) -> (r: Self)
        ensures
            r.seed_dir == seed_dir,
            r.targets@.len() == 0,
            r.expectation == SeedExpectation::Undeclared,
    {
        RegressionSuite { seed_dir, targets: Vec::new(), expectation: SeedExpectation::Undeclared }
    }

    /// Registers a target under `name`.
    pub fn target(self, name: &str, f: T) -> (r: Self)
        ensures
            r.seed_dir == self.seed_dir,
            r.expectation == self.expectation,
            target_names(r.targets@) == target_names(self.targets@).push(name@),
            r.targets@.len() == self.targets@.len() + 1,
            forall|i: int| 0 <= i < self.targets@.len() ==> r.targets@[i] == self.targets@[i],
            r.targets@.last().1 == f,
    {
        let mut s = self;
        let ghost before = s.targets@;
        s.targets.push((name.to_owned(), f));
        assert(target_names(s.targets@) =~= target_names(before).push(name@));
        s
    }

    /// The corpus must exist and yield at least `n` seeds (replacing any
    /// earlier declaration).
    pub fn min_seeds(self, n: usize) -> (r: Self)
        ensures
            r.seed_dir == self.seed_dir,
            r.targets == self.targets,
            r.expectation == SeedExpectation::AtLeast(n),
    {
        let mut s = self;
        s.expectation = SeedExpectation::AtLeast(n);
        s
    }

    /// The corpus may be absent or empty (replacing any earlier
    /// declaration).
    pub fn allow_empty_corpus(self) -> (r: Self)
        ensures
            r.seed_dir == self.seed_dir,
            r.targets == self.targets,
            r.expectation == SeedExpectation::AllowEmpty,
    {
        let mut s = self;
        s.expectation = SeedExpectation::AllowEmpty;
        s
    }

    /// Why the suite refuses to scan at all, if it does: no declared
    /// expectation, or no target.
    pub fn precheck(&self) -> (r: Option<SuiteFailure>)
        ensures
            r == precheck_spec(self.expectation, self.targets@.len()),
    {
        if self.expectation == SeedExpectation::Undeclared {
            Some(SuiteFailure::Undeclared)
        } else if self.targets.len() == 0 {
            Some(SuiteFailure::NoTargets)
        } else {
            None
        }
    }
}

/// What a scan of the corpus found.
pub enum ScanOutcome {
    /// The seed directory does not exist.
    Absent,
    /// The seed path exists but could not be scanned: not a directory, or a
    /// read failed (`path` and `error` as the failure names them).
    Unreadable { path: String, error: String },
    /// The number of seeds found.
    Found(usize),
}

/// Why a suite fails before replaying.
pub enum SuiteFailure {
    Undeclared,
    NoTargets,
    Absent { required: usize },
    Unreadable { path: String, error: String },
    Empty { required: usize },
    Missing { found: usize, required: usize },
}

/// The refusal before any scan.
pub open spec fn precheck_spec(e: SeedExpectation, targets: nat) -> Option<SuiteFailure> {
    if e == SeedExpectation::Undeclared {
        Some(SuiteFailure::Undeclared)
    } else if targets == 0 {
        Some(SuiteFailure::NoTargets)
    } else {
        None
    }
}

/// The verdict on a scan: the number of seeds to replay, or the failure.
pub open spec fn replay_verdict(e: SeedExpectation, scan: ScanOutcome) -> Result<usize, SuiteFailure> {
    match e {
        SeedExpectation::Undeclared => Err(SuiteFailure::Undeclared),
        SeedExpectation::AllowEmpty => match scan {
            ScanOutcome::Absent => Ok(0),
            ScanOutcome::Unreadable { path, error } => Err(SuiteFailure::Unreadable { path, error }),
            ScanOutcome::Found(k) => Ok(k),
        },
        SeedExpectation::AtLeast(n) => match scan {
            ScanOutcome::Absent => Err(SuiteFailure::Absent { required: n }),
            ScanOutcome::Unreadable { path, error } => Err(SuiteFailure::Unreadable { path, error }),
            ScanOutcome::Found(k) => if k >= n {
                Ok(k)
            } else if k == 0 {
                Err(SuiteFailure::Empty { required: n })
            } else {
                Err(SuiteFailure::Missing { found: k, required: n })
            },
        },
    }
}

/// Whether the suite replays, as a table of declaration against what the
/// corpus turned out to be.
pub open spec fn expectation_table(e: SeedExpectation, scan: ScanOutcome) -> bool {
    match (e, scan) {
        (SeedExpectation::Undeclared, _) => false,
        (_, ScanOutcome::Unreadable { .. }) => false,
        (SeedExpectation::AllowEmpty, _) => true,
        (SeedExpectation::AtLeast(_), ScanOutcome::Absent) => false,
        (SeedExpectation::AtLeast(n), ScanOutcome::Found(k)) => n <= k,
    }
}

/// The verdict on a scan of the corpus under the declared expectation.
pub fn seed_verdict(e: SeedExpectation, scan: ScanOutcome) -> (r: Result<usize, SuiteFailure>)
    ensures
        r == replay_verdict(e, scan),
{
    match e {
        SeedExpectation::Undeclared => Err(SuiteFailure::Undeclared),
        SeedExpectation::AllowEmpty => match scan {
            ScanOutcome::Absent => Ok(0),
            ScanOutcome::Unreadable { path, error } => Err(SuiteFailure::Unreadable { path, error }),
            ScanOutcome::Found(k) => Ok(k),
        },
        SeedExpectation::AtLeast(n) => match scan {
            ScanOutcome::Absent => Err(SuiteFailure::Absent { required: n }),
            ScanOutcome::Unreadable { path, error } => Err(SuiteFailure::Unreadable { path, error }),
            ScanOutcome::Found(k) => if k >= n {
                Ok(k)
            } else if k == 0 {
                Err(SuiteFailure::Empty { required: n })
            } else {
                Err(SuiteFailure::Missing { found: k, required: n })
            },
        },
    }
}

/// The declaration table: nothing declared never replays; an unreadable
/// seed path always fails; `allow_empty_corpus` replays whatever is there,
/// nothing at all included; `min_seeds(n)` needs the directory to exist
/// and to yield at least `n` seeds, so `min_seeds(0)` still fails on an
/// absent directory.
pub proof fn lemma_expectation_table(e: SeedExpectation, scan: ScanOutcome)
    ensures
        (replay_verdict(e, scan) is Ok) == expectation_table(e, scan),
        replay_verdict(e, scan) matches Ok(k) ==> (scan matches ScanOutcome::Found(f) ==> k == f),
{
}

/// Each failure names its own cause: an absent directory, a directory
/// without seeds and a short corpus are told apart.
pub proof fn lemma_failures_distinct(n: usize, k: usize)
    requires
        n >= 1,
    ensures
        replay_verdict(SeedExpectation::AtLeast(n), ScanOutcome::Absent) == Err::<usize, SuiteFailure>(
            SuiteFailure::Absent { required: n },
        ),
        replay_verdict(SeedExpectation::AtLeast(n), ScanOutcome::Found(0)) == Err::<usize, SuiteFailure>(
            SuiteFailure::Empty { required: n },
        ),
        0 < k < n ==> replay_verdict(SeedExpectation::AtLeast(n), ScanOutcome::Found(k)) == Err::<
            usize,
            SuiteFailure,
        >(SuiteFailure::Missing { found: k, required: n }),
{
}

// ---------------------------------------------------------------------------
// Corpus entries
/// What a scan does with a directory entry.
#[derive(PartialEq, Eq, Structural, Clone, Copy, Debug)]
pub enum EntryKind {
    /// Not a seed.
    Skip,
    /// A directory to scan too.
    Descend,
    /// A seed.
    Seed,
}

/// Dotfiles are never seeds.
pub open spec fn hidden_name(name: Seq<char>) -> bool {
    name.len() > 0 && name[0] == '.'
}

/// Notes beside the seeds: `*.md` and `*.txt`, in any letter case.
pub open spec fn meta_name(name: Seq<char>) -> bool {
    let low = name.map_values(|c: char| ascii_lower(c));
    has_suffix(low, ".md"@) || has_suffix(low, ".txt"@)
}

/// What a scan does with an entry named `name`.
pub open spec fn entry_kind_spec(name: Seq<char>, is_dir: bool, is_file: bool) -> EntryKind {
    if hidden_name(name) {
        EntryKind::Skip
    } else if is_dir {
        EntryKind::Descend
    } else if !is_file {
        EntryKind::Skip
    } else if meta_name(name) {
        EntryKind::Skip
    } else {
        EntryKind::Seed
    }
}

/// Whether an entry named `name` is a dotfile, skipped before its type is
/// looked at.
pub fn is_hidden_name(name: &str) -> (r: bool)
    ensures
        r == hidden_name(name@),
{
    let t = text(name);
    t.len() > 0 && t[0] == '.'
}

/// What a scan does with an entry named `name` of the given type:
/// dotfiles and entries that are neither files nor directories are
/// skipped, directories are scanned too, and files are seeds unless they
/// are `*.md` or `*.txt` notes.
pub fn entry_kind(name: &str, is_dir: bool, is_file: bool) -> (r: EntryKind)
    ensures
        r == entry_kind_spec(name@, is_dir, is_file),
{
    let t = text(name);
    if t.len() > 0 && t[0] == '.' {
        return EntryKind::Skip;
    }
    if is_dir {
        return EntryKind::Descend;
    }
    if !is_file {
        return EntryKind::Skip;
    }
    let md = text(".md");
    let txt = text(".txt");
    proof {
        reveal_strlit(".md");
        reveal_strlit(".txt");
    }
    if lower_ends_with(&t, &md) || lower_ends_with(&t, &txt) {
        EntryKind::Skip
    } else {
        EntryKind::Seed
    }
}

// ---------------------------------------------------------------------------
// The report
/// What a replay did.
pub struct RegressionReport {
    seed_dir: PathBuf,
    seed_paths: Vec<PathBuf>,
    target_count: usize,
}

impl RegressionReport {
    pub closed spec fn dir(&self) -> PathBuf {
        self.seed_dir
    }

    pub closed spec fn paths(&self) -> Seq<PathBuf> {
        self.seed_paths@
    }

    pub closed spec fn target_count(&self) -> nat {
        self.target_count as nat
    }

    /// The report of a replay of `seed_paths` through `target_count`
    /// targets. The paths are kept as given, in the given order; the
    /// caller that scans the corpus sorts them.
    pub fn new(seed_dir: PathBuf, seed_paths: Vec<PathBuf>, target_count: usize) -> (r: Self)
        ensures
            r.dir() == seed_dir,
            r.paths() == seed_paths@,
            r.target_count() == target_count,
    {
        RegressionReport { seed_dir, seed_paths, target_count }
    }

    /// Seeds replayed (after the dotfile and note filter).
    pub fn seeds_replayed(&self) -> (n: usize)
        ensures
            n == self.paths().len(),
    {
        self.seed_paths.len()
    }

    /// Targets each seed went through.
    pub fn targets(&self) -> (n: usize)
        ensures
            n == self.target_count(),
    {
        self.target_count
    }

    /// Target invocations: seeds times targets.
    pub fn invocations(&self) -> (n: usize)
        requires
            self.paths().len() * self.target_count() <= usize::MAX,
        ensures
            n == self.paths().len() * self.target_count(),
    {
        self.seed_paths.len() * self.target_count
    }

    /// The replayed seed paths, in the order the report was given them
    /// (the scan sorts them).
    pub fn seed_paths(&self) -> (r: &[PathBuf])
        ensures
            r@ == self.paths(),
    {
        self.seed_paths.as_slice()
    }

    /// The corpus directory.
    pub fn seed_dir(&self) -> (r: &PathBuf)
        ensures
            *r == self.dir(),
    {
        &self.seed_dir
    }
}

// ---------------------------------------------------------------------------
// Messages
/// How many seeds went missing.
pub open spec fn shortfall(found: usize, required: usize) -> nat {
    if found <= required { (required - found) as nat } else { 0 }
}

/// The message of a failure, for the seed directory shown as `dir` and the
/// replayed seeds shown as `seeds`.
pub open spec fn failure_text(f: SuiteFailure, dir: Seq<char>, seeds: Seq<char>) -> Seq<char> {
    match f {
        SuiteFailure::Undeclared => "RegressionSuite at "@ + dir + ": no seed expectation declared, so this suite would pass without proving it replayed anything. Declare one: `.min_seeds(n)` (the corpus must exist and yield at least n seeds) or `.allow_empty_corpus()` (this crate genuinely has no seeds yet). See the zenutils-fuzz crate docs for why zero-seed green runs are the failure this guards against."@,
        SuiteFailure::NoTargets => "RegressionSuite at "@ + dir + ": no targets registered. Call `.target(name, fn)` at least once before `.run()`."@,
        SuiteFailure::Absent { required } => "RegressionSuite: seed directory "@ + dir
            + " does not exist, but at least "@ + decimal(required as nat) + " seed(s) were required. The corpus was renamed, never checked out, or the path does not resolve on this target (a path component of `..` is refused by WASI preopen resolution, for example — resolve the path from CARGO_MANIFEST_DIR instead). If this crate really has no corpus, say so with `.allow_empty_corpus()`."@,
        SuiteFailure::Unreadable { path, error } => "RegressionSuite: seed directory "@ + dir
            + " exists but could not be scanned ("@ + path@ + ": "@ + error@ + "). This is a broken harness, not an empty corpus: the suite would otherwise have replayed nothing and passed."@,
        SuiteFailure::Empty { required } => "RegressionSuite: seed directory "@ + dir
            + " exists but contains no seeds, and at least "@ + decimal(required as nat) + " were required. (Dotfiles, `*.md` and `*.txt` are never counted as seeds — a directory holding only a README counts as empty.) The corpus was emptied, or the seeds are gitignored. If it is deliberately empty, declare `.min_seeds(0)`."@,
        SuiteFailure::Missing { found, required } => "RegressionSuite: seed directory "@ + dir
            + " yielded "@ + decimal(found as nat) + " seed(s) but at least "@ + decimal(required as nat)
            + " were required — "@ + decimal(shortfall(found, required)) + " seed(s) went missing. Replayed: "@
            + seeds,
    }
}

impl SuiteFailure {
    /// The failure's message, for the seed directory shown as `dir` and the
    /// replayed seeds shown as `seeds`.
    pub fn message(&self, dir: &str, seeds: &str) -> (r: String)
        ensures
            r@ == failure_text(*self, dir@, seeds@),
    {
        let d = text(dir);
        let mut t: Vec<char>;
        match self {
            SuiteFailure::Undeclared => {
                t = text("RegressionSuite at ");
                append(&mut t, &d);
                append_str(&mut t, ": no seed expectation declared, so this suite would pass without proving it replayed anything. Declare one: `.min_seeds(n)` (the corpus must exist and yield at least n seeds) or `.allow_empty_corpus()` (this crate genuinely has no seeds yet). See the zenutils-fuzz crate docs for why zero-seed green runs are the failure this guards against.");
            },
            SuiteFailure::NoTargets => {
                t = text("RegressionSuite at ");
                append(&mut t, &d);
                append_str(&mut t, ": no targets registered. Call `.target(name, fn)` at least once before `.run()`.");
            },
            SuiteFailure::Absent { required } => {
                t = text("RegressionSuite: seed directory ");
                append(&mut t, &d);
                append_str(&mut t, " does not exist, but at least ");
                append_decimal(&mut t, *required);
                append_str(&mut t, " seed(s) were required. The corpus was renamed, never checked out, or the path does not resolve on this target (a path component of `..` is refused by WASI preopen resolution, for example — resolve the path from CARGO_MANIFEST_DIR instead). If this crate really has no corpus, say so with `.allow_empty_corpus()`.");
            },
            SuiteFailure::Unreadable { path, error } => {
                t = text("RegressionSuite: seed directory ");
                append(&mut t, &d);
                append_str(&mut t, " exists but could not be scanned (");
                append_str(&mut t, path.as_str());
                append_str(&mut t, ": ");
                append_str(&mut t, error.as_str());
                append_str(&mut t, "). This is a broken harness, not an empty corpus: the suite would otherwise have replayed nothing and passed.");
            },
            SuiteFailure::Empty { required } => {
                t = text("RegressionSuite: seed directory ");
                append(&mut t, &d);
                append_str(&mut t, " exists but contains no seeds, and at least ");
                append_decimal(&mut t, *required);
                append_str(&mut t, " were required. (Dotfiles, `*.md` and `*.txt` are never counted as seeds — a directory holding only a README counts as empty.) The corpus was emptied, or the seeds are gitignored. If it is deliberately empty, declare `.min_seeds(0)`.");
            },
            SuiteFailure::Missing { found, required } => {
                t = text("RegressionSuite: seed directory ");
                append(&mut t, &d);
                append_str(&mut t, " yielded ");
                append_decimal(&mut t, *found);
                append_str(&mut t, " seed(s) but at least ");
                append_decimal(&mut t, *required);
                append_str(&mut t, " were required — ");
                let short: usize = if *found <= *required { *required - *found } else { 0 };
                append_decimal(&mut t, short);
                append_str(&mut t, " seed(s) went missing. Replayed: ");
                append_str(&mut t, seeds);
            },
        }
        to_string(&t)
    }
}

/// The `{:?}` form of a path.
///
/// Calls `<PathBuf as Debug>::fmt` through `format!`; nothing is claimed of
/// the text.
#[verifier::external_body]
fn path_debug(p: &PathBuf) -> (r: String) {
    format!("{:?}", p)
}

/// The one-line summary of a replay, for the seed directory shown as
/// `dir`.
pub open spec fn report_text(seeds: nat, dir: Seq<char>, targets: nat, invocations: nat) -> Seq<char> {
    "fuzz regression: replayed "@ + decimal(seeds) + " seed(s) from "@ + dir + " through "@
        + decimal(targets) + " target(s) = "@ + decimal(invocations) + " invocation(s)"@
}

impl RegressionReport {
    /// The one-line summary, with the seed directory shown as `dir`.
    pub fn describe_with(&self, dir: &str) -> (r: String)
        requires
            self.paths().len() * self.target_count() <= usize::MAX,
        ensures
            r@ == report_text(
                self.paths().len(),
                dir@,
                self.target_count(),
                self.paths().len() * self.target_count(),
            ),
    {
        let mut t = text("fuzz regression: replayed ");
        append_decimal(&mut t, self.seeds_replayed());
        append_str(&mut t, " seed(s) from ");
        append_str(&mut t, dir);
        append_str(&mut t, " through ");
        append_decimal(&mut t, self.target_count);
        append_str(&mut t, " target(s) = ");
        append_decimal(&mut t, self.invocations());
        append_str(&mut t, " invocation(s)");
        to_string(&t)
    }

    /// The one-line summary: seeds, directory, targets and invocations.
    pub fn describe(&self) -> (r: String)
        requires
            self.paths().len() * self.target_count() <= usize::MAX,
        ensures
            exists|dir: Seq<char>| r@ == #[trigger] report_text(
                self.paths().len(),
                dir,
                self.target_count(),
                self.paths().len() * self.target_count(),
            ),
    {
        let d = path_debug(&self.seed_dir);
        let r = self.describe_with(d.as_str());
        assert(r@ == report_text(
            self.paths().len(),
            d@,
            self.target_count(),
            self.paths().len() * self.target_count(),
        ));
        r
    }
}

} // verus!
