//! One crate's snapshot: which builds it needs, what it decides between
//! them, and the three files it renders from their lines.
//!
//! The builds themselves (`cargo rustdoc` and the API listing) are outside
//! work: a caller asks [`Snapshot::next_build`] for the next one, performs
//! it, and hands the outcome to [`Snapshot::advance`] until no build is left;
//! then [`Snapshot::render`] produces the files.
use vstd::prelude::*;
use crate::apidoc::{first_line, first_line_or_unknown, split_at_char, split_on, Extra, ExtraModel};
use crate::text::{
    append, append_str, copy_text, join, join_texts, replace_char, replace_chars, same_text, text,
    texts_of, to_string, to_strings, views,
};
use crate::workspace::{
    contains_name, feature_part, lib_target_name, package_index, pkg_ref, split_features, svs,
    MetaError, PkgRef, WorkspaceMeta,
};
use crate::order::sorted_texts;
use crate::render::total_lines_spec;
use crate::transform::{transform, transform_spec, string_views, Transformed};

verus! {

// ---------------------------------------------------------------------------
// Line-set helpers
/// `inc`, then each of the first `n` of `base` that is not already there.
pub open spec fn with_base(inc: Seq<Seq<char>>, base: Seq<Seq<char>>, n: int) -> Seq<Seq<char>>
    decreases n,
{
    if n <= 0 {
        inc
    } else {
        let prev = with_base(inc, base, n - 1);
        if prev.contains(base[n - 1]) {
            prev
        } else {
            prev.push(base[n - 1])
        }
    }
}

/// The first `n` lines of `a` that do not occur in `b`, in order.
pub open spec fn minus(a: Seq<Seq<char>>, b: Seq<Seq<char>>, n: int) -> Seq<Seq<char>>
    decreases n,
{
    if n <= 0 {
        Seq::empty()
    } else {
        let prev = minus(a, b, n - 1);
        if b.contains(a[n - 1]) {
            prev
        } else {
            prev.push(a[n - 1])
        }
    }
}

/// The lines of `a` that do not occur in `b`, in order.
pub open spec fn without(a: Seq<Seq<char>>, b: Seq<Seq<char>>) -> Seq<Seq<char>> {
    minus(a, b, a.len() as int)
}

/// Whether the sequence holds the text.
pub fn contains_line(v: &Vec<Vec<char>>, l: &Vec<char>) -> (r: bool)
    ensures
        r == views(v@).contains(l@),
{
    let mut i: usize = 0;
    while i < v.len()
        invariant
            i <= v.len(),
            forall|j: int| 0 <= j < i ==> views(v@)[j] != l@,
        decreases v.len() - i,
    {
        if same_text(&v[i], l) {
            assert(views(v@)[i as int] == l@);
            return true;
        }
        i = i + 1;
    }
    false
}

/// The lines of `a` that do not occur in `b`, in order.
pub fn without_lines(a: &Vec<Vec<char>>, b: &Vec<Vec<char>>) -> (r: Vec<Vec<char>>)
    ensures
        views(r@) == without(views(a@), views(b@)),
{
    let ghost av = views(a@);
    let ghost bv = views(b@);
    let mut r: Vec<Vec<char>> = Vec::new();
    let mut i: usize = 0;
    while i < a.len()
        invariant
            i <= a.len(),
            av == views(a@),
            bv == views(b@),
            views(r@) == minus(av, bv, i as int),
        decreases a.len() - i,
    {
        if !contains_line(b, &a[i]) {
            let ghost before = views(r@);
            r.push(copy_text(&a[i]));
            assert(views(r@) =~= before.push(av[i as int]));
        }
        i = i + 1;
    }
    r
}

/// A copy of the strings.
pub fn copy_strings(v: &Vec<String>) -> (r: Vec<String>)
    ensures
        svs(r@) == svs(v@),
{
    let mut r: Vec<String> = Vec::new();
    let mut k: usize = 0;
    while k < v.len()
        invariant
            k <= v.len(),
            svs(r@) == svs(v@).take(k as int),
        decreases v.len() - k,
    {
        let ghost before = r@;
        let x = v[k].clone();
        assert(x@ == v@[k as int]@);
        r.push(x);
        assert(svs(r@) =~= svs(before).push(v@[k as int]@));
        assert(svs(v@).take(k + 1) =~= svs(v@).take(k as int).push(v@[k as int]@));
        k = k + 1;
    }
    assert(svs(v@).take(v.len() as int) =~= svs(v@));
    r
}

/// Whether two string sequences are equal.
pub fn same_strings(a: &Vec<String>, b: &Vec<String>) -> (r: bool)
    ensures
        r == (svs(a@) == svs(b@)),
{
    if a.len() != b.len() {
        assert(svs(a@).len() != svs(b@).len());
        return false;
    }
    let mut i: usize = 0;
    while i < a.len()
        invariant
            a.len() == b.len(),
            i <= a.len(),
            forall|j: int| 0 <= j < i ==> svs(a@)[j] == svs(b@)[j],
        decreases a.len() - i,
    {
        let x = text(a[i].as_str());
        let y = text(b[i].as_str());
        if !same_text(&x, &y) {
            assert(svs(a@)[i as int] != svs(b@)[i as int]);
            return false;
        }
        i = i + 1;
    }
    assert(svs(a@) =~= svs(b@));
    true
}

// ---------------------------------------------------------------------------
// The plan
/// What a plan holds.
#[verifier::ext_equal]
pub ghost struct PlanModel {
    pub package: Seq<char>,
    pub crate_ident: Seq<char>,
    pub spec: Seq<char>,
    pub json_name: Seq<char>,
    pub target_dir: Seq<char>,
    pub feature_label: Seq<char>,
    pub included: Seq<Seq<char>>,
    pub excluded: Seq<Seq<char>>,
    pub with_excluded: Seq<Seq<char>>,
    pub base: Seq<Seq<char>>,
    pub attribute: bool,
}

/// The features of one crate's builds and how its files are labelled.
pub struct SnapshotPlan {
    pub package: String,
    /// The package name as a Rust path segment (`-` as `_`).
    pub crate_ident: String,
    pub pkg: PkgRef,
    /// The features named in the features file's header.
    pub feature_label: String,
    /// The features of the supported-plus-features build (a superset of the
    /// baseline features).
    pub included_feats: Vec<String>,
    /// The excluded features.
    pub excluded_feats: Vec<String>,
    /// The included features followed by the excluded ones.
    pub with_excluded_feats: Vec<String>,
    /// The baseline features of the supported-surface build.
    pub base_feats: Vec<String>,
    /// Whether the features file attributes lines to single features.
    pub attribute: bool,
}

impl SnapshotPlan {
    pub open spec fn model(&self) -> PlanModel {
        PlanModel {
            package: self.package@,
            crate_ident: self.crate_ident@,
            spec: self.pkg.spec@,
            json_name: self.pkg.json_name@,
            target_dir: self.pkg.target_dir@,
            feature_label: self.feature_label@,
            included: svs(self.included_feats@),
            excluded: svs(self.excluded_feats@),
            with_excluded: svs(self.with_excluded_feats@),
            base: svs(self.base_feats@),
            attribute: self.attribute,
        }
    }
}

/// The label and features of the features file for a mode, given the
/// crate's public (included) manifest features.
pub open spec fn label_and_features(extra: ExtraModel, auto_included: Seq<Seq<char>>) -> (
    Seq<char>,
    Seq<Seq<char>>,
) {
    match extra {
        ExtraModel::NoFeatures => (Seq::empty(), Seq::empty()),
        ExtraModel::PublicFeatures => (join(auto_included, ","@), auto_included),
        ExtraModel::Pinned(csv) => (csv, split_on(csv, ',')),
    }
}

/// Why the metadata cannot plan a snapshot of `package`, if it cannot.
pub open spec fn plan_error(meta: WorkspaceMeta, package: Seq<char>) -> Option<MetaError> {
    let i = package_index(meta.packages@, package, 0);
    if i < 0 {
        Some(MetaError::NotInWorkspace)
    } else if meta.packages@[i].version is None {
        Some(MetaError::NoVersion)
    } else if meta.packages@[i].targets is None {
        Some(MetaError::NoTargets)
    } else if meta.target_directory is None {
        Some(MetaError::NoTargetDirectory)
    } else if meta.packages@[i].features is None {
        Some(MetaError::NoFeatures)
    } else {
        None
    }
}

/// The plan for `package` when the metadata answers every question.
pub open spec fn plan_spec(
    meta: WorkspaceMeta,
    package: Seq<char>,
    extra: ExtraModel,
    excluded_cfg: Seq<Seq<char>>,
    attribute: bool,
    base: Seq<Seq<char>>,
) -> PlanModel {
    let i = package_index(meta.packages@, package, 0);
    let pm = meta.packages@[i];
    let keys = svs(pm.features->0@);
    let auto_included = sorted_texts(feature_part(keys, excluded_cfg, false, keys.len() as int));
    let auto_excluded = sorted_texts(feature_part(keys, excluded_cfg, true, keys.len() as int));
    let (label, inc0) = label_and_features(extra, auto_included);
    let included = with_base(inc0, base, base.len() as int);
    PlanModel {
        package,
        crate_ident: replace_char(package, '-', '_'),
        spec: package + seq!['@'] + pm.version->0@,
        json_name: replace_char(lib_target_name(pm.targets->0@, package), '-', '_'),
        target_dir: meta.target_directory->0@,
        feature_label: label,
        included,
        excluded: auto_excluded,
        with_excluded: included + auto_excluded,
        base,
        attribute,
    }
}

proof fn lemma_with_base(inc: Seq<Seq<char>>, base: Seq<Seq<char>>, n: int)
    requires
        0 <= n <= base.len(),
    ensures
        with_base(inc, base, n).len() >= inc.len(),
        with_base(inc, base, n).take(inc.len() as int) == inc,
        forall|i: int| 0 <= i < n ==> with_base(inc, base, n).contains(#[trigger] base[i]),
        forall|l: Seq<char>| with_base(inc, base, n).contains(l) ==> inc.contains(l) || base.contains(l),
    decreases n,
{
    if n > 0 {
        lemma_with_base(inc, base, n - 1);
        let prev = with_base(inc, base, n - 1);
        let cur = with_base(inc, base, n);
        if !prev.contains(base[n - 1]) {
            assert(cur.take(inc.len() as int) =~= prev.take(inc.len() as int));
            assert(cur[prev.len() as int] == base[n - 1]);
            assert forall|i: int| 0 <= i < n implies cur.contains(#[trigger] base[i]) by {
                if i < n - 1 {
                    let j = choose|j: int| 0 <= j < prev.len() && prev[j] == base[i];
                    assert(cur[j] == base[i]);
                }
            }
            assert forall|l: Seq<char>| cur.contains(l) implies inc.contains(l) || base.contains(l) by {
                let j = choose|j: int| 0 <= j < cur.len() && cur[j] == l;
                if j < prev.len() {
                    assert(prev[j] == l);
                } else {
                    assert(base[n - 1] == l);
                }
            }
        }
    }
}

/// The included build is a superset of the baseline: the plan's included
/// features are the mode's features, in order, followed by the baseline
/// features they lack, and nothing else.
pub proof fn lemma_included_covers_base(inc: Seq<Seq<char>>, base: Seq<Seq<char>>)
    ensures
        with_base(inc, base, base.len() as int).take(inc.len() as int) == inc,
        forall|i: int| 0 <= i < base.len() ==> with_base(inc, base, base.len() as int).contains(
            #[trigger] base[i],
        ),
        forall|l: Seq<char>| #[trigger] with_base(inc, base, base.len() as int).contains(l) ==> inc.contains(l)
            || base.contains(l),
{
    lemma_with_base(inc, base, base.len() as int);
}

/// `inc`, then each of `base` that is not already there.
fn add_base(inc: Vec<String>, base: &Vec<String>) -> (r: Vec<String>)
    ensures
        svs(r@) == with_base(svs(inc@), svs(base@), base@.len() as int),
{
    let mut r = inc;
    let ghost start = svs(r@);
    let mut k: usize = 0;
    while k < base.len()
        invariant
            k <= base.len(),
            svs(r@) == with_base(start, svs(base@), k as int),
        decreases base.len() - k,
    {
        let b = text(base[k].as_str());
        if !contains_name(&r, &b) {
            let ghost before = r@;
            r.push(base[k].clone());
            assert(svs(r@) =~= svs(before).push(svs(base@)[k as int]));
        }
        k = k + 1;
    }
    r
}

/// The plan of builds for one crate: its cargo identity, the features of
/// each build and the features file's label. Fails when the metadata
/// lacks the package or a field the plan needs.
pub fn plan_for(
    meta: &WorkspaceMeta,
    package: &str,
    extra: &Extra,
    excluded_cfg: &Vec<String>,
    attribute: bool,
    base_feats: &Vec<String>,
) -> (r: Result<SnapshotPlan, MetaError>)
    ensures
        match r {
            Ok(p) => plan_error(*meta, package@) is None && p.model() == plan_spec(
                *meta,
                package@,
                extra.model(),
                svs(excluded_cfg@),
                attribute,
                svs(base_feats@),
            ),
            Err(e) => plan_error(*meta, package@) == Some(e),
        },
{
    let pkg = match pkg_ref(meta, package) {
        Ok(p) => p,
        Err(e) => {
            return Err(e);
        },
    };
    let (auto_included, auto_excluded) = match split_features(meta, package, excluded_cfg) {
        Ok(pair) => pair,
        Err(e) => {
            return Err(e);
        },
    };
    let ghost ai = svs(auto_included@);
    let (label, inc0) = match extra {
        Extra::NoFeatures => (String::new(), Vec::new()),
        Extra::PublicFeatures => {
            let parts = texts_of(&auto_included);
            let sep = text(",");
            let joined = join_texts(&parts, &sep);
            assert(views(parts@) =~= ai);
            let l = to_string(&joined);
            assert(l@ == join(ai, ","@));
            (l, auto_included)
        },
        Extra::Pinned(csv) => {
            let t = text(csv.as_str());
            let pieces = split_at_char(&t, ',');
            let v = to_strings(&pieces);
            assert(svs(v@) =~= views(pieces@));
            let c = csv.clone();
            assert(c@ == csv@);
            (c, v)
        },
    };
    proof {
        if extra is NoFeatures {
            assert(label@ =~= Seq::<char>::empty());
            assert(svs(inc0@) =~= Seq::<Seq<char>>::empty());
        }
    }
    assert((label@, svs(inc0@)) == label_and_features(extra.model(), ai));
    let included = add_base(inc0, base_feats);
    let excluded = copy_strings(&auto_excluded);
    let mut with_excluded = copy_strings(&included);
    let mut more = copy_strings(&excluded);
    let ghost wi = with_excluded@;
    let ghost mo = more@;
    with_excluded.append(&mut more);
    assert(svs(with_excluded@) =~= svs(wi) + svs(mo));
    let ident = text(package);
    let id = replace_chars(&ident, '-', '_');
    let p = SnapshotPlan {
        package: package.to_owned(),
        crate_ident: to_string(&id),
        pkg,
        feature_label: label,
        included_feats: included,
        excluded_feats: excluded,
        with_excluded_feats: with_excluded,
        base_feats: copy_strings(base_feats),
        attribute,
    };
    assert(p.model() =~= plan_spec(
        *meta,
        package@,
        extra.model(),
        svs(excluded_cfg@),
        attribute,
        svs(base_feats@),
    ));
    Ok(p)
}

// ---------------------------------------------------------------------------
// The builds
/// What a build produced: its lines, or why it failed.
pub open spec fn outcome_view(o: Result<Vec<String>, String>) -> Result<Seq<Seq<char>>, Seq<char>> {
    match o {
        Ok(l) => Ok(svs(l@)),
        Err(e) => Err(e@),
    }
}

/// The lines of a successful outcome.
pub open spec fn ok_lines(o: Result<Seq<Seq<char>>, Seq<char>>) -> Seq<Seq<char>> {
    match o {
        Ok(l) => l,
        Err(_) => Seq::empty(),
    }
}

/// Which build a snapshot waits for.
#[derive(PartialEq, Eq, Structural, Clone, Copy)]
pub enum Phase {
    /// The supported surface (baseline features); must build.
    Base,
    /// The supported surface plus the included features; must build.
    Included,
    /// Everything plus the excluded features; may fail.
    Excluded,
    /// The widest set that built, with `doc(hidden)` items; may fail.
    Hidden,
    /// One included feature alone, for attribution; may fail.
    Attribution,
    /// No build left.
    Done,
}

/// What a snapshot holds.
#[verifier::ext_equal]
pub ghost struct SnapshotModel {
    pub plan: PlanModel,
    pub phase: Phase,
    pub base: Seq<Seq<char>>,
    pub included: Seq<Seq<char>>,
    pub excluded: Seq<Seq<char>>,
    pub hidden: Seq<Seq<char>>,
    pub notes: Seq<Seq<char>>,
    pub attribution: Seq<Result<Seq<Seq<char>>, Seq<char>>>,
}

/// One crate's snapshot between builds.
pub struct Snapshot {
    pub plan: SnapshotPlan,
    pub phase: Phase,
    /// Lines of the supported surface.
    pub base_lines: Vec<String>,
    /// Lines with the included features.
    pub included_lines: Vec<String>,
    /// Lines with the excluded features too (the included lines when that
    /// build failed or was not needed).
    pub excluded_lines: Vec<String>,
    /// Lines with `doc(hidden)` items (the excluded lines when that build
    /// failed).
    pub hidden_lines: Vec<String>,
    /// Notes on builds that failed.
    pub notes: Vec<String>,
    /// The outcome of each single-feature build, in feature order.
    pub attribution: Vec<Result<Vec<String>, String>>,
}

/// A build to perform.
pub struct BuildRequest {
    /// The `--features` list (none when empty).
    pub features: Vec<String>,
    /// Whether `doc(hidden)` items are documented.
    pub hidden: bool,
    /// Whether a failure ends the run (otherwise it becomes a note).
    pub required: bool,
}

/// The note for an unbuildable excluded-feature surface.
pub open spec fn excluded_note(excluded: Seq<Seq<char>>, e: Seq<char>) -> Seq<char> {
    "excluded-feature surface ("@ + join(excluded, ","@) + ") not buildable: "@
        + first_line_or_unknown(e)
}

/// The note for an unbuildable hidden surface.
pub open spec fn hidden_note(e: Seq<char>) -> Seq<char> {
    "doc(hidden) surface not buildable: "@ + first_line_or_unknown(e)
}

/// The features file has nothing to show: no added surface and no removed
/// line.
pub open spec fn features_empty(s: SnapshotModel) -> bool {
    &&& total_lines_spec(transform_spec(without(s.included, s.base), s.plan.crate_ident)) == 0
    &&& without(s.base, s.included).len() == 0
}

/// Whether single-feature builds attribute the features file.
pub open spec fn attribution_wanted(s: SnapshotModel) -> bool {
    s.plan.attribute && s.plan.included.len() > 1 && !features_empty(s)
}

/// After the included lines are known: the excluded build, or none when
/// there are no excluded features.
pub open spec fn after_included(s: SnapshotModel) -> SnapshotModel {
    if s.plan.excluded.len() == 0 {
        SnapshotModel { excluded: s.included, phase: Phase::Hidden, ..s }
    } else {
        SnapshotModel { phase: Phase::Excluded, ..s }
    }
}

/// The features of the hidden build: the widest set that built.
pub open spec fn hidden_base(s: SnapshotModel) -> Seq<Seq<char>> {
    if s.excluded.len() >= s.included.len() && s.notes.len() == 0 {
        s.plan.with_excluded
    } else {
        s.plan.included
    }
}

/// The features of the build a snapshot waits for.
pub open spec fn request_features(s: SnapshotModel) -> Seq<Seq<char>> {
    match s.phase {
        Phase::Base => s.plan.base,
        Phase::Included => s.plan.included,
        Phase::Excluded => s.plan.with_excluded,
        Phase::Hidden => hidden_base(s),
        Phase::Attribution => seq![s.plan.included[s.attribution.len() as int]],
        Phase::Done => Seq::empty(),
    }
}

/// The snapshot after a build's outcome.
pub open spec fn step_spec(s: SnapshotModel, o: Result<Seq<Seq<char>>, Seq<char>>) -> SnapshotModel {
    match s.phase {
        Phase::Base => {
            let s1 = SnapshotModel { base: ok_lines(o), ..s };
            if s.plan.included == s.plan.base {
                after_included(SnapshotModel { included: ok_lines(o), ..s1 })
            } else {
                SnapshotModel { phase: Phase::Included, ..s1 }
            }
        },
        Phase::Included => after_included(SnapshotModel { included: ok_lines(o), ..s }),
        Phase::Excluded => match o {
            Ok(l) => SnapshotModel { excluded: l, phase: Phase::Hidden, ..s },
            Err(e) => SnapshotModel {
                excluded: s.included,
                notes: s.notes.push(excluded_note(s.plan.excluded, e)),
                phase: Phase::Hidden,
                ..s
            },
        },
        Phase::Hidden => {
            let s1 = match o {
                Ok(l) => SnapshotModel { hidden: l, ..s },
                Err(e) => SnapshotModel { hidden: s.excluded, notes: s.notes.push(hidden_note(e)), ..s },
            };
            SnapshotModel {
                phase: if attribution_wanted(s1) {
                    Phase::Attribution
                } else {
                    Phase::Done
                },
                ..s1
            }
        },
        Phase::Attribution => {
            let a = s.attribution.push(o);
            SnapshotModel {
                attribution: a,
                phase: if a.len() < s.plan.included.len() {
                    Phase::Attribution
                } else {
                    Phase::Done
                },
                ..s
            }
        },
        Phase::Done => s,
    }
}

impl Snapshot {
    pub open spec fn model(&self) -> SnapshotModel {
        SnapshotModel {
            plan: self.plan.model(),
            phase: self.phase,
            base: svs(self.base_lines@),
            included: svs(self.included_lines@),
            excluded: svs(self.excluded_lines@),
            hidden: svs(self.hidden_lines@),
            notes: svs(self.notes@),
            attribution: self.attribution@.map_values(|o: Result<Vec<String>, String>| outcome_view(o)),
        }
    }

    /// The single-feature outcomes fit the included features: none before
    /// attribution starts, and one still missing while it runs.
    pub open spec fn wf(&self) -> bool {
        &&& self.attribution.len() <= self.plan.included_feats.len()
        &&& (self.phase == Phase::Attribution ==> self.attribution.len()
            < self.plan.included_feats.len())
        &&& (self.phase != Phase::Attribution && self.phase != Phase::Done
            ==> self.attribution.len() == 0)
    }

    /// A snapshot that waits for its supported-surface build.
    pub fn start(plan: SnapshotPlan) -> (r: Snapshot)
        ensures
            r.wf(),
            r.model() == (SnapshotModel {
                plan: plan.model(),
                phase: Phase::Base,
                base: Seq::empty(),
                included: Seq::empty(),
                excluded: Seq::empty(),
                hidden: Seq::empty(),
                notes: Seq::empty(),
                attribution: Seq::empty(),
            }),
    {
        let r = Snapshot {
            plan,
            phase: Phase::Base,
            base_lines: Vec::new(),
            included_lines: Vec::new(),
            excluded_lines: Vec::new(),
            hidden_lines: Vec::new(),
            notes: Vec::new(),
            attribution: Vec::new(),
        };
        assert(r.model() =~= SnapshotModel {
            plan: plan.model(),
            phase: Phase::Base,
            base: Seq::empty(),
            included: Seq::empty(),
            excluded: Seq::empty(),
            hidden: Seq::empty(),
            notes: Seq::empty(),
            attribution: Seq::empty(),
        });
        r
    }

    /// The build the snapshot waits for, or `None` when it has them all.
    pub fn next_build(&self) -> (r: Option<BuildRequest>)
        requires
            self.wf(),
        ensures
            match r {
                Some(b) => {
                    &&& self.phase != Phase::Done
                    &&& svs(b.features@) == request_features(self.model())
                    &&& b.hidden == (self.phase == Phase::Hidden)
                    &&& b.required == (self.phase == Phase::Base || self.phase == Phase::Included)
                },
                None => self.phase == Phase::Done,
            },
    {
        match self.phase {
            Phase::Base => Some(BuildRequest {
                features: copy_strings(&self.plan.base_feats),
                hidden: false,
                required: true,
            }),
            Phase::Included => Some(BuildRequest {
                features: copy_strings(&self.plan.included_feats),
                hidden: false,
                required: true,
            }),
            Phase::Excluded => Some(BuildRequest {
                features: copy_strings(&self.plan.with_excluded_feats),
                hidden: false,
                required: false,
            }),
            Phase::Hidden => {
                let features = if self.excluded_lines.len() >= self.included_lines.len()
                    && self.notes.len() == 0 {
                    copy_strings(&self.plan.with_excluded_feats)
                } else {
                    copy_strings(&self.plan.included_feats)
                };
                Some(BuildRequest { features, hidden: true, required: false })
            },
            Phase::Attribution => {
                let k = self.attribution.len();
                let mut features: Vec<String> = Vec::new();
                features.push(self.plan.included_feats[k].clone());
                assert(svs(features@) =~= seq![svs(self.plan.included_feats@)[k as int]]);
                Some(BuildRequest { features, hidden: false, required: false })
            },
            Phase::Done => None,
        }
    }

    fn after_included(&mut self)
        requires
            old(self).wf(),
            old(self).phase == Phase::Base || old(self).phase == Phase::Included,
        ensures
            final(self).wf(),
            final(self).model() == after_included(old(self).model()),
    {
        let ghost s0 = self.model();
        if self.plan.excluded_feats.len() == 0 {
            self.excluded_lines = copy_strings(&self.included_lines);
            self.phase = Phase::Hidden;
            assert(self.model() =~= after_included(s0));
        } else {
            self.phase = Phase::Excluded;
            assert(self.model() =~= after_included(s0));
        }
    }

    /// Whether the features file would have nothing to show.
    fn features_empty_now(&self) -> (r: bool)
        ensures
            r == features_empty(self.model()),
    {
        let inc = lines_of_strings(&self.included_lines);
        let base = lines_of_strings(&self.base_lines);
        let added = without_lines(&inc, &base);
        let t = transform_lines(&added, &self.plan.crate_ident);
        let removed = without_lines(&base, &inc);
        t.items.len() == 0 && t.roster_types.len() == 0 && t.conditional_impls.len() == 0
            && t.auto_types.len() == 0 && removed.len() == 0
    }

    /// The snapshot after the outcome of the build it waited for. A build
    /// that must succeed is handed over only when it did.
    pub fn advance(self, outcome: Result<Vec<String>, String>) -> (r: Snapshot)
        requires
            self.wf(),
            self.phase != Phase::Done,
            (self.phase == Phase::Base || self.phase == Phase::Included) ==> outcome is Ok,
        ensures
            r.wf(),
            r.model() == step_spec(self.model(), outcome_view(outcome)),
    {
        let ghost s = self.model();
        let ghost o = outcome_view(outcome);
        let mut st = self;
        match st.phase {
            Phase::Base => {
                let lines = match outcome {
                    Ok(l) => l,
                    Err(_) => Vec::new(),
                };
                st.base_lines = lines;
                if same_strings(&st.plan.included_feats, &st.plan.base_feats) {
                    st.included_lines = copy_strings(&st.base_lines);
                    let ghost s1 = st.model();
                    assert(s1 =~= SnapshotModel { included: ok_lines(o), ..SnapshotModel { base: ok_lines(o), ..s } });
                    st.after_included();
                } else {
                    st.phase = Phase::Included;
                    assert(st.model() =~= step_spec(s, o));
                }
            },
            Phase::Included => {
                let lines = match outcome {
                    Ok(l) => l,
                    Err(_) => Vec::new(),
                };
                st.included_lines = lines;
                assert(st.model() =~= SnapshotModel { included: ok_lines(o), ..s });
                st.after_included();
            },
            Phase::Excluded => {
                match outcome {
                    Ok(l) => {
                        st.excluded_lines = l;
                    },
                    Err(e) => {
                        let note = excluded_note_text(&st.plan.excluded_feats, &e);
                        let ghost before = st.notes@;
                        st.notes.push(note);
                        assert(svs(st.notes@) =~= svs(before).push(excluded_note(s.plan.excluded, e@)));
                        st.excluded_lines = copy_strings(&st.included_lines);
                    },
                }
                st.phase = Phase::Hidden;
                assert(st.model() =~= step_spec(s, o));
            },
            Phase::Hidden => {
                match outcome {
                    Ok(l) => {
                        st.hidden_lines = l;
                    },
                    Err(e) => {
                        let note = hidden_note_text(&e);
                        let ghost before = st.notes@;
                        st.notes.push(note);
                        assert(svs(st.notes@) =~= svs(before).push(hidden_note(e@)));
                        st.hidden_lines = copy_strings(&st.excluded_lines);
                    },
                }
                let ghost s1 = st.model();
                let wanted = st.plan.attribute && st.plan.included_feats.len() > 1
                    && !st.features_empty_now();
                assert(wanted == attribution_wanted(s1));
                if wanted {
                    st.phase = Phase::Attribution;
                } else {
                    st.phase = Phase::Done;
                }
                assert(st.model() =~= step_spec(s, o));
            },
            Phase::Attribution => {
                let ghost before = st.attribution@;
                st.attribution.push(outcome);
                assert(st.model().attribution =~= s.attribution.push(o));
                if st.attribution.len() < st.plan.included_feats.len() {
                    st.phase = Phase::Attribution;
                } else {
                    st.phase = Phase::Done;
                }
                assert(st.model() =~= step_spec(s, o));
            },
            Phase::Done => {},
        }
        st
    }
}

/// Each string as a text.
pub fn lines_of_strings(v: &Vec<String>) -> (r: Vec<Vec<char>>)
    ensures
        views(r@) == svs(v@),
{
    let r = texts_of(v);
    assert(views(r@) =~= svs(v@));
    r
}

/// Each text as a string.
pub fn strings_of_lines(v: &Vec<Vec<char>>) -> (r: Vec<String>)
    ensures
        svs(r@) == views(v@),
{
    let r = to_strings(v);
    assert(svs(r@) =~= views(v@));
    r
}

/// The encoded sections of the lines.
pub fn transform_lines(v: &Vec<Vec<char>>, crate_ident: &String) -> (t: Transformed)
    ensures
        t.model() == transform_spec(views(v@), crate_ident@),
        t.sizes_within(3 * v.len()),
{
    let s = strings_of_lines(v);
    assert(string_views(s@) =~= svs(s@));
    transform(&s, crate_ident.as_str())
}

/// The note for an unbuildable excluded-feature surface.
fn excluded_note_text(excluded: &Vec<String>, e: &String) -> (r: String)
    ensures
        r@ == excluded_note(svs(excluded@), e@),
{
    let parts = lines_of_strings(excluded);
    let sep = text(",");
    let joined = join_texts(&parts, &sep);
    let mut t = text("excluded-feature surface (");
    append(&mut t, &joined);
    append_str(&mut t, ") not buildable: ");
    let et = text(e.as_str());
    let fl = first_line(&et);
    append(&mut t, &fl);
    to_string(&t)
}

/// The note for an unbuildable hidden surface.
fn hidden_note_text(e: &String) -> (r: String)
    ensures
        r@ == hidden_note(e@),
{
    let mut t = text("doc(hidden) surface not buildable: ");
    let et = text(e.as_str());
    let fl = first_line(&et);
    append(&mut t, &fl);
    to_string(&t)
}

} // verus!
