//! The snapshot-run configuration (`ApiDoc`) and the decisions a run makes
//! around its builds: the mode, the crate list, each crate's settings, the
//! cargo arguments, and what to do with each regenerated file.
use vstd::prelude::*;
use crate::text::{
    contains, contains_text, find, lemma_find_from_range, lines_of, same_as_str, same_text,
    slice, split_lines, text, texts_of, to_string, to_strings, views, find_text, join, join_texts,
    copy_text, append,
};
use crate::workspace::{discover_publishable_libs, discover_spec, svs, WorkspaceMeta};

verus! {

/// How the features file of one crate is built.
pub enum Extra {
    /// All manifest features except `default`, `_*`-prefixed and excluded
    /// ones.
    PublicFeatures,
    /// No features file content: default features only.
    NoFeatures,
    /// A pinned `--features` csv.
    Pinned(String),
}

/// What an `Extra` says.
pub ghost enum ExtraModel {
    PublicFeatures,
    NoFeatures,
    Pinned(Seq<char>),
}

impl Extra {
    pub open spec fn model(&self) -> ExtraModel {
        match self {
            Extra::PublicFeatures => ExtraModel::PublicFeatures,
            Extra::NoFeatures => ExtraModel::NoFeatures,
            Extra::Pinned(csv) => ExtraModel::Pinned(csv@),
        }
    }

    fn duplicate(&self) -> (r: Extra)
        ensures
            r.model() == self.model(),
    {
        match self {
            Extra::PublicFeatures => Extra::PublicFeatures,
            Extra::NoFeatures => Extra::NoFeatures,
            Extra::Pinned(csv) => Extra::Pinned(csv.clone()),
        }
    }
}

/// Builder for a public-API snapshot run.
pub struct ApiDoc {
    pub crates: Option<Vec<String>>,
    pub overrides: Vec<(String, Extra)>,
    pub excluded: Vec<(String, Vec<String>)>,
    pub out_dir: Option<String>,
    pub workspace_dir: Option<String>,
    pub attributed: Vec<String>,
    pub skip_packaging: Vec<String>,
    pub packaging_forbid_extra: Vec<String>,
    pub base: Vec<(String, String)>,
}

/// What an `ApiDoc` holds.
#[verifier::ext_equal]
pub ghost struct ApiDocModel {
    pub crates: Option<Seq<Seq<char>>>,
    pub overrides: Seq<(Seq<char>, ExtraModel)>,
    pub excluded: Seq<(Seq<char>, Seq<Seq<char>>)>,
    pub out_dir: Option<Seq<char>>,
    pub workspace_dir: Option<Seq<char>>,
    pub attributed: Seq<Seq<char>>,
    pub skip_packaging: Seq<Seq<char>>,
    pub packaging_forbid_extra: Seq<Seq<char>>,
    pub base: Seq<(Seq<char>, Seq<char>)>,
}

pub open spec fn opt_view(o: Option<String>) -> Option<Seq<char>> {
    match o {
        Some(s) => Some(s@),
        None => None,
    }
}

impl ApiDoc {
    pub open spec fn model(&self) -> ApiDocModel {
        ApiDocModel {
            crates: match self.crates {
                Some(c) => Some(svs(c@)),
                None => None,
            },
            overrides: self.overrides@.map_values(|o: (String, Extra)| (o.0@, o.1.model())),
            excluded: self.excluded@.map_values(|e: (String, Vec<String>)| (e.0@, svs(e.1@))),
            out_dir: opt_view(self.out_dir),
            workspace_dir: opt_view(self.workspace_dir),
            attributed: svs(self.attributed@),
            skip_packaging: svs(self.skip_packaging@),
            packaging_forbid_extra: svs(self.packaging_forbid_extra@),
            base: self.base@.map_values(|b: (String, String)| (b.0@, b.1@)),
        }
    }

    /// Defaults: auto-discover publishable library members, snapshot to
    /// `<workspace>/docs/public-api/`.
    pub fn new() -> (r: ApiDoc)
        ensures
            r.model() == (ApiDocModel {
                crates: None,
                overrides: Seq::empty(),
                excluded: Seq::empty(),
                out_dir: None,
                workspace_dir: None,
                attributed: Seq::empty(),
                skip_packaging: Seq::empty(),
                packaging_forbid_extra: Seq::empty(),
                base: Seq::empty(),
            }),
    {
        let r = ApiDoc {
            crates: None,
            overrides: Vec::new(),
            excluded: Vec::new(),
            out_dir: None,
            workspace_dir: None,
            attributed: Vec::new(),
            skip_packaging: Vec::new(),
            packaging_forbid_extra: Vec::new(),
            base: Vec::new(),
        };
        assert(r.model() =~= ApiDocModel {
            crates: None,
            overrides: Seq::empty(),
            excluded: Seq::empty(),
            out_dir: None,
            workspace_dir: None,
            attributed: Seq::empty(),
            skip_packaging: Seq::empty(),
            packaging_forbid_extra: Seq::empty(),
            base: Seq::empty(),
        });
        r
    }

    /// Explicit crate list, replacing auto-discovery.
    pub fn crates(self, names: Vec<String>) -> (r: ApiDoc)
        ensures
            r.model() == (ApiDocModel { crates: Some(svs(names@)), ..self.model() }),
    {
        let mut s = self;
        s.crates = Some(names);
        assert(s.model() =~= ApiDocModel { crates: Some(svs(names@)), ..self.model() });
        s
    }

    /// No features file content for `crate_name`.
    pub fn no_extra_section(self, crate_name: &str) -> (r: ApiDoc)
        ensures
            r.model() == (ApiDocModel {
                overrides: self.model().overrides.push((crate_name@, ExtraModel::NoFeatures)),
                ..self.model()
            }),
    {
        let mut s = self;
        s.overrides.push((crate_name.to_owned(), Extra::NoFeatures));
        assert(s.model() =~= ApiDocModel {
            overrides: self.model().overrides.push((crate_name@, ExtraModel::NoFeatures)),
            ..self.model()
        });
        s
    }

    /// A pinned `--features` csv for `crate_name`'s features file.
    pub fn pinned_features(self, crate_name: &str, features_csv: &str) -> (r: ApiDoc)
        ensures
            r.model() == (ApiDocModel {
                overrides: self.model().overrides.push(
                    (crate_name@, ExtraModel::Pinned(features_csv@)),
                ),
                ..self.model()
            }),
    {
        let mut s = self;
        s.overrides.push((crate_name.to_owned(), Extra::Pinned(features_csv.to_owned())));
        assert(s.model() =~= ApiDocModel {
            overrides: self.model().overrides.push(
                (crate_name@, ExtraModel::Pinned(features_csv@)),
            ),
            ..self.model()
        });
        s
    }

    /// The named features of `crate_name` are excluded: documented in the
    /// internal file instead of the supported ones.
    pub fn exclude_features(self, crate_name: &str, features: Vec<String>) -> (r: ApiDoc)
        ensures
            r.model() == (ApiDocModel {
                excluded: self.model().excluded.push((crate_name@, svs(features@))),
                ..self.model()
            }),
    {
        let mut s = self;
        s.excluded.push((crate_name.to_owned(), features));
        assert(s.model() =~= ApiDocModel {
            excluded: self.model().excluded.push((crate_name@, svs(features@))),
            ..self.model()
        });
        s
    }

    /// Output directory relative to the workspace root.
    pub fn out_dir(self, rel: &str) -> (r: ApiDoc)
        ensures
            r.model() == (ApiDocModel { out_dir: Some(rel@), ..self.model() }),
    {
        let mut s = self;
        s.out_dir = Some(rel.to_owned());
        assert(s.model() =~= ApiDocModel { out_dir: Some(rel@), ..self.model() });
        s
    }

    /// Target workspace directory, relative to the working directory.
    pub fn workspace_dir(self, dir: &str) -> (r: ApiDoc)
        ensures
            r.model() == (ApiDocModel { workspace_dir: Some(dir@), ..self.model() }),
    {
        let mut s = self;
        s.workspace_dir = Some(dir.to_owned());
        assert(s.model() =~= ApiDocModel { workspace_dir: Some(dir@), ..self.model() });
        s
    }

    /// Attribute `crate_name`'s features file per feature.
    pub fn attribute_features(self, crate_name: &str) -> (r: ApiDoc)
        ensures
            r.model() == (ApiDocModel {
                attributed: self.model().attributed.push(crate_name@),
                ..self.model()
            }),
    {
        let mut s = self;
        s.attributed.push(crate_name.to_owned());
        assert(s.model() =~= ApiDocModel {
            attributed: self.model().attributed.push(crate_name@),
            ..self.model()
        });
        s
    }

    /// Baseline `--features` csv for `crate_name`'s supported-surface build.
    pub fn base_features(self, crate_name: &str, features_csv: &str) -> (r: ApiDoc)
        ensures
            r.model() == (ApiDocModel {
                base: self.model().base.push((crate_name@, features_csv@)),
                ..self.model()
            }),
    {
        let mut s = self;
        s.base.push((crate_name.to_owned(), features_csv.to_owned()));
        assert(s.model() =~= ApiDocModel {
            base: self.model().base.push((crate_name@, features_csv@)),
            ..self.model()
        });
        s
    }

    /// Skip the packaging-invariant check for `crate_name`.
    pub fn skip_packaging_check(self, crate_name: &str) -> (r: ApiDoc)
        ensures
            r.model() == (ApiDocModel {
                skip_packaging: self.model().skip_packaging.push(crate_name@),
                ..self.model()
            }),
    {
        let mut s = self;
        s.skip_packaging.push(crate_name.to_owned());
        assert(s.model() =~= ApiDocModel {
            skip_packaging: self.model().skip_packaging.push(crate_name@),
            ..self.model()
        });
        s
    }

    /// Additional substrings to forbid in `cargo package --list` output.
    pub fn forbid_in_package(self, patterns: Vec<String>) -> (r: ApiDoc)
        ensures
            r.model() == (ApiDocModel {
                packaging_forbid_extra: self.model().packaging_forbid_extra + svs(patterns@),
                ..self.model()
            }),
    {
        let mut s = self;
        let mut p = patterns;
        let ghost before = s.packaging_forbid_extra@;
        let ghost added = p@;
        s.packaging_forbid_extra.append(&mut p);
        assert(svs(s.packaging_forbid_extra@) =~= svs(before) + svs(added));
        assert(s.model() =~= ApiDocModel {
            packaging_forbid_extra: self.model().packaging_forbid_extra + svs(added),
            ..self.model()
        });
        s
    }
}


// ---------------------------------------------------------------------------
// Per-crate settings
/// `s` split at each `c` (`str::split` with a character).
pub open spec fn split_on(s: Seq<char>, c: char) -> Seq<Seq<char>>
    decreases s.len(),
{
    let i = find(s, seq![c]);
    proof {
        lemma_find_from_range(s, seq![c], 0);
    }
    if i < 0 {
        seq![s]
    } else {
        seq![s.subrange(0, i)] + split_on(s.subrange(i + 1, s.len() as int), c)
    }
}

/// The pieces of `s` between the `c`s.
pub fn split_at_char(s: &Vec<char>, c: char) -> (r: Vec<Vec<char>>)
    ensures
        views(r@) == split_on(s@, c),
{
    let pat: Vec<char> = vec![c];
    assert(pat@ =~= seq![c]);
    let mut r: Vec<Vec<char>> = Vec::new();
    let mut start: usize = 0;
    assert(s@.subrange(0, s.len() as int) =~= s@);
    loop
        invariant
            start <= s.len(),
            pat@ == seq![c],
            views(r@) + split_on(s@.subrange(start as int, s.len() as int), c) == split_on(s@, c),
        decreases s.len() - start,
    {
        let ghost rest = s@.subrange(start as int, s.len() as int);
        proof {
            crate::text::lemma_find_from_suffix(s@, pat@, start as int, 0);
            lemma_find_from_range(s@, pat@, start as int);
        }
        match find_text(s, &pat, start) {
            None => {
                let ghost before = views(r@);
                r.push(slice(s, start, s.len()));
                assert(views(r@) =~= before + seq![rest]);
                return r;
            },
            Some(k) => {
                let ghost before = views(r@);
                r.push(slice(s, start, k));
                assert(rest.subrange(0, k - start) =~= s@.subrange(start as int, k as int));
                assert(rest.subrange(k - start + 1, rest.len() as int) =~= s@.subrange(k + 1, s.len() as int));
                assert(views(r@) + split_on(s@.subrange(k + 1, s.len() as int), c) =~= before + split_on(rest, c));
                start = k + 1;
            },
        }
    }
}

/// The first override for `name` among overrides from `from` on; the
/// public-features default when there is none.
pub open spec fn first_override(os: Seq<(Seq<char>, ExtraModel)>, name: Seq<char>, from: int) -> ExtraModel
    decreases os.len() - from,
{
    if from < 0 || from >= os.len() {
        ExtraModel::PublicFeatures
    } else if os[from].0 == name {
        os[from].1
    } else {
        first_override(os, name, from + 1)
    }
}

/// The excluded features configured for `name` among the first `n`
/// exclusions, concatenated in order.
pub open spec fn excluded_for(es: Seq<(Seq<char>, Seq<Seq<char>>)>, name: Seq<char>, n: int) -> Seq<Seq<char>>
    decreases n,
{
    if n <= 0 {
        Seq::empty()
    } else if es[n - 1].0 == name {
        excluded_for(es, name, n - 1) + es[n - 1].1
    } else {
        excluded_for(es, name, n - 1)
    }
}

/// The first baseline csv configured for `name` from `from` on.
pub open spec fn first_base(bs: Seq<(Seq<char>, Seq<char>)>, name: Seq<char>, from: int) -> Option<Seq<char>>
    decreases bs.len() - from,
{
    if from < 0 || from >= bs.len() {
        None
    } else if bs[from].0 == name {
        Some(bs[from].1)
    } else {
        first_base(bs, name, from + 1)
    }
}

fn append_strings(out: &mut Vec<String>, xs: &Vec<String>)
    ensures
        svs(final(out)@) == svs(old(out)@) + svs(xs@),
{
    let ghost start = svs(out@);
    let mut k: usize = 0;
    while k < xs.len()
        invariant
            k <= xs.len(),
            svs(out@) == start + svs(xs@).take(k as int),
        decreases xs.len() - k,
    {
        let ghost before = out@;
        let x = xs[k].clone();
        assert(x@ == xs@[k as int]@);
        out.push(x);
        assert(svs(out@) =~= svs(before).push(xs@[k as int]@));
        assert(svs(xs@).take(k + 1) =~= svs(xs@).take(k as int).push(xs@[k as int]@));
        k = k + 1;
    }
    assert(svs(xs@).take(xs.len() as int) =~= svs(xs@));
}

/// The settings of one crate in a run.
pub struct PackageConfig {
    pub extra: Extra,
    pub excluded_cfg: Vec<String>,
    pub check_packaging: bool,
    pub attribute: bool,
    pub base_feats: Vec<String>,
}

impl ApiDoc {
    /// The settings the run applies to `package`: its features-file mode
    /// (first override, else all public features), its configured excluded
    /// features (all exclusions for it, in order), whether its packaging is
    /// checked, whether its features are attributed, and its baseline
    /// features (the first baseline csv split at `,`, else none).
    pub fn package_config(&self, package: &str) -> (r: PackageConfig)
        ensures
            r.extra.model() == first_override(self.model().overrides, package@, 0),
            svs(r.excluded_cfg@) == excluded_for(self.model().excluded, package@, self.model().excluded.len() as int),
            r.check_packaging == !self.model().skip_packaging.contains(package@),
            r.attribute == self.model().attributed.contains(package@),
            svs(r.base_feats@) == match first_base(self.model().base, package@, 0) {
                Some(csv) => split_on(csv, ','),
                None => Seq::empty(),
            },
    {
        let name = text(package);
        let extra = self.override_of(&name);
        let excluded_cfg = self.excluded_of(&name);
        let check_packaging = !crate::workspace::contains_name(&self.skip_packaging, &name);
        let attribute = crate::workspace::contains_name(&self.attributed, &name);
        let base_feats = self.base_of(&name);
        PackageConfig { extra, excluded_cfg, check_packaging, attribute, base_feats }
    }

    fn override_of(&self, name: &Vec<char>) -> (r: Extra)
        ensures
            r.model() == first_override(self.model().overrides, name@, 0),
    {
        let mut i: usize = 0;
        while i < self.overrides.len()
            invariant
                i <= self.overrides.len(),
                first_override(self.model().overrides, name@, 0)
                    == first_override(self.model().overrides, name@, i as int),
            decreases self.overrides.len() - i,
        {
            let o = text(self.overrides[i].0.as_str());
            if same_text(&o, name) {
                return self.overrides[i].1.duplicate();
            }
            i = i + 1;
        }
        Extra::PublicFeatures
    }

    fn excluded_of(&self, name: &Vec<char>) -> (r: Vec<String>)
        ensures
            svs(r@) == excluded_for(self.model().excluded, name@, self.model().excluded.len() as int),
    {
        let mut out: Vec<String> = Vec::new();
        let mut j: usize = 0;
        while j < self.excluded.len()
            invariant
                j <= self.excluded.len(),
                svs(out@) == excluded_for(self.model().excluded, name@, j as int),
            decreases self.excluded.len() - j,
        {
            let e = text(self.excluded[j].0.as_str());
            if same_text(&e, name) {
                append_strings(&mut out, &self.excluded[j].1);
            }
            j = j + 1;
        }
        out
    }

    fn base_of(&self, name: &Vec<char>) -> (r: Vec<String>)
        ensures
            svs(r@) == match first_base(self.model().base, name@, 0) {
                Some(csv) => split_on(csv, ','),
                None => Seq::empty(),
            },
    {
        let mut b: usize = 0;
        while b < self.base.len()
            invariant
                b <= self.base.len(),
                first_base(self.model().base, name@, 0) == first_base(self.model().base, name@, b as int),
            decreases self.base.len() - b,
        {
            let n = text(self.base[b].0.as_str());
            if same_text(&n, name) {
                let csv = text(self.base[b].1.as_str());
                let pieces = split_at_char(&csv, ',');
                let r = to_strings(&pieces);
                assert(svs(r@) =~= views(pieces@));
                return r;
            }
            b = b + 1;
        }
        let r: Vec<String> = Vec::new();
        assert(svs(r@) =~= Seq::<Seq<char>>::empty());
        r
    }
}

// ---------------------------------------------------------------------------
// The run
/// What the `ZEN_API_DOC` setting asks for.
pub enum Mode {
    /// Skip.
    Off,
    /// Regenerate to memory and fail on a stale committed file.
    Check,
    /// Regenerate in place.
    Regen,
    /// Unset (or empty) under `GITHUB_ACTIONS`: skip, and say why.
    OffUnderCi,
    /// An unknown value: refuse.
    Unknown(String),
}

/// The mode for the value of `ZEN_API_DOC` (`None` when unset or not
/// unicode) and whether `GITHUB_ACTIONS` is set: `off`, `check`, `regen`;
/// unset means regenerate, except under `GITHUB_ACTIONS` where it means
/// skip, as does an empty value there; any other value is refused.
pub fn decide_mode(value: Option<&str>, github_actions: bool) -> (r: Mode)
    ensures
        match value {
            Some(v) => if v@.len() == 0 && github_actions {
                r is OffUnderCi
            } else if v@ == "off"@ {
                r is Off
            } else if v@ == "check"@ {
                r is Check
            } else if v@ == "regen"@ {
                r is Regen
            } else {
                r matches Mode::Unknown(u) && u@ == v@
            },
            None => if github_actions {
                r is OffUnderCi
            } else {
                r is Regen
            },
        },
{
    match value {
        Some(v) => {
            let t = text(v);
            if t.len() == 0 && github_actions {
                Mode::OffUnderCi
            } else if same_as_str(&t, "off") {
                Mode::Off
            } else if same_as_str(&t, "check") {
                Mode::Check
            } else if same_as_str(&t, "regen") {
                Mode::Regen
            } else {
                Mode::Unknown(v.to_owned())
            }
        },
        None => if github_actions {
            Mode::OffUnderCi
        } else {
            Mode::Regen
        },
    }
}

/// The toolchain for rustdoc JSON: the `ZEN_API_DOC_TOOLCHAIN` value, or the
/// tracking `nightly`.
pub fn toolchain_of(value: Option<&str>) -> (r: String)
    ensures
        match value {
            Some(v) => r@ == v@,
            None => r@ == "nightly"@,
        },
{
    match value {
        Some(v) => v.to_owned(),
        None => "nightly".to_owned(),
    }
}

impl ApiDoc {
    /// The crates to snapshot: the explicit list, else the publishable
    /// library members; `None` when that comes out empty.
    pub fn resolve_crates(&self, meta: &WorkspaceMeta) -> (r: Option<Vec<String>>)
        ensures
            match r {
                Some(list) => list@.len() > 0 && svs(list@) == match self.model().crates {
                    Some(c) => c,
                    None => discover_spec(*meta),
                },
                None => match self.model().crates {
                    Some(c) => c.len() == 0,
                    None => discover_spec(*meta).len() == 0,
                },
            },
    {
        let list = match &self.crates {
            Some(c) => c.clone(),
            None => discover_publishable_libs(meta),
        };
        proof {
            if self.crates is Some {
                assert(svs(list@) =~= svs(self.crates->0@));
            }
        }
        if list.len() == 0 {
            None
        } else {
            Some(list)
        }
    }

    /// The output directory relative to the workspace root.
    pub fn out_dir_rel(&self) -> (r: String)
        ensures
            r@ == match self.model().out_dir {
                Some(d) => d,
                None => "docs/public-api"@,
            },
    {
        match &self.out_dir {
            Some(d) => d.clone(),
            None => "docs/public-api".to_owned(),
        }
    }
}

/// What a run does with one regenerated file.
pub enum FileAction {
    /// The committed file is current.
    Unchanged,
    /// Check mode, and the committed file is missing or differs: fail.
    Stale,
    /// Regen mode, and the file is missing or differs: write it.
    Write,
}

/// What to do with a regenerated `doc` given the committed contents
/// (`None` when the file cannot be read).
pub fn file_action(check: bool, existing: Option<&str>, doc: &str) -> (r: FileAction)
    ensures
        (r is Unchanged) <==> (existing is Some && existing->0@ == doc@),
        (r is Stale) <==> (check && !(existing is Some && existing->0@ == doc@)),
        (r is Write) <==> (!check && !(existing is Some && existing->0@ == doc@)),
{
    let same = match existing {
        Some(e) => {
            let a = text(e);
            let b = text(doc);
            same_text(&a, &b)
        },
        None => false,
    };
    if same {
        FileAction::Unchanged
    } else if check {
        FileAction::Stale
    } else {
        FileAction::Write
    }
}

/// Substrings that must never appear in `cargo package --list` output for a
/// publishable crate: snapshot docs and tests, and repo-local session files.
pub open spec fn packaging_forbidden(k: int) -> Seq<char> {
    if k == 0 { "docs/public-api/"@ }
    else if k == 1 { "public_api_doc"@ }
    else if k == 2 { ".workongoing"@ }
    else if k == 3 { "CONTEXT-HANDOFF.md"@ }
    else { "FEEDBACK.md"@ }
}

/// The line holds a built-in or an extra forbidden substring.
pub open spec fn forbidden_line(line: Seq<char>, extra: Seq<Seq<char>>) -> bool {
    (exists|k: int| 0 <= k < 5 && #[trigger] contains_text(line, packaging_forbidden(k)))
        || (exists|k: int| 0 <= k < extra.len() && #[trigger] contains_text(line, extra[k]))
}

/// The forbidden lines among the first `n`.
pub open spec fn violations(lines: Seq<Seq<char>>, extra: Seq<Seq<char>>, n: int) -> Seq<Seq<char>>
    decreases n,
{
    if n <= 0 {
        Seq::empty()
    } else if forbidden_line(lines[n - 1], extra) {
        violations(lines, extra, n - 1).push(lines[n - 1])
    } else {
        violations(lines, extra, n - 1)
    }
}

fn forbidden_text(k: usize) -> (r: Vec<char>)
    requires
        k < 5,
    ensures
        r@ == packaging_forbidden(k as int),
{
    if k == 0 { text("docs/public-api/") }
    else if k == 1 { text("public_api_doc") }
    else if k == 2 { text(".workongoing") }
    else if k == 3 { text("CONTEXT-HANDOFF.md") }
    else { text("FEEDBACK.md") }
}

fn is_forbidden_line(line: &Vec<char>, extra: &Vec<String>) -> (r: bool)
    ensures
        r == forbidden_line(line@, svs(extra@)),
{
    let mut k: usize = 0;
    while k < 5
        invariant
            k <= 5,
            forall|j: int| 0 <= j < k ==> !#[trigger] contains_text(line@, packaging_forbidden(j)),
        decreases 5 - k,
    {
        let p = forbidden_text(k);
        if contains(line, &p) {
            return true;
        }
        k = k + 1;
    }
    let mut k: usize = 0;
    while k < extra.len()
        invariant
            k <= extra.len(),
            forall|j: int| 0 <= j < 5 ==> !#[trigger] contains_text(line@, packaging_forbidden(j)),
            forall|j: int| 0 <= j < k ==> !#[trigger] contains_text(line@, svs(extra@)[j]),
        decreases extra.len() - k,
    {
        let p = text(extra[k].as_str());
        if contains(line, &p) {
            assert(contains_text(line@, svs(extra@)[k as int]));
            return true;
        }
        k = k + 1;
    }
    false
}

/// The lines of a `cargo package --list` listing that would ship a
/// forbidden file: those holding a built-in forbidden substring or one of
/// `extra`.
pub fn packaging_violations(listing: &str, extra: &Vec<String>) -> (r: Vec<String>)
    ensures
        svs(r@) == violations(lines_of(listing@), svs(extra@), lines_of(listing@).len() as int),
{
    let t = text(listing);
    let lines = split_lines(&t);
    let ghost ls = views(lines@);
    let mut out: Vec<Vec<char>> = Vec::new();
    let mut i: usize = 0;
    while i < lines.len()
        invariant
            i <= lines.len(),
            ls == views(lines@),
            views(out@) == violations(ls, svs(extra@), i as int),
        decreases lines.len() - i,
    {
        if is_forbidden_line(&lines[i], extra) {
            let ghost before = views(out@);
            out.push(copy_text(&lines[i]));
            assert(views(out@) =~= before.push(ls[i as int]));
        }
        i = i + 1;
    }
    let r = to_strings(&out);
    assert(svs(r@) =~= views(out@));
    r
}

proof fn lemma_violations_keep(lines: Seq<Seq<char>>, extra: Seq<Seq<char>>, n: int, i: int)
    requires
        0 <= i < n <= lines.len(),
        forbidden_line(lines[i], extra),
    ensures
        violations(lines, extra, n).contains(lines[i]),
    decreases n,
{
    if i < n - 1 {
        lemma_violations_keep(lines, extra, n - 1, i);
        let v = violations(lines, extra, n - 1);
        let j = choose|j: int| 0 <= j < v.len() && v[j] == lines[i];
        if forbidden_line(lines[n - 1], extra) {
            assert(violations(lines, extra, n)[j] == lines[i]);
        }
    } else {
        let v = violations(lines, extra, n);
        assert(v[v.len() - 1] == lines[i]);
    }
}

/// Every listing line that holds one of the built-in forbidden names
/// (`docs/public-api/`, `public_api_doc`, `.workongoing`,
/// `CONTEXT-HANDOFF.md`, `FEEDBACK.md`) or one of the extra patterns is
/// reported as a violation, whatever else the listing holds.
pub proof fn lemma_forbidden_reported(listing: Seq<char>, extra: Seq<Seq<char>>, i: int)
    requires
        0 <= i < lines_of(listing).len(),
        contains_text(lines_of(listing)[i], "docs/public-api/"@)
            || contains_text(lines_of(listing)[i], "public_api_doc"@)
            || contains_text(lines_of(listing)[i], ".workongoing"@)
            || contains_text(lines_of(listing)[i], "CONTEXT-HANDOFF.md"@)
            || contains_text(lines_of(listing)[i], "FEEDBACK.md"@)
            || exists|k: int| 0 <= k < extra.len() && #[trigger] contains_text(lines_of(listing)[i], extra[k]),
    ensures
        violations(lines_of(listing), extra, lines_of(listing).len() as int).contains(
            lines_of(listing)[i],
        ),
{
    let l = lines_of(listing)[i];
    if contains_text(l, "docs/public-api/"@) {
        assert(contains_text(l, packaging_forbidden(0)));
    } else if contains_text(l, "public_api_doc"@) {
        assert(contains_text(l, packaging_forbidden(1)));
    } else if contains_text(l, ".workongoing"@) {
        assert(contains_text(l, packaging_forbidden(2)));
    } else if contains_text(l, "CONTEXT-HANDOFF.md"@) {
        assert(contains_text(l, packaging_forbidden(3)));
    } else if contains_text(l, "FEEDBACK.md"@) {
        assert(contains_text(l, packaging_forbidden(4)));
    }
    assert(forbidden_line(l, extra));
    lemma_violations_keep(lines_of(listing), extra, lines_of(listing).len() as int, i);
}

/// The first stderr line that mentions `error`, or `see rustdoc output`.
pub open spec fn first_error_spec(lines: Seq<Seq<char>>, from: int) -> Seq<char>
    decreases lines.len() - from,
{
    if from < 0 || from >= lines.len() {
        "see rustdoc output"@
    } else if contains_text(lines[from], "error"@) {
        lines[from]
    } else {
        first_error_spec(lines, from + 1)
    }
}

fn first_error_line(lines: &Vec<Vec<char>>, pat: &Vec<char>) -> (r: Vec<char>)
    requires
        pat@ == "error"@,
    ensures
        r@ == first_error_spec(views(lines@), 0),
{
    let ghost ls = views(lines@);
    let mut i: usize = 0;
    while i < lines.len()
        invariant
            i <= lines.len(),
            ls == views(lines@),
            pat@ == "error"@,
            first_error_spec(ls, 0) == first_error_spec(ls, i as int),
        decreases lines.len() - i,
    {
        if contains(&lines[i], pat) {
            return copy_text(&lines[i]);
        }
        i = i + 1;
    }
    text("see rustdoc output")
}

/// The message for a failed rustdoc JSON build.
pub fn build_failure_message(stderr: &str) -> (r: String)
    ensures
        r@ == "rustdoc JSON build failed: "@ + first_error_spec(lines_of(stderr@), 0),
{
    let t = text(stderr);
    let lines = split_lines(&t);
    let ghost ls = views(lines@);
    let pat = text("error");
    let found = first_error_line(&lines, &pat);
    let mut msg = text("rustdoc JSON build failed: ");
    append(&mut msg, &found);
    to_string(&msg)
}

/// The first line of `e`, or `unknown error` when it has none.
pub open spec fn first_line_or_unknown(e: Seq<char>) -> Seq<char> {
    if lines_of(e).len() > 0 { lines_of(e)[0] } else { "unknown error"@ }
}

/// The first line of `e`, or `unknown error`.
pub fn first_line(e: &Vec<char>) -> (r: Vec<char>)
    ensures
        r@ == first_line_or_unknown(e@),
{
    let lines = split_lines(e);
    if lines.len() > 0 {
        copy_text(&lines[0])
    } else {
        text("unknown error")
    }
}

/// The arguments of the `rustup` invocation that builds rustdoc JSON for one
/// package: `run <toolchain> cargo rustdoc --manifest-path <manifest>
/// --package <spec> --lib --quiet [--features <csv>] -- -Z unstable-options
/// --output-format json --cap-lints allow [--document-hidden-items]`.
pub open spec fn rustdoc_args_spec(
    toolchain: Seq<char>,
    manifest: Seq<char>,
    spec: Seq<char>,
    features: Seq<Seq<char>>,
    hidden: bool,
) -> Seq<Seq<char>> {
    seq!["run"@, toolchain, "cargo"@, "rustdoc"@, "--manifest-path"@, manifest, "--package"@, spec, "--lib"@, "--quiet"@]
        + (if features.len() > 0 { seq!["--features"@, join(features, ","@)] } else { Seq::empty() })
        + seq!["--"@, "-Z"@, "unstable-options"@, "--output-format"@, "json"@, "--cap-lints"@, "allow"@]
        + (if hidden { seq!["--document-hidden-items"@] } else { Seq::empty() })
}

fn push_str(v: &mut Vec<String>, s: &str)
    ensures
        svs(final(v)@) == svs(old(v)@).push(s@),
{
    let ghost before = v@;
    v.push(s.to_owned());
    assert(svs(v@) =~= svs(before).push(s@));
}

/// The rustdoc JSON build arguments.
pub fn rustdoc_args(toolchain: &str, manifest: &str, spec: &str, features: &Vec<String>, hidden: bool) -> (r: Vec<String>)
    ensures
        svs(r@) == rustdoc_args_spec(toolchain@, manifest@, spec@, svs(features@), hidden),
{
    let mut v: Vec<String> = Vec::new();
    push_str(&mut v, "run");
    push_str(&mut v, toolchain);
    push_str(&mut v, "cargo");
    push_str(&mut v, "rustdoc");
    push_str(&mut v, "--manifest-path");
    push_str(&mut v, manifest);
    push_str(&mut v, "--package");
    push_str(&mut v, spec);
    push_str(&mut v, "--lib");
    push_str(&mut v, "--quiet");
    let ghost first = svs(v@);
    if features.len() > 0 {
        push_str(&mut v, "--features");
        let fs = texts_of(features);
        assert(views(fs@) =~= svs(features@));
        let sep = text(",");
        let joined = join_texts(&fs, &sep);
        let js = to_string(&joined);
        let ghost before = v@;
        v.push(js);
        assert(svs(v@) =~= svs(before).push(joined@));
    }
    let ghost second = svs(v@);
    push_str(&mut v, "--");
    push_str(&mut v, "-Z");
    push_str(&mut v, "unstable-options");
    push_str(&mut v, "--output-format");
    push_str(&mut v, "json");
    push_str(&mut v, "--cap-lints");
    push_str(&mut v, "allow");
    if hidden {
        push_str(&mut v, "--document-hidden-items");
    }
    assert(svs(v@) =~= rustdoc_args_spec(toolchain@, manifest@, spec@, svs(features@), hidden));
    v
}
} // verus!
