//! The three files of a finished snapshot: the supported surface, the
//! additions from non-default features, and the hidden plus
//! excluded-feature surface.
use vstd::prelude::*;
use crate::apidoc::{first_line, first_line_or_unknown};
use crate::order::{dedup, sort_dedup, sorted_texts, le_rel};
use crate::render::{append_lines, extend_lines, body_spec, line_block, summary_spec, total_lines_spec};
use crate::snapshot::{
    lines_of_strings, minus, outcome_view, transform_lines, without, without_lines, Phase,
    Snapshot, SnapshotModel,
};
use crate::transform::Transformed;
use crate::workspace::svs;
use crate::syntax::{strip_crate_prefix, strip_crate_prefix_spec};
use crate::text::{append, append_decimal, append_str, copy_text, decimal, join, join_texts, text, to_string, views};
use crate::transform::{transform_spec, Model};

verus! {

// ---------------------------------------------------------------------------
// What the files hold
/// Each line with the crate prefix stripped.
pub open spec fn stripped(a: Seq<Seq<char>>, ident: Seq<char>) -> Seq<Seq<char>> {
    a.map_values(|l: Seq<char>| strip_crate_prefix_spec(l, ident))
}

/// Lines that the included features add to the supported surface.
pub open spec fn feat_added(s: SnapshotModel) -> Seq<Seq<char>> {
    without(s.included, s.base)
}

/// Supported lines that the included features remove, prefix stripped.
pub open spec fn removed_lines(s: SnapshotModel) -> Seq<Seq<char>> {
    stripped(without(s.base, s.included), s.plan.crate_ident)
}

/// Lines that the excluded features add: in the excluded build, in neither
/// the included nor the supported surface.
pub open spec fn excl_added(s: SnapshotModel) -> Seq<Seq<char>> {
    without(s.excluded, s.included + s.base)
}

/// Lines that only the hidden build shows: in none of the excluded,
/// included and supported surfaces.
pub open spec fn hidden_added(s: SnapshotModel) -> Seq<Seq<char>> {
    without(s.hidden, s.excluded + s.included + s.base)
}

/// The internal file's lines: hidden and excluded-feature additions,
/// sorted, repeats dropped.
pub open spec fn internal_lines(s: SnapshotModel) -> Seq<Seq<char>> {
    dedup(sorted_texts(hidden_added(s) + excl_added(s)))
}

/// How many internal lines are hidden rather than excluded-feature lines.
pub open spec fn hidden_count(s: SnapshotModel) -> nat {
    without(internal_lines(s), excl_added(s)).len()
}

/// The encoded supported surface.
pub open spec fn main_model(s: SnapshotModel) -> Model {
    transform_spec(s.base, s.plan.crate_ident)
}

/// The encoded feature additions.
pub open spec fn features_model(s: SnapshotModel) -> Model {
    transform_spec(feat_added(s), s.plan.crate_ident)
}

/// The encoded internal surface.
pub open spec fn internal_model(s: SnapshotModel) -> Model {
    transform_spec(internal_lines(s), s.plan.crate_ident)
}

/// The explanation shared by all three files.
pub open spec fn header_common() -> Seq<char> {
    "# (regenerated on every `cargo test` by zenutils-apidoc; ZEN_API_DOC=check verifies, =off skips).\n# Encodings: crate-name prefix stripped; auto traits collapse to a\n# count + exceptions; trait impls collapse to one roster line per\n# type (method signatures live at the trait definition); blanket\n# impls omitted; re-export duplicates annotated `[also: path]`.\n# DO NOT EDIT BY HAND — commit regenerated changes with the code.\n"@
}

/// The label, or `alt` when it is empty.
pub open spec fn or_else(label: Seq<char>, alt: Seq<char>) -> Seq<char> {
    if label.len() == 0 { alt } else { label }
}

/// The overview line of the supported-surface file: each file's line count.
pub open spec fn overview_of(
    p: Seq<char>,
    label: Seq<char>,
    main_lines: nat,
    feature_lines: nat,
    internal_lines: nat,
    hidden: nat,
    excluded: nat,
) -> Seq<char> {
    "#\n# files: "@ + p + ".txt "@ + decimal(main_lines) + " lines (supported surface) | "@ + p
        + ".features.txt "@ + decimal(feature_lines) + " added (features: "@ + or_else(label, "none"@)
        + ") | "@ + p + ".internal.txt "@ + decimal(internal_lines) + " lines ("@ + decimal(hidden)
        + " hidden + "@ + decimal(excluded) + " excluded-feature)\n"@
}

/// The overview line of a snapshot.
pub open spec fn overview(s: SnapshotModel) -> Seq<char> {
    overview_of(
        s.plan.package,
        s.plan.feature_label,
        total_lines_spec(main_model(s)),
        total_lines_spec(features_model(s)),
        total_lines_spec(internal_model(s)),
        hidden_count(s),
        excl_added(s).len(),
    )
}

/// The first line of the supported-surface file.
pub open spec fn main_header(p: Seq<char>, base: Seq<Seq<char>>) -> Seq<char> {
    if base.len() == 0 {
        "# "@ + p + " public API — supported surface (default features)\n"@
    } else {
        "# "@ + p + " public API — supported surface (default features + "@ + join(base, ","@) + ")\n"@
    }
}

/// The supported-surface file.
pub open spec fn main_doc(s: SnapshotModel) -> Seq<char> {
    main_header(s.plan.package, s.plan.base) + header_common() + overview(s) + "\n"@
        + summary_spec(main_model(s)) + body_spec(main_model(s))
}

/// The section of removed lines, when there are any.
pub open spec fn removed_section(r: Seq<Seq<char>>) -> Seq<char> {
    if r.len() > 0 {
        "\n## removed by features ("@ + decimal(r.len()) + " lines)\n\n"@ + line_block(r)
    } else {
        Seq::empty()
    }
}

/// What one feature alone adds to the supported surface, prefix stripped.
pub open spec fn feature_delta(lines: Seq<Seq<char>>, s: SnapshotModel) -> Seq<Seq<char>> {
    stripped(without(lines, s.base), s.plan.crate_ident)
}

/// The section of one feature built alone.
pub open spec fn feature_section(feat: Seq<char>, o: Result<Seq<Seq<char>>, Seq<char>>, s: SnapshotModel) -> Seq<char> {
    match o {
        Ok(lines) => "\n## added by feature: "@ + feat + " ("@ + decimal(feature_delta(lines, s).len())
            + " lines)\n\n"@ + line_block(feature_delta(lines, s)),
        Err(e) => "\nNOTE: feature "@ + feat + " not buildable alone: "@ + first_line_or_unknown(e) + "\n"@,
    }
}

/// The sections of the first `n` single-feature builds.
pub open spec fn feature_sections(s: SnapshotModel, n: int) -> Seq<char>
    decreases n,
{
    if n <= 0 {
        Seq::empty()
    } else {
        feature_sections(s, n - 1) + feature_section(s.plan.included[n - 1], s.attribution[n - 1], s)
    }
}

/// The lines the first `n` single-feature builds account for.
pub open spec fn attributed(s: SnapshotModel, n: int) -> Seq<Seq<char>>
    decreases n,
{
    if n <= 0 {
        Seq::empty()
    } else {
        attributed(s, n - 1) + match s.attribution[n - 1] {
            Ok(lines) => feature_delta(lines, s),
            Err(_) => Seq::empty(),
        }
    }
}

/// Feature additions that no single feature accounts for.
pub open spec fn interactions(s: SnapshotModel) -> Seq<Seq<char>> {
    without(stripped(feat_added(s), s.plan.crate_ident), attributed(s, s.attribution.len() as int))
}

/// The section of lines that need several features together.
pub open spec fn interactions_section(i: Seq<Seq<char>>) -> Seq<char> {
    if i.len() > 0 {
        "\n## feature interactions (lines requiring several features) ("@ + decimal(i.len())
            + " lines)\n\n"@ + line_block(i)
    } else {
        Seq::empty()
    }
}

/// The per-feature attribution, when it is asked for and there are several
/// features.
pub open spec fn attribution_part(s: SnapshotModel) -> Seq<char> {
    if s.plan.attribute && s.plan.included.len() > 1 {
        feature_sections(s, s.attribution.len() as int) + interactions_section(interactions(s))
    } else {
        Seq::empty()
    }
}

/// The first lines of the features file.
pub open spec fn features_header(p: Seq<char>, label: Seq<char>) -> Seq<char> {
    "# "@ + p + " public API — additions from non-default features\n# features: "@
        + or_else(label, "(none)"@) + "\n"@
}

/// The features file.
pub open spec fn features_doc(s: SnapshotModel) -> Seq<char> {
    features_header(s.plan.package, s.plan.feature_label) + header_common() + "\n"@ + if total_lines_spec(
        features_model(s),
    ) == 0 && removed_lines(s).len() == 0 {
        "(no additional public surface)\n"@
    } else {
        summary_spec(features_model(s)) + body_spec(features_model(s)) + removed_section(
            removed_lines(s),
        ) + attribution_part(s)
    }
}

/// `NOTE: ` lines for the first `n` notes.
pub open spec fn notes_block(notes: Seq<Seq<char>>, n: int) -> Seq<char>
    decreases n,
{
    if n <= 0 {
        Seq::empty()
    } else {
        notes_block(notes, n - 1) + "NOTE: "@ + notes[n - 1] + "\n"@
    }
}

/// The first lines of the internal file.
pub open spec fn internal_header(p: Seq<char>, excluded: Seq<Seq<char>>) -> Seq<char> {
    "# "@ + p + " public API — doc(hidden) items and excluded-feature surface\n# excluded features: "@
        + or_else(join(excluded, ","@), "(none)"@) + "\n"@
}

/// The internal file.
pub open spec fn internal_doc(s: SnapshotModel) -> Seq<char> {
    internal_header(s.plan.package, s.plan.excluded) + header_common() + "\n"@ + notes_block(
        s.notes,
        s.notes.len() as int,
    ) + if total_lines_spec(internal_model(s)) == 0 {
        "(no hidden or excluded-feature surface)\n"@
    } else {
        summary_spec(internal_model(s)) + body_spec(internal_model(s))
    }
}

/// The line counts fit the machine's counters with room for the encoding.
pub open spec fn limits_ok(s: SnapshotModel) -> bool {
    3 * (s.base.len() + s.included.len() + s.excluded.len() + s.hidden.len()) + 1 <= usize::MAX
}

// ---------------------------------------------------------------------------
// Size facts
pub proof fn lemma_minus_len(a: Seq<Seq<char>>, b: Seq<Seq<char>>, n: int)
    requires
        0 <= n <= a.len(),
    ensures
        minus(a, b, n).len() <= n,
    decreases n,
{
    if n > 0 {
        lemma_minus_len(a, b, n - 1);
    }
}

pub proof fn lemma_dedup_len(s: Seq<Seq<char>>)
    ensures
        dedup(s).len() <= s.len(),
    decreases s.len(),
{
    if s.len() > 1 {
        lemma_dedup_len(s.drop_last());
    }
}

pub proof fn lemma_sorted_len(s: Seq<Seq<char>>)
    ensures
        sorted_texts(s).len() == s.len(),
{
    crate::order::lemma_le_total();
    s.lemma_sort_by_ensures(le_rel());
    broadcast use vstd::seq_lib::group_to_multiset_ensures;
    s.to_multiset_ensures();
    sorted_texts(s).to_multiset_ensures();
}

pub proof fn lemma_minus_contains(a: Seq<Seq<char>>, b: Seq<Seq<char>>, n: int, l: Seq<char>)
    requires
        0 <= n <= a.len(),
        minus(a, b, n).contains(l),
    ensures
        a.contains(l),
        !b.contains(l),
    decreases n,
{
    if n > 0 {
        let prev = minus(a, b, n - 1);
        if prev.contains(l) {
            lemma_minus_contains(a, b, n - 1, l);
        } else {
            assert(!b.contains(a[n - 1]));
            let j = choose|j: int| 0 <= j < minus(a, b, n).len() && minus(a, b, n)[j] == l;
            assert(j == prev.len());
            assert(a[n - 1] == l);
        }
    }
}

pub proof fn lemma_dedup_contains(s: Seq<Seq<char>>, l: Seq<char>)
    requires
        dedup(s).contains(l),
    ensures
        s.contains(l),
    decreases s.len(),
{
    if s.len() > 1 {
        let d = dedup(s.drop_last());
        if d.contains(l) {
            lemma_dedup_contains(s.drop_last(), l);
            let j = choose|j: int| 0 <= j < s.drop_last().len() && s.drop_last()[j] == l;
            assert(s[j] == l);
        } else {
            assert(s.last() != s[s.len() - 2]);
            let j = choose|j: int| 0 <= j < dedup(s).len() && dedup(s)[j] == l;
            assert(j == d.len());
            assert(s[s.len() - 1] == l);
        }
    }
}

pub proof fn lemma_sorted_contains(s: Seq<Seq<char>>, l: Seq<char>)
    requires
        sorted_texts(s).contains(l),
    ensures
        s.contains(l),
{
    crate::order::lemma_le_total();
    s.lemma_sort_by_ensures(le_rel());
    broadcast use vstd::seq_lib::group_to_multiset_ensures;
    s.to_multiset_ensures();
    sorted_texts(s).to_multiset_ensures();
}

proof fn lemma_concat_contains(a: Seq<Seq<char>>, b: Seq<Seq<char>>, l: Seq<char>)
    ensures
        (a + b).contains(l) <==> (a.contains(l) || b.contains(l)),
{
    if a.contains(l) {
        let j = choose|j: int| 0 <= j < a.len() && a[j] == l;
        assert((a + b)[j] == l);
    }
    if b.contains(l) {
        let j = choose|j: int| 0 <= j < b.len() && b[j] == l;
        assert((a + b)[a.len() + j] == l);
    }
    if (a + b).contains(l) {
        let j = choose|j: int| 0 <= j < (a + b).len() && (a + b)[j] == l;
        if j < a.len() {
            assert(a[j] == l);
        } else {
            assert(b[j - a.len()] == l);
        }
    }
}

/// No raw API line lands in two files: the feature additions never repeat
/// a supported line, and the internal lines repeat neither a supported line
/// nor a feature addition.
pub proof fn lemma_files_disjoint(s: SnapshotModel)
    ensures
        forall|l: Seq<char>| feat_added(s).contains(l) ==> !s.base.contains(l),
        forall|l: Seq<char>| #[trigger] internal_lines(s).contains(l) ==> !s.base.contains(l)
            && !feat_added(s).contains(l),
{
    assert forall|l: Seq<char>| feat_added(s).contains(l) implies !s.base.contains(l) by {
        lemma_minus_contains(s.included, s.base, s.included.len() as int, l);
    }
    assert forall|l: Seq<char>| #[trigger] internal_lines(s).contains(l) implies !s.base.contains(l)
        && !feat_added(s).contains(l) by {
        let both = hidden_added(s) + excl_added(s);
        lemma_dedup_contains(sorted_texts(both), l);
        lemma_sorted_contains(both, l);
        lemma_concat_contains(hidden_added(s), excl_added(s), l);
        if hidden_added(s).contains(l) {
            lemma_minus_contains(s.hidden, s.excluded + s.included + s.base, s.hidden.len() as int, l);
            lemma_concat_contains(s.excluded + s.included, s.base, l);
            lemma_concat_contains(s.excluded, s.included, l);
        } else {
            lemma_minus_contains(s.excluded, s.included + s.base, s.excluded.len() as int, l);
            lemma_concat_contains(s.included, s.base, l);
        }
        assert(!s.base.contains(l) && !s.included.contains(l));
        if feat_added(s).contains(l) {
            lemma_minus_contains(s.included, s.base, s.included.len() as int, l);
        }
    }
}

// ---------------------------------------------------------------------------
// Rendering
/// The rendered files of a snapshot and the counts reported for them.
pub struct SnapshotFiles {
    /// `<crate>.txt`: the supported surface.
    pub main: String,
    /// `<crate>.features.txt`: additions from non-default features.
    pub features: String,
    /// `<crate>.internal.txt`: hidden and excluded-feature surface.
    pub internal: String,
    /// Rendered lines of the supported surface.
    pub main_lines: usize,
    /// Rendered lines of the feature additions.
    pub feature_lines: usize,
    /// Rendered lines of the internal surface.
    pub internal_lines: usize,
    /// Internal lines that only the hidden build shows.
    pub hidden_lines: usize,
    /// Lines that the excluded features add.
    pub excluded_lines: usize,
}

fn header_common_text() -> (r: Vec<char>)
    ensures
        r@ == header_common(),
{
    text("# (regenerated on every `cargo test` by zenutils-apidoc; ZEN_API_DOC=check verifies, =off skips).\n# Encodings: crate-name prefix stripped; auto traits collapse to a\n# count + exceptions; trait impls collapse to one roster line per\n# type (method signatures live at the trait definition); blanket\n# impls omitted; re-export duplicates annotated `[also: path]`.\n# DO NOT EDIT BY HAND — commit regenerated changes with the code.\n")
}

fn append_or_else(out: &mut Vec<char>, label: &Vec<char>, alt: &str)
    ensures
        final(out)@ == old(out)@ + or_else(label@, alt@),
{
    if label.len() == 0 {
        append_str(out, alt);
    } else {
        append(out, label);
    }
}

/// Each line with the crate prefix stripped.
pub fn strip_lines(v: &Vec<Vec<char>>, ident: &Vec<char>) -> (r: Vec<Vec<char>>)
    ensures
        views(r@) == stripped(views(v@), ident@),
{
    let mut r: Vec<Vec<char>> = Vec::new();
    let mut i: usize = 0;
    while i < v.len()
        invariant
            i <= v.len(),
            views(r@) == stripped(views(v@), ident@).take(i as int),
        decreases v.len() - i,
    {
        let ghost before = views(r@);
        let x = strip_crate_prefix(&v[i], ident);
        r.push(x);
        assert(views(r@) =~= before.push(strip_crate_prefix_spec(v@[i as int]@, ident@)));
        assert(stripped(views(v@), ident@)[i as int] == strip_crate_prefix_spec(v@[i as int]@, ident@));
        assert(views(r@) =~= stripped(views(v@), ident@).take(i + 1));
        i = i + 1;
    }
    assert(stripped(views(v@), ident@).take(v.len() as int) =~= stripped(views(v@), ident@));
    r
}

fn copy_lines(xs: &Vec<Vec<char>>) -> (r: Vec<Vec<char>>)
    ensures
        views(r@) == views(xs@),
{
    let mut r: Vec<Vec<char>> = Vec::new();
    extend_lines(&mut r, xs);
    assert(views(Seq::<Vec<char>>::empty()) + views(xs@) =~= views(xs@));
    r
}

/// The text of the overview line.
pub fn overview_text(
    p: &Vec<char>,
    label: &Vec<char>,
    main_lines: usize,
    feature_lines: usize,
    internal_lines: usize,
    hidden: usize,
    excluded: usize,
) -> (r: Vec<char>)
    ensures
        r@ == overview_of(
            p@,
            label@,
            main_lines as nat,
            feature_lines as nat,
            internal_lines as nat,
            hidden as nat,
            excluded as nat,
        ),
{
    let mut t = text("#\n# files: ");
    append(&mut t, p);
    append_str(&mut t, ".txt ");
    append_decimal(&mut t, main_lines);
    append_str(&mut t, " lines (supported surface) | ");
    append(&mut t, p);
    append_str(&mut t, ".features.txt ");
    append_decimal(&mut t, feature_lines);
    append_str(&mut t, " added (features: ");
    append_or_else(&mut t, label, "none");
    append_str(&mut t, ") | ");
    append(&mut t, p);
    append_str(&mut t, ".internal.txt ");
    append_decimal(&mut t, internal_lines);
    append_str(&mut t, " lines (");
    append_decimal(&mut t, hidden);
    append_str(&mut t, " hidden + ");
    append_decimal(&mut t, excluded);
    append_str(&mut t, " excluded-feature)\n");
    t
}

/// The text of a `,`-joined list.
fn comma_list(v: &Vec<String>) -> (r: Vec<char>)
    ensures
        r@ == join(crate::workspace::svs(v@), ","@),
{
    let parts = lines_of_strings(v);
    let sep = text(",");
    join_texts(&parts, &sep)
}

/// The internal file's lines and the excluded-feature additions.
fn internal_parts(
    base: &Vec<Vec<char>>,
    inc: &Vec<Vec<char>>,
    exc: &Vec<Vec<char>>,
    hid: &Vec<Vec<char>>,
) -> (r: (Vec<Vec<char>>, Vec<Vec<char>>))
    ensures
        views(r.0@) == dedup(sorted_texts(
            without(views(hid@), views(exc@) + views(inc@) + views(base@))
                + without(views(exc@), views(inc@) + views(base@)),
        )),
        views(r.1@) == without(views(exc@), views(inc@) + views(base@)),
        r.0.len() <= hid.len() + exc.len(),
        r.1.len() <= exc.len(),
{
    let mut inc_base = copy_lines(inc);
    extend_lines(&mut inc_base, base);
    let ea = without_lines(exc, &inc_base);
    let mut seen = copy_lines(exc);
    extend_lines(&mut seen, &inc_base);
    assert(views(seen@) =~= views(exc@) + views(inc@) + views(base@));
    let mut all = without_lines(hid, &seen);
    extend_lines(&mut all, &ea);
    let ghost both = views(all@);
    proof {
        lemma_minus_len(views(hid@), views(seen@), hid.len() as int);
        lemma_minus_len(views(exc@), views(inc_base@), exc.len() as int);
        lemma_sorted_len(both);
        lemma_dedup_len(sorted_texts(both));
    }
    let il = sort_dedup(all);
    (il, ea)
}

impl Snapshot {
    /// The per-feature sections and the interactions section.
    fn attribution_text(&self, base: &Vec<Vec<char>>, ident: &Vec<char>, fa: &Vec<Vec<char>>) -> (r: Vec<char>)
        requires
            self.wf(),
            views(base@) == self.model().base,
            ident@ == self.model().plan.crate_ident,
            views(fa@) == feat_added(self.model()),
        ensures
            r@ == feature_sections(self.model(), self.attribution.len() as int) + interactions_section(
                interactions(self.model()),
            ),
    {
        let ghost s = self.model();
        let mut out: Vec<char> = Vec::new();
        let mut union: Vec<Vec<char>> = Vec::new();
        let mut k: usize = 0;
        while k < self.attribution.len()
            invariant
                self.wf(),
                s == self.model(),
                views(base@) == s.base,
                ident@ == s.plan.crate_ident,
                k <= self.attribution.len(),
                out@ == feature_sections(s, k as int),
                views(union@) == attributed(s, k as int),
            decreases self.attribution.len() - k,
        {
            let feat = text(self.plan.included_feats[k].as_str());
            assert(feat@ == s.plan.included[k as int]);
            assert(s.attribution[k as int] == outcome_view(self.attribution@[k as int]));
            let ghost before = out@;
            let ghost ubefore = views(union@);
            match &self.attribution[k] {
                Ok(lines) => {
                    let ls = lines_of_strings(lines);
                    let d0 = without_lines(&ls, base);
                    let delta = strip_lines(&d0, ident);
                    append_str(&mut out, "\n## added by feature: ");
                    append(&mut out, &feat);
                    append_str(&mut out, " (");
                    append_decimal(&mut out, delta.len());
                    append_str(&mut out, " lines)\n\n");
                    append_lines(&mut out, &delta);
                    extend_lines(&mut union, &delta);
                    assert(out@ =~= before + feature_section(s.plan.included[k as int], s.attribution[k as int], s));
                    assert(views(union@) =~= ubefore + feature_delta(svs(lines@), s));
                },
                Err(e) => {
                    append_str(&mut out, "\nNOTE: feature ");
                    append(&mut out, &feat);
                    append_str(&mut out, " not buildable alone: ");
                    let et = text(e.as_str());
                    let fl = first_line(&et);
                    append(&mut out, &fl);
                    append_str(&mut out, "\n");
                    assert(out@ =~= before + feature_section(s.plan.included[k as int], s.attribution[k as int], s));
                    assert(views(union@) =~= ubefore + Seq::<Seq<char>>::empty());
                },
            }
            k = k + 1;
        }
        let sfa = strip_lines(fa, ident);
        let inter = without_lines(&sfa, &union);
        let ghost mid = out@;
        if inter.len() > 0 {
            append_str(&mut out, "\n## feature interactions (lines requiring several features) (");
            append_decimal(&mut out, inter.len());
            append_str(&mut out, " lines)\n\n");
            append_lines(&mut out, &inter);
            assert(out@ =~= mid + interactions_section(interactions(s)));
        } else {
            assert(out@ =~= mid + interactions_section(interactions(s)));
        }
        out
    }

    fn main_doc_text(&self, main: &Transformed, ov: &Vec<char>) -> (r: Vec<char>)
        requires
            main.fits(),
            main.model() == main_model(self.model()),
            ov@ == overview(self.model()),
        ensures
            r@ == main_doc(self.model()),
    {
        let ghost s = self.model();
        let p = text(self.plan.package.as_str());
        let mut t = text("# ");
        append(&mut t, &p);
        if self.plan.base_feats.len() == 0 {
            append_str(&mut t, " public API — supported surface (default features)\n");
        } else {
            append_str(&mut t, " public API — supported surface (default features + ");
            let j = comma_list(&self.plan.base_feats);
            append(&mut t, &j);
            append_str(&mut t, ")\n");
        }
        assert(t@ =~= main_header(s.plan.package, s.plan.base));
        let h = header_common_text();
        append(&mut t, &h);
        append(&mut t, ov);
        append_str(&mut t, "\n");
        let sm = main.render_summary_text();
        append(&mut t, &sm);
        let bd = main.render_body_text();
        append(&mut t, &bd);
        t
    }

    #[verifier::spinoff_prover]
    #[verifier::rlimit(40)]
    fn features_doc_text(
        &self,
        features: &Transformed,
        removed: &Vec<Vec<char>>,
        base: &Vec<Vec<char>>,
        ident: &Vec<char>,
        fa: &Vec<Vec<char>>,
    ) -> (r: Vec<char>)
        requires
            self.wf(),
            features.fits(),
            features.model() == features_model(self.model()),
            views(removed@) == removed_lines(self.model()),
            views(base@) == self.model().base,
            ident@ == self.model().plan.crate_ident,
            views(fa@) == feat_added(self.model()),
        ensures
            r@ == features_doc(self.model()),
    {
        let ghost s = self.model();
        let p = text(self.plan.package.as_str());
        let label = text(self.plan.feature_label.as_str());
        let mut t = text("# ");
        append(&mut t, &p);
        append_str(&mut t, " public API — additions from non-default features\n# features: ");
        append_or_else(&mut t, &label, "(none)");
        append_str(&mut t, "\n");
        assert(t@ =~= features_header(s.plan.package, s.plan.feature_label));
        let h = header_common_text();
        append(&mut t, &h);
        append_str(&mut t, "\n");
        let ghost head = t@;
        if features.total_lines() == 0 && removed.len() == 0 {
            append_str(&mut t, "(no additional public surface)\n");
        } else {
            let sm = features.render_summary_text();
            append(&mut t, &sm);
            let bd = features.render_body_text();
            append(&mut t, &bd);
            let ghost mid = t@;
            if removed.len() > 0 {
                append_str(&mut t, "\n## removed by features (");
                append_decimal(&mut t, removed.len());
                append_str(&mut t, " lines)\n\n");
                append_lines(&mut t, removed);
            }
            assert(t@ =~= mid + removed_section(removed_lines(s)));
            let ghost mid2 = t@;
            if self.plan.attribute && self.plan.included_feats.len() > 1 {
                let a = self.attribution_text(base, ident, fa);
                append(&mut t, &a);
            }
            assert(t@ =~= mid2 + attribution_part(s));
        }
        assert(t@ =~= features_doc(s));
        t
    }

    fn internal_doc_text(&self, internal: &Transformed) -> (r: Vec<char>)
        requires
            internal.fits(),
            internal.model() == internal_model(self.model()),
        ensures
            r@ == internal_doc(self.model()),
    {
        let ghost s = self.model();
        let p = text(self.plan.package.as_str());
        let ex = comma_list(&self.plan.excluded_feats);
        let mut t = text("# ");
        append(&mut t, &p);
        append_str(&mut t, " public API — doc(hidden) items and excluded-feature surface\n# excluded features: ");
        append_or_else(&mut t, &ex, "(none)");
        append_str(&mut t, "\n");
        assert(t@ =~= internal_header(s.plan.package, s.plan.excluded));
        let h = header_common_text();
        append(&mut t, &h);
        append_str(&mut t, "\n");
        let ghost head = t@;
        let mut i: usize = 0;
        while i < self.notes.len()
            invariant
                s == self.model(),
                i <= self.notes.len(),
                t@ == head + notes_block(s.notes, i as int),
            decreases self.notes.len() - i,
        {
            let ghost before = t@;
            append_str(&mut t, "NOTE: ");
            let n = text(self.notes[i].as_str());
            append(&mut t, &n);
            append_str(&mut t, "\n");
            assert(t@ =~= head + notes_block(s.notes, i + 1));
            i = i + 1;
        }
        let ghost mid = t@;
        if internal.total_lines() == 0 {
            append_str(&mut t, "(no hidden or excluded-feature surface)\n");
        } else {
            let sm = internal.render_summary_text();
            append(&mut t, &sm);
            let bd = internal.render_body_text();
            append(&mut t, &bd);
        }
        assert(t@ =~= internal_doc(s));
        t
    }

    /// The three files of a finished snapshot, with the line counts a run
    /// reports for them.
    pub fn render(&self) -> (r: SnapshotFiles)
        requires
            self.wf(),
            self.phase == Phase::Done,
            limits_ok(self.model()),
        ensures
            r.main@ == main_doc(self.model()),
            r.features@ == features_doc(self.model()),
            r.internal@ == internal_doc(self.model()),
            r.main_lines == total_lines_spec(main_model(self.model())),
            r.feature_lines == total_lines_spec(features_model(self.model())),
            r.internal_lines == total_lines_spec(internal_model(self.model())),
            r.hidden_lines == hidden_count(self.model()),
            r.excluded_lines == excl_added(self.model()).len(),
    {
        let ghost s = self.model();
        let ident = text(self.plan.crate_ident.as_str());
        let base = lines_of_strings(&self.base_lines);
        let inc = lines_of_strings(&self.included_lines);
        let exc = lines_of_strings(&self.excluded_lines);
        let hid = lines_of_strings(&self.hidden_lines);
        let fa = without_lines(&inc, &base);
        let fr = without_lines(&base, &inc);
        let removed = strip_lines(&fr, &ident);
        let (il, ea) = internal_parts(&base, &inc, &exc, &hid);
        let hc = without_lines(&il, &ea).len();
        let main = transform_lines(&base, &self.plan.crate_ident);
        let features = transform_lines(&fa, &self.plan.crate_ident);
        let internal = transform_lines(&il, &self.plan.crate_ident);
        proof {
            lemma_minus_len(s.included, s.base, s.included.len() as int);
            main.lemma_sizes_fit(3 * base.len());
            features.lemma_sizes_fit(3 * fa.len());
            internal.lemma_sizes_fit(3 * il.len());
        }
        let mt = main.total_lines();
        let ft = features.total_lines();
        let it = internal.total_lines();
        let p = text(self.plan.package.as_str());
        let label = text(self.plan.feature_label.as_str());
        let ov = overview_text(&p, &label, mt, ft, it, hc, ea.len());
        let a = self.main_doc_text(&main, &ov);
        let b = self.features_doc_text(&features, &removed, &base, &ident, &fa);
        let c = self.internal_doc_text(&internal);
        SnapshotFiles {
            main: to_string(&a),
            features: to_string(&b),
            internal: to_string(&c),
            main_lines: mt,
            feature_lines: ft,
            internal_lines: it,
            hidden_lines: hc,
            excluded_lines: ea.len(),
        }
    }
}

} // verus!
