//! The transformation of raw public-API lines into the encoded sections of a
//! snapshot: item lines (re-export duplicates collapsed), one trait roster per
//! type, conditional impls verbatim, auto traits per type, and the taxonomy.
use vstd::prelude::*;
use crate::classify::{classify, line_class, line_module, tally_of, LineClass, Tally};
use crate::order::{
    dedup, find_slot, lemma_set_add, present, set_add, set_insert, slot, sort_dedup, sorted_texts,
    strictly_sorted,
};
use crate::syntax::{
    auto_trait_index, auto_trait_short, dropped_marker, impl_body_spec, impl_body_text,
    impl_shape, is_dropped_marker, lead_end, leading_path, leading_path_spec, sat_dec, segs_from,
    lemma_lead_end_bound, lemma_segments_nonempty, parent_path, parent_path_spec, parse_impl_body,
    path_segments, segments, simplify_trait_path_spec, simplify_trait_path_text, strip_attrs,
    strip_attrs_spec, strip_crate_prefix, strip_crate_prefix_spec, ImplKind, ImplShape,
};
use crate::text::{
    append, append_str, copy_text, find, find_text, has_prefix, is_uppercase, join, join_texts,
    lemma_find_from_range, occurs, same_text, slice, starts_with_str, text, unicode_uppercase, utf8_len, utf8_length, views,
};

verus! {

/// Which auto traits one type implements (by index into the six names),
/// which it explicitly does not, and its conditional auto impls.
pub struct AutoInfo {
    pub present: Vec<bool>,
    pub negative: Vec<bool>,
    pub conditional: Vec<Vec<char>>,
}

/// The contents of an `AutoInfo`.
#[verifier::ext_equal]
pub ghost struct AutoModel {
    pub present: Seq<bool>,
    pub negative: Seq<bool>,
    pub conditional: Seq<Seq<char>>,
}

impl AutoInfo {
    pub open spec fn model(&self) -> AutoModel {
        AutoModel {
            present: self.present@,
            negative: self.negative@,
            conditional: views(self.conditional@),
        }
    }
}

/// No auto trait seen yet.
pub open spec fn auto_default() -> AutoModel {
    AutoModel {
        present: Seq::new(6, |i: int| false),
        negative: Seq::new(6, |i: int| false),
        conditional: Seq::empty(),
    }
}

/// One auto-trait impl line recorded for its type.
pub open spec fn auto_update(
    a: AutoModel,
    k: int,
    line: Seq<char>,
    has_where: bool,
    negative: bool,
) -> AutoModel {
    if has_where {
        AutoModel { present: a.present, negative: a.negative, conditional: a.conditional.push(line) }
    } else if negative {
        AutoModel { present: a.present, negative: a.negative.update(k, true), conditional: a.conditional }
    } else {
        AutoModel { present: a.present.update(k, true), negative: a.negative, conditional: a.conditional }
    }
}

/// The type implements all six auto traits, with no negative and no
/// conditional impl.
pub open spec fn auto_complete(a: AutoModel) -> bool {
    &&& a.negative == Seq::new(6, |i: int| false)
    &&& a.conditional.len() == 0
    &&& forall|k: int| 0 <= k < 6 ==> #[trigger] a.present[k]
}

/// The impl body split at its first ` where `, and whether there was one.
pub open spec fn split_where(rest: Seq<char>) -> (Seq<char>, bool) {
    let w = find(rest, " where "@);
    if w >= 0 {
        (rest.subrange(0, w), true)
    } else {
        (rest, false)
    }
}

/// A `pub fn` / `pub const` / `pub type` line whose path lies under `ctx`:
/// a member of the trait impl just read, whose signature the trait fixes.
pub open spec fn trait_member(l: Seq<char>, ctx: Seq<char>) -> bool {
    if !has_prefix(l, "pub "@) {
        false
    } else {
        let body = l.subrange("pub "@.len() as int, l.len() as int);
        let sig = if has_prefix(body, "fn "@) {
            Some(body.subrange("fn "@.len() as int, body.len() as int))
        } else if has_prefix(body, "const "@) {
            Some(body.subrange("const "@.len() as int, body.len() as int))
        } else if has_prefix(body, "type "@) {
            Some(body.subrange("type "@.len() as int, body.len() as int))
        } else {
            None
        };
        match sig {
            Some(s) => has_prefix(leading_path_spec(s), ctx + seq![':', ':']),
            None => false,
        }
    }
}

/// The state of one pass over the lines.
#[verifier::ext_equal]
pub ghost struct Pass {
    pub kept: Seq<Seq<char>>,
    pub classes: Seq<LineClass>,
    pub roster_types: Seq<Seq<char>>,
    pub roster_traits: Seq<Seq<Seq<char>>>,
    pub conditional_impls: Seq<Seq<char>>,
    pub auto_types: Seq<Seq<char>>,
    pub auto_infos: Seq<AutoModel>,
    pub module_names: Seq<Seq<char>>,
    pub module_counts: Seq<nat>,
    pub ctx: Option<Seq<char>>,
}

pub open spec fn pass_init() -> Pass {
    Pass {
        kept: Seq::empty(),
        classes: Seq::empty(),
        roster_types: Seq::empty(),
        roster_traits: Seq::empty(),
        conditional_impls: Seq::empty(),
        auto_types: Seq::empty(),
        auto_infos: Seq::empty(),
        module_names: Seq::empty(),
        module_counts: Seq::empty(),
        ctx: None,
    }
}

/// A trait recorded in the roster of `ty`.
pub open spec fn roster_put(st: Pass, ty: Seq<char>, tr: Seq<char>) -> Pass {
    let p = slot(st.roster_types, ty) as int;
    if present(st.roster_types, ty) {
        Pass { roster_traits: st.roster_traits.update(p, set_add(st.roster_traits[p], tr)), ..st }
    } else {
        Pass {
            roster_types: st.roster_types.insert(p, ty),
            roster_traits: st.roster_traits.insert(p, set_add(Seq::empty(), tr)),
            ..st
        }
    }
}

/// An auto-trait impl recorded for `ty`.
pub open spec fn auto_put(
    st: Pass,
    ty: Seq<char>,
    k: int,
    line: Seq<char>,
    has_where: bool,
    negative: bool,
) -> Pass {
    let p = slot(st.auto_types, ty) as int;
    if present(st.auto_types, ty) {
        Pass {
            auto_infos: st.auto_infos.update(
                p,
                auto_update(st.auto_infos[p], k, line, has_where, negative),
            ),
            ..st
        }
    } else {
        Pass {
            auto_types: st.auto_types.insert(p, ty),
            auto_infos: st.auto_infos.insert(
                p,
                auto_update(auto_default(), k, line, has_where, negative),
            ),
            ..st
        }
    }
}

/// One more line counted for module `m`.
pub open spec fn module_put(st: Pass, m: Seq<char>) -> Pass {
    let p = slot(st.module_names, m) as int;
    if present(st.module_names, m) {
        Pass { module_counts: st.module_counts.update(p, st.module_counts[p] + 1), ..st }
    } else {
        Pass {
            module_names: st.module_names.insert(p, m),
            module_counts: st.module_counts.insert(p, 1),
            ..st
        }
    }
}

/// One (crate-prefix-stripped) line processed.
pub open spec fn step(st: Pass, line: Seq<char>) -> Pass {
    let l = strip_attrs_spec(line);
    match impl_body_spec(l) {
        Some(rest) => {
            let (body, has_where) = split_where(rest);
            match impl_shape(body) {
                ImplShape::Inherent => Pass { ctx: None, ..st },
                ImplShape::Trait { trait_path, for_type, negative } => {
                    let st1 = Pass { ctx: Some(for_type), ..st };
                    if dropped_marker(trait_path) {
                        st1
                    } else if auto_trait_index(trait_path) is Some {
                        auto_put(
                            st1,
                            for_type,
                            auto_trait_index(trait_path)->0,
                            line,
                            has_where,
                            negative,
                        )
                    } else if has_where || negative {
                        Pass { conditional_impls: st1.conditional_impls.push(line), ..st1 }
                    } else {
                        roster_put(st1, for_type, simplify_trait_path_spec(trait_path))
                    }
                },
            }
        },
        None => {
            if st.ctx is Some && trait_member(l, st.ctx->0) {
                st
            } else {
                let st1 = Pass {
                    ctx: None,
                    classes: st.classes.push(line_class(l)),
                    kept: st.kept.push(line),
                    ..st
                };
                match line_module(l) {
                    Some(m) => module_put(st1, m),
                    None => st1,
                }
            }
        },
    }
}

/// The pass over the first `n` lines.
pub open spec fn run_pass(lines: Seq<Seq<char>>, ident: Seq<char>, n: int) -> Pass
    decreases n,
{
    if n <= 0 {
        pass_init()
    } else {
        step(run_pass(lines, ident, n - 1), strip_crate_prefix_spec(lines[n - 1], ident))
    }
}

// ---------------------------------------------------------------------------
// Re-export duplicates
/// For a top-level `pub fn|struct|enum|trait|type|const|static` line: its
/// dedupe key (kind, last path segment, signature tail) and its path.
pub open spec fn dedupe_entry(line: Seq<char>) -> Option<(Seq<char>, Seq<char>)> {
    let l = strip_attrs_spec(line);
    if !has_prefix(l, "pub "@) {
        None
    } else {
        let body = l.subrange("pub "@.len() as int, l.len() as int);
        let sp = find(body, seq![' ']);
        if sp < 0 {
            None
        } else {
            let kind = body.subrange(0, sp);
            let rest = body.subrange(sp + 1, body.len() as int);
            if !(kind == "fn"@ || kind == "struct"@ || kind == "enum"@ || kind == "trait"@ || kind
                == "type"@ || kind == "const"@ || kind == "static"@) {
                None
            } else {
                let path = leading_path_spec(rest);
                let segs = segments(path);
                if segs.len() >= 2 && segs[segs.len() - 2].len() > 0 && unicode_uppercase(
                    segs[segs.len() - 2][0],
                ) {
                    None
                } else {
                    let tail = rest.subrange(path.len() as int, rest.len() as int);
                    Some((kind + seq![' '] + segs.last() + tail, path))
                }
            }
        }
    }
}

/// The dedupe key of an entry.
pub open spec fn entry_key(e: Option<(Seq<char>, Seq<char>)>) -> Seq<char> {
    match e {
        Some((k, _)) => k,
        None => Seq::empty(),
    }
}

/// The path of an entry.
pub open spec fn entry_path(e: Option<(Seq<char>, Seq<char>)>) -> Seq<char> {
    match e {
        Some((_, p)) => p,
        None => Seq::empty(),
    }
}

/// Entry `e` has dedupe key `key`.
pub open spec fn has_key(e: Option<(Seq<char>, Seq<char>)>, key: Seq<char>) -> bool {
    e is Some && entry_key(e) == key
}

/// How many of the first `n` entries have key `key`.
pub open spec fn group_count(ents: Seq<Option<(Seq<char>, Seq<char>)>>, key: Seq<char>, n: int) -> nat
    decreases n,
{
    if n <= 0 {
        0
    } else {
        group_count(ents, key, n - 1) + if has_key(ents[n - 1], key) { 1nat } else { 0nat }
    }
}

/// Among the first `n` entries with key `key`, the one with the shortest
/// path (in bytes), the earliest on a tie; -1 if there is none.
pub open spec fn canon(ents: Seq<Option<(Seq<char>, Seq<char>)>>, key: Seq<char>, n: int) -> int
    decreases n,
{
    if n <= 0 {
        -1
    } else {
        let c = canon(ents, key, n - 1);
        if has_key(ents[n - 1], key) && (c < 0 || utf8_len(entry_path(ents[n - 1])) < utf8_len(
            entry_path(ents[c]),
        )) {
            n - 1
        } else {
            c
        }
    }
}

/// Parent paths of the first `n` entries with key `key`, other than `c`.
pub open spec fn others(
    ents: Seq<Option<(Seq<char>, Seq<char>)>>,
    key: Seq<char>,
    c: int,
    n: int,
) -> Seq<Seq<char>>
    decreases n,
{
    if n <= 0 {
        Seq::empty()
    } else {
        let o = others(ents, key, c, n - 1);
        if has_key(ents[n - 1], key) && n - 1 != c {
            o.push(parent_path_spec(entry_path(ents[n - 1])))
        } else {
            o
        }
    }
}

/// What becomes of line `i`: kept as is, dropped as a duplicate, or kept
/// with an `[also: ...]` annotation listing the duplicates' parents.
pub open spec fn dedupe_line(lines: Seq<Seq<char>>, i: int) -> Option<Seq<char>> {
    let ents = lines.map_values(|l: Seq<char>| dedupe_entry(l));
    match ents[i] {
        None => Some(lines[i]),
        Some((key, _)) => {
            let n = lines.len() as int;
            if group_count(ents, key, n) < 2 {
                Some(lines[i])
            } else {
                let c = canon(ents, key, n);
                if i != c {
                    None
                } else {
                    Some(
                        lines[i] + " [also: "@ + join(
                            dedup(sorted_texts(others(ents, key, c, n))),
                            ", "@,
                        ) + "]"@,
                    )
                }
            }
        },
    }
}

/// The `Some` values, in order.
pub open spec fn somes(s: Seq<Option<Seq<char>>>) -> Seq<Seq<char>>
    decreases s.len(),
{
    if s.len() == 0 {
        Seq::empty()
    } else {
        match s.last() {
            Some(x) => somes(s.drop_last()).push(x),
            None => somes(s.drop_last()),
        }
    }
}

/// The lines with re-export duplicates collapsed: among identical top-level
/// items reachable at several paths only the shortest path stays, annotated
/// with the others' parent paths.
pub open spec fn dedupe_spec(lines: Seq<Seq<char>>) -> Seq<Seq<char>> {
    somes(Seq::new(lines.len(), |i: int| dedupe_line(lines, i)))
}

// ---------------------------------------------------------------------------
// The model of a whole transformation
/// Everything a transformation produces.
#[verifier::ext_equal]
pub ghost struct Model {
    pub items: Seq<Seq<char>>,
    pub roster_types: Seq<Seq<char>>,
    pub roster_traits: Seq<Seq<Seq<char>>>,
    pub conditional_impls: Seq<Seq<char>>,
    pub auto_types: Seq<Seq<char>>,
    pub auto_infos: Seq<AutoModel>,
    pub tally: Tally,
    pub module_names: Seq<Seq<char>>,
    pub module_counts: Seq<nat>,
}

/// The transformation of `lines` for the crate named `ident`.
pub open spec fn transform_spec(lines: Seq<Seq<char>>, ident: Seq<char>) -> Model {
    let st = run_pass(lines, ident, lines.len() as int);
    Model {
        items: dedupe_spec(st.kept),
        roster_types: st.roster_types,
        roster_traits: st.roster_traits,
        conditional_impls: st.conditional_impls,
        auto_types: st.auto_types,
        auto_infos: st.auto_infos,
        tally: tally_of(st.classes),
        module_names: st.module_names,
        module_counts: st.module_counts,
    }
}

/// The encoded sections of one disjoint line set.
pub struct Transformed {
    pub items: Vec<Vec<char>>,
    pub roster_types: Vec<Vec<char>>,
    pub roster_traits: Vec<Vec<Vec<char>>>,
    pub conditional_impls: Vec<Vec<char>>,
    pub auto_types: Vec<Vec<char>>,
    pub auto_infos: Vec<AutoInfo>,
    pub tally: Tally,
    pub module_names: Vec<Vec<char>>,
    pub module_counts: Vec<usize>,
}

pub open spec fn set_views(v: Seq<Vec<Vec<char>>>) -> Seq<Seq<Seq<char>>> {
    v.map_values(|t: Vec<Vec<char>>| views(t@))
}

pub open spec fn auto_models(v: Seq<AutoInfo>) -> Seq<AutoModel> {
    v.map_values(|a: AutoInfo| a.model())
}

pub open spec fn nat_counts(v: Seq<usize>) -> Seq<nat> {
    v.map_values(|c: usize| c as nat)
}

impl Transformed {
    /// The output sizes add up to at most `bound`, parallel vectors have
    /// equal lengths, and each auto-trait record covers the six traits.
    pub open spec fn sizes_within(&self, bound: int) -> bool {
        let m = self.model();
        &&& m.items.len() + m.roster_types.len() + m.conditional_impls.len() + 2 * m.auto_types.len()
            + roster_entries(m.roster_traits, m.roster_types.len() as int) + cond_total(m.auto_infos)
            <= bound
        &&& self.roster_types.len() == self.roster_traits.len()
        &&& self.auto_types.len() == self.auto_infos.len()
        &&& self.module_names.len() == self.module_counts.len()
        &&& forall|j: int| 0 <= j < self.auto_infos.len() ==> {
            &&& (#[trigger] self.auto_infos[j]).present@.len() == 6
            &&& self.auto_infos[j].negative@.len() == 6
        }
    }

    pub open spec fn model(&self) -> Model {
        Model {
            items: views(self.items@),
            roster_types: views(self.roster_types@),
            roster_traits: set_views(self.roster_traits@),
            conditional_impls: views(self.conditional_impls@),
            auto_types: views(self.auto_types@),
            auto_infos: auto_models(self.auto_infos@),
            tally: self.tally,
            module_names: views(self.module_names@),
            module_counts: nat_counts(self.module_counts@),
        }
    }
}

/// The conditional auto impls of each type.
pub open spec fn conditionals(infos: Seq<AutoModel>) -> Seq<Seq<Seq<char>>> {
    infos.map_values(|a: AutoModel| a.conditional)
}

/// How many conditional auto impls are recorded over all types.
pub open spec fn cond_total(infos: Seq<AutoModel>) -> nat {
    roster_entries(conditionals(infos), infos.len() as int)
}

/// Total number of (type, trait) roster entries among the first `n` types.
pub open spec fn roster_entries(traits: Seq<Seq<Seq<char>>>, n: int) -> nat
    decreases n,
{
    if n <= 0 {
        0
    } else {
        roster_entries(traits, n - 1) + traits[n - 1].len()
    }
}

pub proof fn lemma_roster_entries_mono(traits: Seq<Seq<Seq<char>>>, a: int, b: int)
    requires
        0 <= a <= b,
    ensures
        roster_entries(traits, a) <= roster_entries(traits, b),
    decreases b,
{
    if a < b {
        lemma_roster_entries_mono(traits, a, b - 1);
    }
}


pub proof fn lemma_entries_update(t: Seq<Seq<Seq<char>>>, p: int, x: Seq<Seq<char>>, n: int)
    requires
        0 <= p < t.len(),
        0 <= n <= t.len(),
    ensures
        roster_entries(t.update(p, x), n) == roster_entries(t, n) + (if p < n {
            x.len() - t[p].len()
        } else {
            0
        }),
    decreases n,
{
    if n > 0 {
        lemma_entries_update(t, p, x, n - 1);
    }
}

pub proof fn lemma_entries_insert(t: Seq<Seq<Seq<char>>>, p: int, x: Seq<Seq<char>>, m: int)
    requires
        0 <= p <= t.len(),
        0 <= m <= t.len() + 1,
    ensures
        roster_entries(t.insert(p, x), m) == if m <= p {
            roster_entries(t, m)
        } else {
            roster_entries(t, m - 1) + x.len()
        },
    decreases m,
{
    if m > 0 {
        lemma_entries_insert(t, p, x, m - 1);
    }
}

pub proof fn lemma_set_add_len(s: Seq<Seq<char>>, k: Seq<char>)
    ensures
        set_add(s, k).len() <= s.len() + 1,
        s.len() <= set_add(s, k).len(),
{
    crate::order::lemma_slot(s, k);
}

pub proof fn lemma_somes_len(s: Seq<Option<Seq<char>>>)
    ensures
        somes(s).len() <= s.len(),
    decreases s.len(),
{
    if s.len() > 0 {
        lemma_somes_len(s.drop_last());
    }
}

/// The size of a pass's output: each line adds at most three.
pub open spec fn weight(p: Pass) -> nat {
    p.kept.len() + p.roster_types.len() + p.conditional_impls.len() + 2 * p.auto_types.len()
        + roster_entries(p.roster_traits, p.roster_traits.len() as int) + cond_total(p.auto_infos)
}

/// The state of the pass while it runs.
struct Work {
    kept: Vec<Vec<char>>,
    classes: Ghost<Seq<LineClass>>,
    tally: Tally,
    roster_types: Vec<Vec<char>>,
    roster_traits: Vec<Vec<Vec<char>>>,
    conditional_impls: Vec<Vec<char>>,
    auto_types: Vec<Vec<char>>,
    auto_infos: Vec<AutoInfo>,
    module_names: Vec<Vec<char>>,
    module_counts: Vec<usize>,
    ctx: Option<Vec<char>>,
}

impl Work {
    spec fn pass(&self) -> Pass {
        Pass {
            kept: views(self.kept@),
            classes: self.classes@,
            roster_types: views(self.roster_types@),
            roster_traits: set_views(self.roster_traits@),
            conditional_impls: views(self.conditional_impls@),
            auto_types: views(self.auto_types@),
            auto_infos: auto_models(self.auto_infos@),
            module_names: views(self.module_names@),
            module_counts: nat_counts(self.module_counts@),
            ctx: match self.ctx {
                Some(c) => Some(c@),
                None => None,
            },
        }
    }

    spec fn wf(&self) -> bool {
        &&& self.tally == tally_of(self.classes@)
        &&& self.classes@.len() <= usize::MAX
        &&& self.roster_types.len() == self.roster_traits.len()
        &&& self.auto_types.len() == self.auto_infos.len()
        &&& self.module_names.len() == self.module_counts.len()
        &&& forall|j: int| 0 <= j < self.auto_infos.len() ==> {
            &&& (#[trigger] self.auto_infos[j]).present.len() == 6
            &&& self.auto_infos[j].negative.len() == 6
        }
        &&& forall|j: int| 0 <= j < self.module_counts.len() ==> #[trigger] self.module_counts[j]
            <= self.classes@.len()
    }

    /// A trait recorded in the roster of `ty`.
    fn put_roster(&mut self, ty: Vec<char>, tr: Vec<char>)
        requires
            old(self).wf(),
        ensures
            final(self).wf(),
            final(self).pass() == roster_put(old(self).pass(), ty@, tr@),
            weight(final(self).pass()) <= weight(old(self).pass()) + 2,
            final(self).classes == old(self).classes,
    {
        let ghost st = self.pass();
        let (p, found) = find_slot(&self.roster_types, &ty);
        proof {
            crate::order::lemma_slot(views(self.roster_types@), ty@);
        }
        if found {
            let mut set = self.roster_traits.remove(p);
            let ghost before = self.roster_traits@;
            proof {
                lemma_set_add_len(views(set@), tr@);
                lemma_entries_update(st.roster_traits, p as int, set_add(st.roster_traits[p as int], tr@), st.roster_traits.len() as int);
            }
            set_insert(&mut set, tr);
            self.roster_traits.insert(p, set);
            assert(set_views(self.roster_traits@) =~= st.roster_traits.update(
                p as int,
                set_add(st.roster_traits[p as int], tr@),
            ));
        } else {
            let mut set: Vec<Vec<char>> = Vec::new();
            set_insert(&mut set, tr);
            assert(views(Seq::<Vec<char>>::empty()) =~= Seq::<Seq<char>>::empty());
            proof {
                lemma_set_add_len(Seq::empty(), tr@);
                lemma_entries_insert(st.roster_traits, p as int, set_add(Seq::empty(), tr@), st.roster_traits.len() + 1int);
            }
            let ghost old_types = self.roster_types@;
            let ghost old_traits = self.roster_traits@;
            self.roster_types.insert(p, ty);
            self.roster_traits.insert(p, set);
            assert(views(self.roster_types@) =~= views(old_types).insert(p as int, ty@));
            assert(set_views(self.roster_traits@) =~= set_views(old_traits).insert(
                p as int,
                set_add(Seq::empty(), tr@),
            ));
        }
        assert(self.pass() =~= roster_put(st, ty@, tr@));
    }

    /// An auto-trait impl recorded for `ty`.
    fn put_auto(
        &mut self,
        ty: Vec<char>,
        k: usize,
        line: Vec<char>,
        has_where: bool,
        negative: bool,
    )
        requires
            old(self).wf(),
            k < 6,
        ensures
            final(self).wf(),
            final(self).pass() == auto_put(old(self).pass(), ty@, k as int, line@, has_where, negative),
            weight(final(self).pass()) <= weight(old(self).pass()) + 3,
            final(self).classes == old(self).classes,
    {
        let ghost st = self.pass();
        let (p, found) = find_slot(&self.auto_types, &ty);
        proof {
            crate::order::lemma_slot(views(self.auto_types@), ty@);
        }
        let mut info = if found {
            self.auto_infos.remove(p)
        } else {
            AutoInfo { present: vec![false, false, false, false, false, false], negative: vec![false, false, false, false, false, false], conditional: Vec::new() }
        };
        let ghost base = info.model();
        proof {
            if found {
                assert(base == st.auto_infos[p as int]);
            } else {
                assert(base =~= auto_default());
            }
        }
        if has_where {
            info.conditional.push(line);
        } else if negative {
            info.negative.set(k, true);
        } else {
            info.present.set(k, true);
        }
        assert(info.model() =~= auto_update(base, k as int, line@, has_where, negative));
        let ghost newc = info.model().conditional;
        assert(newc.len() <= base.conditional.len() + 1);
        if found {
            self.auto_infos.insert(p, info);
            assert(auto_models(self.auto_infos@) =~= st.auto_infos.update(
                p as int,
                auto_update(base, k as int, line@, has_where, negative),
            ));
            proof {
                assert(conditionals(auto_models(self.auto_infos@)) =~= conditionals(st.auto_infos).update(p as int, newc));
                lemma_entries_update(conditionals(st.auto_infos), p as int, newc, st.auto_infos.len() as int);
            }
        } else {
            let ghost old_types = self.auto_types@;
            let ghost old_infos = self.auto_infos@;
            self.auto_types.insert(p, ty);
            self.auto_infos.insert(p, info);
            assert(views(self.auto_types@) =~= views(old_types).insert(p as int, ty@));
            assert(auto_models(self.auto_infos@) =~= auto_models(old_infos).insert(
                p as int,
                auto_update(auto_default(), k as int, line@, has_where, negative),
            ));
            proof {
                assert(conditionals(auto_models(self.auto_infos@)) =~= conditionals(st.auto_infos).insert(p as int, newc));
                lemma_entries_insert(conditionals(st.auto_infos), p as int, newc, st.auto_infos.len() + 1int);
            }
        }
        assert(self.pass() =~= auto_put(st, ty@, k as int, line@, has_where, negative));
    }

    /// One more line counted for module `m`.
    fn put_module(&mut self, m: Vec<char>)
        requires
            old(self).wf(),
            old(self).classes@.len() >= 1,
            forall|j: int| 0 <= j < old(self).module_counts.len() ==> #[trigger] old(self).module_counts[j]
                < old(self).classes@.len(),
        ensures
            final(self).wf(),
            final(self).classes == old(self).classes,
            final(self).pass() == module_put(old(self).pass(), m@),
            weight(final(self).pass()) == weight(old(self).pass()),
    {
        let ghost st = self.pass();
        let (p, found) = find_slot(&self.module_names, &m);
        proof {
            crate::order::lemma_slot(views(self.module_names@), m@);
        }
        if found {
            let c = self.module_counts[p];
            let ghost old_counts = self.module_counts@;
            self.module_counts.set(p, c + 1);
            assert(nat_counts(self.module_counts@) =~= st.module_counts.update(
                p as int,
                st.module_counts[p as int] + 1,
            ));
        } else {
            let ghost old_names = self.module_names@;
            let ghost old_counts = self.module_counts@;
            self.module_names.insert(p, m);
            self.module_counts.insert(p, 1);
            assert(views(self.module_names@) =~= views(old_names).insert(p as int, m@));
            assert(nat_counts(self.module_counts@) =~= nat_counts(old_counts).insert(p as int, 1));
        }
        assert(self.pass() =~= module_put(st, m@));
    }
}


/// Whether the attribute-stripped line is a `fn`/`const`/`type` member under
/// `ctx`.
fn is_trait_member(l: &Vec<char>, ctx: &Vec<char>) -> (r: bool)
    ensures
        r == trait_member(l@, ctx@),
{
    if !starts_with_str(l, "pub ") {
        return false;
    }
    let pk = text("pub ");
    let body = slice(l, pk.len(), l.len());
    let sig = if starts_with_str(&body, "fn ") {
        let k = text("fn ");
        slice(&body, k.len(), body.len())
    } else if starts_with_str(&body, "const ") {
        let k = text("const ");
        slice(&body, k.len(), body.len())
    } else if starts_with_str(&body, "type ") {
        let k = text("type ");
        slice(&body, k.len(), body.len())
    } else {
        return false;
    };
    let path = leading_path(&sig);
    let mut pat = copy_text(ctx);
    pat.push(':');
    pat.push(':');
    assert(pat@ =~= ctx@ + seq![':', ':']);
    occurs(&path, 0, &pat)
}

impl Work {
    fn new() -> (w: Work)
        ensures
            w.wf(),
            w.pass() == pass_init(),
            w.classes@.len() == 0,
    {
        let w = Work {
            kept: Vec::new(),
            classes: Ghost(Seq::empty()),
            tally: Tally::new(),
            roster_types: Vec::new(),
            roster_traits: Vec::new(),
            conditional_impls: Vec::new(),
            auto_types: Vec::new(),
            auto_infos: Vec::new(),
            module_names: Vec::new(),
            module_counts: Vec::new(),
            ctx: None,
        };
        assert(w.pass() =~= pass_init());
        w
    }

    /// One (crate-prefix-stripped) line processed.
    fn step(&mut self, line: Vec<char>)
        requires
            old(self).wf(),
            old(self).classes@.len() < usize::MAX,
        ensures
            final(self).wf(),
            final(self).pass() == step(old(self).pass(), line@),
            final(self).classes@.len() <= old(self).classes@.len() + 1,
            weight(final(self).pass()) <= weight(old(self).pass()) + 3,
    {
        let ghost st = self.pass();
        let l = strip_attrs(&line);
        match impl_body_text(&l) {
            Some(rest) => {
                let wh = text(" where ");
                proof {
                    lemma_find_from_range(rest@, wh@, 0);
                }
                let (body, has_where) = match find_text(&rest, &wh, 0) {
                    Some(w) => (slice(&rest, 0, w), true),
                    None => (copy_text(&rest), false),
                };
                assert((body@, has_where) == split_where(rest@));
                match parse_impl_body(&body) {
                    ImplKind::Inherent => {
                        self.ctx = None;
                        assert(self.pass() =~= step(st, line@));
                    },
                    ImplKind::Trait { trait_path, for_type, negative } => {
                        self.ctx = Some(copy_text(&for_type));
                        let ghost st1 = self.pass();
                        assert(st1 =~= Pass { ctx: Some(for_type@), ..st });
                        if is_dropped_marker(&trait_path) {
                        } else {
                            match auto_trait_short(&trait_path) {
                                Some(k) => {
                                    self.put_auto(for_type, k, line, has_where, negative);
                                },
                                None => {
                                    if has_where || negative {
                                        self.conditional_impls.push(line);
                                        assert(self.pass() =~= Pass {
                                            conditional_impls: st1.conditional_impls.push(line@),
                                            ..st1
                                        });
                                    } else {
                                        let tr = simplify_trait_path_text(&trait_path);
                                        self.put_roster(for_type, tr);
                                    }
                                },
                            }
                        }
                    },
                }
            },
            None => {
                let member = match &self.ctx {
                    Some(ctx) => is_trait_member(&l, ctx),
                    None => false,
                };
                if member {
                    return;
                }
                self.ctx = None;
                let (class, module) = classify(&l);
                let ghost cs = self.classes@;
                self.tally.bump(class, Ghost(cs));
                self.classes = Ghost(cs.push(class));
                let ghost before_kept = self.kept@;
                self.kept.push(line);
                assert(views(self.kept@) =~= views(before_kept).push(line@));
                let ghost st1 = self.pass();
                assert(st1 =~= Pass {
                    ctx: None,
                    classes: st.classes.push(line_class(l@)),
                    kept: st.kept.push(line@),
                    ..st
                });
                match module {
                    Some(m) => {
                        self.put_module(m);
                    },
                    None => {},
                }
            },
        }
    }
}

/// The views of a sequence of strings.
pub open spec fn string_views(v: Seq<String>) -> Seq<Seq<char>> {
    v.map_values(|s: String| s@)
}

/// The full transformation pipeline for one disjoint line set.
pub fn transform(lines: &Vec<String>, crate_ident: &str) -> (t: Transformed)
    ensures
        t.model() == transform_spec(string_views(lines@), crate_ident@),
        t.sizes_within(3 * lines.len()),
{
    let ident = text(crate_ident);
    let ghost ls = string_views(lines@);
    let mut w = Work::new();
    let mut i: usize = 0;
    while i < lines.len()
        invariant
            i <= lines.len(),
            ls == string_views(lines@),
            ident@ == crate_ident@,
            w.wf(),
            w.classes@.len() <= i,
            w.pass() == run_pass(ls, ident@, i as int),
            weight(w.pass()) <= 3 * i,
        decreases lines.len() - i,
    {
        let raw = text(lines[i].as_str());
        let line = strip_crate_prefix(&raw, &ident);
        w.step(line);
        i = i + 1;
    }
    let items = dedupe_reexport_paths(&w.kept);
    proof {
        lemma_somes_len(Seq::new(views(w.kept@).len(), |k: int| dedupe_line(views(w.kept@), k)));
    }
    let t = Transformed {
        items,
        roster_types: w.roster_types,
        roster_traits: w.roster_traits,
        conditional_impls: w.conditional_impls,
        auto_types: w.auto_types,
        auto_infos: w.auto_infos,
        tally: w.tally,
        module_names: w.module_names,
        module_counts: w.module_counts,
    };
    assert(t.model() =~= transform_spec(ls, crate_ident@));
    t
}

// ---------------------------------------------------------------------------
// Re-export duplicates, executable
pub open spec fn entry_views(v: Seq<Option<(Vec<char>, Vec<char>)>>) -> Seq<Option<(Seq<char>, Seq<char>)>> {
    v.map_values(|e: Option<(Vec<char>, Vec<char>)>| match e {
        Some((k, p)) => Some((k@, p@)),
        None => None,
    })
}

/// The dedupe key and path of a line, if it is a top-level item line.
fn line_entry(line: &Vec<char>) -> (r: Option<(Vec<char>, Vec<char>)>)
    ensures
        match r {
            Some((k, p)) => dedupe_entry(line@) == Some((k@, p@)),
            None => dedupe_entry(line@) is None,
        },
{
    let l = strip_attrs(line);
    if !starts_with_str(&l, "pub ") {
        return None;
    }
    let pk = text("pub ");
    let body = slice(&l, pk.len(), l.len());
    let sp_pat: Vec<char> = vec![' '];
    assert(sp_pat@ =~= seq![' ']);
    proof {
        lemma_find_from_range(body@, sp_pat@, 0);
    }
    let sp = match find_text(&body, &sp_pat, 0) {
        Some(sp) => sp,
        None => {
            return None;
        },
    };
    let kind = slice(&body, 0, sp);
    let rest = slice(&body, sp + 1, body.len());
    if !(crate::text::same_as_str(&kind, "fn") || crate::text::same_as_str(&kind, "struct")
        || crate::text::same_as_str(&kind, "enum") || crate::text::same_as_str(&kind, "trait")
        || crate::text::same_as_str(&kind, "type") || crate::text::same_as_str(&kind, "const")
        || crate::text::same_as_str(&kind, "static")) {
        return None;
    }
    let path = leading_path(&rest);
    proof {
        lemma_lead_end_bound(rest@, 0, 0);
    }
    let segs = path_segments(&path);
    proof {
        lemma_segments_nonempty(path@);
    }
    let n = segs.len();
    if n >= 2 && segs[n - 2].len() > 0 && is_uppercase(segs[n - 2][0]) {
        return None;
    }
    let tail = slice(&rest, path.len(), rest.len());
    let mut key = copy_text(&kind);
    key.push(' ');
    append(&mut key, &segs[n - 1]);
    append(&mut key, &tail);
    assert(key@ =~= kind@ + seq![' '] + views(segs@).last() + tail@);
    Some((key, path))
}

pub proof fn lemma_canon_range(ents: Seq<Option<(Seq<char>, Seq<char>)>>, key: Seq<char>, n: int)
    requires
        0 <= n,
    ensures
        canon(ents, key, n) < n,
        group_count(ents, key, n) > 0 ==> canon(ents, key, n) >= 0,
        canon(ents, key, n) >= 0 ==> has_key(ents[canon(ents, key, n)], key),
    decreases n,
{
    if n > 0 {
        lemma_canon_range(ents, key, n - 1);
    }
}

pub proof fn lemma_group_count_bound(ents: Seq<Option<(Seq<char>, Seq<char>)>>, key: Seq<char>, n: int)
    ensures
        group_count(ents, key, n) <= if n > 0 { n } else { 0 },
    decreases n,
{
    if n > 0 {
        lemma_group_count_bound(ents, key, n - 1);
    }
}

/// Identical items reachable at several paths collapsed: the shortest path
/// is kept, annotated with the alternates' parent paths.
pub fn dedupe_reexport_paths(lines: &Vec<Vec<char>>) -> (r: Vec<Vec<char>>)
    ensures
        views(r@) == dedupe_spec(views(lines@)),
{
    let ghost ls = views(lines@);
    let ghost es = ls.map_values(|l: Seq<char>| dedupe_entry(l));
    let n = lines.len();
    let mut ents: Vec<Option<(Vec<char>, Vec<char>)>> = Vec::new();
    let mut lens: Vec<u128> = Vec::new();
    let mut i: usize = 0;
    while i < n
        invariant
            n == lines.len(),
            ls == views(lines@),
            es == ls.map_values(|l: Seq<char>| dedupe_entry(l)),
            i <= n,
            ents.len() == i,
            lens.len() == i,
            forall|k: int| 0 <= k < i ==> #[trigger] entry_views(ents@)[k] == es[k],
            forall|k: int| 0 <= k < i ==> #[trigger] lens@[k] == utf8_len(entry_path(es[k])),
        decreases n - i,
    {
        let e = line_entry(&lines[i]);
        let len = match &e {
            Some((_, p)) => utf8_length(p),
            None => 0,
        };
        let ghost old_ents = ents@;
        assert(es[i as int] == dedupe_entry(lines@[i as int]@));
        ents.push(e);
        lens.push(len);
        assert forall|k: int| 0 <= k < i + 1 implies #[trigger] entry_views(ents@)[k] == es[k] by {
            if k < i {
                assert(ents@[k] == old_ents[k]);
                assert(entry_views(old_ents)[k] == es[k]);
            }
        }
        i = i + 1;
    }
    assert(entry_views(ents@) =~= es);
    let mut out: Vec<Vec<char>> = Vec::new();
    let ghost f = |k: int| dedupe_line(ls, k);
    let mut i: usize = 0;
    while i < n
        invariant
            n == lines.len(),
            ls == views(lines@),
            es == ls.map_values(|l: Seq<char>| dedupe_entry(l)),
            entry_views(ents@) == es,
            ents.len() == n,
            lens.len() == n,
            forall|k: int| 0 <= k < n ==> #[trigger] lens@[k] == utf8_len(entry_path(es[k])),
            f == (|k: int| dedupe_line(ls, k)),
            i <= n,
            views(out@) == somes(Seq::new(n as nat, f).take(i as int)),
        decreases n - i,
    {
        let ghost s = Seq::new(n as nat, f);
        assert(s.take(i + 1).drop_last() =~= s.take(i as int));
        assert(s.take(i + 1).last() == dedupe_line(ls, i as int));
        let ghost before = views(out@);
        match &ents[i] {
            None => {
                assert(es[i as int] is None);
                out.push(copy_text(&lines[i]));
                assert(views(out@) =~= before.push(ls[i as int]));
            },
            Some((key, _)) => {
                assert(es[i as int] is Some);
                let ghost kv = key@;
                let cnt = count_key(&ents, key);
                if cnt < 2 {
                    out.push(copy_text(&lines[i]));
                    assert(views(out@) =~= before.push(ls[i as int]));
                } else {
                    let c = canon_of(&ents, &lens, key);
                    if i != c {
                    } else {
                        let o = others_of(&ents, key, c);
                        let sd = sort_dedup(o);
                        let mut line = copy_text(&lines[i]);
                        crate::text::append_str(&mut line, " [also: ");
                        let sep = text(", ");
                        let joined = join_texts(&sd, &sep);
                        append(&mut line, &joined);
                        crate::text::append_str(&mut line, "]");
                        out.push(line);
                        assert(views(out@) =~= before.push(
                            ls[i as int] + " [also: "@ + join(
                                dedup(sorted_texts(others(es, kv, c as int, n as int))),
                                ", "@,
                            ) + "]"@,
                        ));
                    }
                }
            },
        }
        i = i + 1;
    }
    assert(Seq::new(n as nat, f).take(n as int) =~= Seq::new(n as nat, f));
    assert(Seq::new(n as nat, f) =~= Seq::new(ls.len(), |k: int| dedupe_line(ls, k)));
    out
}

/// How many entries have key `key`.
fn count_key(ents: &Vec<Option<(Vec<char>, Vec<char>)>>, key: &Vec<char>) -> (r: usize)
    ensures
        r == group_count(entry_views(ents@), key@, ents.len() as int),
{
    let ghost es = entry_views(ents@);
    let mut c: usize = 0;
    let mut j: usize = 0;
    while j < ents.len()
        invariant
            es == entry_views(ents@),
            j <= ents.len(),
            c == group_count(es, key@, j as int),
            c <= j,
        decreases ents.len() - j,
    {
        let hit = match &ents[j] {
            Some((k, _)) => same_text(k, key),
            None => false,
        };
        assert(hit == has_key(es[j as int], key@));
        if hit {
            c = c + 1;
        }
        j = j + 1;
    }
    c
}

/// The entry with key `key` whose path is shortest in bytes, the earliest on
/// a tie.
fn canon_of(ents: &Vec<Option<(Vec<char>, Vec<char>)>>, lens: &Vec<u128>, key: &Vec<char>) -> (r: usize)
    requires
        lens.len() == ents.len(),
        forall|k: int| 0 <= k < ents.len() ==> #[trigger] lens@[k] == utf8_len(entry_path(entry_views(ents@)[k])),
        group_count(entry_views(ents@), key@, ents.len() as int) > 0,
    ensures
        r as int == canon(entry_views(ents@), key@, ents.len() as int),
        r < ents.len(),
{
    let ghost es = entry_views(ents@);
    let mut c: Option<usize> = None;
    let mut j: usize = 0;
    proof {
        lemma_canon_range(es, key@, ents.len() as int);
    }
    while j < ents.len()
        invariant
            es == entry_views(ents@),
            j <= ents.len(),
            lens.len() == ents.len(),
            forall|k: int| 0 <= k < ents.len() ==> #[trigger] lens@[k] == utf8_len(entry_path(es[k])),
            match c {
                Some(ci) => ci as int == canon(es, key@, j as int) && ci < j,
                None => canon(es, key@, j as int) == -1,
            },
        decreases ents.len() - j,
    {
        proof {
            lemma_canon_range(es, key@, j as int);
        }
        let hit = match &ents[j] {
            Some((k, _)) => same_text(k, key),
            None => false,
        };
        assert(hit == has_key(es[j as int], key@));
        if hit {
            match c {
                None => {
                    c = Some(j);
                },
                Some(ci) => {
                    if lens[j] < lens[ci] {
                        c = Some(j);
                    }
                },
            }
        }
        j = j + 1;
    }
    match c {
        Some(ci) => ci,
        None => 0,
    }
}

/// The parent paths of the entries with key `key`, other than `c`.
fn others_of(ents: &Vec<Option<(Vec<char>, Vec<char>)>>, key: &Vec<char>, c: usize) -> (r: Vec<Vec<char>>)
    ensures
        views(r@) == others(entry_views(ents@), key@, c as int, ents.len() as int),
{
    let ghost es = entry_views(ents@);
    let mut o: Vec<Vec<char>> = Vec::new();
    let mut j: usize = 0;
    while j < ents.len()
        invariant
            es == entry_views(ents@),
            j <= ents.len(),
            views(o@) == others(es, key@, c as int, j as int),
        decreases ents.len() - j,
    {
        match &ents[j] {
            Some((k, p)) => {
                if j != c && same_text(k, key) {
                    let ghost before = views(o@);
                    o.push(parent_path(p));
                    assert(views(o@) =~= before.push(parent_path_spec(entry_path(es[j as int]))));
                }
            },
            None => {},
        }
        j = j + 1;
    }
    o
}

// ---------------------------------------------------------------------------
// Order of the encoded sections
/// Keys in strict order (so each type, trait and module appears once) and
/// parallel sequences of equal length.
pub open spec fn pass_wf(st: Pass) -> bool {
    &&& strictly_sorted(st.roster_types)
    &&& st.roster_traits.len() == st.roster_types.len()
    &&& forall|i: int| 0 <= i < st.roster_traits.len() ==> strictly_sorted(#[trigger] st.roster_traits[i])
    &&& strictly_sorted(st.auto_types)
    &&& st.auto_infos.len() == st.auto_types.len()
    &&& strictly_sorted(st.module_names)
    &&& st.module_counts.len() == st.module_names.len()
}

proof fn lemma_roster_put_wf(st: Pass, ty: Seq<char>, tr: Seq<char>)
    requires
        pass_wf(st),
    ensures
        pass_wf(roster_put(st, ty, tr)),
{
    lemma_set_add(st.roster_types, ty);
    crate::order::lemma_slot(st.roster_types, ty);
    let p = slot(st.roster_types, ty) as int;
    let r = roster_put(st, ty, tr);
    if present(st.roster_types, ty) {
        lemma_set_add(st.roster_traits[p], tr);
        assert forall|i: int| 0 <= i < r.roster_traits.len() implies strictly_sorted(#[trigger] r.roster_traits[i]) by {
            if i != p {
                assert(r.roster_traits[i] == st.roster_traits[i]);
            }
        }
    } else {
        lemma_set_add(Seq::<Seq<char>>::empty(), tr);
        assert(r.roster_types == set_add(st.roster_types, ty));
        assert forall|i: int| 0 <= i < r.roster_traits.len() implies strictly_sorted(#[trigger] r.roster_traits[i]) by {
            if i < p {
                assert(r.roster_traits[i] == st.roster_traits[i]);
            } else if i > p {
                assert(r.roster_traits[i] == st.roster_traits[i - 1]);
            }
        }
    }
}

proof fn lemma_auto_put_wf(st: Pass, ty: Seq<char>, k: int, line: Seq<char>, has_where: bool, negative: bool)
    requires
        pass_wf(st),
    ensures
        pass_wf(auto_put(st, ty, k, line, has_where, negative)),
{
    lemma_set_add(st.auto_types, ty);
    crate::order::lemma_slot(st.auto_types, ty);
    let r = auto_put(st, ty, k, line, has_where, negative);
    if !present(st.auto_types, ty) {
        assert(r.auto_types == set_add(st.auto_types, ty));
    }
    assert(r.roster_traits == st.roster_traits);
}

proof fn lemma_module_put_wf(st: Pass, m: Seq<char>)
    requires
        pass_wf(st),
    ensures
        pass_wf(module_put(st, m)),
{
    lemma_set_add(st.module_names, m);
    crate::order::lemma_slot(st.module_names, m);
    let r = module_put(st, m);
    if !present(st.module_names, m) {
        assert(r.module_names == set_add(st.module_names, m));
    }
    assert(r.roster_traits == st.roster_traits);
}

proof fn lemma_step_wf(st: Pass, line: Seq<char>)
    requires
        pass_wf(st),
    ensures
        pass_wf(step(st, line)),
{
    let l = strip_attrs_spec(line);
    match impl_body_spec(l) {
        Some(rest) => {
            let (body, has_where) = split_where(rest);
            match impl_shape(body) {
                ImplShape::Inherent => {},
                ImplShape::Trait { trait_path, for_type, negative } => {
                    let st1 = Pass { ctx: Some(for_type), ..st };
                    if dropped_marker(trait_path) {
                    } else if auto_trait_index(trait_path) is Some {
                        lemma_auto_put_wf(st1, for_type, auto_trait_index(trait_path)->0, line, has_where, negative);
                    } else if has_where || negative {
                    } else {
                        lemma_roster_put_wf(st1, for_type, simplify_trait_path_spec(trait_path));
                    }
                },
            }
        },
        None => {
            if st.ctx is Some && trait_member(l, st.ctx->0) {
            } else {
                let st1 = Pass {
                    ctx: None,
                    classes: st.classes.push(line_class(l)),
                    kept: st.kept.push(line),
                    ..st
                };
                match line_module(l) {
                    Some(m) => {
                        assert(pass_wf(st1));
                        lemma_module_put_wf(st1, m);
                    },
                    None => {},
                }
            }
        },
    }
}

proof fn lemma_run_pass_wf(lines: Seq<Seq<char>>, ident: Seq<char>, n: int)
    ensures
        pass_wf(run_pass(lines, ident, n)),
    decreases n,
{
    if n > 0 {
        lemma_run_pass_wf(lines, ident, n - 1);
        lemma_step_wf(run_pass(lines, ident, n - 1), strip_crate_prefix_spec(lines[n - 1], ident));
    }
}

/// Every transformation lists each type with trait impls once, in sorted
/// order, with its traits sorted and each named once; likewise each type
/// with auto-trait impls and each module; the parallel sequences line up.
pub proof fn lemma_transform_sorted(lines: Seq<Seq<char>>, ident: Seq<char>)
    ensures
        strictly_sorted(transform_spec(lines, ident).roster_types),
        transform_spec(lines, ident).roster_traits.len() == transform_spec(lines, ident).roster_types.len(),
        forall|i: int| 0 <= i < transform_spec(lines, ident).roster_traits.len() ==> strictly_sorted(
            #[trigger] transform_spec(lines, ident).roster_traits[i],
        ),
        strictly_sorted(transform_spec(lines, ident).auto_types),
        transform_spec(lines, ident).auto_infos.len() == transform_spec(lines, ident).auto_types.len(),
        strictly_sorted(transform_spec(lines, ident).module_names),
        transform_spec(lines, ident).module_counts.len() == transform_spec(lines, ident).module_names.len(),
{
    lemma_run_pass_wf(lines, ident, lines.len() as int);
}


proof fn lemma_run_pass_classes(lines: Seq<Seq<char>>, ident: Seq<char>, n: int)
    ensures
        run_pass(lines, ident, n).classes.len() == run_pass(lines, ident, n).kept.len(),
    decreases n,
{
    if n > 0 {
        lemma_run_pass_classes(lines, ident, n - 1);
    }
}

/// The summary taxonomy counts every kept item line exactly once: its
/// class counts add up to the number of item lines before re-export
/// duplicates are collapsed.
pub proof fn lemma_tally_counts_kept(lines: Seq<Seq<char>>, ident: Seq<char>)
    ensures
        crate::classify::class_total(run_pass(lines, ident, lines.len() as int).classes) == run_pass(
            lines,
            ident,
            lines.len() as int,
        ).kept.len(),
{
    lemma_run_pass_classes(lines, ident, lines.len() as int);
    crate::classify::lemma_class_total(run_pass(lines, ident, lines.len() as int).classes);
}


// ---------------------------------------------------------------------------
// Trait-impl members
/// A path with no space, parenthesis, colon or angle bracket.
pub open spec fn plain_path(t: Seq<char>) -> bool {
    forall|i: int| 0 <= i < t.len() ==> t[i] != ' ' && t[i] != '(' && t[i] != ':' && t[i] != '<' && t[i] != '>'
}

proof fn lemma_lead_end_ge(s: Seq<char>, i: int, depth: int)
    requires
        0 <= i <= s.len(),
    ensures
        lead_end(s, i, depth) >= i,
    decreases s.len() - i,
{
    if i >= s.len() {
    } else if s[i] == '<' {
        lemma_lead_end_ge(s, i + 1, depth + 1);
    } else if s[i] == '>' {
        lemma_lead_end_ge(s, i + 1, sat_dec(depth));
    } else if (s[i] == '(' || s[i] == ' ') && depth == 0 {
    } else if s[i] == ':' && depth == 0 {
        if i + 1 < s.len() && s[i + 1] == ':' {
            lemma_lead_end_ge(s, i + 2, depth);
        }
    } else {
        lemma_lead_end_ge(s, i + 1, depth);
    }
}

proof fn lemma_lead_end_past(s: Seq<char>, i: int, j: int)
    requires
        0 <= i <= j,
        j + 2 <= s.len(),
        forall|k: int| i <= k < j ==> s[k] != ' ' && s[k] != '(' && s[k] != ':' && s[k] != '<' && s[k] != '>',
        s[j] == ':',
        s[j + 1] == ':',
    ensures
        lead_end(s, i, 0) >= j + 2,
    decreases j - i,
{
    if i == j {
        lemma_lead_end_ge(s, i + 2, 0);
    } else {
        lemma_lead_end_past(s, i + 1, j);
    }
}

/// The path of `ty::rest` begins with `ty::` when `ty` is a plain path.
proof fn lemma_member_path(ty: Seq<char>, rest: Seq<char>)
    requires
        plain_path(ty),
    ensures
        has_prefix(leading_path_spec(ty + seq![':', ':'] + rest), ty + seq![':', ':']),
{
    let sig = ty + seq![':', ':'] + rest;
    lemma_lead_end_past(sig, 0, ty.len() as int);
    lemma_lead_end_bound(sig, 0, 0);
    let lp = leading_path_spec(sig);
    assert(lp.subrange(0, ty.len() as int + 2) =~= ty + seq![':', ':']);
}

proof fn lemma_member_fn(st: Pass, ty: Seq<char>, rest: Seq<char>)
    requires
        st.ctx == Some(ty),
        plain_path(ty),
    ensures
        step(st, "pub fn "@ + ty + "::"@ + rest) == st,
{
    reveal_strlit("pub ");
    reveal_strlit("pub fn ");
    reveal_strlit("fn ");
    reveal_strlit("::");
    let line = "pub fn "@ + ty + "::"@ + rest;
    assert(line[0] == 'p');
    assert(!has_prefix(line, seq!['#', '[']));
    assert(strip_attrs_spec(line) == line);
    assert(!has_prefix(line, seq!['i', 'm', 'p', 'l']));
    assert(impl_body_spec(line) is None);
    assert(line.subrange(0, 4) =~= "pub "@);
    let body = line.subrange(4, line.len() as int);
    assert(body =~= "fn "@ + ty + seq![':', ':'] + rest);
    assert(body.subrange(0, 3) =~= "fn "@);
    let sig = body.subrange(3, body.len() as int);
    assert(sig =~= ty + seq![':', ':'] + rest);
    lemma_member_path(ty, rest);
    assert(trait_member(line, ty));
}

proof fn lemma_member_const(st: Pass, ty: Seq<char>, rest: Seq<char>)
    requires
        st.ctx == Some(ty),
        plain_path(ty),
    ensures
        step(st, "pub const "@ + ty + "::"@ + rest) == st,
{
    reveal_strlit("pub ");
    reveal_strlit("pub const ");
    reveal_strlit("const ");
    reveal_strlit("::");
    reveal_strlit("fn ");
    let line = "pub const "@ + ty + "::"@ + rest;
    assert(line[0] == 'p');
    assert(!has_prefix(line, seq!['#', '[']));
    assert(strip_attrs_spec(line) == line);
    assert(!has_prefix(line, seq!['i', 'm', 'p', 'l']));
    assert(impl_body_spec(line) is None);
    assert(line.subrange(0, 4) =~= "pub "@);
    let body = line.subrange(4, line.len() as int);
    assert(body =~= "const "@ + ty + seq![':', ':'] + rest);
    assert(!has_prefix(body, "fn "@)) by {
        if has_prefix(body, "fn "@) {
            assert(body.subrange(0, "fn "@.len() as int)[0] == "fn "@[0]);
        }
    }
    assert(body.subrange(0, 6) =~= "const "@);
    let sig = body.subrange(6, body.len() as int);
    assert(sig =~= ty + seq![':', ':'] + rest);
    lemma_member_path(ty, rest);
    assert(trait_member(line, ty));
}

proof fn lemma_member_type(st: Pass, ty: Seq<char>, rest: Seq<char>)
    requires
        st.ctx == Some(ty),
        plain_path(ty),
    ensures
        step(st, "pub type "@ + ty + "::"@ + rest) == st,
{
    reveal_strlit("pub ");
    reveal_strlit("pub type ");
    reveal_strlit("type ");
    reveal_strlit("::");
    reveal_strlit("fn ");
    reveal_strlit("const ");
    let line = "pub type "@ + ty + "::"@ + rest;
    assert(line[0] == 'p');
    assert(!has_prefix(line, seq!['#', '[']));
    assert(strip_attrs_spec(line) == line);
    assert(!has_prefix(line, seq!['i', 'm', 'p', 'l']));
    assert(impl_body_spec(line) is None);
    assert(line.subrange(0, 4) =~= "pub "@);
    let body = line.subrange(4, line.len() as int);
    assert(body =~= "type "@ + ty + seq![':', ':'] + rest);
    assert(!has_prefix(body, "fn "@)) by {
        if has_prefix(body, "fn "@) {
            assert(body.subrange(0, "fn "@.len() as int)[0] == "fn "@[0]);
        }
    }
    assert(!has_prefix(body, "const "@)) by {
        if has_prefix(body, "const "@) {
            assert(body.subrange(0, "const "@.len() as int)[0] == "const "@[0]);
        }
    }
    assert(body.subrange(0, 5) =~= "type "@);
    let sig = body.subrange(5, body.len() as int);
    assert(sig =~= ty + seq![':', ':'] + rest);
    lemma_member_path(ty, rest);
    assert(trait_member(line, ty));
}

/// Inside a trait impl for `ty` (a plain path), the impl's member lines
/// `pub fn ty::…`, `pub const ty::…` and `pub type ty::…` are dropped: the
/// pass is left exactly as it was, the impl's context included, so the
/// members that follow are dropped too.
pub proof fn lemma_impl_members_dropped(st: Pass, ty: Seq<char>, rest: Seq<char>)
    requires
        st.ctx == Some(ty),
        plain_path(ty),
    ensures
        step(st, "pub fn "@ + ty + "::"@ + rest) == st,
        step(st, "pub const "@ + ty + "::"@ + rest) == st,
        step(st, "pub type "@ + ty + "::"@ + rest) == st,
{
    lemma_member_fn(st, ty, rest);
    lemma_member_const(st, ty, rest);
    lemma_member_type(st, ty, rest);
}


// ---------------------------------------------------------------------------
// Re-export duplicates of one item
/// The item kinds whose re-exports are collapsed.
pub open spec fn reexport_kind(k: Seq<char>) -> bool {
    k == "fn"@ || k == "struct"@ || k == "enum"@ || k == "trait"@ || k == "type"@ || k == "const"@
        || k == "static"@
}

proof fn lemma_find_space(s: Seq<char>, klen: int, i: int)
    requires
        0 <= i <= klen < s.len(),
        s[klen] == ' ',
        forall|j: int| 0 <= j < klen ==> s[j] != ' ',
    ensures
        crate::text::find_from(s, seq![' '], i) == klen,
    decreases klen - i,
{
    if i < klen {
        assert(!crate::text::occurs_at(s, seq![' '], i)) by {
            if crate::text::occurs_at(s, seq![' '], i) {
                assert(s.subrange(i, i + 1)[0] == ' ');
            }
        }
        lemma_find_space(s, klen, i + 1);
    } else {
        assert(s.subrange(klen, klen + 1) =~= seq![' ']);
    }
}

proof fn lemma_lead_end_stop(s: Seq<char>, i: int, j: int)
    requires
        0 <= i <= j <= s.len(),
        forall|k: int| i <= k < j ==> s[k] != ' ' && s[k] != '(' && s[k] != ':' && s[k] != '<' && s[k] != '>',
        j == s.len() || s[j] == ' ' || s[j] == '(',
    ensures
        lead_end(s, i, 0) == j,
    decreases j - i,
{
    if i < j {
        lemma_lead_end_stop(s, i + 1, j);
    }
}

proof fn lemma_lead_end_through(s: Seq<char>, i: int, j: int)
    requires
        0 <= i <= j,
        j + 2 <= s.len(),
        forall|k: int| i <= k < j ==> s[k] != ' ' && s[k] != '(' && s[k] != ':' && s[k] != '<' && s[k] != '>',
        s[j] == ':',
        s[j + 1] == ':',
    ensures
        lead_end(s, i, 0) == lead_end(s, j + 2, 0),
    decreases j - i,
{
    if i < j {
        lemma_lead_end_through(s, i + 1, j);
    }
}

proof fn lemma_segs_skip(s: Seq<char>, i: int, start: int, j: int)
    requires
        0 <= i <= j <= s.len(),
        forall|k: int| i <= k < j ==> s[k] != ':' && s[k] != '<' && s[k] != '>',
    ensures
        segs_from(s, i, start, 0) == segs_from(s, j, start, 0),
    decreases j - i,
{
    if i < j {
        lemma_segs_skip(s, i + 1, start, j);
    }
}

/// The entry of `pub <k> <rest>`: the text after the kind is `rest`.
proof fn lemma_entry_head(k: Seq<char>, rest: Seq<char>)
    requires
        reexport_kind(k),
    ensures
        ({
            let line = "pub "@ + k + " "@ + rest;
            &&& strip_attrs_spec(line) == line
            &&& has_prefix(line, "pub "@)
            &&& line.subrange("pub "@.len() as int, line.len() as int) == k + seq![' '] + rest
            &&& find(k + seq![' '] + rest, seq![' ']) == k.len()
        }),
{
    reveal_strlit("pub ");
    reveal_strlit(" ");
    reveal_strlit("fn");
    reveal_strlit("struct");
    reveal_strlit("enum");
    reveal_strlit("trait");
    reveal_strlit("type");
    reveal_strlit("const");
    reveal_strlit("static");
    let line = "pub "@ + k + " "@ + rest;
    assert(line[0] == 'p');
    assert(!has_prefix(line, seq!['#', '[']));
    assert(line.subrange(0, 4) =~= "pub "@);
    assert(line.subrange(4, line.len() as int) =~= k + seq![' '] + rest);
    let body = k + seq![' '] + rest;
    assert(k.len() > 0 && forall|j: int| 0 <= j < k.len() ==> k[j] != ' ');
    assert(body[k.len() as int] == ' ');
    lemma_find_space(body, k.len() as int, 0);
}

proof fn lemma_entry_plain(k: Seq<char>, n: Seq<char>, t: Seq<char>)
    requires
        reexport_kind(k),
        plain_path(n),
        t.len() == 0 || t[0] == ' ' || t[0] == '(',
    ensures
        dedupe_entry("pub "@ + k + " "@ + n + t) == Some((k + seq![' '] + n + t, n)),
{
    let rest = n + t;
    lemma_entry_head(k, rest);
    assert("pub "@ + k + " "@ + n + t == "pub "@ + k + " "@ + rest);
    lemma_lead_end_stop(rest, 0, n.len() as int);
    let path = leading_path_spec(rest);
    assert(path =~= n);
    lemma_segs_skip(n, 0, 0, n.len() as int);
    assert(n.subrange(0, n.len() as int) =~= n);
    assert(segs_from(n, n.len() as int, 0, 0) == seq![n]);
    assert(segments(path) =~= seq![n]);
    assert(rest.subrange(path.len() as int, rest.len() as int) =~= t);
    let body = k + seq![' '] + rest;
    assert(body.subrange(0, k.len() as int) =~= k);
    assert(body.subrange(k.len() as int + 1, body.len() as int) =~= rest);
    assert(k + seq![' '] + seq![n].last() + t =~= k + seq![' '] + n + t);
}

proof fn lemma_entry_nested(k: Seq<char>, m: Seq<char>, n: Seq<char>, t: Seq<char>)
    requires
        reexport_kind(k),
        plain_path(m),
        m.len() > 0,
        !unicode_uppercase(m[0]),
        plain_path(n),
        t.len() == 0 || t[0] == ' ' || t[0] == '(',
    ensures
        dedupe_entry("pub "@ + k + " "@ + m + "::"@ + n + t) == Some(
            (k + seq![' '] + n + t, m + seq![':', ':'] + n),
        ),
{
    reveal_strlit("::");
    let rest = m + seq![':', ':'] + n + t;
    lemma_entry_head(k, rest);
    assert("pub "@ + k + " "@ + m + "::"@ + n + t =~= "pub "@ + k + " "@ + rest);
    let mm = m.len() as int;
    lemma_lead_end_through(rest, 0, mm);
    lemma_lead_end_stop(rest, mm + 2, mm + 2 + n.len());
    let path = leading_path_spec(rest);
    assert(path =~= m + seq![':', ':'] + n);
    lemma_segs_skip(path, 0, 0, mm);
    lemma_segs_skip(path, mm + 2, mm + 2, path.len() as int);
    assert(path.subrange(0, mm) =~= m);
    assert(path.subrange(mm + 2, path.len() as int) =~= n);
    assert(segs_from(path, mm, 0, 0) == seq![m] + segs_from(path, mm + 2, mm + 2, 0));
    assert(segments(path) =~= seq![m, n]);
    assert(rest.subrange(path.len() as int, rest.len() as int) =~= t);
    let body = k + seq![' '] + rest;
    assert(body.subrange(0, k.len() as int) =~= k);
    assert(body.subrange(k.len() as int + 1, body.len() as int) =~= rest);
    assert(k + seq![' '] + seq![m, n].last() + t =~= k + seq![' '] + n + t);
}

proof fn lemma_parent_nested(m: Seq<char>, n: Seq<char>)
    requires
        plain_path(m),
        plain_path(n),
    ensures
        parent_path_spec(m + seq![':', ':'] + n) == m,
{
    reveal_strlit("::");
    let path = m + seq![':', ':'] + n;
    let mm = m.len() as int;
    lemma_segs_skip(path, 0, 0, mm);
    lemma_segs_skip(path, mm + 2, mm + 2, path.len() as int);
    assert(path.subrange(0, mm) =~= m);
    assert(path.subrange(mm + 2, path.len() as int) =~= n);
    assert(segments(path) =~= seq![m, n]);
    assert(seq![m, n].drop_last() =~= seq![m]);
}

proof fn lemma_single_annotation(x: Seq<char>)
    ensures
        join(dedup(sorted_texts(seq![x])), ", "@) == x,
{
    assert(seq![x][0] == x);
    crate::order::lemma_sorted_elems(seq![x], x);
    let srt = sorted_texts(seq![x]);
    assert(srt.contains(x));
    assert(srt =~= seq![x]);
}

/// A re-exported item collapses to one line: the same item (a `fn`,
/// `struct`, `enum`, `trait`, `type`, `const` or `static`) listed at a
/// top-level name and again under a module comes out once, at the shorter
/// path, annotated `[also: <module>]`, in either order.
pub proof fn lemma_reexport_collapsed(k: Seq<char>, m: Seq<char>, n: Seq<char>, t: Seq<char>)
    requires
        k == "fn"@ || k == "struct"@ || k == "enum"@ || k == "trait"@ || k == "type"@ || k == "const"@
            || k == "static"@,
        plain_path(m),
        m.len() > 0,
        !unicode_uppercase(m[0]),
        plain_path(n),
        t.len() == 0 || t[0] == ' ' || t[0] == '(',
    ensures
        dedupe_spec(seq!["pub "@ + k + " "@ + n + t, "pub "@ + k + " "@ + m + "::"@ + n + t]) == seq![
            "pub "@ + k + " "@ + n + t + " [also: "@ + m + "]"@,
        ],
        dedupe_spec(seq!["pub "@ + k + " "@ + m + "::"@ + n + t, "pub "@ + k + " "@ + n + t]) == seq![
            "pub "@ + k + " "@ + n + t + " [also: "@ + m + "]"@,
        ],
{
    let a = "pub "@ + k + " "@ + n + t;
    let b = "pub "@ + k + " "@ + m + "::"@ + n + t;
    let key = k + seq![' '] + n + t;
    let pb = m + seq![':', ':'] + n;
    lemma_entry_plain(k, n, t);
    lemma_entry_nested(k, m, n, t);
    lemma_parent_nested(m, n);
    lemma_single_annotation(m);
    crate::text::lemma_utf8_len_concat(m + seq![':', ':'], n);
    crate::text::lemma_utf8_len_concat(m, seq![':', ':']);
    assert(crate::text::utf8_len(seq![':', ':']) >= 1);
    assert(crate::text::utf8_len(n) < crate::text::utf8_len(pb));
    // a first
    let l1 = seq![a, b];
    let e1 = l1.map_values(|l: Seq<char>| dedupe_entry(l));
    assert(e1[0] == Some((key, n)));
    assert(e1[1] == Some((key, pb)));
    assert(group_count(e1, key, 0) == 0);
    assert(group_count(e1, key, 1) == 1);
    assert(group_count(e1, key, 2) == 2);
    assert(canon(e1, key, 0) == -1);
    assert(canon(e1, key, 1) == 0);
    assert(canon(e1, key, 2) == 0);
    assert(others(e1, key, 0, 0) =~= Seq::<Seq<char>>::empty());
    assert(others(e1, key, 0, 1) =~= Seq::<Seq<char>>::empty());
    assert(others(e1, key, 0, 2) =~= seq![m]);
    let r1 = Seq::new(2, |i: int| dedupe_line(l1, i));
    assert(r1[0] == Some(a + " [also: "@ + m + "]"@));
    assert(r1[1] is None);
    assert(r1.drop_last() =~= seq![Some(a + " [also: "@ + m + "]"@)]);
    assert(r1.drop_last().drop_last() =~= Seq::<Option<Seq<char>>>::empty());
    assert(somes(Seq::<Option<Seq<char>>>::empty()) =~= Seq::<Seq<char>>::empty());
    assert(somes(r1.drop_last().drop_last()) =~= Seq::<Seq<char>>::empty());
    assert(Seq::new(l1.len(), |i: int| dedupe_line(l1, i)) =~= r1);
    assert(dedupe_spec(l1) == somes(r1));
    assert(r1.drop_last().last() == Some(a + " [also: "@ + m + "]"@));
    assert(somes(r1.drop_last()) =~= seq![a + " [also: "@ + m + "]"@]);
    assert(r1.last() is None);
    assert(somes(r1) =~= seq![a + " [also: "@ + m + "]"@]);
    assert(dedupe_spec(l1) =~= seq![a + " [also: "@ + m + "]"@]);
    // b first
    let l2 = seq![b, a];
    let e2 = l2.map_values(|l: Seq<char>| dedupe_entry(l));
    assert(e2[0] == Some((key, pb)));
    assert(e2[1] == Some((key, n)));
    assert(group_count(e2, key, 0) == 0);
    assert(group_count(e2, key, 1) == 1);
    assert(group_count(e2, key, 2) == 2);
    assert(canon(e2, key, 0) == -1);
    assert(canon(e2, key, 1) == 0);
    assert(canon(e2, key, 2) == 1);
    assert(others(e2, key, 1, 0) =~= Seq::<Seq<char>>::empty());
    assert(others(e2, key, 1, 1) =~= seq![m]);
    assert(others(e2, key, 1, 2) =~= seq![m]);
    let r2 = Seq::new(2, |i: int| dedupe_line(l2, i));
    assert(r2[0] is None);
    assert(r2[1] == Some(a + " [also: "@ + m + "]"@));
    assert(r2.drop_last() =~= seq![None::<Seq<char>>]);
    assert(r2.drop_last().drop_last() =~= Seq::<Option<Seq<char>>>::empty());
    assert(somes(Seq::<Option<Seq<char>>>::empty()) =~= Seq::<Seq<char>>::empty());
    assert(somes(r2.drop_last().drop_last()) =~= Seq::<Seq<char>>::empty());
    assert(Seq::new(l2.len(), |i: int| dedupe_line(l2, i)) =~= r2);
    assert(dedupe_spec(l2) == somes(r2));
    assert(r2.drop_last().last() is None);
    assert(somes(r2.drop_last()) =~= Seq::<Seq<char>>::empty());
    assert(r2.last() == Some(a + " [also: "@ + m + "]"@));
    assert(somes(r2) =~= seq![a + " [also: "@ + m + "]"@]);
    assert(dedupe_spec(l2) =~= seq![a + " [also: "@ + m + "]"@]);
}


/// A trait path or type with no space or bracket of any kind.
pub open spec fn unbracketed(t: Seq<char>) -> bool {
    forall|i: int| 0 <= i < t.len() ==> t[i] != ' ' && t[i] != '<' && t[i] != '>' && t[i] != '(' && t[i] != ')'
}

proof fn lemma_for_pos_at(s: Seq<char>, i: int, j: int)
    requires
        0 <= i <= j,
        j + 5 <= s.len(),
        forall|k: int| i <= k < j ==> s[k] != ' ' && s[k] != '<' && s[k] != '>' && s[k] != '(' && s[k] != ')',
        crate::text::occurs_at(s, seq![' ', 'f', 'o', 'r', ' '], j),
    ensures
        crate::syntax::for_pos(s, i, 0) == j,
    decreases j - i,
{
    if i < j {
        lemma_for_pos_at(s, i + 1, j);
    } else {
        assert(s.subrange(j, j + 5)[0] == ' ');
    }
}

/// After a trait impl line `impl <tr> for <ty>` (both without spaces or
/// brackets, `tr` not negated), the pass is inside that impl: its context
/// is `ty`.
pub proof fn lemma_trait_impl_context(st: Pass, tr: Seq<char>, ty: Seq<char>)
    requires
        tr.len() > 0,
        tr[0] != '!',
        unbracketed(tr),
        unbracketed(ty),
    ensures
        step(st, "impl "@ + tr + " for "@ + ty).ctx == Some(ty),
{
    reveal_strlit("impl ");
    reveal_strlit(" for ");
    reveal_strlit(" where ");
    let line = "impl "@ + tr + " for "@ + ty;
    assert(line[0] == 'i');
    assert(!has_prefix(line, seq!['#', '[']));
    assert(strip_attrs_spec(line) == line);
    assert(line.subrange(0, 4) =~= seq!['i', 'm', 'p', 'l']);
    let rest0 = line.subrange(4, line.len() as int);
    assert(rest0[0] == ' ');
    let rest = tr + " for "@ + ty;
    assert(rest0.subrange(1, rest0.len() as int) =~= rest);
    assert(impl_body_spec(line) == Some(rest));
    let tl = tr.len() as int;
    assert forall|i: int| !crate::text::occurs_at(rest, " where "@, i) by {
        if crate::text::occurs_at(rest, " where "@, i) {
            let w = rest.subrange(i, i + 7);
            assert(w[0] == ' ' && w[1] == 'w' && w[6] == ' ');
            assert(rest[i] == ' ');
            assert(rest[i + 1] == 'w');
            assert(rest[i + 6] == ' ');
            if i < tl {
                assert(rest[i] == tr[i]);
            } else if i == tl {
                assert(rest[i + 1] == 'f');
            } else if i < tl + 4 {
                assert(rest[i] != ' ');
            } else if i == tl + 4 {
                assert(rest[i + 6] == ty[5]);
            } else {
                assert(rest[i] == ty[i - tl - 5]);
            }
        }
    }
    crate::text::lemma_find_is_first(rest, " where "@);
    assert(split_where(rest) == (rest, false));
    assert(crate::text::occurs_at(rest, seq![' ', 'f', 'o', 'r', ' '], tl)) by {
        assert(rest.subrange(tl, tl + 5) =~= seq![' ', 'f', 'o', 'r', ' ']);
    }
    lemma_for_pos_at(rest, 0, tl);
    assert(rest.subrange(0, tl) =~= tr);
    assert(rest.subrange(tl + 5, rest.len() as int) =~= ty);
    assert(impl_shape(rest) == ImplShape::Trait { trait_path: tr, for_type: ty, negative: false });
    let st1 = Pass { ctx: Some(ty), ..st };
    let tp = tr;
    if dropped_marker(tp) {
    } else if auto_trait_index(tp) is Some {
        assert(auto_put(st1, ty, auto_trait_index(tp)->0, line, false, false).ctx == Some(ty));
    } else {
        assert(roster_put(st1, ty, simplify_trait_path_spec(tp)).ctx == Some(ty));
    }
}

/// A trait impl's members are not items: after `impl <tr> for <ty>`, the
/// lines `pub type <ty>::…` and `pub fn <ty>::…` that follow leave the pass
/// exactly as the impl line left it, so neither is kept nor counted.
pub proof fn lemma_impl_members_not_items(
    st: Pass,
    tr: Seq<char>,
    ty: Seq<char>,
    type_rest: Seq<char>,
    fn_rest: Seq<char>,
)
    requires
        tr.len() > 0,
        tr[0] != '!',
        unbracketed(tr),
        unbracketed(ty),
        plain_path(ty),
    ensures
        ({
            let after_impl = step(st, "impl "@ + tr + " for "@ + ty);
            let after_type = step(after_impl, "pub type "@ + ty + "::"@ + type_rest);
            &&& after_type == after_impl
            &&& step(after_type, "pub fn "@ + ty + "::"@ + fn_rest) == after_impl
        }),
{
    lemma_trait_impl_context(st, tr, ty);
    let after_impl = step(st, "impl "@ + tr + " for "@ + ty);
    lemma_impl_members_dropped(after_impl, ty, type_rest);
    lemma_impl_members_dropped(after_impl, ty, fn_rest);
}

} // verus!
