//! Rendering the encoded sections of a snapshot: the summary taxonomy and
//! the body (items, trait rosters, auto traits).
use vstd::prelude::*;
use crate::order::{sort_texts, sorted_texts};
use crate::syntax::auto_trait_name;
use crate::text::{
    append, append_decimal, append_pad_left, append_pad_right, append_str, decimal, join,
    join_texts, pad_left, pad_right, text, to_string, to_strings, views,
};
use crate::transform::{
    auto_complete, cond_total, conditionals, lemma_roster_entries_mono, roster_entries, AutoInfo, AutoModel, Model, Transformed,
};

verus! {

/// Each text followed by a newline.
pub open spec fn line_block(s: Seq<Seq<char>>) -> Seq<char>
    decreases s.len(),
{
    if s.len() == 0 {
        Seq::empty()
    } else {
        line_block(s.drop_last()) + s.last() + seq!['\n']
    }
}

/// `!Name` for each of the six auto traits (among the first `n`) that is not
/// present.
pub open spec fn missing_autos(present: Seq<bool>, n: int) -> Seq<Seq<char>>
    decreases n,
{
    if n <= 0 {
        Seq::empty()
    } else if !present[n - 1] {
        missing_autos(present, n - 1).push(seq!['!'] + auto_trait_name(n - 1))
    } else {
        missing_autos(present, n - 1)
    }
}

/// The exception line of a type: `Type: !Trait !Trait ...`.
pub open spec fn exception_line(ty: Seq<char>, a: AutoModel) -> Seq<char> {
    ty + ": "@ + join(missing_autos(a.present, 6), " "@)
}

/// Exception lines of the first `n` types, in type order.
pub open spec fn exception_lines(types: Seq<Seq<char>>, infos: Seq<AutoModel>, n: int) -> Seq<
    Seq<char>,
>
    decreases n,
{
    if n <= 0 {
        Seq::empty()
    } else if !auto_complete(infos[n - 1]) {
        exception_lines(types, infos, n - 1).push(exception_line(types[n - 1], infos[n - 1]))
    } else {
        exception_lines(types, infos, n - 1)
    }
}

/// The exception lines, sorted.
pub open spec fn exceptions_spec(m: Model) -> Seq<Seq<char>> {
    sorted_texts(exception_lines(m.auto_types, m.auto_infos, m.auto_types.len() as int))
}

/// How many of the first `n` types are auto-trait-complete.
pub open spec fn complete_count(infos: Seq<AutoModel>, n: int) -> nat
    decreases n,
{
    if n <= 0 {
        0
    } else {
        complete_count(infos, n - 1) + if auto_complete(infos[n - 1]) { 1nat } else { 0nat }
    }
}

proof fn lemma_exception_split(types: Seq<Seq<char>>, infos: Seq<AutoModel>, n: int)
    requires
        0 <= n,
    ensures
        complete_count(infos, n) + exception_lines(types, infos, n).len() == n,
    decreases n,
{
    if n > 0 {
        lemma_exception_split(types, infos, n - 1);
    }
}

/// Auto traits collapse to a count plus exceptions: every type with
/// auto-trait impls is either counted as complete or listed as an
/// exception, never both.
pub proof fn lemma_auto_partition(m: Model)
    ensures
        complete_count(m.auto_infos, m.auto_types.len() as int) + exceptions_spec(m).len()
            == m.auto_types.len(),
{
    let ex = exception_lines(m.auto_types, m.auto_infos, m.auto_types.len() as int);
    lemma_exception_split(m.auto_types, m.auto_infos, m.auto_types.len() as int);
    crate::order::lemma_le_total();
    ex.lemma_sort_by_ensures(crate::order::le_rel());
    broadcast use vstd::seq_lib::group_to_multiset_ensures;
    ex.to_multiset_ensures();
    sorted_texts(ex).to_multiset_ensures();
}

/// The conditional (`where`-bearing) auto impls of the first `n` types, in
/// type order, each type's in the order they were read.
pub open spec fn auto_cond_lines(infos: Seq<AutoModel>, n: int) -> Seq<Seq<char>>
    decreases n,
{
    if n <= 0 {
        Seq::empty()
    } else {
        auto_cond_lines(infos, n - 1) + infos[n - 1].conditional
    }
}

/// The number of rendered lines: items, roster lines, conditional impls,
/// and (when any type has auto-trait data) the count line, the exceptions
/// and the conditional auto impls.
pub open spec fn total_lines_spec(m: Model) -> nat {
    m.items.len() + m.roster_types.len() + m.conditional_impls.len() + if m.auto_types.len()
        == 0 {
        0
    } else {
        1 + exceptions_spec(m).len() + cond_total(m.auto_infos)
    }
}

/// The sizes fit the machine's counters.
pub open spec fn fits(m: Model) -> bool {
    &&& m.items.len() + m.roster_types.len() + m.conditional_impls.len() + 2 * m.auto_types.len()
        + roster_entries(m.roster_traits, m.roster_types.len() as int) + cond_total(m.auto_infos) + 1
        <= usize::MAX
    &&& m.roster_traits.len() == m.roster_types.len()
    &&& m.auto_infos.len() == m.auto_types.len()
    &&& m.module_counts.len() == m.module_names.len()
    &&& forall|j: int| 0 <= j < m.module_counts.len() ==> #[trigger] m.module_counts[j] <= usize::MAX
}

/// One summary row: `#   <label padded to 38> <n right-aligned in 6>`, or
/// nothing when `n` is zero.
pub open spec fn summary_row(label: Seq<char>, n: nat) -> Seq<char> {
    if n == 0 {
        Seq::empty()
    } else {
        "#   "@ + pad_right(label, 38) + seq![' '] + pad_left(decimal(n), 6) + seq!['\n']
    }
}

/// The per-module rows of the first `n` modules.
pub open spec fn module_rows(names: Seq<Seq<char>>, counts: Seq<nat>, n: int) -> Seq<char>
    decreases n,
{
    if n <= 0 {
        Seq::empty()
    } else {
        module_rows(names, counts, n - 1) + "#   "@ + pad_right(names[n - 1], 28) + seq![' ']
            + pad_left(decimal(counts[n - 1]), 6) + seq!['\n']
    }
}

/// The labels of the summary rows, in order.
pub open spec fn summary_label(k: int) -> Seq<char> {
    if k == 0 { "pub modules"@ }
    else if k == 1 { "pub types (struct/enum/trait/alias)"@ }
    else if k == 2 { "pub consts/statics"@ }
    else if k == 3 { "pub macros"@ }
    else if k == 4 { "free functions"@ }
    else if k == 5 { "inherent methods"@ }
    else if k == 6 { "struct fields"@ }
    else if k == 7 { "enum variants"@ }
    else if k == 8 { "re-exports"@ }
    else if k == 9 { "trait roster entries (type × trait)"@ }
    else if k == 10 { "conditional trait impls (verbatim)"@ }
    else if k == 11 { "auto-trait-complete types"@ }
    else if k == 12 { "auto-trait exceptions"@ }
    else { "other"@ }
}

/// The value of summary row `k`.
pub open spec fn summary_value(m: Model, k: int) -> nat {
    let t = m.tally;
    if k == 0 { t.modules as nat }
    else if k == 1 { t.types as nat }
    else if k == 2 { t.consts as nat }
    else if k == 3 { t.macros as nat }
    else if k == 4 { t.free_fns as nat }
    else if k == 5 { t.assoc_fns as nat }
    else if k == 6 { t.fields as nat }
    else if k == 7 { t.variants as nat }
    else if k == 8 { t.reexports as nat }
    else if k == 9 { roster_entries(m.roster_traits, m.roster_types.len() as int) }
    else if k == 10 { m.conditional_impls.len() }
    else if k == 11 { complete_count(m.auto_infos, m.auto_types.len() as int) }
    else if k == 12 { exceptions_spec(m).len() }
    else { t.other as nat }
}

/// The first `n` summary rows.
pub open spec fn summary_rows(m: Model, n: int) -> Seq<char>
    decreases n,
{
    if n <= 0 {
        Seq::empty()
    } else {
        summary_rows(m, n - 1) + summary_row(summary_label(n - 1), summary_value(m, n - 1))
    }
}

/// The `## summary` block.
pub open spec fn summary_spec(m: Model) -> Seq<char> {
    "## summary\n#\n"@ + summary_rows(m, 14) + if m.module_names.len() == 0 {
        Seq::empty()
    } else {
        "#\n# per-module pub lines:\n"@ + module_rows(
            m.module_names,
            m.module_counts,
            m.module_names.len() as int,
        )
    }
}

/// The roster lines of the first `n` types: `Type: Trait, Trait`.
pub open spec fn roster_block(types: Seq<Seq<char>>, traits: Seq<Seq<Seq<char>>>, n: int) -> Seq<
    char,
>
    decreases n,
{
    if n <= 0 {
        Seq::empty()
    } else {
        roster_block(types, traits, n - 1) + types[n - 1] + ": "@ + join(traits[n - 1], ", "@)
            + seq!['\n']
    }
}

/// The body: items, trait impls (when there are any) and auto traits (when
/// any type has auto-trait data: the count of complete types, the
/// exceptions and, verbatim, the conditional auto impls).
pub open spec fn body_spec(m: Model) -> Seq<char> {
    "\n## items ("@ + decimal(m.items.len()) + " lines)\n\n"@ + line_block(m.items) + (
    if m.roster_types.len() > 0 || m.conditional_impls.len() > 0 {
        "\n## trait impls ("@ + decimal(m.roster_types.len()) + " types)\n\n"@ + roster_block(
            m.roster_types,
            m.roster_traits,
            m.roster_types.len() as int,
        ) + line_block(m.conditional_impls)
    } else {
        Seq::empty()
    }) + (if m.auto_types.len() > 0 {
        "\n## auto traits\n\n"@ + decimal(complete_count(m.auto_infos, m.auto_types.len() as int))
            + " types implement all of: "@ + "Freeze, RefUnwindSafe, Send, Sync, Unpin, UnwindSafe"@
            + seq!['\n'] + line_block(exceptions_spec(m)) + line_block(
            auto_cond_lines(m.auto_infos, m.auto_types.len() as int),
        )
    } else {
        Seq::empty()
    })
}

// ---------------------------------------------------------------------------
// The body's lines
/// The roster lines of the first `n` types: `Type: Trait, Trait`.
pub open spec fn roster_lines(types: Seq<Seq<char>>, traits: Seq<Seq<Seq<char>>>, n: int) -> Seq<
    Seq<char>,
>
    decreases n,
{
    if n <= 0 {
        Seq::empty()
    } else {
        roster_lines(types, traits, n - 1).push(types[n - 1] + ": "@ + join(traits[n - 1], ", "@))
    }
}

/// The line counting the auto-trait-complete types.
pub open spec fn count_line(m: Model) -> Seq<char> {
    decimal(complete_count(m.auto_infos, m.auto_types.len() as int)) + " types implement all of: "@
        + "Freeze, RefUnwindSafe, Send, Sync, Unpin, UnwindSafe"@
}

/// The lines of the auto-traits section.
pub open spec fn auto_lines(m: Model) -> Seq<Seq<char>> {
    if m.auto_types.len() > 0 {
        seq![count_line(m)] + exceptions_spec(m) + auto_cond_lines(m.auto_infos, m.auto_types.len() as int)
    } else {
        Seq::empty()
    }
}

/// The content lines of the body, without section headers and blank lines.
pub open spec fn body_content(m: Model) -> Seq<Seq<char>> {
    m.items + roster_lines(m.roster_types, m.roster_traits, m.roster_types.len() as int)
        + m.conditional_impls + auto_lines(m)
}

proof fn lemma_line_block_concat(a: Seq<Seq<char>>, b: Seq<Seq<char>>)
    ensures
        line_block(a + b) == line_block(a) + line_block(b),
    decreases b.len(),
{
    if b.len() > 0 {
        lemma_line_block_concat(a, b.drop_last());
        assert((a + b).drop_last() =~= a + b.drop_last());
        assert((a + b).last() == b.last());
        assert(line_block(a + b) =~= line_block(a) + line_block(b));
    } else {
        assert(a + b =~= a);
        assert(line_block(b) =~= Seq::<char>::empty());
        assert(line_block(a) + line_block(b) =~= line_block(a));
    }
}

proof fn lemma_roster_lines(types: Seq<Seq<char>>, traits: Seq<Seq<Seq<char>>>, n: int)
    requires
        n >= 0,
    ensures
        roster_block(types, traits, n) == line_block(roster_lines(types, traits, n)),
        roster_lines(types, traits, n).len() == n,
    decreases n,
{
    if n > 0 {
        lemma_roster_lines(types, traits, n - 1);
        let r = roster_lines(types, traits, n);
        assert(r.drop_last() =~= roster_lines(types, traits, n - 1));
        assert(roster_block(types, traits, n) =~= line_block(r));
    }
}

/// The body's total is its number of content lines: the body is the item,
/// trait-impl and auto-trait content lines, in that order, each section's
/// lines after its header, and `total_lines` counts exactly those lines.
pub proof fn lemma_body_content(m: Model)
    requires
        m.auto_infos.len() == m.auto_types.len(),
    ensures
        total_lines_spec(m) == body_content(m).len(),
        body_spec(m) == "\n## items ("@ + decimal(m.items.len()) + " lines)\n\n"@ + line_block(m.items)
            + (if m.roster_types.len() > 0 || m.conditional_impls.len() > 0 {
            "\n## trait impls ("@ + decimal(m.roster_types.len()) + " types)\n\n"@ + line_block(
                roster_lines(m.roster_types, m.roster_traits, m.roster_types.len() as int)
                    + m.conditional_impls,
            )
        } else {
            Seq::empty()
        }) + (if m.auto_types.len() > 0 {
            "\n## auto traits\n\n"@ + line_block(auto_lines(m))
        } else {
            Seq::empty()
        }),
{
    let rl = roster_lines(m.roster_types, m.roster_traits, m.roster_types.len() as int);
    lemma_roster_lines(m.roster_types, m.roster_traits, m.roster_types.len() as int);
    lemma_line_block_concat(rl, m.conditional_impls);
    lemma_auto_cond_len(m.auto_infos, m.auto_types.len() as int);
    if m.auto_types.len() > 0 {
        let ex = exceptions_spec(m);
        let cl = auto_cond_lines(m.auto_infos, m.auto_types.len() as int);
        lemma_line_block_concat(seq![count_line(m)] + ex, cl);
        lemma_line_block_concat(seq![count_line(m)], ex);
        assert(seq![count_line(m)].drop_last() =~= Seq::<Seq<char>>::empty());
        assert(line_block(Seq::<Seq<char>>::empty()) =~= Seq::<char>::empty());
        assert(seq![count_line(m)].last() == count_line(m));
        assert(line_block(seq![count_line(m)]) =~= count_line(m) + seq!['\n']);
    }
}

// ---------------------------------------------------------------------------
// Executable
/// Whether the type implements all six auto traits, with no negative and no
/// conditional auto impl.
pub fn auto_is_complete(a: &AutoInfo) -> (r: bool)
    requires
        a.present@.len() == 6,
        a.negative@.len() == 6,
    ensures
        r == auto_complete(a.model()),
{
    let mut k: usize = 0;
    while k < 6
        invariant
            k <= 6,
            a.present@.len() == 6,
            a.negative@.len() == 6,
            forall|j: int| 0 <= j < k ==> a.present@[j] && !a.negative@[j],
        decreases 6 - k,
    {
        if !a.present[k] || a.negative[k] {
            proof {
                if !a.present@[k as int] {
                    assert(!a.model().present[k as int]);
                } else {
                    assert(a.model().negative[k as int] != Seq::new(6, |i: int| false)[k as int]);
                }
            }
            return false;
        }
        k = k + 1;
    }
    assert(a.negative@ =~= Seq::new(6, |i: int| false));
    a.conditional.len() == 0
}

/// Appends each text followed by a newline.
pub fn append_lines(out: &mut Vec<char>, s: &Vec<Vec<char>>)
    ensures
        final(out)@ == old(out)@ + line_block(views(s@)),
{
    let ghost start = out@;
    let mut i: usize = 0;
    while i < s.len()
        invariant
            i <= s.len(),
            out@ == start + line_block(views(s@).take(i as int)),
        decreases s.len() - i,
    {
        append(out, &s[i]);
        out.push('\n');
        assert(views(s@).take(i + 1).drop_last() =~= views(s@).take(i as int));
        assert(start + line_block(views(s@).take(i + 1)) =~= start + line_block(views(s@).take(i as int)) + s@[i as int]@ + seq!['\n']);
        i = i + 1;
    }
    assert(views(s@).take(s.len() as int) =~= views(s@));
}

/// Appends the texts.
pub fn extend_lines(out: &mut Vec<Vec<char>>, xs: &Vec<Vec<char>>)
    ensures
        views(final(out)@) == views(old(out)@) + views(xs@),
{
    let ghost start = views(out@);
    let mut i: usize = 0;
    while i < xs.len()
        invariant
            i <= xs.len(),
            views(out@) == start + views(xs@).take(i as int),
        decreases xs.len() - i,
    {
        let ghost before = views(out@);
        out.push(crate::text::copy_text(&xs[i]));
        assert(views(out@) =~= before.push(views(xs@)[i as int]));
        assert(views(xs@).take(i + 1) =~= views(xs@).take(i as int).push(views(xs@)[i as int]));
        i = i + 1;
    }
    assert(views(xs@).take(xs.len() as int) =~= views(xs@));
}

pub proof fn lemma_auto_cond_len(infos: Seq<AutoModel>, n: int)
    requires
        0 <= n <= infos.len(),
    ensures
        auto_cond_lines(infos, n).len() == roster_entries(conditionals(infos), n),
    decreases n,
{
    if n > 0 {
        lemma_auto_cond_len(infos, n - 1);
    }
}

impl Transformed {
    /// The sizes fit, and parallel vectors have equal lengths.
    pub open spec fn fits(&self) -> bool {
        &&& fits(self.model())
        &&& forall|j: int| 0 <= j < self.auto_infos.len() ==> {
            &&& (#[trigger] self.auto_infos[j]).present@.len() == 6
            &&& self.auto_infos[j].negative@.len() == 6
        }
    }

    /// A transform whose sizes stay within a bound below the machine's
    /// limit can be rendered.
    pub proof fn lemma_sizes_fit(&self, bound: int)
        requires
            self.sizes_within(bound),
            bound + 1 <= usize::MAX,
        ensures
            self.fits(),
    {
        let m = self.model();
        assert forall|j: int| 0 <= j < m.module_counts.len() implies #[trigger] m.module_counts[j] <= usize::MAX by {
            assert(m.module_counts[j] == self.module_counts@[j] as nat);
        }
    }

    /// Number of auto-trait-complete types.
    pub fn auto_complete_count(&self) -> (n: usize)
        requires
            self.fits(),
        ensures
            n == complete_count(self.model().auto_infos, self.model().auto_types.len() as int),
    {
        let ghost m = self.model();
        let mut n: usize = 0;
        let mut j: usize = 0;
        while j < self.auto_infos.len()
            invariant
                self.fits(),
                m == self.model(),
                j <= self.auto_infos.len(),
                n == complete_count(m.auto_infos, j as int),
                n <= j,
            decreases self.auto_infos.len() - j,
        {
            if auto_is_complete(&self.auto_infos[j]) {
                n = n + 1;
            }
            j = j + 1;
        }
        n
    }

    /// The exception lines (`Type: !Trait ...`) for every type that is not
    /// auto-trait-complete, sorted.
    pub fn auto_exceptions_text(&self) -> (r: Vec<Vec<char>>)
        requires
            self.fits(),
        ensures
            views(r@) == exceptions_spec(self.model()),
            r.len() <= self.auto_types.len(),
    {
        let ghost m = self.model();
        let mut v: Vec<Vec<char>> = Vec::new();
        let mut j: usize = 0;
        while j < self.auto_infos.len()
            invariant
                self.fits(),
                m == self.model(),
                j <= self.auto_infos.len(),
                views(v@) == exception_lines(m.auto_types, m.auto_infos, j as int),
                v.len() <= j,
            decreases self.auto_infos.len() - j,
        {
            let a = &self.auto_infos[j];
            if !auto_is_complete(a) {
                let mut missing: Vec<Vec<char>> = Vec::new();
                let mut k: usize = 0;
                while k < 6
                    invariant
                        k <= 6,
                        a.present@.len() == 6,
                        views(missing@) == missing_autos(a.present@, k as int),
                    decreases 6 - k,
                {
                    if !a.present[k] {
                        let mut name: Vec<char> = vec!['!'];
                        assert(name@ =~= seq!['!']);
                        let nm = auto_trait_text(k);
                        append(&mut name, &nm);
                        let ghost before = views(missing@);
                        missing.push(name);
                        assert(views(missing@) =~= before.push(seq!['!'] + auto_trait_name(k as int)));
                    }
                    k = k + 1;
                }
                let mut line = crate::text::copy_text(&self.auto_types[j]);
                append_str(&mut line, ": ");
                let sp = text(" ");
                let joined = join_texts(&missing, &sp);
                append(&mut line, &joined);
                let ghost before = views(v@);
                v.push(line);
                assert(views(v@) =~= before.push(exception_line(m.auto_types[j as int], m.auto_infos[j as int])));
            }
            j = j + 1;
        }
        let r = sort_texts(v);
        proof {
            let s = views(v@);
            crate::order::lemma_le_total();
            s.lemma_sort_by_ensures(crate::order::le_rel());
            broadcast use vstd::seq_lib::group_to_multiset_ensures;
            s.to_multiset_ensures();
            sorted_texts(s).to_multiset_ensures();
            assert(views(r@).len() == s.len());
        }
        r
    }

    /// The exception lines, as strings.
    pub fn auto_exceptions(&self) -> (r: Vec<String>)
        requires
            self.fits(),
        ensures
            r.len() == exceptions_spec(self.model()).len(),
            forall|i: int| 0 <= i < r.len() ==> #[trigger] r[i]@ == exceptions_spec(self.model())[i],
            r.len() + complete_count(self.model().auto_infos, self.model().auto_types.len() as int)
                == self.auto_types.len(),
    {
        let v = self.auto_exceptions_text();
        proof {
            lemma_auto_partition(self.model());
        }
        to_strings(&v)
    }

    /// Total number of (type, trait) roster entries.
    pub fn roster_entry_count(&self) -> (n: usize)
        requires
            self.fits(),
        ensures
            n == roster_entries(self.model().roster_traits, self.model().roster_types.len() as int),
    {
        let ghost m = self.model();
        let mut n: usize = 0;
        let mut j: usize = 0;
        while j < self.roster_traits.len()
            invariant
                self.fits(),
                m == self.model(),
                j <= self.roster_traits.len(),
                n == roster_entries(m.roster_traits, j as int),
            decreases self.roster_traits.len() - j,
        {
            proof {
                lemma_roster_entries_mono(m.roster_traits, j + 1, m.roster_types.len() as int);
            }
            n = n + self.roster_traits[j].len();
            j = j + 1;
        }
        n
    }

    /// The conditional auto impls, verbatim, in type order.
    pub fn auto_conditional_lines(&self) -> (r: Vec<Vec<char>>)
        requires
            self.fits(),
        ensures
            views(r@) == auto_cond_lines(self.model().auto_infos, self.model().auto_types.len() as int),
            r.len() == cond_total(self.model().auto_infos),
    {
        let ghost m = self.model();
        let mut r: Vec<Vec<char>> = Vec::new();
        let mut j: usize = 0;
        while j < self.auto_infos.len()
            invariant
                self.fits(),
                m == self.model(),
                j <= self.auto_infos.len(),
                views(r@) == auto_cond_lines(m.auto_infos, j as int),
            decreases self.auto_infos.len() - j,
        {
            let ghost before = views(r@);
            extend_lines(&mut r, &self.auto_infos[j].conditional);
            assert(m.auto_infos[j as int].conditional == views(self.auto_infos@[j as int].conditional@));
            j = j + 1;
        }
        proof {
            lemma_auto_cond_len(m.auto_infos, m.auto_infos.len() as int);
        }
        r
    }

    /// The number of rendered lines.
    pub fn total_lines(&self) -> (n: usize)
        requires
            self.fits(),
        ensures
            n == total_lines_spec(self.model()),
    {
        let auto_lines = if self.auto_types.len() == 0 {
            0
        } else {
            let c = self.auto_conditional_lines();
            1 + self.auto_exceptions_text().len() + c.len()
        };
        self.items.len() + self.roster_types.len() + self.conditional_impls.len() + auto_lines
    }
}

/// The name of auto trait `k`.
pub fn auto_trait_text(k: usize) -> (r: Vec<char>)
    requires
        k < 6,
    ensures
        r@ == auto_trait_name(k as int),
{
    if k == 0 { text("Freeze") } else if k == 1 { text("RefUnwindSafe") } else if k == 2 { text("Send") }
    else if k == 3 { text("Sync") } else if k == 4 { text("Unpin") } else { text("UnwindSafe") }
}


/// The label of summary row `k`.
fn summary_label_text(k: usize) -> (r: Vec<char>)
    ensures
        r@ == summary_label(k as int),
{
    if k == 0 { text("pub modules") }
    else if k == 1 { text("pub types (struct/enum/trait/alias)") }
    else if k == 2 { text("pub consts/statics") }
    else if k == 3 { text("pub macros") }
    else if k == 4 { text("free functions") }
    else if k == 5 { text("inherent methods") }
    else if k == 6 { text("struct fields") }
    else if k == 7 { text("enum variants") }
    else if k == 8 { text("re-exports") }
    else if k == 9 { text("trait roster entries (type × trait)") }
    else if k == 10 { text("conditional trait impls (verbatim)") }
    else if k == 11 { text("auto-trait-complete types") }
    else if k == 12 { text("auto-trait exceptions") }
    else { text("other") }
}

/// Appends `#   <label:<w> <n:>6>` and a newline.
fn append_row(out: &mut Vec<char>, label: &Vec<char>, w: usize, n: usize)
    ensures
        final(out)@ == old(out)@ + "#   "@ + pad_right(label@, w as nat) + seq![' '] + pad_left(
            decimal(n as nat),
            6,
        ) + seq!['\n'],
{
    let ghost start = out@;
    append_str(out, "#   ");
    append_pad_right(out, label, w);
    out.push(' ');
    let d = crate::text::decimal_text(n);
    append_pad_left(out, &d, 6);
    out.push('\n');
    assert(out@ =~= start + "#   "@ + pad_right(label@, w as nat) + seq![' '] + pad_left(
        decimal(n as nat),
        6,
    ) + seq!['\n']);
}

impl Transformed {
    /// The value of summary row `k`.
    fn summary_value_of(&self, k: usize) -> (n: usize)
        requires
            self.fits(),
        ensures
            n == summary_value(self.model(), k as int),
    {
        let t = self.tally;
        if k == 0 { t.modules }
        else if k == 1 { t.types }
        else if k == 2 { t.consts }
        else if k == 3 { t.macros }
        else if k == 4 { t.free_fns }
        else if k == 5 { t.assoc_fns }
        else if k == 6 { t.fields }
        else if k == 7 { t.variants }
        else if k == 8 { t.reexports }
        else if k == 9 { self.roster_entry_count() }
        else if k == 10 { self.conditional_impls.len() }
        else if k == 11 { self.auto_complete_count() }
        else if k == 12 { self.auto_exceptions_text().len() }
        else { t.other }
    }

    /// The `## summary` block as text.
    pub fn render_summary_text(&self) -> (r: Vec<char>)
        requires
            self.fits(),
        ensures
            r@ == summary_spec(self.model()),
    {
        let ghost m = self.model();
        let mut s = text("## summary\n#\n");
        let ghost head = s@;
        let mut k: usize = 0;
        while k < 14
            invariant
                self.fits(),
                m == self.model(),
                k <= 14,
                s@ == head + summary_rows(m, k as int),
            decreases 14 - k,
        {
            let n = self.summary_value_of(k);
            if n != 0 {
                let label = summary_label_text(k);
                append_row(&mut s, &label, 38, n);
            }
            assert(s@ =~= head + summary_rows(m, k + 1));
            k = k + 1;
        }
        let ghost mid = s@;
        if self.module_names.len() > 0 {
            append_str(&mut s, "#\n# per-module pub lines:\n");
            let ghost head2 = s@;
            let mut j: usize = 0;
            while j < self.module_names.len()
                invariant
                    self.fits(),
                    m == self.model(),
                    j <= self.module_names.len(),
                    s@ == head2 + module_rows(m.module_names, m.module_counts, j as int),
                decreases self.module_names.len() - j,
            {
                append_row(&mut s, &self.module_names[j], 28, self.module_counts[j]);
                assert(s@ =~= head2 + module_rows(m.module_names, m.module_counts, j + 1));
                j = j + 1;
            }
            assert(s@ =~= mid + ("#\n# per-module pub lines:\n"@ + module_rows(
                m.module_names,
                m.module_counts,
                m.module_names.len() as int,
            )));
        } else {
            assert(s@ =~= mid + Seq::<char>::empty());
        }
        s
    }

    /// The `## summary` block.
    pub fn render_summary(&self) -> (r: String)
        requires
            self.fits(),
        ensures
            r@ == summary_spec(self.model()),
    {
        let t = self.render_summary_text();
        to_string(&t)
    }

    /// The body as text.
    pub fn render_body_text(&self) -> (r: Vec<char>)
        requires
            self.fits(),
        ensures
            r@ == body_spec(self.model()),
    {
        let ghost m = self.model();
        let mut s = text("\n## items (");
        crate::text::append_decimal(&mut s, self.items.len());
        append_str(&mut s, " lines)\n\n");
        append_lines(&mut s, &self.items);
        let ghost part1 = s@;
        assert(part1 =~= "\n## items ("@ + decimal(m.items.len()) + " lines)\n\n"@ + line_block(m.items));
        if self.roster_types.len() > 0 || self.conditional_impls.len() > 0 {
            append_str(&mut s, "\n## trait impls (");
            crate::text::append_decimal(&mut s, self.roster_types.len());
            append_str(&mut s, " types)\n\n");
            let ghost head = s@;
            let sep = text(", ");
            let mut j: usize = 0;
            while j < self.roster_types.len()
                invariant
                    self.fits(),
                    m == self.model(),
                    sep@ == ", "@,
                    j <= self.roster_types.len(),
                    s@ == head + roster_block(m.roster_types, m.roster_traits, j as int),
                decreases self.roster_types.len() - j,
            {
                append(&mut s, &self.roster_types[j]);
                append_str(&mut s, ": ");
                let joined = join_texts(&self.roster_traits[j], &sep);
                append(&mut s, &joined);
                s.push('\n');
                assert(s@ =~= head + roster_block(m.roster_types, m.roster_traits, j + 1));
                j = j + 1;
            }
            append_lines(&mut s, &self.conditional_impls);
        }
        let ghost part2 = s@;
        assert(part2 =~= part1 + (if m.roster_types.len() > 0 || m.conditional_impls.len() > 0 {
            "\n## trait impls ("@ + decimal(m.roster_types.len()) + " types)\n\n"@ + roster_block(
                m.roster_types,
                m.roster_traits,
                m.roster_types.len() as int,
            ) + line_block(m.conditional_impls)
        } else {
            Seq::empty()
        }));
        if self.auto_types.len() > 0 {
            let exceptions = self.auto_exceptions_text();
            append_str(&mut s, "\n## auto traits\n\n");
            let c = self.auto_complete_count();
            crate::text::append_decimal(&mut s, c);
            append_str(&mut s, " types implement all of: ");
            append_str(&mut s, "Freeze, RefUnwindSafe, Send, Sync, Unpin, UnwindSafe");
            s.push('\n');
            append_lines(&mut s, &exceptions);
            let conds = self.auto_conditional_lines();
            append_lines(&mut s, &conds);
        }
        assert(s@ =~= body_spec(m));
        s
    }

    /// The body.
    pub fn render_body(&self) -> (r: String)
        requires
            self.fits(),
        ensures
            r@ == body_spec(self.model()),
    {
        let t = self.render_body_text();
        to_string(&t)
    }
}
} // verus!
