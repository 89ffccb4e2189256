//! What a snapshot run reads from `cargo metadata`: the publishable library
//! members, each package's features, and its cargo identity.
use vstd::prelude::*;
use crate::order::{sort_texts, sorted_texts};
use crate::text::{
    append, copy_text, replace_chars,
    replace_char, same_as_str, same_text, text, to_string, to_strings, views,
};

verus! {

/// One build target of a package.
pub struct TargetMeta {
    /// The target name, when the metadata gives it as a string.
    pub name: Option<String>,
    /// The target kinds (`lib`, `bin`, ...), when the metadata gives an array.
    pub kind: Option<Vec<String>>,
}

/// One workspace member as `cargo metadata --no-deps` describes it.
pub struct PackageMeta {
    pub name: Option<String>,
    pub version: Option<String>,
    /// `publish`: `None` when it is not an array (unrestricted), else the
    /// registries it may be published to (empty: not publishable).
    pub publish: Option<Vec<String>>,
    pub targets: Option<Vec<TargetMeta>>,
    /// The keys of the `features` map, when there is one.
    pub features: Option<Vec<String>>,
}

/// The workspace as `cargo metadata --no-deps` describes it.
pub struct WorkspaceMeta {
    pub workspace_root: Option<String>,
    pub target_directory: Option<String>,
    pub packages: Vec<PackageMeta>,
}

/// The string views of a sequence of strings.
pub open spec fn svs(v: Seq<String>) -> Seq<Seq<char>> {
    v.map_values(|s: String| s@)
}

/// A kind that marks a library-ish target.
pub open spec fn lib_kind(k: Seq<char>) -> bool {
    k == "lib"@ || k == "rlib"@ || k == "proc-macro"@
}

/// The target is a `lib`, `rlib` or `proc-macro` target.
pub open spec fn is_lib_target(t: TargetMeta) -> bool {
    t.kind is Some && exists|i: int|
        0 <= i < t.kind->0@.len() && lib_kind(#[trigger] t.kind->0@[i]@)
}

/// The package is publishable (its `publish` is not an empty array) and has
/// a library-ish target.
pub open spec fn publishable_lib(p: PackageMeta) -> bool {
    &&& !(p.publish is Some && p.publish->0@.len() == 0)
    &&& p.targets is Some
    &&& exists|i: int| 0 <= i < p.targets->0@.len() && is_lib_target(#[trigger] p.targets->0@[i])
}

/// Names of the publishable library packages among the first `n`.
pub open spec fn publishable_names(ps: Seq<PackageMeta>, n: int) -> Seq<Seq<char>>
    decreases n,
{
    if n <= 0 {
        Seq::empty()
    } else {
        let prev = publishable_names(ps, n - 1);
        let p = ps[n - 1];
        if publishable_lib(p) && p.name is Some {
            prev.push(p.name->0@)
        } else {
            prev
        }
    }
}

/// The publishable library members, by name, sorted.
pub open spec fn discover_spec(meta: WorkspaceMeta) -> Seq<Seq<char>> {
    sorted_texts(publishable_names(meta.packages@, meta.packages@.len() as int))
}

proof fn lemma_names_keep(ps: Seq<PackageMeta>, n: int, i: int)
    requires
        0 <= i < n <= ps.len(),
        publishable_lib(ps[i]),
        ps[i].name is Some,
    ensures
        publishable_names(ps, n).contains(ps[i].name->0@),
    decreases n,
{
    let v = publishable_names(ps, n);
    if i < n - 1 {
        lemma_names_keep(ps, n - 1, i);
        let prev = publishable_names(ps, n - 1);
        let j = choose|j: int| 0 <= j < prev.len() && prev[j] == ps[i].name->0@;
        assert(v[j] == ps[i].name->0@);
    } else {
        assert(v[v.len() - 1] == ps[i].name->0@);
    }
}

proof fn lemma_names_from(ps: Seq<PackageMeta>, n: int, x: Seq<char>)
    requires
        0 <= n <= ps.len(),
        publishable_names(ps, n).contains(x),
    ensures
        exists|i: int| 0 <= i < n && publishable_lib(#[trigger] ps[i]) && (ps[i].name is Some && ps[i].name->0@ == x),
    decreases n,
{
    let prev = publishable_names(ps, n - 1);
    let p = ps[n - 1];
    if prev.contains(x) {
        lemma_names_from(ps, n - 1, x);
        let i = choose|i: int| 0 <= i < n - 1 && publishable_lib(#[trigger] ps[i]) && (ps[i].name is Some && ps[i].name->0@ == x);
        assert(0 <= i < n && publishable_lib(ps[i]) && (ps[i].name is Some && ps[i].name->0@ == x));
    } else {
        let v = publishable_names(ps, n);
        let j = choose|j: int| 0 <= j < v.len() && v[j] == x;
        assert(publishable_lib(p) && p.name is Some);
        assert(j == prev.len());
        assert(p.name->0@ == x);
        assert(publishable_lib(ps[n - 1]) && (ps[n - 1].name is Some && ps[n - 1].name->0@ == x));
    }
}

/// Discovery finds exactly the publishable library members: a member is
/// discovered when its `publish` is not an empty array and one of its
/// targets has kind `lib`, `rlib` or `proc-macro`; and every discovered
/// name is such a member's.
pub proof fn lemma_discovery(meta: WorkspaceMeta, i: int, j: int, k: int, x: Seq<char>)
    ensures
        ({
            let p = meta.packages@[i];
            &&& 0 <= i < meta.packages@.len()
            &&& p.name is Some
            &&& !(p.publish is Some && p.publish->0@.len() == 0)
            &&& p.targets is Some
            &&& 0 <= j < p.targets->0@.len()
            &&& p.targets->0@[j].kind is Some
            &&& 0 <= k < p.targets->0@[j].kind->0@.len()
            &&& {
                let kind = p.targets->0@[j].kind->0@[k]@;
                kind == "lib"@ || kind == "rlib"@ || kind == "proc-macro"@
            }
        }) ==> discover_spec(meta).contains(meta.packages@[i].name->0@),
        discover_spec(meta).contains(x) ==> exists|a: int, b: int, c: int| {
            &&& 0 <= a < meta.packages@.len()
            &&& (meta.packages@[a].name is Some && meta.packages@[a].name->0@ == x)
            &&& !(meta.packages@[a].publish is Some && meta.packages@[a].publish->0@.len() == 0)
            &&& meta.packages@[a].targets is Some
            &&& 0 <= b < meta.packages@[a].targets->0@.len()
            &&& #[trigger] meta.packages@[a].targets->0@[b].kind is Some
            &&& 0 <= c < meta.packages@[a].targets->0@[b].kind->0@.len()
            &&& {
                let kind = #[trigger] meta.packages@[a].targets->0@[b].kind->0@[c]@;
                kind == "lib"@ || kind == "rlib"@ || kind == "proc-macro"@
            }
        },
{
    let ps = meta.packages@;
    let names = publishable_names(ps, ps.len() as int);
    if 0 <= i < ps.len() && ps[i].name is Some && !(ps[i].publish is Some && ps[i].publish->0@.len() == 0)
        && ps[i].targets is Some && 0 <= j < ps[i].targets->0@.len() && ps[i].targets->0@[j].kind is Some
        && 0 <= k < ps[i].targets->0@[j].kind->0@.len() && {
            let kind = ps[i].targets->0@[j].kind->0@[k]@;
            kind == "lib"@ || kind == "rlib"@ || kind == "proc-macro"@
        } {
        let t = ps[i].targets->0@[j];
        assert(lib_kind(t.kind->0@[k]@));
        assert(is_lib_target(t));
        assert(publishable_lib(ps[i]));
        lemma_names_keep(ps, ps.len() as int, i);
        crate::order::lemma_sorted_elems(names, ps[i].name->0@);
    }
    crate::order::lemma_sorted_elems(names, x);
    if discover_spec(meta).contains(x) {
        lemma_names_from(ps, ps.len() as int, x);
        let a = choose|a: int| 0 <= a < ps.len() && publishable_lib(#[trigger] ps[a]) && (ps[a].name is Some && ps[a].name->0@ == x);
        let b = choose|b: int| 0 <= b < ps[a].targets->0@.len() && is_lib_target(#[trigger] ps[a].targets->0@[b]);
        let t = ps[a].targets->0@[b];
        let c = choose|c: int| 0 <= c < t.kind->0@.len() && lib_kind(#[trigger] t.kind->0@[c]@);
        assert(meta.packages@[a].targets->0@[b].kind is Some);
        assert({
            let kind = meta.packages@[a].targets->0@[b].kind->0@[c]@;
            kind == "lib"@ || kind == "rlib"@ || kind == "proc-macro"@
        });
    }
}

/// Index of the first package named `name`; -1 if there is none.
pub open spec fn package_index(ps: Seq<PackageMeta>, name: Seq<char>, from: int) -> int
    decreases ps.len() - from,
{
    if from < 0 || from >= ps.len() {
        -1
    } else if ps[from].name is Some && ps[from].name->0@ == name {
        from
    } else {
        package_index(ps, name, from + 1)
    }
}

/// A feature that is excluded: `_`-prefixed, or configured as excluded.
pub open spec fn excluded_feature(k: Seq<char>, excluded_cfg: Seq<Seq<char>>) -> bool {
    (k.len() > 0 && k[0] == '_') || excluded_cfg.contains(k)
}

/// Features among the first `n` keys that are included (`want_excluded`
/// false) or excluded (true); `default` is neither.
pub open spec fn feature_part(keys: Seq<Seq<char>>, excluded_cfg: Seq<Seq<char>>, want_excluded: bool, n: int) -> Seq<Seq<char>>
    decreases n,
{
    if n <= 0 {
        Seq::empty()
    } else {
        let prev = feature_part(keys, excluded_cfg, want_excluded, n - 1);
        let k = keys[n - 1];
        if k == "default"@ {
            prev
        } else if excluded_feature(k, excluded_cfg) == want_excluded {
            prev.push(k)
        } else {
            prev
        }
    }
}

/// Why the metadata does not answer a question about a package.
pub enum MetaError {
    /// No package of that name is in the metadata.
    NotInWorkspace,
    /// The package has no `features` map.
    NoFeatures,
    /// The package has no version string.
    NoVersion,
    /// The package has no targets array.
    NoTargets,
    /// The metadata has no target directory.
    NoTargetDirectory,
}

/// Cargo-facing identity of one snapshotted crate.
pub struct PkgRef {
    /// `name@version`: unambiguous even when the registry release of the same
    /// crate is in the resolve graph.
    pub spec: String,
    /// rustdoc's JSON file stem: the library target's name with `-` as `_`.
    pub json_name: String,
    /// The target directory.
    pub target_dir: String,
}

/// Index of the first target of kind lib/rlib/proc-macro; -1 if none.
pub open spec fn lib_target_index(ts: Seq<TargetMeta>, from: int) -> int
    decreases ts.len() - from,
{
    if from < 0 || from >= ts.len() {
        -1
    } else if is_lib_target(ts[from]) {
        from
    } else {
        lib_target_index(ts, from + 1)
    }
}

/// The name rustdoc's output is named after: the first library target's
/// name, or the package name when that target has none (or there is no
/// library target).
pub open spec fn lib_target_name(ts: Seq<TargetMeta>, package: Seq<char>) -> Seq<char> {
    let i = lib_target_index(ts, 0);
    if i >= 0 && ts[i].name is Some {
        ts[i].name->0@
    } else {
        package
    }
}

// ---------------------------------------------------------------------------
// Executable
fn has_lib_kind(t: &TargetMeta) -> (r: bool)
    ensures
        r == is_lib_target(*t),
{
    match &t.kind {
        None => false,
        Some(kinds) => {
            let mut i: usize = 0;
            while i < kinds.len()
                invariant
                    i <= kinds.len(),
                    t.kind == Some(*kinds),
                    forall|j: int| 0 <= j < i ==> !lib_kind(#[trigger] kinds@[j]@),
                decreases kinds.len() - i,
            {
                let k = text(kinds[i].as_str());
                if same_as_str(&k, "lib") || same_as_str(&k, "rlib") || same_as_str(&k, "proc-macro") {
                    assert(lib_kind(kinds@[i as int]@));
                    assert(t.kind->0 == *kinds);
                    assert(lib_kind(t.kind->0@[i as int]@));
                    return true;
                }
                i = i + 1;
            }
            false
        },
    }
}

fn is_publishable_lib(p: &PackageMeta) -> (r: bool)
    ensures
        r == publishable_lib(*p),
{
    match &p.publish {
        Some(a) => {
            if a.len() == 0 {
                return false;
            }
            assert(p.publish->0 == *a);
        },
        None => {},
    }
    match &p.targets {
        None => false,
        Some(ts) => {
            let mut i: usize = 0;
            while i < ts.len()
                invariant
                    i <= ts.len(),
                    p.targets == Some(*ts),
                    !(p.publish is Some && p.publish->0@.len() == 0),
                    forall|j: int| 0 <= j < i ==> !is_lib_target(#[trigger] ts@[j]),
                decreases ts.len() - i,
            {
                if has_lib_kind(&ts[i]) {
                    assert(is_lib_target(ts@[i as int]));
                    assert(p.targets->0 == *ts);
                    assert(is_lib_target(p.targets->0@[i as int]));
                    return true;
                }
                i = i + 1;
            }
            false
        },
    }
}

/// Workspace members that are publishable (`publish` is not an empty array)
/// and have a `lib`, `rlib` or `proc-macro` target, sorted by name.
pub fn discover_publishable_libs(meta: &WorkspaceMeta) -> (r: Vec<String>)
    ensures
        svs(r@) == discover_spec(*meta),
{
    let ps = &meta.packages;
    let mut names: Vec<Vec<char>> = Vec::new();
    let mut i: usize = 0;
    while i < ps.len()
        invariant
            ps == &meta.packages,
            i <= ps.len(),
            views(names@) == publishable_names(ps@, i as int),
        decreases ps.len() - i,
    {
        let p = &ps[i];
        if is_publishable_lib(p) {
            match &p.name {
                Some(n) => {
                    let ghost before = views(names@);
                    names.push(text(n.as_str()));
                    assert(views(names@) =~= before.push(n@));
                },
                None => {},
            }
        }
        i = i + 1;
    }
    let sorted = sort_texts(names);
    let r = to_strings(&sorted);
    assert(svs(r@) =~= views(sorted@));
    r
}

/// The first package named `name`.
fn find_package<'a>(meta: &'a WorkspaceMeta, name: &Vec<char>) -> (r: Option<&'a PackageMeta>)
    ensures
        match r {
            Some(p) => package_index(meta.packages@, name@, 0) >= 0 && *p == meta.packages@[package_index(meta.packages@, name@, 0)],
            None => package_index(meta.packages@, name@, 0) == -1,
        },
{
    let ps = &meta.packages;
    let mut i: usize = 0;
    while i < ps.len()
        invariant
            ps == &meta.packages,
            i <= ps.len(),
            package_index(ps@, name@, 0) == package_index(ps@, name@, i as int),
        decreases ps.len() - i,
    {
        match &ps[i].name {
            Some(n) => {
                let nt = text(n.as_str());
                if same_text(&nt, name) {
                    return Some(&ps[i]);
                }
            },
            None => {},
        }
        i = i + 1;
    }
    None
}

/// Whether the text is one of the configured names.
pub fn contains_name(names: &Vec<String>, k: &Vec<char>) -> (r: bool)
    ensures
        r == svs(names@).contains(k@),
{
    let mut i: usize = 0;
    while i < names.len()
        invariant
            i <= names.len(),
            forall|j: int| 0 <= j < i ==> names@[j]@ != k@,
        decreases names.len() - i,
    {
        let t = text(names[i].as_str());
        if same_text(&t, k) {
            assert(svs(names@)[i as int] == k@);
            return true;
        }
        i = i + 1;
    }
    assert(!svs(names@).contains(k@)) by {
        if svs(names@).contains(k@) {
            let j = choose|j: int| 0 <= j < svs(names@).len() && svs(names@)[j] == k@;
            assert(names@[j]@ == k@);
        }
    }
    false
}

/// Manifest features of `package`, split into (included, excluded), each
/// sorted: excluded are the `_`-prefixed ones and those in `excluded_cfg`;
/// `default` is neither.
pub fn split_features(meta: &WorkspaceMeta, package: &str, excluded_cfg: &Vec<String>) -> (r: Result<(Vec<String>, Vec<String>), MetaError>)
    ensures
        match r {
            Ok((inc, exc)) => {
                let i = package_index(meta.packages@, package@, 0);
                &&& i >= 0
                &&& meta.packages@[i].features is Some
                &&& svs(inc@) == sorted_texts(feature_part(svs(meta.packages@[i].features->0@), svs(excluded_cfg@), false, meta.packages@[i].features->0@.len() as int))
                &&& svs(exc@) == sorted_texts(feature_part(svs(meta.packages@[i].features->0@), svs(excluded_cfg@), true, meta.packages@[i].features->0@.len() as int))
            },
            Err(MetaError::NotInWorkspace) => package_index(meta.packages@, package@, 0) == -1,
            Err(MetaError::NoFeatures) => {
                let i = package_index(meta.packages@, package@, 0);
                i >= 0 && meta.packages@[i].features is None
            },
            Err(_) => false,
        },
{
    let name = text(package);
    let pkg = match find_package(meta, &name) {
        Some(p) => p,
        None => {
            return Err(MetaError::NotInWorkspace);
        },
    };
    let keys = match &pkg.features {
        Some(k) => k,
        None => {
            return Err(MetaError::NoFeatures);
        },
    };
    let ghost ks = svs(keys@);
    let ghost cfg = svs(excluded_cfg@);
    let mut included: Vec<Vec<char>> = Vec::new();
    let mut excluded: Vec<Vec<char>> = Vec::new();
    let mut i: usize = 0;
    while i < keys.len()
        invariant
            i <= keys.len(),
            ks == svs(keys@),
            cfg == svs(excluded_cfg@),
            views(included@) == feature_part(ks, cfg, false, i as int),
            views(excluded@) == feature_part(ks, cfg, true, i as int),
        decreases keys.len() - i,
    {
        let k = text(keys[i].as_str());
        if !same_as_str(&k, "default") {
            let is_excluded = (k.len() > 0 && k[0] == '_') || contains_name(excluded_cfg, &k);
            let ghost bi = views(included@);
            let ghost be = views(excluded@);
            if is_excluded {
                excluded.push(k);
                assert(views(excluded@) =~= be.push(ks[i as int]));
            } else {
                included.push(k);
                assert(views(included@) =~= bi.push(ks[i as int]));
            }
        }
        i = i + 1;
    }
    let inc = sort_texts(included);
    let exc = sort_texts(excluded);
    let a = to_strings(&inc);
    let b = to_strings(&exc);
    assert(svs(a@) =~= views(inc@));
    assert(svs(b@) =~= views(exc@));
    Ok((a, b))
}

/// The first library target's index.
fn first_lib_target(ts: &Vec<TargetMeta>) -> (r: Option<usize>)
    ensures
        match r {
            Some(i) => lib_target_index(ts@, 0) == i as int && i < ts.len(),
            None => lib_target_index(ts@, 0) == -1,
        },
{
    let mut i: usize = 0;
    while i < ts.len()
        invariant
            i <= ts.len(),
            lib_target_index(ts@, 0) == lib_target_index(ts@, i as int),
        decreases ts.len() - i,
    {
        if has_lib_kind(&ts[i]) {
            return Some(i);
        }
        i = i + 1;
    }
    None
}

/// The cargo identity of `package`: its `name@version` spec, rustdoc's JSON
/// file stem (library target name, `-` as `_`), and the target directory.
pub fn pkg_ref(meta: &WorkspaceMeta, package: &str) -> (r: Result<PkgRef, MetaError>)
    ensures
        match r {
            Ok(p) => {
                let i = package_index(meta.packages@, package@, 0);
                let pm = meta.packages@[i];
                &&& i >= 0
                &&& pm.version is Some
                &&& pm.targets is Some
                &&& meta.target_directory is Some
                &&& p.spec@ == package@ + seq!['@'] + pm.version->0@
                &&& p.json_name@ == replace_char(lib_target_name(pm.targets->0@, package@), '-', '_')
                &&& p.target_dir@ == meta.target_directory->0@
            },
            Err(MetaError::NotInWorkspace) => package_index(meta.packages@, package@, 0) == -1,
            Err(MetaError::NoVersion) => {
                let i = package_index(meta.packages@, package@, 0);
                i >= 0 && meta.packages@[i].version is None
            },
            Err(MetaError::NoTargets) => {
                let i = package_index(meta.packages@, package@, 0);
                i >= 0 && meta.packages@[i].version is Some && meta.packages@[i].targets is None
            },
            Err(MetaError::NoTargetDirectory) => {
                let i = package_index(meta.packages@, package@, 0);
                &&& i >= 0
                &&& meta.packages@[i].version is Some
                &&& meta.packages@[i].targets is Some
                &&& meta.target_directory is None
            },
            Err(MetaError::NoFeatures) => false,
        },
{
    let name = text(package);
    let pkg = match find_package(meta, &name) {
        Some(p) => p,
        None => {
            return Err(MetaError::NotInWorkspace);
        },
    };
    let version = match &pkg.version {
        Some(v) => v,
        None => {
            return Err(MetaError::NoVersion);
        },
    };
    let ts = match &pkg.targets {
        Some(t) => t,
        None => {
            return Err(MetaError::NoTargets);
        },
    };
    let lib = match first_lib_target(ts) {
        Some(i) => match &ts[i].name {
            Some(n) => text(n.as_str()),
            None => copy_text(&name),
        },
        None => copy_text(&name),
    };
    let target_dir = match &meta.target_directory {
        Some(d) => d.clone(),
        None => {
            return Err(MetaError::NoTargetDirectory);
        },
    };
    let mut spec = copy_text(&name);
    spec.push('@');
    let vt = text(version.as_str());
    append(&mut spec, &vt);
    let json = replace_chars(&lib, '-', '_');
    Ok(PkgRef { spec: to_string(&spec), json_name: to_string(&json), target_dir })
}

} // verus!
