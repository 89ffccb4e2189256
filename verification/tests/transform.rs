use zenutils::render::auto_is_complete;
use zenutils::syntax::simplify_trait_path;
use zenutils::transform::{transform, Transformed};

fn t(lines: &[&str]) -> Transformed {
    let owned: Vec<String> = lines.iter().map(|s| (*s).to_owned()).collect();
    transform(&owned, "demo")
}

fn s(v: &[char]) -> String {
    v.iter().collect()
}

fn items(out: &Transformed) -> Vec<String> {
    out.items.iter().map(|l| s(l)).collect()
}

fn roster(out: &Transformed, ty: &str) -> Option<Vec<String>> {
    let i = out.roster_types.iter().position(|k| s(k) == ty)?;
    Some(out.roster_traits[i].iter().map(|l| s(l)).collect())
}

fn per_module(out: &Transformed, module: &str) -> Option<usize> {
    let i = out.module_names.iter().position(|k| s(k) == module)?;
    Some(out.module_counts[i])
}

#[test]
fn crate_prefix_stripped_everywhere() {
    let out = t(&["pub fn demo::util::helper(demo::util::Thing) -> demo::Kind"]);
    assert_eq!(items(&out), ["pub fn util::helper(util::Thing) -> Kind"]);
}

#[test]
fn trait_impls_collapse_to_roster_and_members_drop() {
    let out = t(&[
        "impl core::clone::Clone for demo::Thing",
        "pub fn demo::Thing::clone(&self) -> demo::Thing",
        "impl core::fmt::Debug for demo::Thing",
        "pub fn demo::Thing::fmt(&self, &mut core::fmt::Formatter<'_>) -> core::fmt::Result",
        "impl serde::ser::Serialize for demo::Thing",
        "pub fn demo::Thing::serialize<S>(&self, S) -> Result<S::Ok, S::Error>",
        "impl demo::Thing",
        "pub fn demo::Thing::inherent(&self) -> u32",
    ]);
    let names = roster(&out, "Thing").expect("Thing roster");
    assert_eq!(names, ["Clone", "Debug", "serde::ser::Serialize"]);
    // Trait-impl methods dropped; inherent method kept.
    assert_eq!(items(&out), ["pub fn Thing::inherent(&self) -> u32"]);
    assert_eq!(out.tally.assoc_fns, 1);
}

#[test]
fn auto_traits_count_and_exceptions() {
    let mut lines = Vec::new();
    for tr in [
        "core::marker::Freeze",
        "core::marker::Send",
        "core::marker::Sync",
        "core::marker::Unpin",
        "core::panic::unwind_safe::RefUnwindSafe",
        "core::panic::unwind_safe::UnwindSafe",
    ] {
        lines.push(format!("impl {tr} for demo::Complete"));
    }
    // Partial type: explicit negatives for the unwind traits.
    for tr in [
        "core::marker::Freeze",
        "core::marker::Send",
        "core::marker::Sync",
        "core::marker::Unpin",
    ] {
        lines.push(format!("impl {tr} for demo::Partial"));
    }
    lines.push("impl !core::panic::unwind_safe::RefUnwindSafe for demo::Partial".into());
    lines.push("impl !core::panic::unwind_safe::UnwindSafe for demo::Partial".into());
    // Marker noise that must vanish entirely.
    lines.push("impl core::marker::StructuralPartialEq for demo::Complete".into());
    let owned: Vec<String> = lines;
    let out = transform(&owned, "demo");
    assert_eq!(out.auto_complete_count(), 1);
    assert_eq!(out.auto_exceptions(), ["Partial: !RefUnwindSafe !UnwindSafe"]);
    assert!(out.roster_types.is_empty());
}

#[test]
fn conditional_impls_kept_verbatim() {
    let out = t(&[
        "impl<T> core::marker::Send for demo::Wrap<T> where T: core::marker::Send",
        "impl<T> demo::Trait for demo::Wrap<T> where T: core::clone::Clone",
    ]);
    let i = out
        .auto_types
        .iter()
        .position(|k| s(k) == "Wrap<T>")
        .expect("auto info");
    let auto = &out.auto_infos[i];
    assert_eq!(auto.conditional.len(), 1);
    assert!(!auto_is_complete(auto));
    assert_eq!(out.conditional_impls.len(), 1);
    assert!(s(&out.conditional_impls[0]).contains("where"));
}

#[test]
fn fields_and_variants_survive_trait_member_context() {
    // A field line directly after a trait impl line must NOT be treated
    // as an impl member.
    let out = t(&[
        "impl core::clone::Clone for demo::Config",
        "pub demo::Config::level: u8",
        "pub demo::Kind::VariantA",
    ]);
    assert_eq!(out.items.len(), 2);
    assert_eq!(out.tally.fields, 1);
    assert_eq!(out.tally.variants, 1);
}

#[test]
fn reexport_duplicates_annotated() {
    let out = t(&[
        "pub fn demo::compress(&[u8]) -> Vec<u8>",
        "pub fn demo::deflate::compress(&[u8]) -> Vec<u8>",
        "pub fn demo::deflate::other(&[u8]) -> Vec<u8>",
    ]);
    assert_eq!(
        items(&out),
        [
            "pub fn compress(&[u8]) -> Vec<u8> [also: deflate]",
            "pub fn deflate::other(&[u8]) -> Vec<u8>",
        ]
    );
}

#[test]
fn members_never_dedupe_across_types() {
    let out = t(&[
        "pub fn demo::A::len(&self) -> usize",
        "pub fn demo::B::len(&self) -> usize",
    ]);
    assert_eq!(out.items.len(), 2);
}

#[test]
fn classify_taxonomy() {
    let out = t(&[
        "pub mod demo::util",
        "pub struct demo::util::Thing",
        "pub demo::util::Thing::field: u32",
        "pub fn demo::util::Thing::method(&self) -> u32",
        "pub fn demo::util::helper(u32) -> u32",
        "pub fn demo::root_fn() -> bool",
        "pub enum demo::Kind",
        "pub demo::Kind::VariantA",
        "pub demo::Kind::VariantB(u8)",
        "pub const demo::MAX: usize",
        "#[non_exhaustive] pub struct demo::Opts",
    ]);
    let t = &out.tally;
    assert_eq!(t.modules, 1);
    assert_eq!(t.types, 3);
    assert_eq!(t.fields, 1);
    assert_eq!(t.variants, 2);
    assert_eq!(t.free_fns, 2);
    assert_eq!(t.assoc_fns, 1);
    assert_eq!(t.consts, 1);
    assert_eq!(per_module(&out, "util"), Some(4));
    assert!(per_module(&out, "(root)").is_some());
}

#[test]
fn simplify_trait_paths() {
    assert_eq!(simplify_trait_path("core::clone::Clone"), "Clone");
    assert_eq!(simplify_trait_path("core::convert::From<u8>"), "From<u8>");
    assert_eq!(
        simplify_trait_path("serde::ser::Serialize"),
        "serde::ser::Serialize"
    );
    assert_eq!(simplify_trait_path("zencodec::Encode"), "zencodec::Encode");
}

#[test]
fn summary_and_body_render_counts() {
    let out = t(&["pub fn demo::f()", "pub mod demo::util", "pub fn demo::util::g()"]);
    let summary = out.render_summary();
    let expected = format!(
        "## summary\n#\n#   {:<38} {:>6}\n#   {:<38} {:>6}\n#\n# per-module pub lines:\n#   {:<28} {:>6}\n#   {:<28} {:>6}\n",
        "pub modules", 1, "free functions", 2, "(root)", 2, "util", 1
    );
    assert_eq!(summary, expected);
    assert_eq!(
        out.render_body(),
        "\n## items (3 lines)\n\npub fn f()\npub mod util\npub fn util::g()\n"
    );
    assert_eq!(out.total_lines(), 3);
}

#[test]
fn roster_and_auto_sections_render() {
    let out = t(&[
        "impl core::fmt::Debug for demo::A",
        "impl core::clone::Clone for demo::A",
        "impl<T> core::clone::Clone for demo::B<T> where T: core::clone::Clone",
        "impl core::marker::Send for demo::A",
    ]);
    assert_eq!(out.roster_entry_count(), 2);
    assert_eq!(
        out.render_body(),
        "\n## items (0 lines)\n\n\n## trait impls (1 types)\n\nA: Clone, Debug\n\
         impl<T> core::clone::Clone for B<T> where T: core::clone::Clone\n\
         \n## auto traits\n\n0 types implement all of: Freeze, RefUnwindSafe, Send, Sync, Unpin, UnwindSafe\n\
         A: !Freeze !RefUnwindSafe !Sync !Unpin !UnwindSafe\n"
    );
    assert_eq!(out.total_lines(), 4);
}

#[test]
fn conditional_auto_impls_rendered_verbatim() {
    let out = t(&["impl<T> core::marker::Send for demo::Wrap<T> where T: core::marker::Send"]);
    let body = out.render_body();
    assert!(body.contains("\nimpl<T> core::marker::Send for Wrap<T> where T: core::marker::Send\n"));
    assert!(body.ends_with(
        "\n## auto traits\n\n0 types implement all of: Freeze, RefUnwindSafe, Send, Sync, Unpin, UnwindSafe\n\
         Wrap<T>: !Freeze !RefUnwindSafe !Send !Sync !Unpin !UnwindSafe\n\
         impl<T> core::marker::Send for Wrap<T> where T: core::marker::Send\n"
    ));
    assert_eq!(out.auto_conditional_lines().len(), 1);
    assert_eq!(out.total_lines(), 3);
}
