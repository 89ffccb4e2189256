//! The taxonomy of item lines: what kind of public item a line declares, and
//! which module it belongs to.
use vstd::prelude::*;
use crate::syntax::{
    before_char, before_first, leading_path, leading_path_spec, module_of, module_of_spec,
    path_segments, segments,
};
use crate::text::{has_prefix, is_uppercase, slice, starts_with_str, text, unicode_uppercase};

verus! {

/// The kind of public item an item line declares.
#[derive(Clone, Copy)]
pub enum LineClass {
    Module,
    Type,
    Const,
    Macro,
    FreeFn,
    AssocFn,
    Field,
    Variant,
    Reexport,
    Other,
}

/// Counts of item lines per kind.
#[derive(Clone, Copy)]
pub struct Tally {
    pub modules: usize,
    pub types: usize,
    pub consts: usize,
    pub macros: usize,
    pub free_fns: usize,
    pub assoc_fns: usize,
    pub fields: usize,
    pub variants: usize,
    pub reexports: usize,
    pub other: usize,
}

/// How many of the classes are `c`.
pub open spec fn class_count(cs: Seq<LineClass>, c: LineClass) -> nat
    decreases cs.len(),
{
    if cs.len() == 0 {
        0
    } else {
        class_count(cs.drop_last(), c) + if cs.last() == c { 1nat } else { 0nat }
    }
}

/// The tally of a sequence of line classes.
pub open spec fn tally_of(cs: Seq<LineClass>) -> Tally {
    Tally {
        modules: class_count(cs, LineClass::Module) as usize,
        types: class_count(cs, LineClass::Type) as usize,
        consts: class_count(cs, LineClass::Const) as usize,
        macros: class_count(cs, LineClass::Macro) as usize,
        free_fns: class_count(cs, LineClass::FreeFn) as usize,
        assoc_fns: class_count(cs, LineClass::AssocFn) as usize,
        fields: class_count(cs, LineClass::Field) as usize,
        variants: class_count(cs, LineClass::Variant) as usize,
        reexports: class_count(cs, LineClass::Reexport) as usize,
        other: class_count(cs, LineClass::Other) as usize,
    }
}

/// The body after a leading item keyword (`mod `, `struct `, `enum `,
/// `trait `, `type `, `union `, `const `, `static `, `fn `, `use `, the first
/// that matches), or the whole body.
pub open spec fn keyword_stripped(body: Seq<char>) -> Seq<char> {
    if has_prefix(body, "mod "@) {
        body.subrange("mod "@.len() as int, body.len() as int)
    } else if has_prefix(body, "struct "@) {
        body.subrange("struct "@.len() as int, body.len() as int)
    } else if has_prefix(body, "enum "@) {
        body.subrange("enum "@.len() as int, body.len() as int)
    } else if has_prefix(body, "trait "@) {
        body.subrange("trait "@.len() as int, body.len() as int)
    } else if has_prefix(body, "type "@) {
        body.subrange("type "@.len() as int, body.len() as int)
    } else if has_prefix(body, "union "@) {
        body.subrange("union "@.len() as int, body.len() as int)
    } else if has_prefix(body, "const "@) {
        body.subrange("const "@.len() as int, body.len() as int)
    } else if has_prefix(body, "static "@) {
        body.subrange("static "@.len() as int, body.len() as int)
    } else if has_prefix(body, "fn "@) {
        body.subrange("fn "@.len() as int, body.len() as int)
    } else if has_prefix(body, "use "@) {
        body.subrange("use "@.len() as int, body.len() as int)
    } else {
        body
    }
}

/// A function whose parent segment (generics cut off) starts with an
/// uppercase letter is a method; any other is a free function.
pub open spec fn fn_class(sig: Seq<char>) -> LineClass {
    let segs = segments(leading_path_spec(sig));
    let parent = if segs.len() >= 2 { segs[segs.len() - 2] } else { Seq::empty() };
    let p = before_char(parent, '<');
    if p.len() > 0 && unicode_uppercase(p[0]) {
        LineClass::AssocFn
    } else {
        LineClass::FreeFn
    }
}

/// The kind of item an (attribute-stripped) line declares.
pub open spec fn line_class(l: Seq<char>) -> LineClass {
    if !has_prefix(l, "pub "@) {
        LineClass::Other
    } else {
        let body = l.subrange("pub "@.len() as int, l.len() as int);
        if has_prefix(body, "mod "@) {
            LineClass::Module
        } else if has_prefix(body, "struct "@) || has_prefix(body, "enum "@) || has_prefix(
            body,
            "trait "@,
        ) || has_prefix(body, "type "@) || has_prefix(body, "union "@) {
            LineClass::Type
        } else if has_prefix(body, "const "@) || has_prefix(body, "static "@) {
            LineClass::Const
        } else if has_prefix(body, "macro"@) {
            LineClass::Macro
        } else if has_prefix(body, "use "@) {
            LineClass::Reexport
        } else if has_prefix(body, "fn "@) {
            fn_class(body.subrange("fn "@.len() as int, body.len() as int))
        } else {
            let path = leading_path_spec(body);
            let after = body.subrange(path.len() as int, body.len() as int);
            if after.len() > 0 && after[0] == ':' {
                LineClass::Field
            } else {
                LineClass::Variant
            }
        }
    }
}

/// The module bucket a `pub` line counts in; `None` for other lines.
pub open spec fn line_module(l: Seq<char>) -> Option<Seq<char>> {
    if !has_prefix(l, "pub "@) {
        None
    } else {
        let body = l.subrange("pub "@.len() as int, l.len() as int);
        Some(module_of_spec(leading_path_spec(keyword_stripped(body))))
    }
}

pub proof fn lemma_class_count_bound(cs: Seq<LineClass>, c: LineClass)
    ensures
        class_count(cs, c) <= cs.len(),
    decreases cs.len(),
{
    if cs.len() > 0 {
        lemma_class_count_bound(cs.drop_last(), c);
    }
}

/// All line classes, counted.
pub open spec fn class_total(cs: Seq<LineClass>) -> nat {
    class_count(cs, LineClass::Module) + class_count(cs, LineClass::Type) + class_count(
        cs,
        LineClass::Const,
    ) + class_count(cs, LineClass::Macro) + class_count(cs, LineClass::FreeFn) + class_count(
        cs,
        LineClass::AssocFn,
    ) + class_count(cs, LineClass::Field) + class_count(cs, LineClass::Variant) + class_count(
        cs,
        LineClass::Reexport,
    ) + class_count(cs, LineClass::Other)
}

/// The taxonomy counts every classified line exactly once.
pub proof fn lemma_class_total(cs: Seq<LineClass>)
    ensures
        class_total(cs) == cs.len(),
    decreases cs.len(),
{
    if cs.len() > 0 {
        lemma_class_total(cs.drop_last());
    }
}

/// What the keyword after `pub ` makes a line: `struct`, `enum`, `trait`,
/// `type` and `union` declare types, `mod` a module, `const` and `static`
/// constants, `use` a re-export.
pub proof fn lemma_item_kinds(rest: Seq<char>)
    ensures
        line_class("pub struct "@ + rest) == LineClass::Type,
        line_class("pub enum "@ + rest) == LineClass::Type,
        line_class("pub trait "@ + rest) == LineClass::Type,
        line_class("pub type "@ + rest) == LineClass::Type,
        line_class("pub union "@ + rest) == LineClass::Type,
        line_class("pub mod "@ + rest) == LineClass::Module,
        line_class("pub const "@ + rest) == LineClass::Const,
        line_class("pub static "@ + rest) == LineClass::Const,
        line_class("pub use "@ + rest) == LineClass::Reexport,
{
    lemma_kind_struct(rest);
    lemma_kind_enum(rest);
    lemma_kind_trait(rest);
    lemma_kind_type(rest);
    lemma_kind_union(rest);
    lemma_kind_mod(rest);
    lemma_kind_const(rest);
    lemma_kind_static(rest);
    lemma_kind_use(rest);
}

proof fn lemma_kind_struct(rest: Seq<char>)
    ensures
        line_class("pub struct "@ + rest) == LineClass::Type,
{
    reveal_strlit("pub ");
    reveal_strlit("struct ");
    reveal_strlit("pub struct ");
    reveal_strlit("mod ");
    assert("pub struct "@ =~= "pub "@ + "struct "@);
    lemma_kind_of("pub struct "@, "struct "@, rest);
    let body = ("pub struct "@ + rest).subrange(4, ("pub struct "@ + rest).len() as int);
    lemma_no_prefix("struct "@, rest, "mod "@, 0);
    assert(!has_prefix(body, "mod "@));
    assert("struct "@.subrange(0, "struct "@.len() as int) =~= "struct "@);
    assert(has_prefix(body, "struct "@));
}

proof fn lemma_kind_enum(rest: Seq<char>)
    ensures
        line_class("pub enum "@ + rest) == LineClass::Type,
{
    reveal_strlit("pub ");
    reveal_strlit("enum ");
    reveal_strlit("pub enum ");
    reveal_strlit("mod ");
    reveal_strlit("struct ");
    assert("pub enum "@ =~= "pub "@ + "enum "@);
    lemma_kind_of("pub enum "@, "enum "@, rest);
    let body = ("pub enum "@ + rest).subrange(4, ("pub enum "@ + rest).len() as int);
    lemma_no_prefix("enum "@, rest, "mod "@, 0);
    assert(!has_prefix(body, "mod "@));
    lemma_no_prefix("enum "@, rest, "struct "@, 0);
    assert(!has_prefix(body, "struct "@));
    assert("enum "@.subrange(0, "enum "@.len() as int) =~= "enum "@);
    assert(has_prefix(body, "enum "@));
}

proof fn lemma_kind_trait(rest: Seq<char>)
    ensures
        line_class("pub trait "@ + rest) == LineClass::Type,
{
    reveal_strlit("pub ");
    reveal_strlit("trait ");
    reveal_strlit("pub trait ");
    reveal_strlit("mod ");
    reveal_strlit("struct ");
    reveal_strlit("enum ");
    assert("pub trait "@ =~= "pub "@ + "trait "@);
    lemma_kind_of("pub trait "@, "trait "@, rest);
    let body = ("pub trait "@ + rest).subrange(4, ("pub trait "@ + rest).len() as int);
    lemma_no_prefix("trait "@, rest, "mod "@, 0);
    assert(!has_prefix(body, "mod "@));
    lemma_no_prefix("trait "@, rest, "struct "@, 0);
    assert(!has_prefix(body, "struct "@));
    lemma_no_prefix("trait "@, rest, "enum "@, 0);
    assert(!has_prefix(body, "enum "@));
    assert("trait "@.subrange(0, "trait "@.len() as int) =~= "trait "@);
    assert(has_prefix(body, "trait "@));
}

proof fn lemma_kind_type(rest: Seq<char>)
    ensures
        line_class("pub type "@ + rest) == LineClass::Type,
{
    reveal_strlit("pub ");
    reveal_strlit("type ");
    reveal_strlit("pub type ");
    reveal_strlit("mod ");
    reveal_strlit("struct ");
    reveal_strlit("enum ");
    reveal_strlit("trait ");
    assert("pub type "@ =~= "pub "@ + "type "@);
    lemma_kind_of("pub type "@, "type "@, rest);
    let body = ("pub type "@ + rest).subrange(4, ("pub type "@ + rest).len() as int);
    lemma_no_prefix("type "@, rest, "mod "@, 0);
    assert(!has_prefix(body, "mod "@));
    lemma_no_prefix("type "@, rest, "struct "@, 0);
    assert(!has_prefix(body, "struct "@));
    lemma_no_prefix("type "@, rest, "enum "@, 0);
    assert(!has_prefix(body, "enum "@));
    lemma_no_prefix("type "@, rest, "trait "@, 1);
    assert(!has_prefix(body, "trait "@));
    assert("type "@.subrange(0, "type "@.len() as int) =~= "type "@);
    assert(has_prefix(body, "type "@));
}

proof fn lemma_kind_union(rest: Seq<char>)
    ensures
        line_class("pub union "@ + rest) == LineClass::Type,
{
    reveal_strlit("pub ");
    reveal_strlit("union ");
    reveal_strlit("pub union ");
    reveal_strlit("mod ");
    reveal_strlit("struct ");
    reveal_strlit("enum ");
    reveal_strlit("trait ");
    reveal_strlit("type ");
    assert("pub union "@ =~= "pub "@ + "union "@);
    lemma_kind_of("pub union "@, "union "@, rest);
    let body = ("pub union "@ + rest).subrange(4, ("pub union "@ + rest).len() as int);
    lemma_no_prefix("union "@, rest, "mod "@, 0);
    assert(!has_prefix(body, "mod "@));
    lemma_no_prefix("union "@, rest, "struct "@, 0);
    assert(!has_prefix(body, "struct "@));
    lemma_no_prefix("union "@, rest, "enum "@, 0);
    assert(!has_prefix(body, "enum "@));
    lemma_no_prefix("union "@, rest, "trait "@, 0);
    assert(!has_prefix(body, "trait "@));
    lemma_no_prefix("union "@, rest, "type "@, 0);
    assert(!has_prefix(body, "type "@));
    assert("union "@.subrange(0, "union "@.len() as int) =~= "union "@);
    assert(has_prefix(body, "union "@));
}

proof fn lemma_kind_mod(rest: Seq<char>)
    ensures
        line_class("pub mod "@ + rest) == LineClass::Module,
{
    reveal_strlit("pub ");
    reveal_strlit("mod ");
    reveal_strlit("pub mod ");
    assert("pub mod "@ =~= "pub "@ + "mod "@);
    lemma_kind_of("pub mod "@, "mod "@, rest);
    let body = ("pub mod "@ + rest).subrange(4, ("pub mod "@ + rest).len() as int);
    assert("mod "@.subrange(0, "mod "@.len() as int) =~= "mod "@);
    assert(has_prefix(body, "mod "@));
}

proof fn lemma_kind_const(rest: Seq<char>)
    ensures
        line_class("pub const "@ + rest) == LineClass::Const,
{
    reveal_strlit("pub ");
    reveal_strlit("const ");
    reveal_strlit("pub const ");
    reveal_strlit("mod ");
    reveal_strlit("struct ");
    reveal_strlit("enum ");
    reveal_strlit("trait ");
    reveal_strlit("type ");
    reveal_strlit("union ");
    assert("pub const "@ =~= "pub "@ + "const "@);
    lemma_kind_of("pub const "@, "const "@, rest);
    let body = ("pub const "@ + rest).subrange(4, ("pub const "@ + rest).len() as int);
    lemma_no_prefix("const "@, rest, "mod "@, 0);
    assert(!has_prefix(body, "mod "@));
    lemma_no_prefix("const "@, rest, "struct "@, 0);
    assert(!has_prefix(body, "struct "@));
    lemma_no_prefix("const "@, rest, "enum "@, 0);
    assert(!has_prefix(body, "enum "@));
    lemma_no_prefix("const "@, rest, "trait "@, 0);
    assert(!has_prefix(body, "trait "@));
    lemma_no_prefix("const "@, rest, "type "@, 0);
    assert(!has_prefix(body, "type "@));
    lemma_no_prefix("const "@, rest, "union "@, 0);
    assert(!has_prefix(body, "union "@));
    assert("const "@.subrange(0, "const "@.len() as int) =~= "const "@);
    assert(has_prefix(body, "const "@));
}

proof fn lemma_kind_static(rest: Seq<char>)
    ensures
        line_class("pub static "@ + rest) == LineClass::Const,
{
    reveal_strlit("pub ");
    reveal_strlit("static ");
    reveal_strlit("pub static ");
    reveal_strlit("mod ");
    reveal_strlit("struct ");
    reveal_strlit("enum ");
    reveal_strlit("trait ");
    reveal_strlit("type ");
    reveal_strlit("union ");
    reveal_strlit("const ");
    assert("pub static "@ =~= "pub "@ + "static "@);
    lemma_kind_of("pub static "@, "static "@, rest);
    let body = ("pub static "@ + rest).subrange(4, ("pub static "@ + rest).len() as int);
    lemma_no_prefix("static "@, rest, "mod "@, 0);
    assert(!has_prefix(body, "mod "@));
    lemma_no_prefix("static "@, rest, "struct "@, 2);
    assert(!has_prefix(body, "struct "@));
    lemma_no_prefix("static "@, rest, "enum "@, 0);
    assert(!has_prefix(body, "enum "@));
    lemma_no_prefix("static "@, rest, "trait "@, 0);
    assert(!has_prefix(body, "trait "@));
    lemma_no_prefix("static "@, rest, "type "@, 0);
    assert(!has_prefix(body, "type "@));
    lemma_no_prefix("static "@, rest, "union "@, 0);
    assert(!has_prefix(body, "union "@));
    lemma_no_prefix("static "@, rest, "const "@, 0);
    assert(!has_prefix(body, "const "@));
    assert("static "@.subrange(0, "static "@.len() as int) =~= "static "@);
    assert(has_prefix(body, "static "@));
}

proof fn lemma_kind_use(rest: Seq<char>)
    ensures
        line_class("pub use "@ + rest) == LineClass::Reexport,
{
    reveal_strlit("pub ");
    reveal_strlit("use ");
    reveal_strlit("pub use ");
    reveal_strlit("mod ");
    reveal_strlit("struct ");
    reveal_strlit("enum ");
    reveal_strlit("trait ");
    reveal_strlit("type ");
    reveal_strlit("union ");
    reveal_strlit("const ");
    reveal_strlit("static ");
    reveal_strlit("macro");
    assert("pub use "@ =~= "pub "@ + "use "@);
    lemma_kind_of("pub use "@, "use "@, rest);
    let body = ("pub use "@ + rest).subrange(4, ("pub use "@ + rest).len() as int);
    lemma_no_prefix("use "@, rest, "mod "@, 0);
    assert(!has_prefix(body, "mod "@));
    lemma_no_prefix("use "@, rest, "struct "@, 0);
    assert(!has_prefix(body, "struct "@));
    lemma_no_prefix("use "@, rest, "enum "@, 0);
    assert(!has_prefix(body, "enum "@));
    lemma_no_prefix("use "@, rest, "trait "@, 0);
    assert(!has_prefix(body, "trait "@));
    lemma_no_prefix("use "@, rest, "type "@, 0);
    assert(!has_prefix(body, "type "@));
    lemma_no_prefix("use "@, rest, "union "@, 1);
    assert(!has_prefix(body, "union "@));
    lemma_no_prefix("use "@, rest, "const "@, 0);
    assert(!has_prefix(body, "const "@));
    lemma_no_prefix("use "@, rest, "static "@, 0);
    assert(!has_prefix(body, "static "@));
    lemma_no_prefix("use "@, rest, "macro"@, 0);
    assert(!has_prefix(body, "macro"@));
    assert("use "@.subrange(0, "use "@.len() as int) =~= "use "@);
    assert(has_prefix(body, "use "@));
}

proof fn lemma_no_prefix(kw: Seq<char>, rest: Seq<char>, p: Seq<char>, i: int)
    requires
        0 <= i < p.len(),
        i < kw.len(),
        kw[i] != p[i],
    ensures
        !has_prefix(kw + rest, p),
{
    if has_prefix(kw + rest, p) {
        assert((kw + rest).subrange(0, p.len() as int)[i] == p[i]);
    }
}

proof fn lemma_kind_of(head: Seq<char>, kw: Seq<char>, rest: Seq<char>)
    requires
        head == "pub "@ + kw,
        "pub "@.len() == 4,
    ensures
        has_prefix(head + rest, "pub "@),
        (head + rest).subrange(4, (head + rest).len() as int) == kw + rest,
        has_prefix(kw + rest, kw),
{
    assert((head + rest).subrange(0, 4) =~= "pub "@);
    assert((head + rest).subrange(4, (head + rest).len() as int) =~= kw + rest);
    assert((kw + rest).subrange(0, kw.len() as int) =~= kw);
}

impl Tally {
    /// All counts zero.
    pub fn new() -> (t: Tally)
        ensures
            t == tally_of(Seq::empty()),
    {
        Tally {
            modules: 0,
            types: 0,
            consts: 0,
            macros: 0,
            free_fns: 0,
            assoc_fns: 0,
            fields: 0,
            variants: 0,
            reexports: 0,
            other: 0,
        }
    }

    /// Counts one more line of class `c`.
    pub fn bump(&mut self, c: LineClass, Ghost(cs): Ghost<Seq<LineClass>>)
        requires
            *old(self) == tally_of(cs),
            cs.len() < usize::MAX,
        ensures
            *final(self) == tally_of(cs.push(c)),
    {
        proof {
            lemma_class_count_bound(cs, c);
            assert(cs.push(c).drop_last() =~= cs);
        }
        match c {
            LineClass::Module => self.modules = self.modules + 1,
            LineClass::Type => self.types = self.types + 1,
            LineClass::Const => self.consts = self.consts + 1,
            LineClass::Macro => self.macros = self.macros + 1,
            LineClass::FreeFn => self.free_fns = self.free_fns + 1,
            LineClass::AssocFn => self.assoc_fns = self.assoc_fns + 1,
            LineClass::Field => self.fields = self.fields + 1,
            LineClass::Variant => self.variants = self.variants + 1,
            LineClass::Reexport => self.reexports = self.reexports + 1,
            LineClass::Other => self.other = self.other + 1,
        }
    }
}

/// The body after the first matching item keyword.
pub fn strip_keyword(body: &Vec<char>) -> (r: Vec<char>)
    ensures
        r@ == keyword_stripped(body@),
{
    if starts_with_str(body, "mod ") {
        let k = text("mod ");
        slice(body, k.len(), body.len())
    } else if starts_with_str(body, "struct ") {
        let k = text("struct ");
        slice(body, k.len(), body.len())
    } else if starts_with_str(body, "enum ") {
        let k = text("enum ");
        slice(body, k.len(), body.len())
    } else if starts_with_str(body, "trait ") {
        let k = text("trait ");
        slice(body, k.len(), body.len())
    } else if starts_with_str(body, "type ") {
        let k = text("type ");
        slice(body, k.len(), body.len())
    } else if starts_with_str(body, "union ") {
        let k = text("union ");
        slice(body, k.len(), body.len())
    } else if starts_with_str(body, "const ") {
        let k = text("const ");
        slice(body, k.len(), body.len())
    } else if starts_with_str(body, "static ") {
        let k = text("static ");
        slice(body, k.len(), body.len())
    } else if starts_with_str(body, "fn ") {
        let k = text("fn ");
        slice(body, k.len(), body.len())
    } else if starts_with_str(body, "use ") {
        let k = text("use ");
        slice(body, k.len(), body.len())
    } else {
        crate::text::copy_text(body)
    }
}

/// Method or free function, by the function path's parent segment.
pub fn classify_fn(sig: &Vec<char>) -> (r: LineClass)
    ensures
        r == fn_class(sig@),
{
    let path = leading_path(sig);
    let segs = path_segments(&path);
    let parent = if segs.len() >= 2 { crate::text::copy_text(&segs[segs.len() - 2]) } else { Vec::new() };
    assert(segs.len() < 2 ==> parent@ =~= Seq::<char>::empty());
    let p = before_first(&parent, '<');
    if p.len() > 0 && is_uppercase(p[0]) {
        LineClass::AssocFn
    } else {
        LineClass::FreeFn
    }
}

/// The class of an (attribute-stripped) line and, for a `pub` line, the
/// module it counts in.
pub fn classify(l: &Vec<char>) -> (r: (LineClass, Option<Vec<char>>))
    ensures
        r.0 == line_class(l@),
        match r.1 {
            Some(m) => line_module(l@) == Some(m@),
            None => line_module(l@) is None,
        },
{
    if !starts_with_str(l, "pub ") {
        return (LineClass::Other, None);
    }
    let pk = text("pub ");
    let body = slice(l, pk.len(), l.len());
    let ks = strip_keyword(&body);
    let module = module_of(&leading_path(&ks));
    let class = if starts_with_str(&body, "mod ") {
        LineClass::Module
    } else if starts_with_str(&body, "struct ") || starts_with_str(&body, "enum ")
        || starts_with_str(&body, "trait ") || starts_with_str(&body, "type ")
        || starts_with_str(&body, "union ") {
        LineClass::Type
    } else if starts_with_str(&body, "const ") || starts_with_str(&body, "static ") {
        LineClass::Const
    } else if starts_with_str(&body, "macro") {
        LineClass::Macro
    } else if starts_with_str(&body, "use ") {
        LineClass::Reexport
    } else if starts_with_str(&body, "fn ") {
        let k = text("fn ");
        classify_fn(&slice(&body, k.len(), body.len()))
    } else {
        let path = leading_path(&body);
        proof {
            crate::syntax::lemma_lead_end_bound(body@, 0, 0);
        }
        if path.len() < body.len() && body[path.len()] == ':' {
            LineClass::Field
        } else {
            LineClass::Variant
        }
    };
    (class, Some(module))
}

} // verus!
