//! Reading the pieces of one rendered public-API line: attributes, impl
//! headers, paths and their segments.
use vstd::prelude::*;
use crate::text::{
    copy_text, find, find_text, has_prefix, is_lowercase,
    join, join_texts, lemma_find_from_range, occurs, occurs_at,
    remove_all, remove_occurrences, same_as_str, slice, text, unicode_lowercase,
    views,
};

verus! {

/// `depth - 1`, saturating at zero.
pub open spec fn sat_dec(depth: int) -> int {
    if depth > 0 { depth - 1 } else { 0 }
}

/// The text with leading `#[...] ` attributes removed.
pub open spec fn strip_attrs_spec(s: Seq<char>) -> Seq<char>
    decreases s.len(),
{
    if has_prefix(s, seq!['#', '[']) {
        let i = find(s, seq![']', ' ']);
        proof {
            lemma_find_from_range(s, seq![']', ' '], 0);
        }
        if i >= 0 {
            strip_attrs_spec(s.subrange(i + 2, s.len() as int))
        } else {
            s
        }
    } else {
        s
    }
}

/// Index of the `>` that closes the bracket opened before `i`, with `depth`
/// brackets open; -1 if none closes.
pub open spec fn close_angle(s: Seq<char>, i: int, depth: int) -> int
    decreases s.len() - i,
{
    if i < 0 || i >= s.len() {
        -1
    } else if s[i] == '<' {
        close_angle(s, i + 1, depth + 1)
    } else if s[i] == '>' {
        if depth - 1 == 0 {
            i
        } else {
            close_angle(s, i + 1, depth - 1)
        }
    } else {
        close_angle(s, i + 1, depth)
    }
}

/// For an `impl` line, the text after `impl ` or `impl<...> `; `None` for any
/// other line.
pub open spec fn impl_body_spec(line: Seq<char>) -> Option<Seq<char>> {
    if !has_prefix(line, seq!['i', 'm', 'p', 'l']) {
        None
    } else {
        let rest = line.subrange(4, line.len() as int);
        if rest.len() > 0 && rest[0] == ' ' {
            Some(rest.subrange(1, rest.len() as int))
        } else if rest.len() > 0 && rest[0] == '<' {
            let j = close_angle(rest, 0, 0);
            if j < 0 {
                None
            } else {
                let after = rest.subrange(j + 1, rest.len() as int);
                if after.len() > 0 && after[0] == ' ' {
                    Some(after.subrange(1, after.len() as int))
                } else {
                    None
                }
            }
        } else {
            None
        }
    }
}

/// Position of the first ` for ` outside `<...>` and `(...)` at or after `i`,
/// scanning while five characters remain; -1 if none.
pub open spec fn for_pos(s: Seq<char>, i: int, depth: int) -> int
    decreases s.len() - i,
{
    if i < 0 || i + 5 > s.len() {
        -1
    } else if s[i] == '<' || s[i] == '(' {
        for_pos(s, i + 1, depth + 1)
    } else if s[i] == '>' || s[i] == ')' {
        for_pos(s, i + 1, sat_dec(depth))
    } else if s[i] == ' ' && depth == 0 && occurs_at(s, seq![' ', 'f', 'o', 'r', ' '], i) {
        i
    } else {
        for_pos(s, i + 1, depth)
    }
}

/// What an impl header implements.
pub ghost enum ImplShape {
    Inherent,
    Trait { trait_path: Seq<char>, for_type: Seq<char>, negative: bool },
}

/// The impl header body (`Trait for Type`, `!Trait for Type`, or `Type`)
/// read as inherent or trait impl.
pub open spec fn impl_shape(body: Seq<char>) -> ImplShape {
    let negative = body.len() > 0 && body[0] == '!';
    let b = if negative { body.subrange(1, body.len() as int) } else { body };
    let p = for_pos(b, 0, 0);
    if p < 0 {
        ImplShape::Inherent
    } else {
        ImplShape::Trait {
            trait_path: b.subrange(0, p),
            for_type: b.subrange(p + 5, b.len() as int),
            negative,
        }
    }
}

/// The segments of a path split at `::` outside `<...>`, scanning from `i`
/// with the current segment starting at `start`.
pub open spec fn segs_from(s: Seq<char>, i: int, start: int, depth: int) -> Seq<Seq<char>>
    decreases s.len() - i,
{
    if i >= s.len() || i < 0 {
        seq![s.subrange(start, s.len() as int)]
    } else if s[i] == '<' {
        segs_from(s, i + 1, start, depth + 1)
    } else if s[i] == '>' {
        segs_from(s, i + 1, start, sat_dec(depth))
    } else if s[i] == ':' && depth == 0 && i + 1 < s.len() && s[i + 1] == ':' {
        seq![s.subrange(start, i)] + segs_from(s, i + 2, i + 2, depth)
    } else {
        segs_from(s, i + 1, start, depth)
    }
}

/// The segments of a path (`Type<'a>::method` gives `Type<'a>`, `method`).
pub open spec fn segments(s: Seq<char>) -> Seq<Seq<char>> {
    segs_from(s, 0, 0, 0)
}

/// Where the path part of a line body ends, scanning from `i`: at the first
/// `(`, ` ` or single `:` outside `<...>`.
pub open spec fn lead_end(s: Seq<char>, i: int, depth: int) -> int
    decreases s.len() - i,
{
    if i >= s.len() || i < 0 {
        s.len() as int
    } else if s[i] == '<' {
        lead_end(s, i + 1, depth + 1)
    } else if s[i] == '>' {
        lead_end(s, i + 1, sat_dec(depth))
    } else if (s[i] == '(' || s[i] == ' ') && depth == 0 {
        i
    } else if s[i] == ':' && depth == 0 {
        if i + 1 < s.len() && s[i + 1] == ':' {
            lead_end(s, i + 2, depth)
        } else {
            i
        }
    } else {
        lead_end(s, i + 1, depth)
    }
}

/// The path part of a line body.
pub open spec fn leading_path_spec(s: Seq<char>) -> Seq<char> {
    s.subrange(0, lead_end(s, 0, 0))
}

/// The part of `s` before the first `c` (all of `s` if there is none).
pub open spec fn before_char(s: Seq<char>, c: char) -> Seq<char> {
    let i = find(s, seq![c]);
    if i >= 0 { s.subrange(0, i) } else { s }
}

/// The module bucket of a path: its first segment (generics cut off) when the
/// path has two or more segments and that segment starts with a lowercase
/// letter or `_`; `(root)` otherwise.
pub open spec fn module_of_spec(path: Seq<char>) -> Seq<char> {
    let segs = segments(path);
    if segs.len() >= 2 {
        let m = before_char(segs[0], '<');
        if m.len() > 0 && (unicode_lowercase(m[0]) || m[0] == '_') {
            m
        } else {
            "(root)"@
        }
    } else {
        "(root)"@
    }
}

/// The parent of a path: its segments but the last joined with `::`, or
/// `(root)` for a one-segment path.
pub open spec fn parent_path_spec(path: Seq<char>) -> Seq<char> {
    let segs = segments(path);
    if segs.len() <= 1 {
        "(root)"@
    } else {
        join(segs.drop_last(), "::"@)
    }
}

/// A trait path rooted at `core`, `alloc` or `std` shortened to its last
/// segment (generic arguments kept); any other path unchanged.
pub open spec fn simplify_trait_path_spec(path: Seq<char>) -> Seq<char> {
    let i = find(path, seq![':', ':']);
    let root = if i >= 0 { path.subrange(0, i) } else { path };
    if root == "core"@ || root == "alloc"@ || root == "std"@ {
        segments(path).last()
    } else {
        path
    }
}

/// The auto traits in the order their names sort.
pub open spec fn auto_trait_name(k: int) -> Seq<char> {
    if k == 0 { "Freeze"@ } else if k == 1 { "RefUnwindSafe"@ } else if k == 2 { "Send"@ }
    else if k == 3 { "Sync"@ } else if k == 4 { "Unpin"@ } else { "UnwindSafe"@ }
}

/// The index (into `auto_trait_name`) of the auto trait a full trait path
/// names, if it names one.
pub open spec fn auto_trait_index(path: Seq<char>) -> Option<int> {
    if path == "core::marker::Freeze"@ { Some(0) }
    else if path == "core::panic::unwind_safe::RefUnwindSafe"@ { Some(1) }
    else if path == "core::marker::Send"@ { Some(2) }
    else if path == "core::marker::Sync"@ { Some(3) }
    else if path == "core::marker::Unpin"@ { Some(4) }
    else if path == "core::panic::unwind_safe::UnwindSafe"@ { Some(5) }
    else { None }
}

/// Marker traits that are dropped from the snapshot entirely.
pub open spec fn dropped_marker(path: Seq<char>) -> bool {
    path == "core::marker::StructuralPartialEq"@ || path == "core::marker::UnsafeUnpin"@
}

/// The line with every `{crate}::` removed.
pub open spec fn strip_crate_prefix_spec(line: Seq<char>, ident: Seq<char>) -> Seq<char> {
    remove_all(line, ident + seq![':', ':'])
}

// ---------------------------------------------------------------------------
// Executable
/// Leading `#[...] ` attributes removed.
pub fn strip_attrs(line: &Vec<char>) -> (r: Vec<char>)
    ensures
        r@ == strip_attrs_spec(line@),
{
    let mut cur = copy_text(line);
    let close: Vec<char> = vec![']', ' '];
    assert(close@ =~= seq![']', ' ']);
    loop
        invariant
            strip_attrs_spec(cur@) == strip_attrs_spec(line@),
            close@ == seq![']', ' '],
        decreases cur.len(),
    {
        let open: Vec<char> = vec!['#', '['];
        assert(open@ =~= seq!['#', '[']);
        if !occurs(&cur, 0, &open) {
            return cur;
        }
        proof {
            lemma_find_from_range(cur@, close@, 0);
        }
        match find_text(&cur, &close, 0) {
            Some(i) => {
                cur = slice(&cur, i + 2, cur.len());
            },
            None => {
                return cur;
            },
        }
    }
}

/// The text after `impl ` / `impl<...> ` of an impl line.
pub fn impl_body_text(line: &Vec<char>) -> (r: Option<Vec<char>>)
    ensures
        match r {
            Some(b) => impl_body_spec(line@) == Some(b@),
            None => impl_body_spec(line@) is None,
        },
{
    let imp: Vec<char> = vec!['i', 'm', 'p', 'l'];
    assert(imp@ =~= seq!['i', 'm', 'p', 'l']);
    if !occurs(line, 0, &imp) {
        return None;
    }
    let rest = slice(line, 4, line.len());
    if rest.len() > 0 && rest[0] == ' ' {
        return Some(slice(&rest, 1, rest.len()));
    }
    if rest.len() > 0 && rest[0] == '<' {
        let mut depth: usize = 0;
        let mut i: usize = 0;
        while i < rest.len()
            invariant
                i <= rest.len(),
                depth <= i,
                i == 0 ==> depth == 0,
                i > 0 ==> depth > 0,
                rest.len() > 0 && rest@[0] == '<',
                has_prefix(line@, seq!['i', 'm', 'p', 'l']),
                rest@ == line@.subrange(4, line.len() as int),
                close_angle(rest@, 0, 0) == close_angle(rest@, i as int, depth as int),
            decreases rest.len() - i,
        {
            if rest[i] == '<' {
                depth = depth + 1;
            } else if rest[i] == '>' {
                depth = depth - 1;
                if depth == 0 {
                    let after = slice(&rest, i + 1, rest.len());
                    if after.len() > 0 && after[0] == ' ' {
                        return Some(slice(&after, 1, after.len()));
                    }
                    return None;
                }
            }
            i = i + 1;
        }
    }
    None
}

/// What an impl header implements.
pub enum ImplKind {
    Inherent,
    Trait { trait_path: Vec<char>, for_type: Vec<char>, negative: bool },
}

impl ImplKind {
    pub open spec fn shape(&self) -> ImplShape {
        match self {
            ImplKind::Inherent => ImplShape::Inherent,
            ImplKind::Trait { trait_path, for_type, negative } => ImplShape::Trait {
                trait_path: trait_path@,
                for_type: for_type@,
                negative: *negative,
            },
        }
    }
}

/// Reads an impl header body as inherent or trait impl.
pub fn parse_impl_body(body: &Vec<char>) -> (r: ImplKind)
    ensures
        r.shape() == impl_shape(body@),
{
    let negative = body.len() > 0 && body[0] == '!';
    let b = if negative { slice(body, 1, body.len()) } else { copy_text(body) };
    let pat: Vec<char> = vec![' ', 'f', 'o', 'r', ' '];
    assert(pat@ =~= seq![' ', 'f', 'o', 'r', ' ']);
    let mut depth: usize = 0;
    let mut i: usize = 0;
    while i <= b.len() && 5 <= b.len() - i
        invariant
            depth <= i,
            negative == (body@.len() > 0 && body@[0] == '!'),
            b@ == (if negative { body@.subrange(1, body@.len() as int) } else { body@ }),
            i <= b.len(),
            pat@ == seq![' ', 'f', 'o', 'r', ' '],
            for_pos(b@, 0, 0) == for_pos(b@, i as int, depth as int),
        decreases b.len() - i,
    {
        let c = b[i];
        if c == '<' || c == '(' {
            depth = depth + 1;
        } else if c == '>' || c == ')' {
            if depth > 0 {
                depth = depth - 1;
            }
        } else if c == ' ' && depth == 0 && occurs(&b, i, &pat) {
            return ImplKind::Trait {
                trait_path: slice(&b, 0, i),
                for_type: slice(&b, i + 5, b.len()),
                negative,
            };
        }
        i = i + 1;
    }
    ImplKind::Inherent
}

/// The segments of a path, split at `::` outside `<...>`.
pub fn path_segments(path: &Vec<char>) -> (r: Vec<Vec<char>>)
    ensures
        views(r@) == segments(path@),
{
    let mut r: Vec<Vec<char>> = Vec::new();
    let mut depth: usize = 0;
    let mut start: usize = 0;
    let mut i: usize = 0;
    while i < path.len()
        invariant
            start <= i <= path.len(),
            depth <= i,
            views(r@) + segs_from(path@, i as int, start as int, depth as int) == segments(path@),
        decreases path.len() - i,
    {
        let c = path[i];
        if c == '<' {
            depth = depth + 1;
        } else if c == '>' {
            if depth > 0 {
                depth = depth - 1;
            }
        } else if c == ':' && depth == 0 && i + 1 < path.len() && path[i + 1] == ':' {
            let ghost before = views(r@);
            r.push(slice(path, start, i));
            assert(views(r@) =~= before + seq![path@.subrange(start as int, i as int)]);
            assert(views(r@) + segs_from(path@, i + 2, i + 2, depth as int) =~= before + (seq![
                path@.subrange(start as int, i as int),
            ] + segs_from(path@, i + 2, i + 2, depth as int)));
            i = i + 2;
            start = i;
            continue;
        }
        i = i + 1;
    }
    let ghost before = views(r@);
    r.push(slice(path, start, path.len()));
    assert(views(r@) =~= before + seq![path@.subrange(start as int, path.len() as int)]);
    r
}

/// Where the path part of a line body ends.
pub fn leading_path_end(body: &Vec<char>) -> (r: usize)
    ensures
        r as int == lead_end(body@, 0, 0),
        r <= body.len(),
{
    let mut depth: usize = 0;
    let mut i: usize = 0;
    proof {
        lemma_lead_end_bound(body@, 0, 0);
    }
    while i < body.len()
        invariant
            i <= body.len(),
            depth <= i,
            lead_end(body@, 0, 0) == lead_end(body@, i as int, depth as int),
            lead_end(body@, i as int, depth as int) <= body.len(),
        decreases body.len() - i,
    {
        let c = body[i];
        if c == '<' {
            depth = depth + 1;
        } else if c == '>' {
            if depth > 0 {
                depth = depth - 1;
            }
        } else if (c == '(' || c == ' ') && depth == 0 {
            return i;
        } else if c == ':' && depth == 0 {
            if i + 1 < body.len() && body[i + 1] == ':' {
                i = i + 2;
                proof {
                    lemma_lead_end_bound(body@, i as int, depth as int);
                }
                continue;
            }
            return i;
        }
        i = i + 1;
        proof {
            lemma_lead_end_bound(body@, i as int, depth as int);
        }
    }
    body.len()
}

pub proof fn lemma_lead_end_bound(s: Seq<char>, i: int, depth: int)
    ensures
        lead_end(s, i, depth) <= s.len(),
        i >= 0 ==> lead_end(s, i, depth) >= 0,
    decreases s.len() - i,
{
    if i >= s.len() || i < 0 {
    } else if s[i] == '<' {
        lemma_lead_end_bound(s, i + 1, depth + 1);
    } else if s[i] == '>' {
        lemma_lead_end_bound(s, i + 1, sat_dec(depth));
    } else if (s[i] == '(' || s[i] == ' ') && depth == 0 {
    } else if s[i] == ':' && depth == 0 {
        if i + 1 < s.len() && s[i + 1] == ':' {
            lemma_lead_end_bound(s, i + 2, depth);
        }
    } else {
        lemma_lead_end_bound(s, i + 1, depth);
    }
}

/// The path part of a line body.
pub fn leading_path(body: &Vec<char>) -> (r: Vec<char>)
    ensures
        r@ == leading_path_spec(body@),
{
    proof {
        lemma_lead_end_bound(body@, 0, 0);
    }
    let e = leading_path_end(body);
    slice(body, 0, e)
}

/// The part of `s` before the first `c`.
pub fn before_first(s: &Vec<char>, c: char) -> (r: Vec<char>)
    ensures
        r@ == before_char(s@, c),
{
    let pat: Vec<char> = vec![c];
    assert(pat@ =~= seq![c]);
    proof {
        lemma_find_from_range(s@, pat@, 0);
    }
    match find_text(s, &pat, 0) {
        Some(i) => slice(s, 0, i),
        None => copy_text(s),
    }
}

/// The module bucket of a path.
pub fn module_of(path: &Vec<char>) -> (r: Vec<char>)
    ensures
        r@ == module_of_spec(path@),
{
    let segs = path_segments(path);
    if segs.len() >= 2 {
        let m = before_first(&segs[0], '<');
        if m.len() > 0 && (is_lowercase(m[0]) || m[0] == '_') {
            return m;
        }
    }
    text("(root)")
}

/// The parent path of a path.
pub fn parent_path(path: &Vec<char>) -> (r: Vec<char>)
    ensures
        r@ == parent_path_spec(path@),
{
    let mut segs = path_segments(path);
    if segs.len() <= 1 {
        return text("(root)");
    }
    let ghost all = views(segs@);
    segs.pop();
    assert(views(segs@) =~= all.drop_last());
    let sep = text("::");
    join_texts(&segs, &sep)
}

/// A `core`/`alloc`/`std` trait path shortened to its last segment.
pub fn simplify_trait_path_text(path: &Vec<char>) -> (r: Vec<char>)
    ensures
        r@ == simplify_trait_path_spec(path@),
{
    let sep: Vec<char> = vec![':', ':'];
    assert(sep@ =~= seq![':', ':']);
    let root = match find_text(path, &sep, 0) {
        Some(i) => {
            proof {
                lemma_find_from_range(path@, sep@, 0);
            }
            slice(path, 0, i)
        },
        None => copy_text(path),
    };
    if same_as_str(&root, "core") || same_as_str(&root, "alloc") || same_as_str(&root, "std") {
        let segs = path_segments(path);
        proof {
            lemma_segments_nonempty(path@);
        }
        copy_text(&segs[segs.len() - 1])
    } else {
        copy_text(path)
    }
}

pub proof fn lemma_segs_from_nonempty(s: Seq<char>, i: int, start: int, depth: int)
    ensures
        segs_from(s, i, start, depth).len() >= 1,
    decreases s.len() - i,
{
    if i >= s.len() || i < 0 {
    } else if s[i] == '<' {
        lemma_segs_from_nonempty(s, i + 1, start, depth + 1);
    } else if s[i] == '>' {
        lemma_segs_from_nonempty(s, i + 1, start, sat_dec(depth));
    } else if s[i] == ':' && depth == 0 && i + 1 < s.len() && s[i + 1] == ':' {
        lemma_segs_from_nonempty(s, i + 2, i + 2, depth);
    } else {
        lemma_segs_from_nonempty(s, i + 1, start, depth);
    }
}

pub proof fn lemma_segments_nonempty(s: Seq<char>)
    ensures
        segments(s).len() >= 1,
{
    lemma_segs_from_nonempty(s, 0, 0, 0);
}

proof fn lemma_join_cons(a: Seq<char>, rest: Seq<Seq<char>>, sep: Seq<char>)
    requires
        rest.len() >= 1,
    ensures
        join(seq![a] + rest, sep) == a + sep + join(rest, sep),
    decreases rest.len(),
{
    let all = seq![a] + rest;
    if rest.len() == 1 {
        assert(all.drop_last() =~= seq![a]);
        assert(all.last() == rest[0]);
        assert(join(all, sep) == join(all.drop_last(), sep) + sep + all.last());
        assert(join(rest, sep) == rest[0]);
    } else {
        lemma_join_cons(a, rest.drop_last(), sep);
        assert(all.drop_last() =~= seq![a] + rest.drop_last());
        assert(all.last() == rest.last());
        assert(join(all, sep) == join(all.drop_last(), sep) + sep + all.last());
        assert(join(rest, sep) == join(rest.drop_last(), sep) + sep + rest.last());
        assert(join(all, sep) =~= a + sep + join(rest, sep));
    }
}

proof fn lemma_segs_from_join(s: Seq<char>, i: int, start: int, depth: int)
    requires
        0 <= start <= i <= s.len(),
    ensures
        join(segs_from(s, i, start, depth), seq![':', ':']) == s.subrange(start, s.len() as int),
    decreases s.len() - i,
{
    if i >= s.len() {
    } else if s[i] == '<' {
        lemma_segs_from_join(s, i + 1, start, depth + 1);
    } else if s[i] == '>' {
        lemma_segs_from_join(s, i + 1, start, sat_dec(depth));
    } else if s[i] == ':' && depth == 0 && i + 1 < s.len() && s[i + 1] == ':' {
        lemma_segs_from_join(s, i + 2, i + 2, depth);
        lemma_segs_from_nonempty(s, i + 2, i + 2, depth);
        lemma_join_cons(s.subrange(start, i), segs_from(s, i + 2, i + 2, depth), seq![':', ':']);
        assert(s.subrange(start, i) + seq![':', ':'] + s.subrange(i + 2, s.len() as int)
            =~= s.subrange(start, s.len() as int));
    } else {
        lemma_segs_from_join(s, i + 1, start, depth);
    }
}

/// A path is never split into nothing, and joining its segments with `::`
/// gives the path back.
pub proof fn lemma_segments_join(s: Seq<char>)
    ensures
        segments(s).len() >= 1,
        join(segments(s), seq![':', ':']) == s,
{
    lemma_segments_nonempty(s);
    lemma_segs_from_join(s, 0, 0, 0);
    assert(s.subrange(0, s.len() as int) =~= s);
}

/// `core`/`alloc`/`std` trait paths shorten to their final segment (with
/// generic arguments); everything else is kept whole.
pub fn simplify_trait_path(path: &str) -> (r: String)
    ensures
        r@ == simplify_trait_path_spec(path@),
{
    let p = text(path);
    crate::text::to_string(&simplify_trait_path_text(&p))
}

/// The auto trait a full trait path names, as an index into the six names.
pub fn auto_trait_short(path: &Vec<char>) -> (r: Option<usize>)
    ensures
        match r {
            Some(k) => auto_trait_index(path@) == Some(k as int) && k < 6,
            None => auto_trait_index(path@) is None,
        },
{
    if same_as_str(path, "core::marker::Freeze") {
        Some(0)
    } else if same_as_str(path, "core::panic::unwind_safe::RefUnwindSafe") {
        Some(1)
    } else if same_as_str(path, "core::marker::Send") {
        Some(2)
    } else if same_as_str(path, "core::marker::Sync") {
        Some(3)
    } else if same_as_str(path, "core::marker::Unpin") {
        Some(4)
    } else if same_as_str(path, "core::panic::unwind_safe::UnwindSafe") {
        Some(5)
    } else {
        None
    }
}

/// Whether the trait is a marker dropped from the snapshot entirely.
pub fn is_dropped_marker(path: &Vec<char>) -> (r: bool)
    ensures
        r == dropped_marker(path@),
{
    same_as_str(path, "core::marker::StructuralPartialEq") || same_as_str(
        path,
        "core::marker::UnsafeUnpin",
    )
}

/// Every `{crate_ident}::` removed from the line.
pub fn strip_crate_prefix(line: &Vec<char>, crate_ident: &Vec<char>) -> (r: Vec<char>)
    ensures
        r@ == strip_crate_prefix_spec(line@, crate_ident@),
{
    let mut pat = copy_text(crate_ident);
    pat.push(':');
    pat.push(':');
    assert(pat@ =~= crate_ident@ + seq![':', ':']);
    remove_occurrences(line, &pat)
}

} // verus!
