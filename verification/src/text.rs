//! Character-sequence primitives that the rest of the library is written in.
//!
//! Text is held as `Vec<char>` while it is being analysed; its view is a
//! `Seq<char>`. Conversions to and from `String` sit at the public edges.
use vstd::prelude::*;

verus! {

// ---------------------------------------------------------------------------
// Specifications
/// `p` occurs in `s` starting at index `i`.
pub open spec fn occurs_at(s: Seq<char>, p: Seq<char>, i: int) -> bool {
    0 <= i && i + p.len() <= s.len() && s.subrange(i, i + p.len()) == p
}

/// `s` starts with `p`.
pub open spec fn has_prefix(s: Seq<char>, p: Seq<char>) -> bool {
    occurs_at(s, p, 0)
}

/// `s` ends with `p`.
pub open spec fn has_suffix(s: Seq<char>, p: Seq<char>) -> bool {
    p.len() <= s.len() && occurs_at(s, p, s.len() - p.len())
}

/// Index of the first occurrence of `p` in `s` at or after `i`; -1 if none.
pub open spec fn find_from(s: Seq<char>, p: Seq<char>, i: int) -> int
    decreases s.len() + 1 - i,
{
    if i < 0 || i + p.len() > s.len() {
        -1
    } else if occurs_at(s, p, i) {
        i
    } else {
        find_from(s, p, i + 1)
    }
}

/// Index of the first occurrence of `p` in `s`; -1 if none.
pub open spec fn find(s: Seq<char>, p: Seq<char>) -> int {
    find_from(s, p, 0)
}

/// `s` holds `p` somewhere.
pub open spec fn contains_text(s: Seq<char>, p: Seq<char>) -> bool {
    exists|i: int| occurs_at(s, p, i)
}

/// Every non-overlapping occurrence of `pat`, taken left to right, removed.
pub open spec fn remove_all(s: Seq<char>, pat: Seq<char>) -> Seq<char>
    decreases s.len(),
{
    if pat.len() == 0 || s.len() < pat.len() {
        s
    } else if has_prefix(s, pat) {
        remove_all(s.subrange(pat.len() as int, s.len() as int), pat)
    } else {
        seq![s[0]] + remove_all(s.subrange(1, s.len() as int), pat)
    }
}

/// Every occurrence of the character `from` replaced by `to`.
pub open spec fn replace_char(s: Seq<char>, from: char, to: char) -> Seq<char> {
    Seq::new(s.len(), |i: int| if s[i] == from { to } else { s[i] })
}

/// The decimal digit for `d < 10`.
pub open spec fn digit(d: nat) -> char {
    if d == 0 { '0' } else if d == 1 { '1' } else if d == 2 { '2' } else if d == 3 { '3' }
    else if d == 4 { '4' } else if d == 5 { '5' } else if d == 6 { '6' } else if d == 7 { '7' }
    else if d == 8 { '8' } else { '9' }
}

/// Decimal rendering of `n`, as `{}` formats an unsigned integer.
pub open spec fn decimal(n: nat) -> Seq<char>
    decreases n,
{
    if n < 10 {
        seq![digit(n)]
    } else {
        decimal(n / 10).push(digit(n % 10))
    }
}

/// `k` spaces.
pub open spec fn spaces(k: nat) -> Seq<char> {
    Seq::new(k, |i: int| ' ')
}

/// `s` left-aligned in a field of `w` characters (`{:<w}`).
pub open spec fn pad_right(s: Seq<char>, w: nat) -> Seq<char> {
    if s.len() < w { s + spaces((w - s.len()) as nat) } else { s }
}

/// `s` right-aligned in a field of `w` characters (`{:>w}`).
pub open spec fn pad_left(s: Seq<char>, w: nat) -> Seq<char> {
    if s.len() < w { spaces((w - s.len()) as nat) + s } else { s }
}

/// The parts joined with `sep` between consecutive parts.
pub open spec fn join(parts: Seq<Seq<char>>, sep: Seq<char>) -> Seq<char>
    decreases parts.len(),
{
    if parts.len() == 0 {
        Seq::empty()
    } else if parts.len() == 1 {
        parts[0]
    } else {
        join(parts.drop_last(), sep) + sep + parts.last()
    }
}

/// One line of `str::lines`: the line ending (`\n`, or `\r\n`) removed.
pub open spec fn strip_line_end(seg: Seq<char>) -> Seq<char> {
    if seg.len() > 0 && seg.last() == '\r' { seg.drop_last() } else { seg }
}

/// The lines of `s`, as `str::lines` splits them: at each `\n`, a `\r`
/// directly before it dropped too, and no empty line after a final `\n`.
pub open spec fn lines_of(s: Seq<char>) -> Seq<Seq<char>>
    decreases s.len(),
{
    if s.len() == 0 {
        Seq::empty()
    } else {
        let i = find(s, seq!['\n']);
        proof {
            lemma_find_from_range(s, seq!['\n'], 0);
        }
        if i < 0 {
            seq![s]
        } else {
            seq![strip_line_end(s.subrange(0, i))] + lines_of(s.subrange(i + 1, s.len() as int))
        }
    }
}

/// Number of bytes of `c` in UTF-8.
pub open spec fn utf8_width(c: char) -> nat {
    if (c as u32) < 0x80 { 1 } else if (c as u32) < 0x800 { 2 } else if (c as u32) < 0x10000 { 3 } else { 4 }
}

/// Number of bytes of `s` in UTF-8 (what `str::len` returns).
pub open spec fn utf8_len(s: Seq<char>) -> nat
    decreases s.len(),
{
    if s.len() == 0 { 0 } else { utf8_width(s[0]) + utf8_len(s.drop_first()) }
}

/// Unicode's `Uppercase` property, which `char::is_uppercase` reports.
pub uninterp spec fn unicode_uppercase(c: char) -> bool;

/// Unicode's `Lowercase` property, which `char::is_lowercase` reports.
pub uninterp spec fn unicode_lowercase(c: char) -> bool;

/// The character ASCII-lowercased, as `char::to_ascii_lowercase` does.
pub open spec fn ascii_lower(c: char) -> char {
    if 'A' <= c && c <= 'Z' { ((c as u32) + 32) as char } else { c }
}

// ---------------------------------------------------------------------------
// Lemmas
pub proof fn lemma_find_from_range(s: Seq<char>, p: Seq<char>, i: int)
    requires
        i >= 0,
    ensures
        find_from(s, p, i) == -1 || (i <= find_from(s, p, i) && occurs_at(s, p, find_from(s, p, i))),
        forall|j: int| i <= j < find_from(s, p, i) ==> !occurs_at(s, p, j),
        find_from(s, p, i) == -1 ==> forall|j: int| i <= j ==> !occurs_at(s, p, j),
    decreases s.len() + 1 - i,
{
    if i < 0 || i + p.len() > s.len() {
    } else if occurs_at(s, p, i) {
    } else {
        lemma_find_from_range(s, p, i + 1);
    }
}

pub proof fn lemma_find_is_first(s: Seq<char>, p: Seq<char>)
    ensures
        find(s, p) >= 0 <==> contains_text(s, p),
        find(s, p) >= 0 ==> occurs_at(s, p, find(s, p)),
        forall|j: int| 0 <= j < find(s, p) ==> !occurs_at(s, p, j),
{
    lemma_find_from_range(s, p, 0);
    if find(s, p) >= 0 {
        assert(occurs_at(s, p, find(s, p)));
    } else {
        assert forall|j: int| !occurs_at(s, p, j) by {
            if j >= 0 {
            }
        }
    }
}

pub proof fn lemma_utf8_len_concat(a: Seq<char>, b: Seq<char>)
    ensures
        utf8_len(a + b) == utf8_len(a) + utf8_len(b),
    decreases a.len(),
{
    if a.len() == 0 {
        assert(a + b =~= b);
    } else {
        assert((a + b).drop_first() =~= a.drop_first() + b);
        lemma_utf8_len_concat(a.drop_first(), b);
    }
}

// ---------------------------------------------------------------------------
// Executable primitives
/// The characters of `s`.
pub fn text(s: &str) -> (v: Vec<char>)
    ensures
        v@ == s@,
{
    let mut v: Vec<char> = Vec::new();
    for c in it: s.chars()
        invariant
            v@ == it.seq().take(it.index() as int),
    {
        v.push(c);
    }
    v
}

/// `String::push`: the string's characters become the old ones followed by
/// `c`.
#[verifier::external_body]
fn string_push(s: &mut String, c: char)
    ensures
        final(s)@ == old(s)@.push(c),
{
    s.push(c);
}

/// `char::is_uppercase`: whether `c` has the Unicode `Uppercase` property;
/// among ASCII characters that is exactly `A` to `Z`.
#[verifier::external_body]
pub(crate) fn is_uppercase(c: char) -> (b: bool)
    ensures
        b == unicode_uppercase(c),
        (c as u32) < 128 ==> (b <==> ('A' <= c && c <= 'Z')),
{
    c.is_uppercase()
}

/// `char::is_lowercase`: whether `c` has the Unicode `Lowercase` property;
/// among ASCII characters that is exactly `a` to `z`.
#[verifier::external_body]
pub(crate) fn is_lowercase(c: char) -> (b: bool)
    ensures
        b == unicode_lowercase(c),
        (c as u32) < 128 ==> (b <==> ('a' <= c && c <= 'z')),
{
    c.is_lowercase()
}

/// The `String` holding the characters of `v`.
pub fn to_string(v: &Vec<char>) -> (s: String)
    ensures
        s@ == v@,
{
    let mut s = String::new();
    let mut i: usize = 0;
    while i < v.len()
        invariant
            i <= v.len(),
            s@ == v@.take(i as int),
        decreases v.len() - i,
    {
        string_push(&mut s, v[i]);
        assert(v@.take(i as int).push(v@[i as int]) =~= v@.take(i + 1));
        i = i + 1;
    }
    assert(v@.take(v.len() as int) =~= v@);
    s
}

/// Each text as a `String`.
pub fn to_strings(v: &Vec<Vec<char>>) -> (r: Vec<String>)
    ensures
        r.len() == v.len(),
        forall|i: int| 0 <= i < v.len() ==> #[trigger] r[i]@ == v[i]@,
{
    let mut r: Vec<String> = Vec::new();
    let mut i: usize = 0;
    while i < v.len()
        invariant
            i <= v.len(),
            r.len() == i,
            forall|k: int| 0 <= k < i ==> #[trigger] r[k]@ == v[k]@,
        decreases v.len() - i,
    {
        r.push(to_string(&v[i]));
        i = i + 1;
    }
    r
}

/// Each `String` as a text.
pub fn texts_of(v: &Vec<String>) -> (r: Vec<Vec<char>>)
    ensures
        r.len() == v.len(),
        forall|i: int| 0 <= i < v.len() ==> #[trigger] r[i]@ == v[i]@,
{
    let mut r: Vec<Vec<char>> = Vec::new();
    let mut i: usize = 0;
    while i < v.len()
        invariant
            i <= v.len(),
            r.len() == i,
            forall|k: int| 0 <= k < i ==> #[trigger] r[k]@ == v[k]@,
        decreases v.len() - i,
    {
        r.push(text(v[i].as_str()));
        i = i + 1;
    }
    r
}

/// A copy of `s`.
pub fn copy_text(s: &Vec<char>) -> (r: Vec<char>)
    ensures
        r@ == s@,
{
    slice(s, 0, s.len())
}

/// `s[a..b]`.
pub fn slice(s: &Vec<char>, a: usize, b: usize) -> (r: Vec<char>)
    requires
        a <= b <= s.len(),
    ensures
        r@ == s@.subrange(a as int, b as int),
{
    let mut r: Vec<char> = Vec::new();
    let mut i: usize = a;
    while i < b
        invariant
            a <= i <= b <= s.len(),
            r@ == s@.subrange(a as int, i as int),
        decreases b - i,
    {
        r.push(s[i]);
        assert(s@.subrange(a as int, i as int).push(s@[i as int]) =~= s@.subrange(
            a as int,
            i + 1,
        ));
        i = i + 1;
    }
    r
}

/// Appends `x` to `out`.
pub fn append(out: &mut Vec<char>, x: &Vec<char>)
    ensures
        final(out)@ == old(out)@ + x@,
{
    let ghost start = out@;
    let mut i: usize = 0;
    while i < x.len()
        invariant
            i <= x.len(),
            out@ == start + x@.take(i as int),
        decreases x.len() - i,
    {
        out.push(x[i]);
        assert(start + x@.take(i as int).push(x@[i as int]) =~= start + x@.take(i + 1));
        i = i + 1;
    }
    assert(x@.take(x.len() as int) =~= x@);
}

/// Appends the characters of `x` to `out`.
pub fn append_str(out: &mut Vec<char>, x: &str)
    ensures
        final(out)@ == old(out)@ + x@,
{
    let t = text(x);
    append(out, &t);
}

/// `a` and `b` hold the same characters.
pub fn same_text(a: &Vec<char>, b: &Vec<char>) -> (r: bool)
    ensures
        r == (a@ == b@),
{
    if a.len() != b.len() {
        return false;
    }
    let mut i: usize = 0;
    while i < a.len()
        invariant
            a.len() == b.len(),
            i <= a.len(),
            a@.take(i as int) == b@.take(i as int),
        decreases a.len() - i,
    {
        if a[i] != b[i] {
            return false;
        }
        assert(a@.take(i + 1) =~= a@.take(i as int).push(a@[i as int]));
        assert(b@.take(i + 1) =~= b@.take(i as int).push(b@[i as int]));
        i = i + 1;
    }
    assert(a@.take(a.len() as int) =~= a@);
    assert(b@.take(b.len() as int) =~= b@);
    true
}

/// `a` holds the characters of `b`.
pub fn same_as_str(a: &Vec<char>, b: &str) -> (r: bool)
    ensures
        r == (a@ == b@),
{
    let t = text(b);
    same_text(a, &t)
}

/// Whether `p` occurs in `s` at index `i`.
pub fn occurs(s: &Vec<char>, i: usize, p: &Vec<char>) -> (r: bool)
    ensures
        r == occurs_at(s@, p@, i as int),
{
    if i > s.len() || p.len() > s.len() - i {
        return false;
    }
    let mut j: usize = 0;
    while j < p.len()
        invariant
            i + p.len() <= s.len(),
            j <= p.len(),
            s@.subrange(i as int, i + j) == p@.take(j as int),
        decreases p.len() - j,
    {
        if s[i + j] != p[j] {
            assert(s@.subrange(i as int, i + p.len())[j as int] == s@[i + j]);
            return false;
        }
        assert(s@.subrange(i as int, i + j + 1) =~= s@.subrange(i as int, i + j).push(
            s@[i + j],
        ));
        assert(p@.take(j + 1) =~= p@.take(j as int).push(p@[j as int]));
        j = j + 1;
    }
    assert(p@.take(p.len() as int) =~= p@);
    true
}

/// Whether `s` starts with the characters of `p`.
pub fn starts_with_str(s: &Vec<char>, p: &str) -> (r: bool)
    ensures
        r == has_prefix(s@, p@),
{
    let t = text(p);
    occurs(s, 0, &t)
}

/// First occurrence of `p` in `s` at or after `from`.
pub fn find_text(s: &Vec<char>, p: &Vec<char>, from: usize) -> (r: Option<usize>)
    ensures
        match r {
            Some(k) => k as int == find_from(s@, p@, from as int),
            None => find_from(s@, p@, from as int) == -1,
        },
{
    if p.len() == 0 {
        if from <= s.len() {
            assert(s@.subrange(from as int, from as int) =~= p@);
            return Some(from);
        }
        return None;
    }
    let mut i: usize = from;
    while i <= s.len() && p.len() <= s.len() - i
        invariant
            from <= i,
            p.len() > 0,
            find_from(s@, p@, from as int) == find_from(s@, p@, i as int),
        decreases s.len() + 1 - i,
    {
        if occurs(s, i, p) {
            return Some(i);
        }
        i = i + 1;
    }
    None
}

/// Whether `p` occurs anywhere in `s`.
pub fn contains(s: &Vec<char>, p: &Vec<char>) -> (r: bool)
    ensures
        r == contains_text(s@, p@),
{
    proof {
        lemma_find_is_first(s@, p@);
    }
    find_text(s, p, 0).is_some()
}

/// `s` with every occurrence of `pat` removed, left to right.
pub fn remove_occurrences(s: &Vec<char>, pat: &Vec<char>) -> (r: Vec<char>)
    ensures
        r@ == remove_all(s@, pat@),
{
    let mut r: Vec<char> = Vec::new();
    if pat.len() == 0 {
        return copy_text(s);
    }
    let mut i: usize = 0;
    assert(s@.subrange(0, s.len() as int) =~= s@);
    assert(r@ + remove_all(s@, pat@) =~= remove_all(s@, pat@));
    while i < s.len()
        invariant
            pat.len() > 0,
            i <= s.len(),
            r@ + remove_all(s@.subrange(i as int, s.len() as int), pat@) == remove_all(s@, pat@),
        decreases s.len() - i,
    {
        let ghost rest = s@.subrange(i as int, s.len() as int);
        if occurs(s, i, pat) {
            assert(has_prefix(rest, pat@)) by {
                assert(rest.subrange(0, pat@.len() as int) =~= s@.subrange(
                    i as int,
                    i + pat@.len(),
                ));
            }
            assert(rest.subrange(pat@.len() as int, rest.len() as int) =~= s@.subrange(
                i + pat.len(),
                s.len() as int,
            ));
            i = i + pat.len();
        } else {
            assert(!has_prefix(rest, pat@)) by {
                if rest.len() >= pat@.len() {
                    assert(rest.subrange(0, pat@.len() as int) =~= s@.subrange(
                        i as int,
                        i + pat@.len(),
                    ));
                }
            }
            assert(rest.subrange(1, rest.len() as int) =~= s@.subrange(i + 1, s.len() as int));
            proof {
                if rest.len() < pat@.len() {
                    assert(remove_all(rest, pat@) == rest);
                    assert(remove_all(rest.subrange(1, rest.len() as int), pat@)
                        == rest.subrange(1, rest.len() as int));
                    assert(rest =~= seq![rest[0]] + rest.subrange(1, rest.len() as int));
                }
            }
            let ghost old_r = r@;
            let ghost tail = remove_all(rest.subrange(1, rest.len() as int), pat@);
            r.push(s[i]);
            assert(old_r.push(s@[i as int]) + tail =~= old_r + (seq![s@[i as int]] + tail));
            i = i + 1;
        }
    }
    assert(s@.subrange(s.len() as int, s.len() as int) =~= Seq::<char>::empty());
    assert(r@ + Seq::<char>::empty() =~= r@);
    r
}


/// `find_from` on a suffix of `s`, measured from the start of `s`.
pub proof fn lemma_find_from_suffix(s: Seq<char>, p: Seq<char>, a: int, k: int)
    requires
        0 <= a <= s.len(),
        0 <= k,
    ensures
        find_from(s.subrange(a, s.len() as int), p, k) == (if find_from(s, p, a + k) == -1 {
            -1
        } else {
            find_from(s, p, a + k) - a
        }),
    decreases s.len() + 1 - (a + k),
{
    let t = s.subrange(a, s.len() as int);
    if k + p.len() > t.len() {
    } else {
        assert(occurs_at(t, p, k) == occurs_at(s, p, a + k)) by {
            assert(t.subrange(k, k + p.len()) =~= s.subrange(a + k, a + k + p.len()));
        }
        if !occurs_at(t, p, k) {
            lemma_find_from_suffix(s, p, a, k + 1);
        }
    }
}

/// Digit character for `d < 10`.
fn digit_char(d: usize) -> (c: char)
    requires
        d < 10,
    ensures
        c == digit(d as nat),
{
    if d == 0 { '0' } else if d == 1 { '1' } else if d == 2 { '2' } else if d == 3 { '3' }
    else if d == 4 { '4' } else if d == 5 { '5' } else if d == 6 { '6' } else if d == 7 { '7' }
    else if d == 8 { '8' } else { '9' }
}

/// Appends the decimal rendering of `n`.
pub fn append_decimal(out: &mut Vec<char>, n: usize)
    ensures
        final(out)@ == old(out)@ + decimal(n as nat),
    decreases n,
{
    let ghost start = out@;
    if n >= 10 {
        append_decimal(out, n / 10);
    }
    out.push(digit_char(n % 10));
    proof {
        if n >= 10 {
            assert(start + decimal(n as nat) =~= start + decimal((n / 10) as nat) + seq![digit((n % 10) as nat)]);
        } else {
            assert(start + decimal(n as nat) =~= start.push(digit(n as nat)));
        }
    }
}

/// Appends `k` spaces.
pub fn append_spaces(out: &mut Vec<char>, k: usize)
    ensures
        final(out)@ == old(out)@ + spaces(k as nat),
{
    let ghost start = out@;
    let mut i: usize = 0;
    while i < k
        invariant
            i <= k,
            out@ == start + spaces(i as nat),
        decreases k - i,
    {
        out.push(' ');
        assert(start + spaces((i + 1) as nat) =~= (start + spaces(i as nat)).push(' '));
        i = i + 1;
    }
}

/// Appends `s` left-aligned in a field of `w` characters.
pub fn append_pad_right(out: &mut Vec<char>, s: &Vec<char>, w: usize)
    ensures
        final(out)@ == old(out)@ + pad_right(s@, w as nat),
{
    let ghost start = out@;
    append(out, s);
    if s.len() < w {
        append_spaces(out, w - s.len());
        assert(start + s@ + spaces((w - s.len()) as nat) =~= start + (s@ + spaces((w - s.len()) as nat)));
    }
}

/// Appends `s` right-aligned in a field of `w` characters.
pub fn append_pad_left(out: &mut Vec<char>, s: &Vec<char>, w: usize)
    ensures
        final(out)@ == old(out)@ + pad_left(s@, w as nat),
{
    let ghost start = out@;
    if s.len() < w {
        append_spaces(out, w - s.len());
    }
    append(out, s);
    assert(start + spaces((w - s.len()) as nat) + s@ =~= start + (spaces((w - s.len()) as nat) + s@));
}

/// The decimal rendering of `n`.
pub fn decimal_text(n: usize) -> (r: Vec<char>)
    ensures
        r@ == decimal(n as nat),
{
    let mut r: Vec<char> = Vec::new();
    append_decimal(&mut r, n);
    assert(Seq::<char>::empty() + decimal(n as nat) =~= decimal(n as nat));
    r
}

/// The views of a sequence of texts.
pub open spec fn views(v: Seq<Vec<char>>) -> Seq<Seq<char>> {
    v.map_values(|t: Vec<char>| t@)
}

/// The parts joined with `sep`.
pub fn join_texts(parts: &Vec<Vec<char>>, sep: &Vec<char>) -> (r: Vec<char>)
    ensures
        r@ == join(views(parts@), sep@),
{
    let mut r: Vec<char> = Vec::new();
    if parts.len() == 0 {
        return r;
    }
    append(&mut r, &parts[0]);
    assert(views(parts@).take(1) =~= seq![parts@[0]@]);
    let mut i: usize = 1;
    while i < parts.len()
        invariant
            1 <= i <= parts.len(),
            r@ == join(views(parts@).take(i as int), sep@),
        decreases parts.len() - i,
    {
        append(&mut r, sep);
        append(&mut r, &parts[i]);
        assert(views(parts@).take(i + 1).drop_last() =~= views(parts@).take(i as int));
        i = i + 1;
    }
    assert(views(parts@).take(parts.len() as int) =~= views(parts@));
    r
}

/// The lines of `s`, as `str::lines` yields them.
pub fn split_lines(s: &Vec<char>) -> (r: Vec<Vec<char>>)
    ensures
        views(r@) == lines_of(s@),
{
    let mut r: Vec<Vec<char>> = Vec::new();
    let mut start: usize = 0;
    let nl = text("\n");
    proof {
        reveal_strlit("\n");
        assert(nl@ =~= seq!['\n']);
        assert(s@.subrange(0, s.len() as int) =~= s@);
    }
    while start < s.len()
        invariant
            start <= s.len(),
            nl@ == seq!['\n'],
            views(r@) + lines_of(s@.subrange(start as int, s.len() as int)) == lines_of(s@),
        decreases s.len() - start,
    {
        let ghost rest = s@.subrange(start as int, s.len() as int);
        proof {
            lemma_find_from_suffix(s@, nl@, start as int, 0);
            lemma_find_from_range(s@, nl@, start as int);
        }
        match find_text(s, &nl, start) {
            None => {
                let line = slice(s, start, s.len());
                let ghost old_r = views(r@);
                r.push(line);
                assert(views(r@) =~= old_r.push(rest));
                assert(lines_of(rest) == seq![rest]);
                assert(lines_of(s@.subrange(s.len() as int, s.len() as int)) =~= Seq::<Seq<char>>::empty()) by {
                    assert(s@.subrange(s.len() as int, s.len() as int).len() == 0);
                }
                assert(views(r@) + Seq::<Seq<char>>::empty() =~= old_r + seq![rest]);
                start = s.len();
            },
            Some(k) => {
                let mut line = slice(s, start, k);
                if line.len() > 0 && line[line.len() - 1] == '\r' {
                    line.pop();
                }
                let ghost old_r = views(r@);
                assert(rest.subrange(0, k - start) =~= s@.subrange(start as int, k as int));
                assert(rest.subrange(k - start + 1, rest.len() as int) =~= s@.subrange(k + 1, s.len() as int));
                r.push(line);
                assert(views(r@) =~= old_r.push(strip_line_end(rest.subrange(0, k - start))));
                assert(views(r@) + lines_of(s@.subrange(k + 1, s.len() as int)) =~= old_r + lines_of(rest));
                start = k + 1;
            },
        }
    }
    assert(s@.subrange(start as int, s.len() as int).len() == 0);
    assert(views(r@) + Seq::<Seq<char>>::empty() =~= views(r@));
    r
}

/// `s` with every `from` replaced by `to`.
pub fn replace_chars(s: &Vec<char>, from: char, to: char) -> (r: Vec<char>)
    ensures
        r@ == replace_char(s@, from, to),
{
    let mut r: Vec<char> = Vec::new();
    let mut i: usize = 0;
    while i < s.len()
        invariant
            i <= s.len(),
            r@ == replace_char(s@, from, to).take(i as int),
        decreases s.len() - i,
    {
        if s[i] == from {
            r.push(to);
        } else {
            r.push(s[i]);
        }
        assert(replace_char(s@, from, to).take(i + 1) =~= replace_char(s@, from, to).take(i as int).push(r@[i as int]));
        i = i + 1;
    }
    assert(replace_char(s@, from, to).take(s.len() as int) =~= replace_char(s@, from, to));
    r
}

/// UTF-8 width of `c`.
fn char_width(c: char) -> (w: u128)
    ensures
        w == utf8_width(c),
{
    let u = c as u32;
    if u < 0x80 { 1 } else if u < 0x800 { 2 } else if u < 0x10000 { 3 } else { 4 }
}

/// The UTF-8 length of `s` (as `str::len` counts it).
pub fn utf8_length(s: &Vec<char>) -> (n: u128)
    ensures
        n == utf8_len(s@),
{
    let mut n: u128 = 0;
    let mut i: usize = s.len();
    assert(s@.subrange(s.len() as int, s.len() as int) =~= Seq::<char>::empty());
    while i > 0
        invariant
            i <= s.len(),
            n == utf8_len(s@.subrange(i as int, s.len() as int)),
            n <= 4 * (s.len() - i),
        decreases i,
    {
        i = i - 1;
        assert(s@.subrange(i as int, s.len() as int).drop_first() =~= s@.subrange(i + 1, s.len() as int));
        n = n + char_width(s[i]);
    }
    assert(s@.subrange(0, s.len() as int) =~= s@);
    n
}

/// Whether `c`, ASCII-lowercased, is `l`.
pub fn lower_is(c: char, l: char) -> (r: bool)
    requires
        'a' <= l <= 'z',
    ensures
        r == (ascii_lower(c) == l),
{
    if 'A' <= c && c <= 'Z' {
        let r = (c as u32) + 32 == (l as u32);
        assert(((c as u32) + 32) as char as u32 == (c as u32) + 32);
        r
    } else {
        c == l
    }
}

/// Whether `s`, ASCII-lowercased, ends with the lowercase letters of `p`
/// preceded by `.`.
pub fn lower_ends_with(s: &Vec<char>, p: &Vec<char>) -> (r: bool)
    requires
        forall|i: int| 0 <= i < p@.len() ==> ('a' <= #[trigger] p@[i] <= 'z') || p@[i] == '.',
    ensures
        r == has_suffix(s@.map_values(|c: char| ascii_lower(c)), p@),
{
    let ghost low = s@.map_values(|c: char| ascii_lower(c));
    if p.len() > s.len() {
        return false;
    }
    let off = s.len() - p.len();
    let mut j: usize = 0;
    while j < p.len()
        invariant
            off + p.len() == s.len(),
            j <= p.len(),
            low == s@.map_values(|c: char| ascii_lower(c)),
            forall|i: int| 0 <= i < p@.len() ==> ('a' <= #[trigger] p@[i] <= 'z') || p@[i] == '.',
            low.subrange(off as int, off + j) == p@.take(j as int),
        decreases p.len() - j,
    {
        let c = s[off + j];
        let ok = if p[j] == '.' { c == '.' } else { lower_is(c, p[j]) };
        assert(ok == (low[off + j] == p@[j as int])) by {
            if p@[j as int] == '.' {
                assert(ascii_lower(c) == '.' <==> c == '.');
            }
        }
        if !ok {
            assert(low.subrange(off as int, off + p.len())[j as int] == low[off + j]);
            return false;
        }
        assert(low.subrange(off as int, off + j + 1) =~= low.subrange(off as int, off + j).push(low[off + j]));
        assert(p@.take(j + 1) =~= p@.take(j as int).push(p@[j as int]));
        j = j + 1;
    }
    assert(p@.take(p.len() as int) =~= p@);
    true
}
} // verus!
