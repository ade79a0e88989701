//! Character-level helpers shared by the path, URL and markup code.
//!
//! Strings are modelled by their views, sequences of `char`.
use vstd::prelude::*;

verus! {

/// Appends one character to a string (`String::push`).
#[verifier::external_body]
pub(crate) fn push_char(s: &mut String, c: char)
    ensures
        final(s)@ == old(s)@.push(c),
{
    s.push(c)
}

/// Appends a string slice to a string (`String::push_str`).
#[verifier::external_body]
pub(crate) fn push_str(s: &mut String, t: &str)
    ensures
        final(s)@ == old(s)@ + t@,
{
    s.push_str(t)
}

/// The characters of a string slice, in order.
pub fn chars_of(s: &str) -> (res: Vec<char>)
    ensures
        res@ == s@,
{
    let mut res: Vec<char> = Vec::new();
    for c in it: s.chars()
        invariant
            res@ == it.seq().take(it.index() as int),
    {
        res.push(c);
    }
    res
}

/// A string holding the characters `v[from..to]`.
pub fn string_from_range(v: &Vec<char>, from: usize, to: usize) -> (res: String)
    requires
        from <= to <= v@.len(),
    ensures
        res@ == v@.subrange(from as int, to as int),
{
    let mut res = String::new();
    let mut i = from;
    while i < to
        invariant
            from <= i <= to <= v@.len(),
            res@ == v@.subrange(from as int, i as int),
        decreases to - i,
    {
        push_char(&mut res, v[i]);
        assert(v@.subrange(from as int, i + 1) == v@.subrange(from as int, i as int).push(v@[i as int]));
        i += 1;
    }
    res
}

/// A string holding all the characters of `v`.
pub fn string_from_chars(v: &Vec<char>) -> (res: String)
    ensures
        res@ == v@,
{
    let res = string_from_range(v, 0, v.len());
    assert(v@.subrange(0, v@.len() as int) == v@);
    res
}

/// A copy of a string slice.
pub fn owned(s: &str) -> (res: String)
    ensures
        res@ == s@,
{
    let v = chars_of(s);
    string_from_chars(&v)
}

/// A copy of a string.
pub fn copy_string(s: &String) -> (res: String)
    ensures
        res@ == s@,
{
    owned(s.as_str())
}

/// The concatenation of two strings.
pub fn concat(a: &str, b: &str) -> (res: String)
    ensures
        res@ == a@ + b@,
{
    let mut res = owned(a);
    push_str(&mut res, b);
    res
}

/// Equality of two string slices, character by character.
pub fn str_eq(a: &str, b: &str) -> (res: bool)
    ensures
        res == (a@ == b@),
{
    let va = chars_of(a);
    let vb = chars_of(b);
    chars_eq(&va, &vb)
}

/// Equality of two character vectors.
pub fn chars_eq(a: &Vec<char>, b: &Vec<char>) -> (res: bool)
    ensures
        res == (a@ == b@),
{
    if a.len() != b.len() {
        return false;
    }
    let mut i: usize = 0;
    while i < a.len()
        invariant
            a@.len() == b@.len(),
            i <= a@.len(),
            forall|j: int| 0 <= j < i ==> a@[j] == b@[j],
        decreases a@.len() - i,
    {
        if a[i] != b[i] {
            return false;
        }
        i += 1;
    }
    assert(a@ =~= b@);
    true
}

/// Whether `s` ends with the character `c`.
pub open spec fn ends_with_char(s: Seq<char>, c: char) -> bool {
    s.len() > 0 && s.last() == c
}

/// Whether `s` starts with the character `c`.
pub open spec fn starts_with_char(s: Seq<char>, c: char) -> bool {
    s.len() > 0 && s[0] == c
}

/// `s` without its leading run of `c`.
pub open spec fn strip_leading(s: Seq<char>, c: char) -> Seq<char>
    decreases s.len(),
{
    if s.len() > 0 && s[0] == c {
        strip_leading(s.drop_first(), c)
    } else {
        s
    }
}

/// `s` without its trailing run of `c`.
pub open spec fn strip_trailing(s: Seq<char>, c: char) -> Seq<char>
    decreases s.len(),
{
    if s.len() > 0 && s.last() == c {
        strip_trailing(s.drop_last(), c)
    } else {
        s
    }
}

/// `s` with every leading and trailing `c` removed (`str::trim_matches`).
pub open spec fn trim_char(s: Seq<char>, c: char) -> Seq<char> {
    strip_trailing(strip_leading(s, c), c)
}

pub proof fn lemma_strip_leading_skip(s: Seq<char>, c: char, i: int)
    requires
        0 <= i <= s.len(),
        forall|j: int| 0 <= j < i ==> s[j] == c,
    ensures
        strip_leading(s, c) == strip_leading(s.skip(i), c),
    decreases i,
{
    if i > 0 {
        assert(s.drop_first().skip(i - 1) == s.skip(i));
        lemma_strip_leading_skip(s.drop_first(), c, i - 1);
    } else {
        assert(s.skip(0) == s);
    }
}

pub proof fn lemma_strip_trailing_take(s: Seq<char>, c: char, k: int)
    requires
        0 <= k <= s.len(),
        forall|j: int| k <= j < s.len() ==> s[j] == c,
    ensures
        strip_trailing(s, c) == strip_trailing(s.take(k), c),
    decreases s.len() - k,
{
    if k < s.len() {
        assert(s.drop_last().take(k) == s.take(k));
        lemma_strip_trailing_take(s.drop_last(), c, k);
    } else {
        assert(s.take(k) == s);
    }
}

/// Stripping a leading run leaves a suffix that does not start with `c`.
pub proof fn lemma_strip_leading_shape(s: Seq<char>, c: char)
    ensures
        !starts_with_char(strip_leading(s, c), c),
        exists|i: int| 0 <= i <= s.len() && strip_leading(s, c) == s.skip(i),
    decreases s.len(),
{
    if s.len() > 0 && s[0] == c {
        lemma_strip_leading_shape(s.drop_first(), c);
        let i = choose|i: int|
            0 <= i <= s.drop_first().len() && strip_leading(s.drop_first(), c) == s.drop_first().skip(i);
        assert(s.drop_first().skip(i) =~= s.skip(i + 1));
    } else {
        assert(s.skip(0) =~= s);
    }
}

/// Stripping a trailing run leaves a prefix that does not end with `c`.
pub proof fn lemma_strip_trailing_shape(s: Seq<char>, c: char)
    ensures
        !ends_with_char(strip_trailing(s, c), c),
        exists|k: int| 0 <= k <= s.len() && strip_trailing(s, c) == s.take(k),
    decreases s.len(),
{
    if s.len() > 0 && s.last() == c {
        lemma_strip_trailing_shape(s.drop_last(), c);
        let k = choose|k: int|
            0 <= k <= s.drop_last().len() && strip_trailing(s.drop_last(), c) == s.drop_last().take(k);
        assert(s.drop_last().take(k) =~= s.take(k));
    } else {
        assert(s.take(s.len() as int) =~= s);
    }
}

/// A trimmed sequence neither starts nor ends with the trimmed character, and
/// trimming it again changes nothing.
pub proof fn law_trim_char(s: Seq<char>, c: char)
    ensures
        !starts_with_char(trim_char(s, c), c),
        !ends_with_char(trim_char(s, c), c),
        trim_char(trim_char(s, c), c) == trim_char(s, c),
{
    let a = strip_leading(s, c);
    lemma_strip_leading_shape(s, c);
    lemma_strip_trailing_shape(a, c);
    let t = strip_trailing(a, c);
    let k = choose|k: int| 0 <= k <= a.len() && t == a.take(k);
    if t.len() > 0 {
        assert(t[0] == a[0]);
    }
    assert(strip_leading(t, c) == t);
    lemma_strip_trailing_shape(t, c);
    assert(strip_trailing(t, c) == t);
}

/// The index of the first character of `v` from `from` on that is not `c`, or `v.len()`.
fn skip_char_forward(v: &Vec<char>, from: usize, c: char) -> (i: usize)
    requires
        from <= v@.len(),
    ensures
        from <= i <= v@.len(),
        forall|j: int| from <= j < i ==> v@[j] == c,
        i < v@.len() ==> v@[i as int] != c,
{
    let mut i = from;
    while i < v.len() && v[i] == c
        invariant
            from <= i <= v@.len(),
            forall|j: int| from <= j < i ==> v@[j] == c,
        decreases v@.len() - i,
    {
        i += 1;
    }
    i
}

/// The length of `v[..to]` without its trailing run of `c`, not going below `floor`.
fn skip_char_backward(v: &Vec<char>, floor: usize, to: usize, c: char) -> (k: usize)
    requires
        floor <= to <= v@.len(),
    ensures
        floor <= k <= to,
        forall|j: int| k <= j < to ==> v@[j] == c,
        k > floor ==> v@[k - 1] != c,
{
    let mut k = to;
    while k > floor && v[k - 1] == c
        invariant
            floor <= k <= to <= v@.len(),
            forall|j: int| k <= j < to ==> v@[j] == c,
        decreases k,
    {
        k -= 1;
    }
    k
}

/// The bounds `(start, end)` such that `v[start..end]` is `trim_char(v, c)`.
pub fn trim_char_bounds(v: &Vec<char>, c: char) -> (res: (usize, usize))
    ensures
        res.0 <= res.1 <= v@.len(),
        v@.subrange(res.0 as int, res.1 as int) == trim_char(v@, c),
{
    let start = skip_char_forward(v, 0, c);
    let end = skip_char_backward(v, start, v.len(), c);
    proof {
        let s = v@;
        lemma_strip_leading_skip(s, c, start as int);
        assert(strip_leading(s.skip(start as int), c) == s.skip(start as int));
        let t = s.skip(start as int);
        let k = end - start;
        assert forall|j: int| k <= j < t.len() implies t[j] == c by {
            assert(t[j] == s[j + start]);
        }
        lemma_strip_trailing_take(t, c, k);
        assert(t.take(k) == s.subrange(start as int, end as int));
        if k > 0 {
            assert(t.take(k).last() == s[end - 1]);
        }
    }
    (start, end)
}

/// `s` with every leading and trailing `c` removed.
pub fn trim_matches(s: &str, c: char) -> (res: String)
    ensures
        res@ == trim_char(s@, c),
{
    let v = chars_of(s);
    let (start, end) = trim_char_bounds(&v, c);
    string_from_range(&v, start, end)
}

/// `s` with a `/` appended unless it already ends with one.
pub open spec fn with_trailing_slash(s: Seq<char>) -> Seq<char> {
    if ends_with_char(s, '/') {
        s
    } else {
        s.push('/')
    }
}

/// Whether a string slice ends with `c`.
pub fn str_ends_with_char(s: &str, c: char) -> (res: bool)
    ensures
        res == ends_with_char(s@, c),
{
    let v = chars_of(s);
    v.len() > 0 && v[v.len() - 1] == c
}

/// `s` with a `/` appended unless it already ends with one.
pub fn trailing_slash(s: &str) -> (res: String)
    ensures
        res@ == with_trailing_slash(s@),
{
    let mut res = owned(s);
    if !str_ends_with_char(s, '/') {
        push_char(&mut res, '/');
    }
    res
}

/// The character `c` repeated `n` times, concatenated `n` times from `unit`.
pub open spec fn repeat_seq(unit: Seq<char>, n: nat) -> Seq<char>
    decreases n,
{
    if n == 0 {
        Seq::empty()
    } else {
        repeat_seq(unit, (n - 1) as nat) + unit
    }
}

/// `unit` repeated `n` times (`str::repeat`).
pub fn repeat_str(unit: &str, n: usize) -> (res: String)
    ensures
        res@ == repeat_seq(unit@, n as nat),
{
    let mut res = String::new();
    let mut i: usize = 0;
    while i < n
        invariant
            i <= n,
            res@ == repeat_seq(unit@, i as nat),
        decreases n - i,
    {
        push_str(&mut res, unit);
        i += 1;
    }
    res
}

/// The pieces of `s` between occurrences of `sep`, empty pieces included (`str::split`).
pub open spec fn split_pieces(s: Seq<char>, sep: char) -> Seq<Seq<char>>
    decreases s.len(),
{
    if s.len() == 0 {
        seq![Seq::<char>::empty()]
    } else {
        let pieces = split_pieces(s.drop_last(), sep);
        if s.last() == sep {
            pieces.push(Seq::<char>::empty())
        } else {
            pieces.update(pieces.len() - 1, pieces.last().push(s.last()))
        }
    }
}

/// The non-empty members of `parts`, in order.
pub open spec fn keep_nonempty(parts: Seq<Seq<char>>) -> Seq<Seq<char>>
    decreases parts.len(),
{
    if parts.len() == 0 {
        Seq::empty()
    } else {
        let kept = keep_nonempty(parts.drop_last());
        if parts.last().len() > 0 {
            kept.push(parts.last())
        } else {
            kept
        }
    }
}

/// The non-empty `/`-separated segments of a path.
pub open spec fn path_segments(s: Seq<char>) -> Seq<Seq<char>> {
    keep_nonempty(split_pieces(s, '/'))
}

pub proof fn lemma_split_pieces_nonempty(s: Seq<char>, sep: char)
    ensures
        split_pieces(s, sep).len() >= 1,
    decreases s.len(),
{
    if s.len() > 0 {
        lemma_split_pieces_nonempty(s.drop_last(), sep);
    }
}

proof fn lemma_keep_nonempty_push(parts: Seq<Seq<char>>, x: Seq<char>)
    ensures
        keep_nonempty(parts.push(x)) == if x.len() > 0 {
            keep_nonempty(parts).push(x)
        } else {
            keep_nonempty(parts)
        },
{
    assert(parts.push(x).drop_last() == parts);
}

/// Every segment is non-empty and free of `/`.
pub proof fn lemma_path_segments_wf(s: Seq<char>)
    ensures
        forall|i: int|
            0 <= i < path_segments(s).len() ==> #[trigger] path_segments(s)[i].len() > 0
                && !path_segments(s)[i].contains('/'),
{
    lemma_split_pieces_sep_free(s, '/');
    lemma_keep_nonempty_members(split_pieces(s, '/'));
}

proof fn lemma_split_pieces_sep_free(s: Seq<char>, sep: char)
    ensures
        forall|i: int|
            0 <= i < split_pieces(s, sep).len() ==> !(#[trigger] split_pieces(s, sep)[i]).contains(
                sep,
            ),
    decreases s.len(),
{
    if s.len() > 0 {
        lemma_split_pieces_sep_free(s.drop_last(), sep);
        lemma_split_pieces_nonempty(s.drop_last(), sep);
        let pieces = split_pieces(s.drop_last(), sep);
        if s.last() != sep {
            let last = pieces.last().push(s.last());
            assert(!pieces.last().contains(sep));
            assert forall|j: int| 0 <= j < last.len() implies last[j] != sep by {
                if j < pieces.last().len() {
                    assert(last[j] == pieces.last()[j]);
                }
            }
        }
    }
}

proof fn lemma_keep_nonempty_members(parts: Seq<Seq<char>>)
    ensures
        forall|i: int|
            0 <= i < keep_nonempty(parts).len() ==> #[trigger] keep_nonempty(parts)[i].len() > 0
                && parts.contains(keep_nonempty(parts)[i]),
    decreases parts.len(),
{
    if parts.len() > 0 {
        lemma_keep_nonempty_members(parts.drop_last());
        let kept = keep_nonempty(parts.drop_last());
        assert forall|i: int| 0 <= i < keep_nonempty(parts).len() implies #[trigger] keep_nonempty(
            parts,
        )[i].len() > 0 && parts.contains(keep_nonempty(parts)[i]) by {
            if i < kept.len() {
                assert(keep_nonempty(parts)[i] == kept[i]);
                let k = choose|k: int| 0 <= k < parts.drop_last().len() && parts.drop_last()[k] == kept[i];
                assert(parts[k] == kept[i]);
            } else {
                assert(parts[parts.len() - 1] == parts.last());
            }
        }
    }
}

/// The non-empty `/`-separated segments of a path, each as a character vector.
pub fn segments_of(v: &Vec<char>) -> (res: Vec<Vec<char>>)
    ensures
        res@.len() == path_segments(v@).len(),
        forall|i: int| 0 <= i < res@.len() ==> (#[trigger] res@[i])@ == path_segments(v@)[i],
{
    let mut out: Vec<Vec<char>> = Vec::new();
    let mut cur: Vec<char> = Vec::new();
    let mut i: usize = 0;
    proof {
        lemma_split_pieces_nonempty(v@.take(0), '/');
        assert(v@.take(0) =~= Seq::<char>::empty());
    }
    while i < v.len()
        invariant
            i <= v@.len(),
            split_pieces(v@.take(i as int), '/').len() >= 1,
            cur@ == split_pieces(v@.take(i as int), '/').last(),
            out@.len() == keep_nonempty(split_pieces(v@.take(i as int), '/').drop_last()).len(),
            forall|j: int|
                0 <= j < out@.len() ==> (#[trigger] out@[j])@ == keep_nonempty(
                    split_pieces(v@.take(i as int), '/').drop_last(),
                )[j],
        decreases v@.len() - i,
    {
        let ghost before = split_pieces(v@.take(i as int), '/');
        let ghost s1 = v@.take(i + 1);
        proof {
            assert(s1.drop_last() == v@.take(i as int));
            assert(s1.last() == v@[i as int]);
        }
        let c = v[i];
        if c == '/' {
            let ghost old_out = out@;
            proof {
                assert(split_pieces(s1, '/') == before.push(Seq::<char>::empty()));
                assert(split_pieces(s1, '/').drop_last() == before);
                assert(before == before.drop_last().push(before.last()));
                lemma_keep_nonempty_push(before.drop_last(), before.last());
            }
            if cur.len() > 0 {
                out.push(cur);
            }
            cur = Vec::new();
            proof {
                assert(cur@ =~= Seq::<char>::empty());
            }
        } else {
            cur.push(c);
            proof {
                lemma_split_pieces_nonempty(v@.take(i as int), '/');
                assert(split_pieces(s1, '/') == before.update(before.len() - 1, before.last().push(c)));
                assert(split_pieces(s1, '/').drop_last() =~= before.drop_last());
            }
        }
        i += 1;
        proof {
            lemma_split_pieces_nonempty(v@.take(i as int), '/');
        }
    }
    proof {
        assert(v@.take(v@.len() as int) == v@);
        let all = split_pieces(v@, '/');
        assert(all == all.drop_last().push(all.last()));
        lemma_keep_nonempty_push(all.drop_last(), all.last());
    }
    if cur.len() > 0 {
        out.push(cur);
    }
    out
}

/// Whether `c` has the Unicode `White_Space` property (`char::is_whitespace`).
pub open spec fn is_ws(c: char) -> bool {
    ('\u{9}' <= c && c <= '\u{d}') || c == ' ' || c == '\u{85}' || c == '\u{a0}' || c
        == '\u{1680}' || ('\u{2000}' <= c && c <= '\u{200a}') || c == '\u{2028}' || c
        == '\u{2029}' || c == '\u{202f}' || c == '\u{205f}' || c == '\u{3000}'
}

/// Whether `c` has the Unicode `White_Space` property.
pub fn is_whitespace(c: char) -> (res: bool)
    ensures
        res == is_ws(c),
{
    ('\u{9}' <= c && c <= '\u{d}') || c == ' ' || c == '\u{85}' || c == '\u{a0}' || c
        == '\u{1680}' || ('\u{2000}' <= c && c <= '\u{200a}') || c == '\u{2028}' || c
        == '\u{2029}' || c == '\u{202f}' || c == '\u{205f}' || c == '\u{3000}'
}

/// `s` without its leading whitespace.
pub open spec fn strip_leading_ws(s: Seq<char>) -> Seq<char>
    decreases s.len(),
{
    if s.len() > 0 && is_ws(s[0]) {
        strip_leading_ws(s.drop_first())
    } else {
        s
    }
}

/// `s` without its trailing whitespace.
pub open spec fn strip_trailing_ws(s: Seq<char>) -> Seq<char>
    decreases s.len(),
{
    if s.len() > 0 && is_ws(s.last()) {
        strip_trailing_ws(s.drop_last())
    } else {
        s
    }
}

/// `s` without leading and trailing whitespace (`str::trim`).
pub open spec fn trim_ws(s: Seq<char>) -> Seq<char> {
    strip_trailing_ws(strip_leading_ws(s))
}

pub proof fn lemma_strip_leading_ws_skip(s: Seq<char>, i: int)
    requires
        0 <= i <= s.len(),
        forall|j: int| 0 <= j < i ==> is_ws(s[j]),
    ensures
        strip_leading_ws(s) == strip_leading_ws(s.skip(i)),
    decreases i,
{
    if i > 0 {
        assert(s.drop_first().skip(i - 1) == s.skip(i));
        lemma_strip_leading_ws_skip(s.drop_first(), i - 1);
    } else {
        assert(s.skip(0) == s);
    }
}

pub proof fn lemma_strip_trailing_ws_take(s: Seq<char>, k: int)
    requires
        0 <= k <= s.len(),
        forall|j: int| k <= j < s.len() ==> is_ws(s[j]),
    ensures
        strip_trailing_ws(s) == strip_trailing_ws(s.take(k)),
    decreases s.len() - k,
{
    if k < s.len() {
        assert(s.drop_last().take(k) == s.take(k));
        lemma_strip_trailing_ws_take(s.drop_last(), k);
    } else {
        assert(s.take(k) == s);
    }
}

/// The bounds `(start, end)` such that `v[start..end]` is `trim_ws(v)`.
pub fn trim_ws_bounds(v: &Vec<char>) -> (res: (usize, usize))
    ensures
        res.0 <= res.1 <= v@.len(),
        v@.subrange(res.0 as int, res.1 as int) == trim_ws(v@),
{
    let mut start: usize = 0;
    while start < v.len() && is_whitespace(v[start])
        invariant
            start <= v@.len(),
            forall|j: int| 0 <= j < start ==> is_ws(v@[j]),
        decreases v@.len() - start,
    {
        start += 1;
    }
    let mut end: usize = v.len();
    while end > start && is_whitespace(v[end - 1])
        invariant
            start <= end <= v@.len(),
            forall|j: int| end <= j < v@.len() ==> is_ws(v@[j]),
        decreases end,
    {
        end -= 1;
    }
    proof {
        let s = v@;
        lemma_strip_leading_ws_skip(s, start as int);
        assert(strip_leading_ws(s.skip(start as int)) == s.skip(start as int));
        let t = s.skip(start as int);
        let k = end - start;
        assert forall|j: int| k <= j < t.len() implies is_ws(t[j]) by {
            assert(t[j] == s[j + start]);
        }
        lemma_strip_trailing_ws_take(t, k);
        assert(t.take(k) == s.subrange(start as int, end as int));
        if k > 0 {
            assert(t.take(k).last() == s[end - 1]);
        }
    }
    (start, end)
}

/// `s` without leading and trailing whitespace.
pub fn trim(s: &str) -> (res: String)
    ensures
        res@ == trim_ws(s@),
{
    let v = chars_of(s);
    let (start, end) = trim_ws_bounds(&v);
    string_from_range(&v, start, end)
}

/// Whether `s` is empty once trimmed of whitespace.
pub fn is_blank(s: &str) -> (res: bool)
    ensures
        res == (trim_ws(s@).len() == 0),
{
    let v = chars_of(s);
    let (start, end) = trim_ws_bounds(&v);
    start == end
}

/// The views of a sequence of strings.
pub open spec fn views(s: Seq<String>) -> Seq<Seq<char>> {
    s.map_values(|x: String| x@)
}

/// The members of `parts` joined by `sep`.
pub open spec fn joined(parts: Seq<Seq<char>>, sep: Seq<char>) -> Seq<char>
    decreases parts.len(),
{
    if parts.len() == 0 {
        Seq::empty()
    } else if parts.len() == 1 {
        parts[0]
    } else {
        joined(parts.drop_last(), sep) + sep + parts.last()
    }
}

pub proof fn lemma_views_push(s: Seq<String>, x: String)
    ensures
        views(s.push(x)) == views(s).push(x@),
{
    assert(views(s.push(x)) =~= views(s).push(x@));
}

/// Joins strings with a separator (`[String]::join`).
pub fn join_strings(parts: &Vec<String>, sep: &str) -> (res: String)
    ensures
        res@ == joined(views(parts@), sep@),
{
    let mut res = String::new();
    let mut i: usize = 0;
    while i < parts.len()
        invariant
            i <= parts@.len(),
            res@ == joined(views(parts@).take(i as int), sep@),
        decreases parts@.len() - i,
    {
        if i > 0 {
            push_str(&mut res, sep);
        }
        push_str(&mut res, parts[i].as_str());
        proof {
            let t = views(parts@).take(i + 1);
            assert(t.drop_last() == views(parts@).take(i as int));
            assert(t.last() == parts@[i as int]@);
            if i == 0 {
                assert(views(parts@).take(0).len() == 0);
                assert(res@ == parts@[0]@);
            }
        }
        i += 1;
    }
    proof {
        assert(views(parts@).take(parts@.len() as int) == views(parts@));
    }
    res
}

/// The view of an optional string.
pub open spec fn opt_view(o: Option<String>) -> Option<Seq<char>> {
    match o {
        Some(s) => Some(s@),
        None => None,
    }
}

/// A copy of an optional string.
pub fn clone_opt(o: &Option<String>) -> (res: Option<String>)
    ensures
        opt_view(res) == opt_view(*o),
{
    match o {
        Some(s) => Some(copy_string(s)),
        None => None,
    }
}

/// Whether `needle` occurs in `haystack` as a contiguous run.
pub open spec fn contains_text(haystack: Seq<char>, needle: Seq<char>) -> bool {
    exists|i: int| 0 <= i <= haystack.len() - needle.len() && #[trigger] haystack.subrange(i, i + needle.len()) == needle
}

/// A run found in a sequence is found in any sequence that extends it on either side.
pub proof fn lemma_contains_text_extend(a: Seq<char>, b: Seq<char>, needle: Seq<char>)
    ensures
        contains_text(a, needle) ==> contains_text(a + b, needle),
        contains_text(b, needle) ==> contains_text(a + b, needle),
{
    if contains_text(a, needle) {
        let i = choose|i: int|
            0 <= i <= a.len() - needle.len() && #[trigger] a.subrange(i, i + needle.len()) == needle;
        assert((a + b).subrange(i, i + needle.len()) =~= a.subrange(i, i + needle.len()));
    }
    if contains_text(b, needle) {
        let i = choose|i: int|
            0 <= i <= b.len() - needle.len() && #[trigger] b.subrange(i, i + needle.len()) == needle;
        let j = i + a.len();
        assert((a + b).subrange(j, j + needle.len()) =~= b.subrange(i, i + needle.len()));
    }
}

/// A sequence is found in itself.
pub proof fn lemma_contains_text_self(s: Seq<char>)
    ensures
        contains_text(s, s),
{
    assert(s.subrange(0int, 0int + s.len()) =~= s);
}

} // verus!
