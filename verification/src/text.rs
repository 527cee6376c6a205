//! Character-sequence primitives: the `str` operations that the
//! transformations use, stated over `Seq<char>` and implemented on
//! `Vec<char>`.

use vstd::prelude::*;

verus! {

/// Unicode `White_Space` property, as used by `char::is_whitespace`,
/// `str::trim` and `str::split_whitespace`.
pub open spec fn is_ws(c: char) -> bool {
    ||| ('\u{9}' <= c && c <= '\u{d}')
    ||| c == ' '
    ||| c == '\u{85}'
    ||| c == '\u{a0}'
    ||| c == '\u{1680}'
    ||| ('\u{2000}' <= c && c <= '\u{200a}')
    ||| c == '\u{2028}'
    ||| c == '\u{2029}'
    ||| c == '\u{202f}'
    ||| c == '\u{205f}'
    ||| c == '\u{3000}'
}

/// Executable `is_ws`.
pub fn is_whitespace(c: char) -> (b: bool)
    ensures
        b == is_ws(c),
{
    ('\u{9}' <= c && c <= '\u{d}') || c == ' ' || c == '\u{85}' || c == '\u{a0}' || c == '\u{1680}'
        || ('\u{2000}' <= c && c <= '\u{200a}') || c == '\u{2028}' || c == '\u{2029}'
        || c == '\u{202f}' || c == '\u{205f}' || c == '\u{3000}'
}

/// The characters of `s`, in order.
pub fn chars_of(s: &str) -> (v: Vec<char>)
    ensures
        v@ == s@,
{
    let mut v: Vec<char> = Vec::new();
    for c in it: s.chars()
        invariant
            v@ == it.seq().take(it.index() as int),
            it.seq() == s@,
    {
        v.push(c);
    }
    v
}

/// `Iterator::collect` of the characters `cs` into a `String`; the
/// contract claims that the string holds exactly those characters, in
/// order.
#[verifier::external_body]
pub(crate) fn string_of(cs: &[char]) -> (s: String)
    ensures
        s@ == cs@,
{
    cs.iter().collect()
}

} // verus!

verus! {

/// `p` occurs in `s` starting at index `i`.
pub open spec fn matches_at(s: Seq<char>, p: Seq<char>, i: int) -> bool {
    0 <= i && i + p.len() <= s.len() && s.subrange(i, i + p.len()) == p
}

/// `p` occurs somewhere in `s` (`str::contains`).
pub open spec fn contains(s: Seq<char>, p: Seq<char>) -> bool {
    exists|i: int| matches_at(s, p, i)
}

/// `s` begins with `p` (`str::starts_with`).
pub open spec fn starts_with(s: Seq<char>, p: Seq<char>) -> bool {
    matches_at(s, p, 0)
}

/// `s` ends with `p` (`str::ends_with`).
pub open spec fn ends_with(s: Seq<char>, p: Seq<char>) -> bool {
    matches_at(s, p, s.len() - p.len())
}

/// Leftmost occurrence of `p` in `s` at or after `i`.
pub open spec fn find_from(s: Seq<char>, p: Seq<char>, i: int) -> Option<int>
    decreases s.len() - i,
{
    if i < 0 || i + p.len() > s.len() {
        None
    } else if matches_at(s, p, i) {
        Some(i)
    } else if i >= s.len() {
        None
    } else {
        find_from(s, p, i + 1)
    }
}

/// `str::replace` with a non-empty pattern, from position `i` on: every
/// leftmost non-overlapping occurrence of `from` becomes `to`.
pub open spec fn replace_from(s: Seq<char>, from: Seq<char>, to: Seq<char>, i: int) -> Seq<char>
    decreases s.len() - i,
{
    if i < 0 || from.len() == 0 || i + from.len() > s.len() {
        if 0 <= i <= s.len() { s.subrange(i, s.len() as int) } else { Seq::empty() }
    } else if matches_at(s, from, i) {
        to + replace_from(s, from, to, i + from.len())
    } else {
        seq![s[i]] + replace_from(s, from, to, i + 1)
    }
}

/// `str::replace(from, to)` for a non-empty `from`.
pub open spec fn replace(s: Seq<char>, from: Seq<char>, to: Seq<char>) -> Seq<char> {
    replace_from(s, from, to, 0)
}

/// `str::split` with a non-empty separator: the pieces from `i` on, the
/// current piece having begun at `start`.
pub open spec fn split_from(s: Seq<char>, sep: Seq<char>, i: int, start: int) -> Seq<Seq<char>>
    decreases s.len() - i,
{
    if i < 0 || sep.len() == 0 || i + sep.len() > s.len() {
        seq![s.subrange(start, s.len() as int)]
    } else if matches_at(s, sep, i) {
        seq![s.subrange(start, i)] + split_from(s, sep, i + sep.len(), i + sep.len())
    } else {
        split_from(s, sep, i + 1, start)
    }
}

/// `str::split(sep)` for a non-empty `sep`.
pub open spec fn split(s: Seq<char>, sep: Seq<char>) -> Seq<Seq<char>> {
    split_from(s, sep, 0, 0)
}

/// `[..].join(sep)`.
pub open spec fn join(parts: Seq<Seq<char>>, sep: Seq<char>) -> Seq<char>
    decreases parts.len(),
{
    if parts.len() == 0 {
        Seq::empty()
    } else if parts.len() == 1 {
        parts[0]
    } else {
        join(parts.drop_last(), sep) + sep + parts.last()
    }
}

/// `str::trim_start`.
pub open spec fn trim_start(s: Seq<char>) -> Seq<char>
    decreases s.len(),
{
    if s.len() > 0 && is_ws(s[0]) {
        trim_start(s.drop_first())
    } else {
        s
    }
}

/// `str::trim_end`.
pub open spec fn trim_end(s: Seq<char>) -> Seq<char>
    decreases s.len(),
{
    if s.len() > 0 && is_ws(s.last()) {
        trim_end(s.drop_last())
    } else {
        s
    }
}

/// `str::trim`.
pub open spec fn trim(s: Seq<char>) -> Seq<char> {
    trim_end(trim_start(s))
}

/// `p` occurs at `i` (executable `matches_at`).
pub fn matches_at_exec(s: &[char], p: &[char], i: usize) -> (b: bool)
    ensures
        b == matches_at(s@, p@, i as int),
{
    if i > s.len() || p.len() > s.len() - i {
        return false;
    }
    let mut k: usize = 0;
    while k < p.len()
        invariant
            i + p@.len() <= s@.len(),
            i + p.len() <= s.len(),
            k <= p@.len(),
            forall|j: int| 0 <= j < k ==> s@[i + j] == p@[j],
        decreases p@.len() - k,
    {
        if s[i + k] != p[k] {
            assert(s@.subrange(i as int, i + p@.len())[k as int] != p@[k as int]);
            return false;
        }
        k = k + 1;
    }
    assert(s@.subrange(i as int, i + p@.len()) =~= p@);
    true
}

/// Leftmost occurrence of `p` at or after `i` (`str::find` on a suffix).
pub fn find_from_exec(s: &[char], p: &[char], i: usize) -> (r: Option<usize>)
    ensures
        match r {
            Some(j) => find_from(s@, p@, i as int) == Some(j as int),
            None => find_from(s@, p@, i as int) is None,
        },
{
    let mut j = i;
    while j <= s.len() && p.len() <= s.len() - j
        invariant
            i <= j,
            find_from(s@, p@, i as int) == find_from(s@, p@, j as int),
        decreases s@.len() + 1 - j,
    {
        if matches_at_exec(s, p, j) {
            return Some(j);
        }
        if j == s.len() {
            return None;
        }
        j = j + 1;
    }
    None
}

/// Whether `p` occurs in `s` (`str::contains`).
pub fn contains_exec(s: &[char], p: &[char]) -> (b: bool)
    ensures
        b == contains(s@, p@),
{
    let r = find_from_exec(s, p, 0);
    proof {
        lemma_find_from_contains(s@, p@, 0);
    }
    r.is_some()
}

/// `find_from` finds an occurrence exactly when one exists at or after `i`.
pub proof fn lemma_find_from_contains(s: Seq<char>, p: Seq<char>, i: int)
    requires
        0 <= i,
    ensures
        (find_from(s, p, i) is Some) <==> (exists|j: int| i <= j && matches_at(s, p, j)),
        find_from(s, p, i) matches Some(j) ==> i <= j && matches_at(s, p, j)
            && forall|k: int| i <= k < j ==> !matches_at(s, p, k),
    decreases s.len() - i,
{
    if i + p.len() > s.len() {
        assert forall|j: int| i <= j implies !matches_at(s, p, j) by {}
    } else if matches_at(s, p, i) {
    } else if i >= s.len() {
        assert forall|j: int| i <= j implies !matches_at(s, p, j) by {}
    } else {
        lemma_find_from_contains(s, p, i + 1);
        assert forall|j: int| i <= j && matches_at(s, p, j) implies i + 1 <= j by {}
    }
}

/// Whether `s` begins with `p`.
pub fn starts_with_exec(s: &[char], p: &[char]) -> (b: bool)
    ensures
        b == starts_with(s@, p@),
{
    matches_at_exec(s, p, 0)
}

/// Whether `s` ends with `p`.
pub fn ends_with_exec(s: &[char], p: &[char]) -> (b: bool)
    ensures
        b == ends_with(s@, p@),
{
    if p.len() > s.len() {
        false
    } else {
        matches_at_exec(s, p, s.len() - p.len())
    }
}

/// Appends `t` to `out`.
pub fn push_all(out: &mut Vec<char>, t: &[char])
    ensures
        final(out)@ == old(out)@ + t@,
{
    let mut k: usize = 0;
    while k < t.len()
        invariant
            k <= t@.len(),
            out@ == old(out)@ + t@.subrange(0, k as int),
        decreases t@.len() - k,
    {
        out.push(t[k]);
        k = k + 1;
        assert(out@ =~= old(out)@ + t@.subrange(0, k as int));
    }
    assert(t@.subrange(0, t@.len() as int) =~= t@);
}

/// `str::replace(from, to)` for a non-empty `from`.
pub fn replace_exec(s: &[char], from: &[char], to: &[char]) -> (r: Vec<char>)
    requires
        from@.len() > 0,
    ensures
        r@ == replace(s@, from@, to@),
{
    let mut out: Vec<char> = Vec::new();
    let mut i: usize = 0;
    while i < s.len() && from.len() <= s.len() - i
        invariant
            i <= s@.len(),
            from@.len() > 0,
            out@ + replace_from(s@, from@, to@, i as int) == replace(s@, from@, to@),
        decreases s@.len() - i,
    {
        if matches_at_exec(s, from, i) {
            let ghost before = out@;
            push_all(&mut out, to);
            assert(before + replace_from(s@, from@, to@, i as int) == out@ + replace_from(s@, from@, to@, i + from@.len())) by {
                assert(before + (to@ + replace_from(s@, from@, to@, i + from@.len())) =~= before + to@ + replace_from(s@, from@, to@, i + from@.len()));
            }
            i = i + from.len();
        } else {
            let ghost before = out@;
            out.push(s[i]);
            assert(before + (seq![s@[i as int]] + replace_from(s@, from@, to@, i + 1)) =~= out@ + replace_from(s@, from@, to@, i + 1));
            i = i + 1;
        }
    }
    let ghost before = out@;
    push_all(&mut out, &s[i..s.len()]);
    assert(before + replace_from(s@, from@, to@, i as int) =~= out@);
    out
}

} // verus!

verus! {

/// The character sequences held by a vector of character vectors.
pub open spec fn views(v: Seq<Vec<char>>) -> Seq<Seq<char>> {
    v.map_values(|x: Vec<char>| x@)
}

/// `str::split(sep)` for a non-empty `sep`.
pub fn split_exec(s: &[char], sep: &[char]) -> (r: Vec<Vec<char>>)
    requires
        sep@.len() > 0,
    ensures
        views(r@) == split(s@, sep@),
{
    let mut out: Vec<Vec<char>> = Vec::new();
    let mut i: usize = 0;
    let mut start: usize = 0;
    while i < s.len() && sep.len() <= s.len() - i
        invariant
            start <= i <= s@.len(),
            sep@.len() > 0,
            views(out@) + split_from(s@, sep@, i as int, start as int) == split(s@, sep@),
        decreases s@.len() - i,
    {
        if matches_at_exec(s, sep, i) {
            let piece = slice_vec(&s[start..i]);
            let ghost before = views(out@);
            let ghost rest = split_from(s@, sep@, i + sep@.len(), i + sep@.len());
            out.push(piece);
            assert(views(out@) =~= before.push(s@.subrange(start as int, i as int)));
            assert(before + (seq![s@.subrange(start as int, i as int)] + rest) =~= views(out@) + rest);
            i = i + sep.len();
            start = i;
        } else {
            i = i + 1;
        }
    }
    let last = slice_vec(&s[start..s.len()]);
    let ghost before = views(out@);
    out.push(last);
    assert(views(out@) =~= before.push(s@.subrange(start as int, s@.len() as int)));
    assert(views(out@) =~= before + split_from(s@, sep@, i as int, start as int));
    out
}

/// A vector holding the characters of `t`.
pub fn slice_vec(t: &[char]) -> (v: Vec<char>)
    ensures
        v@ == t@,
{
    let mut v: Vec<char> = Vec::new();
    push_all(&mut v, t);
    assert(v@ =~= t@);
    v
}

/// `split_from` always yields at least one piece.
pub proof fn lemma_split_nonempty(s: Seq<char>, sep: Seq<char>, i: int, start: int)
    ensures
        split_from(s, sep, i, start).len() >= 1,
    decreases s.len() - i,
{
    if i < 0 || sep.len() == 0 || i + sep.len() > s.len() {
    } else if matches_at(s, sep, i) {
        lemma_split_nonempty(s, sep, i + sep.len(), i + sep.len());
    } else {
        lemma_split_nonempty(s, sep, i + 1, start);
    }
}

/// `[..].join(sep)`.
pub fn join_exec(parts: &Vec<Vec<char>>, sep: &[char]) -> (r: Vec<char>)
    ensures
        r@ == join(views(parts@), sep@),
{
    let mut out: Vec<char> = Vec::new();
    let mut k: usize = 0;
    while k < parts.len()
        invariant
            k <= parts@.len(),
            out@ == join(views(parts@).take(k as int), sep@),
        decreases parts@.len() - k,
    {
        let ghost pv = views(parts@);
        if k > 0 {
            push_all(&mut out, sep);
        }
        push_all(&mut out, parts[k].as_slice());
        assert(pv.take(k + 1).drop_last() =~= pv.take(k as int));
        assert(pv.take(k + 1).last() == parts@[k as int]@);
        k = k + 1;
    }
    assert(views(parts@).take(parts@.len() as int) =~= views(parts@));
    out
}

/// Removing a leading whitespace character does not change `trim_start`.
proof fn lemma_trim_start_step(s: Seq<char>, i: int)
    requires
        0 <= i < s.len(),
        is_ws(s[i]),
    ensures
        trim_start(s.subrange(i, s.len() as int)) == trim_start(s.subrange(i + 1, s.len() as int)),
{
    assert(s.subrange(i, s.len() as int).drop_first() =~= s.subrange(i + 1, s.len() as int));
}

/// Removing a trailing whitespace character does not change `trim_end`.
proof fn lemma_trim_end_step(s: Seq<char>, lo: int, hi: int)
    requires
        0 <= lo < hi <= s.len(),
        is_ws(s[hi - 1]),
    ensures
        trim_end(s.subrange(lo, hi)) == trim_end(s.subrange(lo, hi - 1)),
{
    assert(s.subrange(lo, hi).drop_last() =~= s.subrange(lo, hi - 1));
}

/// `str::trim`.
pub fn trim_exec(s: &[char]) -> (r: Vec<char>)
    ensures
        r@ == trim(s@),
{
    let n = s.len();
    let mut lo: usize = 0;
    assert(s@.subrange(0, n as int) =~= s@);
    while lo < n && is_whitespace(s[lo])
        invariant
            n == s@.len(),
            lo <= n,
            trim_start(s@) == trim_start(s@.subrange(lo as int, n as int)),
        decreases n - lo,
    {
        proof {
            lemma_trim_start_step(s@, lo as int);
        }
        lo = lo + 1;
    }
    assert(trim_start(s@.subrange(lo as int, n as int)) == s@.subrange(lo as int, n as int));
    let mut hi: usize = n;
    while hi > lo && is_whitespace(s[hi - 1])
        invariant
            n == s@.len(),
            lo <= hi <= n,
            trim(s@) == trim_end(s@.subrange(lo as int, hi as int)),
        decreases hi,
    {
        proof {
            lemma_trim_end_step(s@, lo as int, hi as int);
        }
        hi = hi - 1;
    }
    slice_vec(&s[lo..hi])
}

} // verus!

verus! {

/// `str::trim_start_matches` with a non-empty pattern: every leading
/// occurrence of `p` removed.
pub open spec fn trim_start_matches(s: Seq<char>, p: Seq<char>) -> Seq<char>
    decreases s.len(),
{
    if p.len() > 0 && starts_with(s, p) {
        trim_start_matches(s.skip(p.len() as int), p)
    } else {
        s
    }
}

/// `str::trim_end_matches` with a non-empty pattern: every trailing
/// occurrence of `p` removed.
pub open spec fn trim_end_matches(s: Seq<char>, p: Seq<char>) -> Seq<char>
    decreases s.len(),
{
    if p.len() > 0 && ends_with(s, p) {
        trim_end_matches(s.take(s.len() - p.len()), p)
    } else {
        s
    }
}

/// Executable `trim_start_matches`.
pub fn trim_start_matches_exec(s: &[char], p: &[char]) -> (r: Vec<char>)
    ensures
        r@ == trim_start_matches(s@, p@),
{
    let n = s.len();
    let mut i: usize = 0;
    assert(s@.skip(0) =~= s@);
    if p.len() == 0 {
        return slice_vec(s);
    }
    while i <= n && p.len() <= n - i && matches_at_exec(s, p, i)
        invariant
            n == s@.len(),
            p@.len() > 0,
            i <= n,
            trim_start_matches(s@, p@) == trim_start_matches(s@.skip(i as int), p@),
        decreases n - i,
    {
        assert(s@.skip(i as int).subrange(0, p@.len() as int) =~= s@.subrange(i as int, i + p@.len()));
        assert(s@.skip(i as int).skip(p@.len() as int) =~= s@.skip(i + p@.len()));
        i = i + p.len();
    }
    assert(!starts_with(s@.skip(i as int), p@)) by {
        if starts_with(s@.skip(i as int), p@) {
            assert(s@.skip(i as int).subrange(0, p@.len() as int) =~= s@.subrange(i as int, i + p@.len()));
        }
    }
    let r = slice_vec(&s[i..n]);
    assert(r@ =~= s@.skip(i as int));
    r
}

/// Executable `trim_end_matches`.
pub fn trim_end_matches_exec(s: &[char], p: &[char]) -> (r: Vec<char>)
    ensures
        r@ == trim_end_matches(s@, p@),
{
    let n = s.len();
    let mut j: usize = n;
    assert(s@.take(n as int) =~= s@);
    if p.len() == 0 {
        return slice_vec(s);
    }
    while j >= p.len() && matches_at_exec(s, p, j - p.len())
        invariant
            n == s@.len(),
            p@.len() > 0,
            j <= n,
            trim_end_matches(s@, p@) == trim_end_matches(s@.take(j as int), p@),
        decreases j,
    {
        assert(s@.take(j as int).subrange(j - p@.len(), j as int) =~= s@.subrange(j - p@.len(), j as int));
        assert(s@.take(j as int).take(j - p@.len()) =~= s@.take(j - p@.len()));
        j = j - p.len();
    }
    assert(!ends_with(s@.take(j as int), p@)) by {
        if ends_with(s@.take(j as int), p@) {
            assert(s@.take(j as int).subrange(j - p@.len(), j as int) =~= s@.subrange(j - p@.len(), j as int));
        }
    }
    let r = slice_vec(&s[0..j]);
    assert(r@ =~= s@.take(j as int));
    r
}

} // verus!

verus! {

/// The character sequences held by a vector of strings.
pub open spec fn string_views(v: Seq<String>) -> Seq<Seq<char>> {
    v.map_values(|x: String| x@)
}

} // verus!

verus! {

/// Appends the characters of the literal `s` to `out`.
pub fn push_lit(out: &mut Vec<char>, s: &str)
    ensures
        final(out)@ == old(out)@ + s@,
{
    let t = chars_of(s);
    push_all(out, t.as_slice());
}

} // verus!

verus! {

/// The characters of each string of `v`.
pub fn chars_of_all(v: &Vec<String>) -> (r: Vec<Vec<char>>)
    ensures
        views(r@) == string_views(v@),
        r@.len() == v@.len(),
{
    let mut r: Vec<Vec<char>> = Vec::new();
    let mut k: usize = 0;
    while k < v.len()
        invariant
            k <= v@.len(),
            r@.len() == k,
            forall|j: int| 0 <= j < k ==> #[trigger] r@[j]@ == v@[j]@,
        decreases v@.len() - k,
    {
        r.push(chars_of(v[k].as_str()));
        k = k + 1;
    }
    assert(views(r@) =~= string_views(v@));
    r
}

/// A string for each character vector of `v`.
pub fn strings_of_all(v: &Vec<Vec<char>>) -> (r: Vec<String>)
    ensures
        string_views(r@) == views(v@),
        r@.len() == v@.len(),
{
    let mut r: Vec<String> = Vec::new();
    let mut k: usize = 0;
    while k < v.len()
        invariant
            k <= v@.len(),
            r@.len() == k,
            forall|j: int| 0 <= j < k ==> #[trigger] r@[j]@ == v@[j]@,
        decreases v@.len() - k,
    {
        r.push(string_of(v[k].as_slice()));
        k = k + 1;
    }
    assert(string_views(r@) =~= views(v@));
    r
}

} // verus!

verus! {

/// When `sep` occurs at or after `i`, the pieces from `i` on are at least
/// two.
pub proof fn lemma_split_two_pieces(s: Seq<char>, sep: Seq<char>, i: int, start: int)
    requires
        0 <= i,
        sep.len() > 0,
        exists|j: int| i <= j && matches_at(s, sep, j),
    ensures
        split_from(s, sep, i, start).len() >= 2,
    decreases s.len() - i,
{
    let j = choose|j: int| i <= j && matches_at(s, sep, j);
    if i + sep.len() > s.len() {
        assert(false);
    } else if matches_at(s, sep, i) {
        lemma_split_nonempty(s, sep, i + sep.len(), i + sep.len());
    } else {
        assert(i + 1 <= j);
        lemma_split_two_pieces(s, sep, i + 1, start);
    }
}

/// With no separator at or after `i`, the rest of the text is one piece.
proof fn lemma_split_no_separator(s: Seq<char>, sep: Seq<char>, i: int, start: int)
    requires
        0 <= i,
        sep.len() > 0,
        forall|j: int| i <= j ==> !matches_at(s, sep, j),
    ensures
        split_from(s, sep, i, start) == seq![s.subrange(start, s.len() as int)],
    decreases s.len() - i,
{
    if i + sep.len() <= s.len() {
        lemma_split_no_separator(s, sep, i + 1, start);
    }
}

/// Appending a text without the one-character separator `sep` extends the
/// last piece and leaves the others as they are.
pub proof fn lemma_split_append(s: Seq<char>, t: Seq<char>, sep: Seq<char>, i: int, start: int)
    requires
        sep.len() == 1,
        0 <= start <= i <= s.len(),
        forall|k: int| 0 <= k < t.len() ==> t[k] != sep[0],
    ensures
        ({
            let p = split_from(s, sep, i, start);
            split_from(s + t, sep, i, start) == p.drop_last().push(p.last() + t)
        }),
    decreases s.len() - i,
{
    let u = s + t;
    lemma_split_nonempty(s, sep, i, start);
    if i == s.len() {
        assert forall|j: int| i <= j implies !matches_at(u, sep, j) by {
            if matches_at(u, sep, j) {
                assert(u.subrange(j, j + 1)[0] == u[j]);
                assert(t[j - s.len()] == u[j]);
            }
        }
        lemma_split_no_separator(u, sep, i, start);
        assert(u.subrange(start, u.len() as int) =~= s.subrange(start, s.len() as int) + t);
    } else {
        assert(u.subrange(i, i + 1) =~= s.subrange(i, i + 1));
        if matches_at(s, sep, i) {
            lemma_split_append(s, t, sep, i + 1, i + 1);
            lemma_split_nonempty(s, sep, i + 1, i + 1);
            assert(u.subrange(start, i) =~= s.subrange(start, i));
            let head = seq![s.subrange(start, i)];
            let rest = split_from(s, sep, i + 1, i + 1);
            assert((head + rest).drop_last() =~= head + rest.drop_last());
            assert((head + rest).last() == rest.last());
            assert(head + rest.drop_last().push(rest.last() + t) =~= (head + rest.drop_last()).push(rest.last() + t));
        } else {
            lemma_split_append(s, t, sep, i + 1, start);
        }
    }
}

/// `split` of a text that contains the separator has at least two pieces.
pub proof fn lemma_split_contains(s: Seq<char>, sep: Seq<char>)
    requires
        sep.len() > 0,
        contains(s, sep),
    ensures
        split(s, sep).len() >= 2,
{
    let j = choose|j: int| matches_at(s, sep, j);
    lemma_split_two_pieces(s, sep, 0, 0);
}

} // verus!

verus! {

/// Whether two texts are equal.
pub fn eq_chars(a: &[char], b: &[char]) -> (r: bool)
    ensures
        r == (a@ == b@),
{
    if a.len() != b.len() {
        return false;
    }
    let r = matches_at_exec(a, b, 0);
    assert(r ==> a@.subrange(0, b@.len() as int) =~= a@);
    assert(a@ == b@ ==> a@.subrange(0, b@.len() as int) =~= a@);
    r
}

/// Each text trimmed.
pub open spec fn map_trim(s: Seq<Seq<char>>) -> Seq<Seq<char>> {
    s.map_values(|x: Seq<char>| trim(x))
}

/// The non-empty texts of `s`, in order.
pub open spec fn nonempty_only(s: Seq<Seq<char>>) -> Seq<Seq<char>>
    decreases s.len(),
{
    if s.len() == 0 {
        Seq::empty()
    } else if s.last().len() > 0 {
        nonempty_only(s.drop_last()).push(s.last())
    } else {
        nonempty_only(s.drop_last())
    }
}

/// The texts of `s` without repetitions, each where it first occurs.
pub open spec fn dedup(s: Seq<Seq<char>>) -> Seq<Seq<char>>
    decreases s.len(),
{
    if s.len() == 0 {
        Seq::empty()
    } else if dedup(s.drop_last()).contains(s.last()) {
        dedup(s.drop_last())
    } else {
        dedup(s.drop_last()).push(s.last())
    }
}

/// Each text occurs at most once in `dedup(s)`.
pub proof fn lemma_dedup_distinct(s: Seq<Seq<char>>)
    ensures
        forall|i: int, j: int| 0 <= i < j < dedup(s).len() ==> dedup(s)[i] != dedup(s)[j],
    decreases s.len(),
{
    if s.len() > 0 {
        lemma_dedup_distinct(s.drop_last());
        let d = dedup(s.drop_last());
        if !d.contains(s.last()) {
            assert forall|i: int, j: int| 0 <= i < j < dedup(s).len() implies dedup(s)[i] != dedup(s)[j] by {
                if j == d.len() {
                    assert(dedup(s)[i] == d[i]);
                    assert(dedup(s)[j] == s.last());
                }
            }
        }
    }
}

/// `dedup(s)` holds exactly the texts of `s`.
pub proof fn lemma_dedup_same_texts(s: Seq<Seq<char>>)
    ensures
        forall|x: Seq<char>| dedup(s).contains(x) <==> s.contains(x),
    decreases s.len(),
{
    if s.len() > 0 {
        lemma_dedup_same_texts(s.drop_last());
        let d = dedup(s.drop_last());
        assert forall|x: Seq<char>| dedup(s).contains(x) <==> s.contains(x) by {
            if s.contains(x) && x != s.last() {
                let i = choose|i: int| 0 <= i < s.len() && s[i] == x;
                assert(i < s.len() - 1);
                assert(s.drop_last()[i] == x);
            }
            if s.drop_last().contains(x) {
                let i = choose|i: int| 0 <= i < s.drop_last().len() && s.drop_last()[i] == x;
                assert(s[i] == x);
            }
            if x == s.last() {
                assert(s[s.len() - 1] == x);
            }
            if !d.contains(s.last()) && dedup(s).contains(x) {
                let i = choose|i: int| 0 <= i < dedup(s).len() && dedup(s)[i] == x;
                if i < d.len() {
                    assert(d[i] == x);
                }
            }
            if !d.contains(s.last()) && d.contains(x) {
                let i = choose|i: int| 0 <= i < d.len() && d[i] == x;
                assert(dedup(s)[i] == x);
            }
            if !d.contains(s.last()) && x == s.last() {
                assert(dedup(s)[d.len() as int] == x);
            }
        }
    }
}

/// The sequences of `s`, one after the other.
pub open spec fn concat_all(s: Seq<Seq<Seq<char>>>) -> Seq<Seq<char>>
    decreases s.len(),
{
    if s.len() == 0 {
        Seq::empty()
    } else {
        concat_all(s.drop_last()) + s.last()
    }
}

/// A line without the `\r` of a `\r\n` ending.
pub open spec fn strip_cr(l: Seq<char>) -> Seq<char> {
    if l.len() > 0 && l.last() == '\r' {
        l.drop_last()
    } else {
        l
    }
}

/// `str::lines`: the text cut at each `\n`, a `\r` before the `\n`
/// removed, and no empty line after a final `\n`.
pub open spec fn lines(s: Seq<char>) -> Seq<Seq<char>> {
    let parts = split(s, "\n"@);
    let body = parts.drop_last().map_values(|l: Seq<char>| strip_cr(l));
    if parts.last().len() == 0 {
        body
    } else {
        body.push(parts.last())
    }
}

/// Each text of `v` trimmed.
pub fn map_trim_exec(v: &Vec<Vec<char>>) -> (r: Vec<Vec<char>>)
    ensures
        views(r@) == map_trim(views(v@)),
{
    let mut r: Vec<Vec<char>> = Vec::new();
    let mut k: usize = 0;
    while k < v.len()
        invariant
            k <= v@.len(),
            r@.len() == k,
            forall|j: int| 0 <= j < k ==> #[trigger] r@[j]@ == trim(v@[j]@),
        decreases v@.len() - k,
    {
        r.push(trim_exec(v[k].as_slice()));
        k = k + 1;
    }
    assert(views(r@) =~= map_trim(views(v@)));
    r
}

/// The non-empty texts of `v`.
pub fn nonempty_only_exec(v: &Vec<Vec<char>>) -> (r: Vec<Vec<char>>)
    ensures
        views(r@) == nonempty_only(views(v@)),
{
    let ghost vv = views(v@);
    let mut r: Vec<Vec<char>> = Vec::new();
    let mut k: usize = 0;
    while k < v.len()
        invariant
            vv == views(v@),
            k <= v@.len(),
            views(r@) == nonempty_only(vv.take(k as int)),
        decreases v@.len() - k,
    {
        assert(vv.take(k + 1).drop_last() =~= vv.take(k as int));
        assert(vv.take(k + 1).last() == v@[k as int]@);
        if v[k].len() > 0 {
            let ghost before = views(r@);
            r.push(slice_vec(v[k].as_slice()));
            assert(views(r@) =~= before.push(v@[k as int]@));
        }
        k = k + 1;
    }
    assert(vv.take(v@.len() as int) =~= vv);
    r
}

/// Whether `v` holds `t`.
pub fn holds(v: &Vec<Vec<char>>, t: &[char]) -> (r: bool)
    ensures
        r == views(v@).contains(t@),
{
    let mut k: usize = 0;
    while k < v.len()
        invariant
            k <= v@.len(),
            forall|j: int| 0 <= j < k ==> v@[j]@ != t@,
        decreases v@.len() - k,
    {
        if eq_chars(v[k].as_slice(), t) {
            assert(views(v@)[k as int] == t@);
            return true;
        }
        k = k + 1;
    }
    assert(!views(v@).contains(t@)) by {
        if views(v@).contains(t@) {
            let j = choose|j: int| 0 <= j < views(v@).len() && views(v@)[j] == t@;
            assert(v@[j]@ == t@);
        }
    }
    false
}

/// `acc` followed by the texts of `t` that it does not yet hold, each
/// once.
pub open spec fn dedup_add(acc: Seq<Seq<char>>, t: Seq<Seq<char>>) -> Seq<Seq<char>>
    decreases t.len(),
{
    if t.len() == 0 {
        acc
    } else if dedup_add(acc, t.drop_last()).contains(t.last()) {
        dedup_add(acc, t.drop_last())
    } else {
        dedup_add(acc, t.drop_last()).push(t.last())
    }
}

/// Deduplicating a concatenation extends the deduplicated prefix.
pub proof fn lemma_dedup_concat(p: Seq<Seq<char>>, t: Seq<Seq<char>>)
    ensures
        dedup(p + t) == dedup_add(dedup(p), t),
    decreases t.len(),
{
    if t.len() == 0 {
        assert(p + t =~= p);
    } else {
        lemma_dedup_concat(p, t.drop_last());
        assert((p + t).drop_last() =~= p + t.drop_last());
        assert((p + t).last() == t.last());
    }
}

/// Appends the texts of `t` that `acc` does not yet hold, each once.
pub fn dedup_extend(acc: &mut Vec<Vec<char>>, t: &Vec<Vec<char>>)
    ensures
        views(final(acc)@) == dedup_add(views(old(acc)@), views(t@)),
{
    let ghost a0 = views(acc@);
    let ghost tv = views(t@);
    let mut k: usize = 0;
    while k < t.len()
        invariant
            a0 == views(old(acc)@),
            tv == views(t@),
            k <= t@.len(),
            dedup_add(a0, tv.take(k as int)) == views(acc@),
        decreases t@.len() - k,
    {
        let ghost before = views(acc@);
        assert(tv.take(k + 1).drop_last() =~= tv.take(k as int));
        assert(tv.take(k + 1).last() == t@[k as int]@);
        if !holds(acc, t[k].as_slice()) {
            acc.push(slice_vec(t[k].as_slice()));
            assert(views(acc@) =~= before.push(t@[k as int]@));
        }
        k = k + 1;
    }
    assert(tv.take(t@.len() as int) =~= tv);
}

/// `v` without repetitions.
pub fn dedup_exec(v: &Vec<Vec<char>>) -> (r: Vec<Vec<char>>)
    ensures
        views(r@) == dedup(views(v@)),
{
    let mut r: Vec<Vec<char>> = Vec::new();
    assert(views(r@) =~= dedup(Seq::<Seq<char>>::empty()));
    dedup_extend(&mut r, v);
    proof {
        lemma_dedup_concat(Seq::empty(), views(v@));
    }
    assert(Seq::<Seq<char>>::empty() + views(v@) =~= views(v@));
    r
}

} // verus!

verus! {

/// `str::lines`.
pub fn lines_exec(s: &[char]) -> (r: Vec<Vec<char>>)
    ensures
        views(r@) == lines(s@),
{
    let nl = chars_of("\n");
    proof {
        reveal_strlit("\n");
        lemma_split_nonempty(s@, nl@, 0, 0);
    }
    let parts = split_exec(s, nl.as_slice());
    let ghost pv = views(parts@);
    assert(parts@.len() == pv.len());
    let n = parts.len();
    let mut r: Vec<Vec<char>> = Vec::new();
    let mut k: usize = 0;
    while k + 1 < n
        invariant
            pv == views(parts@),
            n == parts@.len(),
            n >= 1,
            k + 1 <= n,
            r@.len() == k,
            forall|j: int| 0 <= j < k ==> #[trigger] r@[j]@ == strip_cr(pv[j]),
        decreases n - k,
    {
        let l = &parts[k];
        assert(pv[k as int] == l@);
        if l.len() > 0 && l[l.len() - 1] == '\r' {
            r.push(slice_vec(&l[0..l.len() - 1]));
            assert(l@.subrange(0, l@.len() - 1) =~= l@.drop_last());
        } else {
            r.push(slice_vec(l.as_slice()));
        }
        k = k + 1;
    }
    assert(views(r@) =~= pv.drop_last().map_values(|l: Seq<char>| strip_cr(l)));
    let last = &parts[n - 1];
    assert(pv.last() == last@);
    if last.len() > 0 {
        let ghost before = views(r@);
        r.push(slice_vec(last.as_slice()));
        assert(views(r@) =~= before.push(last@));
    }
    r
}

} // verus!

verus! {

/// The pieces of `s` from `i` on, cut at every whitespace character, the
/// current piece having begun at `start`.
pub open spec fn ws_pieces_from(s: Seq<char>, i: int, start: int) -> Seq<Seq<char>>
    decreases s.len() - i,
{
    if i < 0 || i >= s.len() {
        seq![s.subrange(start, s.len() as int)]
    } else if is_ws(s[i]) {
        seq![s.subrange(start, i)] + ws_pieces_from(s, i + 1, i + 1)
    } else {
        ws_pieces_from(s, i + 1, start)
    }
}

/// `str::split_whitespace`: the non-empty runs of non-whitespace.
pub open spec fn words(s: Seq<char>) -> Seq<Seq<char>> {
    nonempty_only(ws_pieces_from(s, 0, 0))
}

/// `str::split_whitespace`.
pub fn words_exec(s: &[char]) -> (r: Vec<Vec<char>>)
    ensures
        views(r@) == words(s@),
{
    let mut out: Vec<Vec<char>> = Vec::new();
    let mut i: usize = 0;
    let mut start: usize = 0;
    while i < s.len()
        invariant
            start <= i <= s@.len(),
            views(out@) + ws_pieces_from(s@, i as int, start as int) == ws_pieces_from(s@, 0, 0),
        decreases s@.len() - i,
    {
        if is_whitespace(s[i]) {
            let piece = slice_vec(&s[start..i]);
            let ghost before = views(out@);
            let ghost rest = ws_pieces_from(s@, i + 1, i + 1);
            out.push(piece);
            assert(views(out@) =~= before.push(s@.subrange(start as int, i as int)));
            assert(before + (seq![s@.subrange(start as int, i as int)] + rest) =~= views(out@) + rest);
            i = i + 1;
            start = i;
        } else {
            i = i + 1;
        }
    }
    let last = slice_vec(&s[start..s.len()]);
    let ghost before = views(out@);
    out.push(last);
    assert(views(out@) =~= before.push(s@.subrange(start as int, s@.len() as int)));
    assert(views(out@) =~= before + ws_pieces_from(s@, i as int, start as int));
    nonempty_only_exec(&out)
}

} // verus!

verus! {

/// Containment is transitive: what occurs in a part of a text occurs in
/// the text.
pub proof fn lemma_contains_trans(s: Seq<char>, x: Seq<char>, y: Seq<char>)
    requires
        contains(s, x),
        contains(x, y),
    ensures
        contains(s, y),
{
    let a = choose|a: int| matches_at(s, x, a);
    let b = choose|b: int| matches_at(x, y, b);
    assert(s.subrange(a + b, a + b + y.len()) =~= x.subrange(b, b + y.len())) by {
        assert(x == s.subrange(a, a + x.len()));
    }
    assert(matches_at(s, y, a + b));
}

/// A text occurs in every text that has it at a known position.
pub proof fn lemma_contains_at(s: Seq<char>, x: Seq<char>, a: int)
    requires
        0 <= a,
        a + x.len() <= s.len(),
        s.subrange(a, a + x.len()) == x,
    ensures
        contains(s, x),
{
    assert(matches_at(s, x, a));
}

/// Every piece of a joined text occurs in it.
pub proof fn lemma_join_contains(parts: Seq<Seq<char>>, sep: Seq<char>, k: int)
    requires
        0 <= k < parts.len(),
    ensures
        contains(join(parts, sep), parts[k]),
    decreases parts.len(),
{
    let j = join(parts, sep);
    if parts.len() == 1 {
        assert(j.subrange(0, parts[0].len() as int) =~= parts[0]);
        lemma_contains_at(j, parts[k], 0);
    } else {
        let prev = join(parts.drop_last(), sep);
        if k == parts.len() - 1 {
            let a: int = prev.len() as int + sep.len() as int;
            assert(j.subrange(a, a + parts.last().len()) =~= parts.last());
            lemma_contains_at(j, parts[k], a);
        } else {
            lemma_join_contains(parts.drop_last(), sep, k);
            assert(parts.drop_last()[k] == parts[k]);
            assert(j.subrange(0, prev.len() as int) =~= prev);
            lemma_contains_at(j, prev, 0);
            lemma_contains_trans(j, prev, parts[k]);
        }
    }
}

} // verus!
