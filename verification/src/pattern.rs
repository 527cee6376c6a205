//! Regular-expression matching through the `regex` crate, and the verified
//! machinery that rebuilds a text from the matches: the gaps between them
//! and what each match is replaced by.

use vstd::prelude::*;

verus! {

/// A span `[start, end)` of character positions in a haystack.
#[derive(Clone, Copy, Debug, PartialEq, Eq)]
pub struct Span {
    pub start: usize,
    pub end: usize,
}

/// Capture groups of one match: group `g` is `Some(span)` when it took
/// part in the match.
pub type Groups = Vec<Option<Span>>;

/// Whether `regex::Regex::new` accepts `pattern`.
pub uninterp spec fn regex_compiles(pattern: Seq<char>) -> bool;

/// The matches that `regex::Regex::captures_iter` reports for `pattern` on
/// `haystack`, each as the spans of its capture groups.
pub uninterp spec fn regex_captures(pattern: Seq<char>, haystack: Seq<char>) -> Seq<Seq<Option<Span>>>;

/// What `regex::Regex::replace_all` returns for a replacement string
/// (with `$name` expansion).
pub uninterp spec fn regex_replace_all_expanded(pattern: Seq<char>, haystack: Seq<char>, rep: Seq<char>) -> Seq<char>;

/// What `regex::Regex::replace` (first match only) returns for a
/// replacement string (with `$name` expansion).
pub uninterp spec fn regex_replace_first_expanded(pattern: Seq<char>, haystack: Seq<char>, rep: Seq<char>) -> Seq<char>;

/// What `regex::escape` returns.
pub uninterp spec fn regex_escaped(text: Seq<char>) -> Seq<char>;

/// The group spans held by a vector of matches.
pub open spec fn caps_view(v: Seq<Groups>) -> Seq<Seq<Option<Span>>> {
    v.map_values(|g: Groups| g@)
}

/// The matches of `pattern` on `haystack`: none when the pattern does not
/// compile.
pub open spec fn matches_of(pattern: Seq<char>, haystack: Seq<char>) -> Seq<Seq<Option<Span>>> {
    if regex_compiles(pattern) {
        regex_captures(pattern, haystack)
    } else {
        Seq::empty()
    }
}

/// Start of a match (its group 0).
pub open spec fn mstart(m: Seq<Option<Span>>) -> int {
    m[0].unwrap().start as int
}

/// End of a match (its group 0).
pub open spec fn mend(m: Seq<Option<Span>>) -> int {
    m[0].unwrap().end as int
}

/// What the `regex` documentation promises of the matches on a haystack of
/// `n` characters: group 0 always takes part, every span lies within the
/// haystack, and the matches are successive and do not overlap.
pub open spec fn well_formed_captures(caps: Seq<Seq<Option<Span>>>, n: int) -> bool {
    &&& forall|k: int| 0 <= k < caps.len() ==> #[trigger] caps[k].len() >= 1 && caps[k][0] is Some
    &&& forall|k: int, g: int|
        0 <= k < caps.len() && 0 <= g < caps[k].len() && #[trigger] caps[k][g] is Some
            ==> caps[k][g].unwrap().start <= caps[k][g].unwrap().end <= n
    &&& forall|j: int, k: int|
        0 <= j < k < caps.len() ==> mend(#[trigger] caps[j]) <= mstart(#[trigger] caps[k])
}

/// Text of group `g` of match `m`, or the empty text when the group did not
/// take part.
pub open spec fn group_text(hay: Seq<char>, m: Seq<Option<Span>>, g: int) -> Seq<char> {
    if 0 <= g < m.len() && m[g] is Some {
        hay.subrange(m[g].unwrap().start as int, m[g].unwrap().end as int)
    } else {
        Seq::empty()
    }
}

/// Whether group `g` of match `m` took part in the match.
pub open spec fn group_present(m: Seq<Option<Span>>, g: int) -> bool {
    0 <= g < m.len() && m[g] is Some
}

/// The haystack from `pos` on, with the matches from the `k`-th on replaced
/// by `reps`.
pub open spec fn spliced_from(
    hay: Seq<char>,
    caps: Seq<Seq<Option<Span>>>,
    reps: Seq<Seq<char>>,
    k: int,
    pos: int,
) -> Seq<char>
    decreases caps.len() - k,
{
    if k < 0 || k >= caps.len() {
        hay.subrange(pos, hay.len() as int)
    } else {
        hay.subrange(pos, mstart(caps[k])) + reps[k] + spliced_from(hay, caps, reps, k + 1, mend(caps[k]))
    }
}

/// The haystack with its `k`-th match replaced by `reps[k]`, for every `k`:
/// what `Regex::replace_all` gives with a closure replacer.
pub open spec fn spliced(hay: Seq<char>, caps: Seq<Seq<Option<Span>>>, reps: Seq<Seq<char>>) -> Seq<char> {
    spliced_from(hay, caps, reps, 0, 0)
}

/// The texts of group `g` of every match.
pub open spec fn group_texts(hay: Seq<char>, caps: Seq<Seq<Option<Span>>>, g: int) -> Seq<Seq<char>> {
    Seq::new(caps.len(), |k: int| group_text(hay, caps[k], g))
}

/// The matches of `pattern` on `haystack`, each as its group spans in
/// character positions (`Regex::new` then `Regex::captures_iter`). The
/// contract claims that the spans are `regex_captures` of the pattern and
/// haystack when `Regex::new` accepts the pattern, and that there are none
/// when it does not; and that they are well formed as the `regex`
/// documentation describes them (group 0 always present, every span within
/// the haystack, matches successive and non-overlapping).
#[verifier::external_body]
pub(crate) fn capture_spans(pattern: &str, haystack: &str) -> (r: Vec<Groups>)
    ensures
        caps_view(r@) == (if regex_compiles(pattern@) {
            regex_captures(pattern@, haystack@)
        } else {
            Seq::empty()
        }),
        well_formed_captures(caps_view(r@), haystack@.len() as int),
{
    let at = |b: usize| haystack[..b].chars().count();
    match regex::Regex::new(pattern) {
        Ok(re) => re.captures_iter(haystack)
            .map(|c| c.iter().map(|m| m.map(|m| Span { start: at(m.start()), end: at(m.end()) })).collect())
            .collect(),
        Err(_) => Vec::new(),
    }
}

/// `Regex::replace_all` with a replacement string. The contract claims
/// that the result is `regex_replace_all_expanded` of the pattern,
/// haystack and replacement when `Regex::new` accepts the pattern, and the
/// haystack unchanged when it does not.
#[verifier::external_body]
pub(crate) fn replace_all_expanded(pattern: &str, haystack: &str, rep: &str) -> (r: String)
    ensures
        r@ == (if regex_compiles(pattern@) {
            regex_replace_all_expanded(pattern@, haystack@, rep@)
        } else {
            haystack@
        }),
{
    match regex::Regex::new(pattern) {
        Ok(re) => re.replace_all(haystack, rep).into_owned(),
        Err(_) => haystack.to_string(),
    }
}

/// `Regex::replace` (first match only) with a replacement string. The
/// contract claims that the result is `regex_replace_first_expanded` of
/// the pattern, haystack and replacement when `Regex::new` accepts the
/// pattern, and the haystack unchanged when it does not.
#[verifier::external_body]
pub(crate) fn replace_first_expanded(pattern: &str, haystack: &str, rep: &str) -> (r: String)
    ensures
        r@ == (if regex_compiles(pattern@) {
            regex_replace_first_expanded(pattern@, haystack@, rep@)
        } else {
            haystack@
        }),
{
    match regex::Regex::new(pattern) {
        Ok(re) => re.replace(haystack, rep).into_owned(),
        Err(_) => haystack.to_string(),
    }
}

/// `regex::escape`. The contract claims only that the result is
/// `regex_escaped` of the text.
#[verifier::external_body]
pub(crate) fn escape(text: &str) -> (r: String)
    ensures
        r@ == regex_escaped(text@),
{
    regex::escape(text)
}

/// Characters of group `g` of match `m` (empty when it did not take part).
pub fn group_chars(hay: &[char], m: &Groups, g: usize) -> (r: Vec<char>)
    requires
        forall|i: int| 0 <= i < m@.len() && #[trigger] m@[i] is Some ==> m@[i].unwrap().start <= m@[i].unwrap().end <= hay@.len(),
    ensures
        r@ == group_text(hay@, m@, g as int),
{
    if g < m.len() {
        match m[g] {
            Some(sp) => crate::text::slice_vec(&hay[sp.start..sp.end]),
            None => Vec::new(),
        }
    } else {
        Vec::new()
    }
}

/// Whether group `g` of match `m` took part.
pub fn group_present_exec(m: &Groups, g: usize) -> (b: bool)
    ensures
        b == group_present(m@, g as int),
{
    g < m.len() && m[g].is_some()
}

/// `hay` with the `k`-th match replaced by `reps[k]`.
pub fn splice(hay: &[char], caps: &Vec<Groups>, reps: &Vec<Vec<char>>) -> (r: Vec<char>)
    requires
        well_formed_captures(caps_view(caps@), hay@.len() as int),
        reps@.len() == caps@.len(),
    ensures
        r@ == spliced(hay@, caps_view(caps@), crate::text::views(reps@)),
{
    let ghost cv = caps_view(caps@);
    let ghost rv = crate::text::views(reps@);
    let mut out: Vec<char> = Vec::new();
    let mut pos: usize = 0;
    let mut k: usize = 0;
    while k < caps.len()
        invariant
            cv == caps_view(caps@),
            rv == crate::text::views(reps@),
            well_formed_captures(cv, hay@.len() as int),
            reps@.len() == caps@.len(),
            k <= caps@.len(),
            pos <= hay@.len(),
            k < caps@.len() ==> pos <= mstart(cv[k as int]),
            out@ + spliced_from(hay@, cv, rv, k as int, pos as int) == spliced(hay@, cv, rv),
        decreases caps@.len() - k,
    {
        let m = &caps[k];
        assert(cv[k as int] == m@);
        assert(m@.len() >= 1 && m@[0] is Some);
        let sp = m[0].unwrap();
        let a = sp.start;
        let b = sp.end;
        assert(a <= b <= hay@.len()) by {
            assert(cv[k as int][0] is Some);
        }
        let ghost before = out@;
        crate::text::push_all(&mut out, &hay[pos..a]);
        crate::text::push_all(&mut out, reps[k].as_slice());
        assert(before + spliced_from(hay@, cv, rv, k as int, pos as int) =~= out@ + spliced_from(hay@, cv, rv, k + 1, b as int));
        pos = b;
        k = k + 1;
        assert(k < caps@.len() ==> pos <= mstart(cv[k as int])) by {
            if k < caps@.len() {
                assert(mend(cv[k - 1]) <= mstart(cv[k as int]));
            }
        }
    }
    let ghost before = out@;
    crate::text::push_all(&mut out, &hay[pos..hay.len()]);
    assert(before + spliced_from(hay@, cv, rv, k as int, pos as int) =~= out@);
    out
}

/// Replacing every match by the text it matched gives the haystack back.
pub proof fn lemma_spliced_own_text(hay: Seq<char>, caps: Seq<Seq<Option<Span>>>)
    requires
        well_formed_captures(caps, hay.len() as int),
    ensures
        spliced(hay, caps, group_texts(hay, caps, 0)) == hay,
{
    lemma_spliced_from_own_text(hay, caps, 0, 0);
    assert(hay.subrange(0, hay.len() as int) =~= hay);
}

/// From position `pos` on (before the `k`-th match), replacing every match
/// by its own text gives the rest of the haystack back.
proof fn lemma_spliced_from_own_text(hay: Seq<char>, caps: Seq<Seq<Option<Span>>>, k: int, pos: int)
    requires
        well_formed_captures(caps, hay.len() as int),
        0 <= k <= caps.len(),
        0 <= pos <= hay.len(),
        k < caps.len() ==> pos <= mstart(caps[k]),
    ensures
        spliced_from(hay, caps, group_texts(hay, caps, 0), k, pos) == hay.subrange(pos, hay.len() as int),
    decreases caps.len() - k,
{
    let reps = group_texts(hay, caps, 0);
    if k < caps.len() {
        assert(caps[k].len() >= 1 && caps[k][0] is Some);
        assert(mstart(caps[k]) <= mend(caps[k]) <= hay.len());
        if k + 1 < caps.len() {
            assert(mend(caps[k]) <= mstart(caps[k + 1]));
        }
        lemma_spliced_from_own_text(hay, caps, k + 1, mend(caps[k]));
        assert(reps[k] == hay.subrange(mstart(caps[k]), mend(caps[k])));
        assert(hay.subrange(pos, mstart(caps[k])) + reps[k] + hay.subrange(mend(caps[k]), hay.len() as int)
            =~= hay.subrange(pos, hay.len() as int));
    }
}

/// A haystack without matches is left as it is, whatever the replacements.
pub proof fn lemma_spliced_no_matches(hay: Seq<char>, reps: Seq<Seq<char>>)
    ensures
        spliced(hay, Seq::empty(), reps) == hay,
{
    assert(hay.subrange(0, hay.len() as int) =~= hay);
}

} // verus!
