//! Source rewrites applied around the structural rewriter: borrowed query
//! parameters, clones for shared state captured by coroutines, merged
//! intersection types, and API documentation for request handlers.

use vstd::prelude::*;
use crate::pattern::{
    Groups, Span, caps_view, capture_spans, escape, group_chars, group_text, matches_of,
    regex_compiles, regex_escaped, regex_replace_all_expanded, replace_all_expanded, splice, spliced,
    well_formed_captures,
};
use crate::text::{
    chars_of, concat_all, contains, contains_exec, dedup, dedup_add, dedup_extend, dedup_exec, join,
    join_exec, lines, lines_exec, map_trim, map_trim_exec, nonempty_only, nonempty_only_exec,
    push_all, push_lit, slice_vec, split, split_exec, string_of, string_views, trim, trim_exec,
    views, eq_chars,
};

verus! {

/// Lists of query parameters (`Some(&[...])`), the list in group 1.
pub const QUERY_PARAMS_PATTERN: &'static str = r"Some\(&\[(.*?)\]\)";

/// A parameter list with every parameter (separated by `, `) borrowed.
pub open spec fn borrowed_params(params: Seq<char>) -> Seq<char> {
    let parts = split(params, ", "@);
    "Some(&["@ + join(Seq::new(parts.len(), |i: int| "&"@ + parts[i]), ", "@) + "])"@
}

/// `input` with each parameter list at the matches `caps` borrowed.
pub open spec fn query_params_fixed(input: Seq<char>, caps: Seq<Seq<Option<Span>>>) -> Seq<char> {
    spliced(input, caps, Seq::new(caps.len(), |k: int| borrowed_params(group_text(input, caps[k], 1))))
}

/// Executable `borrowed_params`.
fn borrowed_params_exec(params: &[char]) -> (r: Vec<char>)
    ensures
        r@ == borrowed_params(params@),
{
    let sep = chars_of(", ");
    proof {
        reveal_strlit(", ");
    }
    let parts = split_exec(params, sep.as_slice());
    let ghost pv = views(parts@);
    let mut borrowed: Vec<Vec<char>> = Vec::new();
    let mut k: usize = 0;
    while k < parts.len()
        invariant
            pv == views(parts@),
            k <= parts@.len(),
            borrowed@.len() == k,
            forall|j: int| 0 <= j < k ==> #[trigger] borrowed@[j]@ == "&"@ + pv[j],
        decreases parts@.len() - k,
    {
        let mut b = chars_of("&");
        push_all(&mut b, parts[k].as_slice());
        borrowed.push(b);
        k = k + 1;
    }
    assert(views(borrowed@) =~= Seq::new(pv.len(), |i: int| "&"@ + pv[i]));
    let joined = join_exec(&borrowed, sep.as_slice());
    let mut out = chars_of("Some(&[");
    push_all(&mut out, joined.as_slice());
    push_lit(&mut out, "])");
    out
}

/// Borrows the query parameters of `input` at the matches `caps` of
/// `QUERY_PARAMS_PATTERN`.
pub fn fix_query_params_with(input: &str, caps: &Vec<Groups>) -> (r: String)
    requires
        well_formed_captures(caps_view(caps@), input@.len() as int),
    ensures
        r@ == query_params_fixed(input@, caps_view(caps@)),
{
    let cs = chars_of(input);
    let ghost cv = caps_view(caps@);
    let mut reps: Vec<Vec<char>> = Vec::new();
    let mut k: usize = 0;
    while k < caps.len()
        invariant
            cv == caps_view(caps@),
            cs@ == input@,
            well_formed_captures(cv, input@.len() as int),
            k <= caps@.len(),
            reps@.len() == k,
            forall|j: int| 0 <= j < k ==> #[trigger] reps@[j]@ == borrowed_params(group_text(input@, cv[j], 1)),
        decreases caps@.len() - k,
    {
        assert(cv[k as int] == caps@[k as int]@);
        assert forall|i: int| 0 <= i < caps@[k as int]@.len() && #[trigger] caps@[k as int]@[i] is Some
            implies caps@[k as int]@[i].unwrap().start <= caps@[k as int]@[i].unwrap().end <= cs@.len() by {
            assert(cv[k as int][i] is Some);
        }
        let params = group_chars(cs.as_slice(), &caps[k], 1);
        reps.push(borrowed_params_exec(params.as_slice()));
        k = k + 1;
    }
    assert(views(reps@) =~= Seq::new(cv.len(), |j: int| borrowed_params(group_text(input@, cv[j], 1))));
    let out = splice(cs.as_slice(), caps, &reps);
    string_of(out.as_slice())
}

/// Makes every parameter of the database queries of generated Rust a
/// borrow (`Some(&[a, b])` becomes `Some(&[&a, &b])`).
pub fn fix_query_params(input: &str) -> (r: String)
    ensures
        r@ == query_params_fixed(input@, matches_of(QUERY_PARAMS_PATTERN@, input@)),
{
    let caps = capture_spans(QUERY_PARAMS_PATTERN, input);
    fix_query_params_with(input, &caps)
}

} // verus!

verus! {

/// Coroutines on shared state (`spawn_shared((a, b) => { ... })`), the
/// parameter list in group 1 and the body in group 2.
pub const SPAWN_SHARED_PATTERN: &'static str = r"spawn_shared\s*\(\s*\(\s*([^)]*?)\s*\)\s*=>\s*\{([\s\S]*?)\}\s*\)";

/// The parameters of a closure: cut at `,`, trimmed, empty ones dropped.
pub open spec fn closure_args(args: Seq<char>) -> Seq<Seq<char>> {
    nonempty_only(map_trim(split(args, ","@)))
}

/// The body of a closure: its lines trimmed, empty lines dropped.
pub open spec fn closure_body(body: Seq<char>) -> Seq<char> {
    join(nonempty_only(map_trim(lines(body))), "\n"@)
}

/// The texts of `args` that occur in `body`, in order.
pub open spec fn occurring(args: Seq<Seq<char>>, body: Seq<char>) -> Seq<Seq<char>>
    decreases args.len(),
{
    if args.len() == 0 {
        Seq::empty()
    } else if contains(body, args.last()) {
        occurring(args.drop_last(), body).push(args.last())
    } else {
        occurring(args.drop_last(), body)
    }
}

/// The arguments that occur in the body are exactly the arguments of
/// `args` that `body` contains.
proof fn lemma_occurring_texts(args: Seq<Seq<char>>, body: Seq<char>)
    ensures
        forall|x: Seq<char>| occurring(args, body).contains(x) <==> (args.contains(x) && contains(body, x)),
    decreases args.len(),
{
    if args.len() > 0 {
        lemma_occurring_texts(args.drop_last(), body);
        let o = occurring(args.drop_last(), body);
        assert forall|x: Seq<char>| occurring(args, body).contains(x) <==> (args.contains(x) && contains(body, x)) by {
            if args.contains(x) && x != args.last() {
                let i = choose|i: int| 0 <= i < args.len() && args[i] == x;
                assert(args.drop_last()[i] == x);
            }
            if args.drop_last().contains(x) {
                let i = choose|i: int| 0 <= i < args.drop_last().len() && args.drop_last()[i] == x;
                assert(args[i] == x);
            }
            if x == args.last() {
                assert(args[args.len() - 1] == x);
            }
            if contains(body, args.last()) {
                if occurring(args, body).contains(x) {
                    let i = choose|i: int| 0 <= i < occurring(args, body).len() && occurring(args, body)[i] == x;
                    if i < o.len() {
                        assert(o[i] == x);
                    }
                }
                if o.contains(x) {
                    let i = choose|i: int| 0 <= i < o.len() && o[i] == x;
                    assert(occurring(args, body)[i] == x);
                }
                if x == args.last() {
                    assert(occurring(args, body)[o.len() as int] == x);
                }
            }
        }
    }
}

/// A rewritten coroutine clones each of its parameters that its body uses,
/// and clones it once: the cloned handles are exactly the parameters that
/// occur in the body, without repetition.
pub proof fn lemma_shared_handles_cloned_once(args: Seq<char>, body: Seq<char>)
    ensures
        ({
            let b = closure_body(body);
            let used = dedup(occurring(closure_args(args), b));
            &&& forall|x: Seq<char>| used.contains(x) <==> (closure_args(args).contains(x) && contains(b, x))
            &&& forall|i: int, j: int| 0 <= i < j < used.len() ==> used[i] != used[j]
        }),
{
    let b = closure_body(body);
    lemma_occurring_texts(closure_args(args), b);
    crate::text::lemma_dedup_same_texts(occurring(closure_args(args), b));
    crate::text::lemma_dedup_distinct(occurring(closure_args(args), b));
}

/// The statement that clones the shared handle `v`.
pub open spec fn clone_line(v: Seq<char>) -> Seq<char> {
    "let "@ + v + "_clone = std::sync::Arc::clone(&"@ + v + ");"@
}

/// The word-boundary pattern for the literal `v`.
pub open spec fn word_pattern(v: Seq<char>) -> Seq<char> {
    "\\b"@ + regex_escaped(v) + "\\b"@
}

/// `body` with the uses of each of `vars` renamed to its clone.
pub open spec fn renamed_uses(body: Seq<char>, vars: Seq<Seq<char>>) -> Seq<char>
    decreases vars.len(),
{
    if vars.len() == 0 {
        body
    } else {
        let b = renamed_uses(body, vars.drop_last());
        let p = word_pattern(vars.last());
        if regex_compiles(p) {
            regex_replace_all_expanded(p, b, vars.last() + "_clone"@)
        } else {
            b
        }
    }
}

/// What a coroutine with parameter list `args` and body `body` becomes:
/// each parameter used in the body (once, in order of first use) is cloned
/// before the call and its uses renamed to the clone.
pub open spec fn shared_spawn(args: Seq<char>, body: Seq<char>) -> Seq<char> {
    let b = closure_body(body);
    let used = dedup(occurring(closure_args(args), b));
    join(used.map_values(|v: Seq<char>| clone_line(v)), "\n"@) + "\nspawn_shared("@ + renamed_uses(b, used) + ")"@
}

/// `code` with each coroutine at the matches `caps` rewritten.
pub open spec fn spawn_shared_transformed(code: Seq<char>, caps: Seq<Seq<Option<Span>>>) -> Seq<char> {
    spliced(code, caps, Seq::new(caps.len(), |k: int| shared_spawn(group_text(code, caps[k], 1), group_text(code, caps[k], 2))))
}

/// Rewrites the coroutine with parameter list `args` and body `body`.
pub fn share_captures(args: &[char], body: &[char]) -> (r: Vec<char>)
    ensures
        r@ == shared_spawn(args@, body@),
{
    let comma = chars_of(",");
    let nl = chars_of("\n");
    proof {
        reveal_strlit(",");
    }
    let pieces = split_exec(args, comma.as_slice());
    let trimmed = map_trim_exec(&pieces);
    let arg_list = nonempty_only_exec(&trimmed);
    let lines_v = lines_exec(body);
    let tl = map_trim_exec(&lines_v);
    let kept = nonempty_only_exec(&tl);
    let b = join_exec(&kept, nl.as_slice());
    let ghost av = views(arg_list@);
    let mut occ: Vec<Vec<char>> = Vec::new();
    let mut k: usize = 0;
    while k < arg_list.len()
        invariant
            av == views(arg_list@),
            k <= arg_list@.len(),
            views(occ@) == occurring(av.take(k as int), b@),
        decreases arg_list@.len() - k,
    {
        assert(av.take(k + 1).drop_last() =~= av.take(k as int));
        assert(av.take(k + 1).last() == arg_list@[k as int]@);
        if contains_exec(b.as_slice(), arg_list[k].as_slice()) {
            let ghost before = views(occ@);
            occ.push(slice_vec(arg_list[k].as_slice()));
            assert(views(occ@) =~= before.push(arg_list@[k as int]@));
        }
        k = k + 1;
    }
    assert(av.take(arg_list@.len() as int) =~= av);
    let used = dedup_exec(&occ);
    let ghost uv = views(used@);
    let mut clones: Vec<Vec<char>> = Vec::new();
    let mut body_s = string_of(b.as_slice());
    let mut j: usize = 0;
    while j < used.len()
        invariant
            uv == views(used@),
            j <= used@.len(),
            clones@.len() == j,
            forall|i: int| 0 <= i < j ==> #[trigger] clones@[i]@ == clone_line(uv[i]),
            body_s@ == renamed_uses(b@, uv.take(j as int)),
        decreases used@.len() - j,
    {
        let v = &used[j];
        assert(uv[j as int] == v@);
        let mut line = chars_of("let ");
        push_all(&mut line, v.as_slice());
        push_lit(&mut line, "_clone = std::sync::Arc::clone(&");
        push_all(&mut line, v.as_slice());
        push_lit(&mut line, ");");
        clones.push(line);
        let vs = string_of(v.as_slice());
        let esc = escape(vs.as_str());
        let mut pat = chars_of("\\b");
        push_lit(&mut pat, esc.as_str());
        push_lit(&mut pat, "\\b");
        let pattern = string_of(pat.as_slice());
        let mut rep = slice_vec(v.as_slice());
        push_lit(&mut rep, "_clone");
        let rep_s = string_of(rep.as_slice());
        assert(uv.take(j + 1).drop_last() =~= uv.take(j as int));
        assert(uv.take(j + 1).last() == v@);
        body_s = replace_all_expanded(pattern.as_str(), body_s.as_str(), rep_s.as_str());
        j = j + 1;
    }
    assert(uv.take(used@.len() as int) =~= uv);
    assert(views(clones@) =~= uv.map_values(|v: Seq<char>| clone_line(v)));
    let mut out = join_exec(&clones, nl.as_slice());
    push_lit(&mut out, "\nspawn_shared(");
    push_lit(&mut out, body_s.as_str());
    push_lit(&mut out, ")");
    out
}

/// Rewrites the coroutines of `code` at the matches `caps` of
/// `SPAWN_SHARED_PATTERN`.
pub fn transform_spawn_shared_with(code: &str, caps: &Vec<Groups>) -> (r: String)
    requires
        well_formed_captures(caps_view(caps@), code@.len() as int),
    ensures
        r@ == spawn_shared_transformed(code@, caps_view(caps@)),
{
    let cs = chars_of(code);
    let ghost cv = caps_view(caps@);
    let mut reps: Vec<Vec<char>> = Vec::new();
    let mut k: usize = 0;
    while k < caps.len()
        invariant
            cv == caps_view(caps@),
            cs@ == code@,
            well_formed_captures(cv, code@.len() as int),
            k <= caps@.len(),
            reps@.len() == k,
            forall|j: int| 0 <= j < k ==> #[trigger] reps@[j]@ == shared_spawn(group_text(code@, cv[j], 1), group_text(code@, cv[j], 2)),
        decreases caps@.len() - k,
    {
        assert(cv[k as int] == caps@[k as int]@);
        assert forall|i: int| 0 <= i < caps@[k as int]@.len() && #[trigger] caps@[k as int]@[i] is Some
            implies caps@[k as int]@[i].unwrap().start <= caps@[k as int]@[i].unwrap().end <= cs@.len() by {
            assert(cv[k as int][i] is Some);
        }
        let args = group_chars(cs.as_slice(), &caps[k], 1);
        let body = group_chars(cs.as_slice(), &caps[k], 2);
        reps.push(share_captures(args.as_slice(), body.as_slice()));
        k = k + 1;
    }
    assert(views(reps@) =~= Seq::new(cv.len(), |j: int| shared_spawn(group_text(code@, cv[j], 1), group_text(code@, cv[j], 2))));
    let out = splice(cs.as_slice(), caps, &reps);
    string_of(out.as_slice())
}

/// Makes every coroutine on shared state clone the handles it uses, so
/// that the generated Rust moves clones into the coroutine.
pub fn transform_spawn_shared(code: &str) -> (r: String)
    ensures
        r@ == spawn_shared_transformed(code@, matches_of(SPAWN_SHARED_PATTERN@, code@)),
{
    let caps = capture_spans(SPAWN_SHARED_PATTERN, code);
    transform_spawn_shared_with(code, &caps)
}

} // verus!

verus! {

/// Object type declarations (`type T = { ... };`), the name in group 1 and
/// the body in group 2.
pub const TYPE_PATTERN: &'static str = r"type\s+(\w+)\s*=\s*\{([^}]*)\};";

/// Type aliases (`type T = A & B;`), the name in group 1 and the
/// intersected names in group 2.
pub const ALIAS_PATTERN: &'static str = r"type\s+(\w+)\s*=\s*([\w\s&]+);";

/// The properties of an object type body: cut at `;`, trimmed, empty ones
/// dropped, each once.
pub open spec fn type_properties(body: Seq<char>) -> Seq<Seq<char>> {
    dedup(nonempty_only(map_trim(split(body, ";"@))))
}

/// The declared object types (name and properties) at the matches `caps`
/// of `TYPE_PATTERN`.
pub open spec fn type_entries(code: Seq<char>, caps: Seq<Seq<Option<Span>>>) -> Seq<(Seq<char>, Seq<Seq<char>>)> {
    Seq::new(caps.len(), |k: int| (trim(group_text(code, caps[k], 1)), type_properties(group_text(code, caps[k], 2))))
}

/// The properties of the last declared type named `key`.
pub open spec fn lookup_last(entries: Seq<(Seq<char>, Seq<Seq<char>>)>, key: Seq<char>) -> Option<Seq<Seq<char>>>
    decreases entries.len(),
{
    if entries.len() == 0 {
        None
    } else if entries.last().0 == key {
        Some(entries.last().1)
    } else {
        lookup_last(entries.drop_last(), key)
    }
}

/// The properties of the declared types among `names` (unknown names have
/// none), each once.
pub open spec fn merged_properties(entries: Seq<(Seq<char>, Seq<Seq<char>>)>, names: Seq<Seq<char>>) -> Seq<Seq<char>> {
    dedup(concat_all(names.map_values(|n: Seq<char>| match lookup_last(entries, n) {
        Some(p) => p,
        None => Seq::empty(),
    })))
}

/// The object type that the alias `name = parts` becomes: the properties
/// of the intersected types merged.
pub open spec fn merged_type(entries: Seq<(Seq<char>, Seq<Seq<char>>)>, name: Seq<char>, parts: Seq<char>) -> Seq<char> {
    let props = merged_properties(entries, map_trim(split(parts, "&"@)));
    "type "@ + name + " = {\n    "@ + join(props.map_values(|p: Seq<char>| p + ";"@), "\n    "@) + "\n};"@
}

/// `code` with each alias at the matches `alias_caps` replaced by the
/// merged object type, the types declared at the matches `type_caps`.
pub open spec fn types_merged(code: Seq<char>, type_caps: Seq<Seq<Option<Span>>>, alias_caps: Seq<Seq<Option<Span>>>) -> Seq<char> {
    let entries = type_entries(code, type_caps);
    spliced(
        code,
        alias_caps,
        Seq::new(alias_caps.len(), |k: int| merged_type(entries, group_text(code, alias_caps[k], 1), group_text(code, alias_caps[k], 2))),
    )
}

/// The view of executable type entries.
pub open spec fn entry_views(v: Seq<(Vec<char>, Vec<Vec<char>>)>) -> Seq<(Seq<char>, Seq<Seq<char>>)> {
    v.map_values(|e: (Vec<char>, Vec<Vec<char>>)| (e.0@, views(e.1@)))
}

/// Executable `lookup_last`.
fn lookup_last_exec<'a>(entries: &'a Vec<(Vec<char>, Vec<Vec<char>>)>, key: &[char]) -> (r: Option<&'a Vec<Vec<char>>>)
    ensures
        match r {
            Some(p) => lookup_last(entry_views(entries@), key@) == Some(views(p@)),
            None => lookup_last(entry_views(entries@), key@) is None,
        },
{
    let ghost ev = entry_views(entries@);
    let mut n = entries.len();
    assert(ev.take(n as int) =~= ev);
    while n > 0
        invariant
            ev == entry_views(entries@),
            n <= entries@.len(),
            lookup_last(ev, key@) == lookup_last(ev.take(n as int), key@),
        decreases n,
    {
        let e = &entries[n - 1];
        assert(ev.take(n as int).last() == (e.0@, views(e.1@)));
        if eq_chars(e.0.as_slice(), key) {
            return Some(&e.1);
        }
        assert(ev.take(n as int).drop_last() =~= ev.take(n - 1));
        n = n - 1;
    }
    None
}

/// The declared object types at the matches `caps` of `TYPE_PATTERN`.
fn type_entries_exec(code: &[char], caps: &Vec<Groups>) -> (r: Vec<(Vec<char>, Vec<Vec<char>>)>)
    requires
        well_formed_captures(caps_view(caps@), code@.len() as int),
    ensures
        entry_views(r@) == type_entries(code@, caps_view(caps@)),
{
    let ghost cv = caps_view(caps@);
    let semi = chars_of(";");
    proof {
        reveal_strlit(";");
    }
    let mut r: Vec<(Vec<char>, Vec<Vec<char>>)> = Vec::new();
    let mut k: usize = 0;
    while k < caps.len()
        invariant
            cv == caps_view(caps@),
            semi@ == ";"@,
            well_formed_captures(cv, code@.len() as int),
            k <= caps@.len(),
            r@.len() == k,
            forall|j: int| 0 <= j < k ==> #[trigger] entry_views(r@)[j] == type_entries(code@, cv)[j],
        decreases caps@.len() - k,
    {
        assert(cv[k as int] == caps@[k as int]@);
        assert forall|i: int| 0 <= i < caps@[k as int]@.len() && #[trigger] caps@[k as int]@[i] is Some
            implies caps@[k as int]@[i].unwrap().start <= caps@[k as int]@[i].unwrap().end <= code@.len() by {
            assert(cv[k as int][i] is Some);
        }
        let name = trim_exec(group_chars(code, &caps[k], 1).as_slice());
        let body = group_chars(code, &caps[k], 2);
        proof {
            reveal_strlit(";");
        }
        let pieces = split_exec(body.as_slice(), semi.as_slice());
        let trimmed = map_trim_exec(&pieces);
        let kept = nonempty_only_exec(&trimmed);
        let props = dedup_exec(&kept);
        let ghost before = entry_views(r@);
        r.push((name, props));
        assert(entry_views(r@) =~= before.push(type_entries(code@, cv)[k as int]));
        k = k + 1;
    }
    assert(entry_views(r@) =~= type_entries(code@, cv));
    r
}

/// Executable `merged_type`.
fn merged_type_exec(entries: &Vec<(Vec<char>, Vec<Vec<char>>)>, name: &[char], parts: &[char]) -> (r: Vec<char>)
    ensures
        r@ == merged_type(entry_views(entries@), name@, parts@),
{
    let ghost ev = entry_views(entries@);
    let amp = chars_of("&");
    proof {
        reveal_strlit("&");
    }
    let pieces = split_exec(parts, amp.as_slice());
    let names = map_trim_exec(&pieces);
    let ghost nv = views(names@);
    let ghost lists = nv.map_values(|n: Seq<char>| match lookup_last(ev, n) {
        Some(p) => p,
        None => Seq::<Seq<char>>::empty(),
    });
    let mut acc: Vec<Vec<char>> = Vec::new();
    assert(views(acc@) =~= dedup(concat_all(lists.take(0))));
    let mut k: usize = 0;
    while k < names.len()
        invariant
            ev == entry_views(entries@),
            nv == views(names@),
            lists == nv.map_values(|n: Seq<char>| match lookup_last(ev, n) {
                Some(p) => p,
                None => Seq::<Seq<char>>::empty(),
            }),
            k <= names@.len(),
            views(acc@) == dedup(concat_all(lists.take(k as int))),
        decreases names@.len() - k,
    {
        assert(lists.take(k + 1).drop_last() =~= lists.take(k as int));
        assert(nv[k as int] == names@[k as int]@);
        proof {
            crate::text::lemma_dedup_concat(concat_all(lists.take(k as int)), lists[k as int]);
        }
        match lookup_last_exec(entries, names[k].as_slice()) {
            Some(props) => {
                dedup_extend(&mut acc, props);
            },
            None => {
                assert(dedup_add(views(acc@), Seq::empty()) == views(acc@));
                assert(concat_all(lists.take(k as int)) + Seq::<Seq<char>>::empty() =~= concat_all(lists.take(k as int)));
            },
        }
        k = k + 1;
    }
    assert(lists.take(names@.len() as int) =~= lists);
    let ghost pv = views(acc@);
    let mut lines_v: Vec<Vec<char>> = Vec::new();
    let mut j: usize = 0;
    while j < acc.len()
        invariant
            pv == views(acc@),
            j <= acc@.len(),
            lines_v@.len() == j,
            forall|i: int| 0 <= i < j ==> #[trigger] lines_v@[i]@ == pv[i] + ";"@,
        decreases acc@.len() - j,
    {
        let mut l = slice_vec(acc[j].as_slice());
        push_lit(&mut l, ";");
        lines_v.push(l);
        j = j + 1;
    }
    assert(views(lines_v@) =~= pv.map_values(|p: Seq<char>| p + ";"@));
    let sep = chars_of("\n    ");
    let body = join_exec(&lines_v, sep.as_slice());
    let mut out = chars_of("type ");
    push_all(&mut out, name);
    push_lit(&mut out, " = {\n    ");
    push_all(&mut out, body.as_slice());
    push_lit(&mut out, "\n};");
    out
}

/// Merges the intersection aliases of `code` at the matches `alias_caps`
/// of `ALIAS_PATTERN`, the object types declared at the matches
/// `type_caps` of `TYPE_PATTERN`.
pub fn transform_type_with(code: &str, type_caps: &Vec<Groups>, alias_caps: &Vec<Groups>) -> (r: String)
    requires
        well_formed_captures(caps_view(type_caps@), code@.len() as int),
        well_formed_captures(caps_view(alias_caps@), code@.len() as int),
    ensures
        r@ == types_merged(code@, caps_view(type_caps@), caps_view(alias_caps@)),
{
    let cs = chars_of(code);
    let entries = type_entries_exec(cs.as_slice(), type_caps);
    let ghost ev = entry_views(entries@);
    let ghost cv = caps_view(alias_caps@);
    let mut reps: Vec<Vec<char>> = Vec::new();
    let mut k: usize = 0;
    while k < alias_caps.len()
        invariant
            cv == caps_view(alias_caps@),
            ev == entry_views(entries@),
            ev == type_entries(code@, caps_view(type_caps@)),
            cs@ == code@,
            well_formed_captures(cv, code@.len() as int),
            k <= alias_caps@.len(),
            reps@.len() == k,
            forall|j: int| 0 <= j < k ==> #[trigger] reps@[j]@ == merged_type(ev, group_text(code@, cv[j], 1), group_text(code@, cv[j], 2)),
        decreases alias_caps@.len() - k,
    {
        assert(cv[k as int] == alias_caps@[k as int]@);
        assert forall|i: int| 0 <= i < alias_caps@[k as int]@.len() && #[trigger] alias_caps@[k as int]@[i] is Some
            implies alias_caps@[k as int]@[i].unwrap().start <= alias_caps@[k as int]@[i].unwrap().end <= cs@.len() by {
            assert(cv[k as int][i] is Some);
        }
        let name = group_chars(cs.as_slice(), &alias_caps[k], 1);
        let parts = group_chars(cs.as_slice(), &alias_caps[k], 2);
        reps.push(merged_type_exec(&entries, name.as_slice(), parts.as_slice()));
        k = k + 1;
    }
    assert(views(reps@) =~= Seq::new(cv.len(), |j: int| merged_type(ev, group_text(code@, cv[j], 1), group_text(code@, cv[j], 2))));
    let out = splice(cs.as_slice(), alias_caps, &reps);
    string_of(out.as_slice())
}

/// Replaces every intersection alias (`type C = A & B;`) of a TypeScript
/// source by an object type with the merged properties of the
/// intersected object types.
pub fn transform_type(code: &str) -> (r: String)
    ensures
        r@ == types_merged(code@, matches_of(TYPE_PATTERN@, code@), matches_of(ALIAS_PATTERN@, code@)),
{
    let type_caps = capture_spans(TYPE_PATTERN, code);
    let alias_caps = capture_spans(ALIAS_PATTERN, code);
    transform_type_with(code, &type_caps, &alias_caps)
}

} // verus!

verus! {

/// Request handlers documented by a leading comment
/// (`// name N, about A, 200 D, 500 E, body B`), groups: 2 name, 3 about,
/// 4 and 5 success status and description, 6 and 7 error status and
/// description, 8 body type, 9 the function, 10 its name.
pub const HANDLER_PATTERN: &'static str = r"(?s)(//\s*name\s*(?P<name>[^,]+),\s*about\s*(?P<about>[^,]+),\s*(?P<status200>\d+)\s+(?P<desc200>[^,]+),\s*(?P<status500>\d+)\s+(?P<desc500>[^,]+),\s*body\s+(?P<body>[^\n]+)\s*)(?P<fn>pub\s+fn\s+(?P<fname>\w+)\s*\([^)]*\)\s*->\s*[^\\{]*\{(?P<func_body>.*?)\})";

/// The `utoipa::path` attribute of a documented handler.
pub open spec fn handler_attribute(
    method: Seq<char>,
    name: Seq<char>,
    status200: Seq<char>,
    desc200: Seq<char>,
    body: Seq<char>,
    status500: Seq<char>,
    desc500: Seq<char>,
) -> Seq<char> {
    "\n#[utoipa::path(\n    "@ + method + ",\n    path = \"/"@ + name + "\",\n    responses(\n        (status = "@ + status200 + ", description = \""@ + desc200 + "\", body = "@ + body + "),\n        (status = "@ + status500 + ", description = \""@ + desc500 + "\")\n    ),\n    tag = \""@ + name + "\"\n)]"@
}

/// Executable `handler_attribute`.
fn handler_attribute_exec(
    method: &[char],
    name: &[char],
    status200: &[char],
    desc200: &[char],
    body: &[char],
    status500: &[char],
    desc500: &[char],
) -> (r: Vec<char>)
    ensures
        r@ == handler_attribute(method@, name@, status200@, desc200@, body@, status500@, desc500@),
{
    let mut out = chars_of("\n#[utoipa::path(\n    ");
    push_all(&mut out, method);
    push_lit(&mut out, ",\n    path = \"/");
    push_all(&mut out, name);
    push_lit(&mut out, "\",\n    responses(\n        (status = ");
    push_all(&mut out, status200);
    push_lit(&mut out, ", description = \"");
    push_all(&mut out, desc200);
    push_lit(&mut out, "\", body = ");
    push_all(&mut out, body);
    push_lit(&mut out, "),\n        (status = ");
    push_all(&mut out, status500);
    push_lit(&mut out, ", description = \"");
    push_all(&mut out, desc500);
    push_lit(&mut out, "\")\n    ),\n    tag = \"");
    push_all(&mut out, name);
    push_lit(&mut out, "\"\n)]");
    out
}

/// The OpenAPI document of a project before any handler is added.
pub open spec fn api_doc_source(title: Seq<char>, description: Seq<char>, version: Seq<char>) -> Seq<char> {
    "\nuse utoipa::OpenApi;\n\n#[derive(OpenApi)]\n#[openapi(\n    info(\n        title = \""@ + title + "\",\n        description = \""@ + description + "\",\n        version = \""@ + version + "\"\n    ),\n    paths(),\n    components(schemas()),\n    tags()\n)]\npub struct ApiDoc;"@
}

/// The OpenAPI document of the project `title` before any handler is
/// added.
pub fn default_api_doc(title: &str, description: &str, version: &str) -> (r: String)
    ensures
        r@ == api_doc_source(title@, description@, version@),
{
    let title = chars_of(title);
    let description = chars_of(description);
    let version = chars_of(version);
    let title = title.as_slice();
    let description = description.as_slice();
    let version = version.as_slice();
    let mut out = chars_of("\nuse utoipa::OpenApi;\n\n#[derive(OpenApi)]\n#[openapi(\n    info(\n        title = \"");
    push_all(&mut out, title);
    push_lit(&mut out, "\",\n        description = \"");
    push_all(&mut out, description);
    push_lit(&mut out, "\",\n        version = \"");
    push_all(&mut out, version);
    push_lit(&mut out, "\"\n    ),\n    paths(),\n    components(schemas()),\n    tags()\n)]\npub struct ApiDoc;");
    string_of(out.as_slice())
}

} // verus!

verus! {

/// The HTTP method of the handler named `fname`: `post`, `put` and
/// `delete` keep their name, every other handler is documented as `get`.
pub open spec fn handler_method(fname: Seq<char>) -> Seq<char> {
    if fname == "post"@ || fname == "put"@ || fname == "delete"@ {
        fname
    } else {
        "get"@
    }
}

/// The trimmed text of group `g`.
pub open spec fn tg(code: Seq<char>, m: Seq<Option<Span>>, g: int) -> Seq<char> {
    trim(group_text(code, m, g))
}

/// What a documented handler becomes: its attribute, a line break, and the
/// function.
pub open spec fn documented_handler(code: Seq<char>, m: Seq<Option<Span>>) -> Seq<char> {
    handler_attribute(
        handler_method(group_text(code, m, 10)),
        tg(code, m, 2),
        tg(code, m, 4),
        tg(code, m, 5),
        tg(code, m, 8),
        tg(code, m, 6),
        tg(code, m, 7),
    ) + "\n"@ + group_text(code, m, 9)
}

/// The OpenAPI tag of a documented handler.
pub open spec fn handler_tag(code: Seq<char>, m: Seq<Option<Span>>) -> Seq<char> {
    "(name = \""@ + tg(code, m, 2) + "\", description = \""@ + tg(code, m, 3) + "\")"@
}

/// The documented handlers of `code` at the matches `caps`: the code with
/// their attributes, and the paths, tags and schemas they add to the
/// OpenAPI document.
pub open spec fn handlers_documented(code: Seq<char>, caps: Seq<Seq<Option<Span>>>) -> (Seq<char>, Seq<Seq<char>>, Seq<Seq<char>>, Seq<Seq<char>>) {
    (
        spliced(code, caps, Seq::new(caps.len(), |k: int| documented_handler(code, caps[k]))),
        Seq::new(caps.len(), |k: int| group_text(code, caps[k], 10)),
        Seq::new(caps.len(), |k: int| handler_tag(code, caps[k])),
        Seq::new(caps.len(), |k: int| tg(code, caps[k], 8)),
    )
}

/// Executable `handler_method`.
fn handler_method_exec(fname: &[char]) -> (r: Vec<char>)
    ensures
        r@ == handler_method(fname@),
{
    let post = chars_of("post");
    let put = chars_of("put");
    let delete = chars_of("delete");
    if eq_chars(fname, post.as_slice()) || eq_chars(fname, put.as_slice()) || eq_chars(fname, delete.as_slice()) {
        slice_vec(fname)
    } else {
        chars_of("get")
    }
}

/// Documents the handlers of `code` at the matches `caps` of
/// `HANDLER_PATTERN`.
pub fn document_handlers_with(code: &str, caps: &Vec<Groups>) -> (r: (String, Vec<String>, Vec<String>, Vec<String>))
    requires
        well_formed_captures(caps_view(caps@), code@.len() as int),
    ensures
        (r.0@, string_views(r.1@), string_views(r.2@), string_views(r.3@)) == handlers_documented(code@, caps_view(caps@)),
{
    let cs = chars_of(code);
    let ghost cv = caps_view(caps@);
    let mut reps: Vec<Vec<char>> = Vec::new();
    let mut paths: Vec<String> = Vec::new();
    let mut tags: Vec<String> = Vec::new();
    let mut schemas: Vec<String> = Vec::new();
    let mut k: usize = 0;
    while k < caps.len()
        invariant
            cv == caps_view(caps@),
            cs@ == code@,
            well_formed_captures(cv, code@.len() as int),
            k <= caps@.len(),
            reps@.len() == k,
            paths@.len() == k,
            tags@.len() == k,
            schemas@.len() == k,
            forall|j: int| 0 <= j < k ==> #[trigger] reps@[j]@ == documented_handler(code@, cv[j]),
            forall|j: int| 0 <= j < k ==> #[trigger] paths@[j]@ == group_text(code@, cv[j], 10),
            forall|j: int| 0 <= j < k ==> #[trigger] tags@[j]@ == handler_tag(code@, cv[j]),
            forall|j: int| 0 <= j < k ==> #[trigger] schemas@[j]@ == tg(code@, cv[j], 8),
        decreases caps@.len() - k,
    {
        let m = &caps[k];
        assert(cv[k as int] == m@);
        assert forall|i: int| 0 <= i < m@.len() && #[trigger] m@[i] is Some
            implies m@[i].unwrap().start <= m@[i].unwrap().end <= cs@.len() by {
            assert(cv[k as int][i] is Some);
        }
        let c = cs.as_slice();
        let name = trim_exec(group_chars(c, m, 2).as_slice());
        let about = trim_exec(group_chars(c, m, 3).as_slice());
        let status200 = trim_exec(group_chars(c, m, 4).as_slice());
        let desc200 = trim_exec(group_chars(c, m, 5).as_slice());
        let status500 = trim_exec(group_chars(c, m, 6).as_slice());
        let desc500 = trim_exec(group_chars(c, m, 7).as_slice());
        let body = trim_exec(group_chars(c, m, 8).as_slice());
        let fn_block = group_chars(c, m, 9);
        let fname = group_chars(c, m, 10);
        let method = handler_method_exec(fname.as_slice());
        let mut rep = handler_attribute_exec(
            method.as_slice(),
            name.as_slice(),
            status200.as_slice(),
            desc200.as_slice(),
            body.as_slice(),
            status500.as_slice(),
            desc500.as_slice(),
        );
        push_lit(&mut rep, "\n");
        push_all(&mut rep, fn_block.as_slice());
        reps.push(rep);
        paths.push(string_of(fname.as_slice()));
        let mut tag = chars_of("(name = \"");
        push_all(&mut tag, name.as_slice());
        push_lit(&mut tag, "\", description = \"");
        push_all(&mut tag, about.as_slice());
        push_lit(&mut tag, "\")");
        tags.push(string_of(tag.as_slice()));
        schemas.push(string_of(body.as_slice()));
        k = k + 1;
    }
    assert(views(reps@) =~= Seq::new(cv.len(), |j: int| documented_handler(code@, cv[j])));
    let out = splice(cs.as_slice(), caps, &reps);
    let r = (string_of(out.as_slice()), paths, tags, schemas);
    assert(string_views(r.1@) =~= handlers_documented(code@, cv).1);
    assert(string_views(r.2@) =~= handlers_documented(code@, cv).2);
    assert(string_views(r.3@) =~= handlers_documented(code@, cv).3);
    r
}

/// Gives every documented request handler of generated Rust its
/// `utoipa::path` attribute; returns the code and the paths, tags and
/// schemas to add to the OpenAPI document.
pub fn document_handlers(code: &str) -> (r: (String, Vec<String>, Vec<String>, Vec<String>))
    ensures
        (r.0@, string_views(r.1@), string_views(r.2@), string_views(r.3@)) == handlers_documented(code@, matches_of(HANDLER_PATTERN@, code@)),
{
    let caps = capture_spans(HANDLER_PATTERN, code);
    document_handlers_with(code, &caps)
}

/// The `paths(...)` list of the OpenAPI document.
pub const DOC_PATHS_PATTERN: &'static str = r"paths\((?P<paths>[^)]*)\)";

/// The `tags(...)` list of the OpenAPI document.
pub const DOC_TAGS_PATTERN: &'static str = r"tags\((?P<tags>[^)]*)\)";

/// The `schemas(...)` list of the OpenAPI document.
pub const DOC_SCHEMAS_PATTERN: &'static str = r"schemas\((?P<schemas>[^)]*)\)";

/// A list with `added` (joined by `, `) after its trimmed entries.
pub open spec fn merged_list(existing: Seq<char>, added: Seq<Seq<char>>) -> Seq<char> {
    let e = trim(existing);
    let a = join(added, ", "@);
    if e.len() == 0 {
        a
    } else {
        e + ", "@ + a
    }
}

/// `doc` with the first list named `keyword` (matches `caps`) extended by
/// `added`.
pub open spec fn list_extended(doc: Seq<char>, caps: Seq<Seq<Option<Span>>>, keyword: Seq<char>, added: Seq<Seq<char>>) -> Seq<char> {
    if caps.len() == 0 {
        doc
    } else {
        spliced(doc, caps.take(1), seq![keyword + "("@ + merged_list(group_text(doc, caps[0], 1), added) + ")"@])
    }
}

/// Extends the first list named `keyword` of `doc`, at the matches `caps`
/// of its pattern, by `added`.
pub fn extend_list_with(doc: &str, caps: &Vec<Groups>, keyword: &str, added: &Vec<String>) -> (r: String)
    requires
        well_formed_captures(caps_view(caps@), doc@.len() as int),
    ensures
        r@ == list_extended(doc@, caps_view(caps@), keyword@, string_views(added@)),
{
    if caps.len() == 0 {
        return doc.to_owned();
    }
    let ghost cv = caps_view(caps@);
    let cs = chars_of(doc);
    assert(cv[0] == caps@[0]@);
    assert forall|i: int| 0 <= i < caps@[0]@.len() && #[trigger] caps@[0]@[i] is Some
        implies caps@[0]@[i].unwrap().start <= caps@[0]@[i].unwrap().end <= cs@.len() by {
        assert(cv[0][i] is Some);
    }
    let existing = trim_exec(group_chars(cs.as_slice(), &caps[0], 1).as_slice());
    let parts = crate::text::chars_of_all(added);
    let sep = chars_of(", ");
    let joined = join_exec(&parts, sep.as_slice());
    let mut merged: Vec<char>;
    if existing.len() == 0 {
        merged = joined;
    } else {
        merged = slice_vec(existing.as_slice());
        push_lit(&mut merged, ", ");
        push_all(&mut merged, joined.as_slice());
    }
    let mut rep = chars_of(keyword);
    push_lit(&mut rep, "(");
    push_all(&mut rep, merged.as_slice());
    push_lit(&mut rep, ")");
    let mut first: Vec<Groups> = Vec::new();
    first.push(caps[0].clone());
    assert(caps_view(first@) =~= cv.take(1));
    let mut reps: Vec<Vec<char>> = Vec::new();
    reps.push(rep);
    assert(views(reps@) =~= seq![keyword@ + "("@ + merged_list(group_text(doc@, cv[0], 1), string_views(added@)) + ")"@]);
    let out = splice(cs.as_slice(), &first, &reps);
    string_of(out.as_slice())
}

/// Directory of the generated route modules.
pub const SERVER_DIR: &'static str = "./.project_build/src/server/";

/// The OpenAPI document with the handlers of the route module at
/// `filename2` added: its paths, tags and schemas lists extended (each
/// list found in the document as left by the previous extension), and the
/// module's items imported.
pub open spec fn struct_doc_updated(
    doc: Seq<char>,
    paths: Seq<Seq<char>>,
    tags: Seq<Seq<char>>,
    schemas: Seq<Seq<char>>,
    filename2: Seq<char>,
) -> Seq<char> {
    let d1 = list_extended(doc, matches_of(DOC_PATHS_PATTERN@, doc), "paths"@, paths);
    let d2 = list_extended(d1, matches_of(DOC_TAGS_PATTERN@, d1), "tags"@, tags);
    let d3 = list_extended(d2, matches_of(DOC_SCHEMAS_PATTERN@, d2), "schemas"@, schemas);
    let module = filename2.subrange(SERVER_DIR@.len() as int, filename2.len() - 3);
    "use crate::server::"@ + module + "::*; "@ + d3
}

/// Adds the handlers of the route module `filename2` to the OpenAPI
/// document `struct_doc`.
pub fn update_struct_doc(
    struct_doc: &str,
    new_paths: &Vec<String>,
    new_tags: &Vec<String>,
    new_schemas: &Vec<String>,
    filename2: &str,
) -> (r: String)
    requires
        crate::text::starts_with(filename2@, SERVER_DIR@),
        crate::text::ends_with(filename2@.skip(SERVER_DIR@.len() as int), ".rs"@),
    ensures
        r@ == struct_doc_updated(struct_doc@, string_views(new_paths@), string_views(new_tags@), string_views(new_schemas@), filename2@),
{
    let caps1 = capture_spans(DOC_PATHS_PATTERN, struct_doc);
    let d1 = extend_list_with(struct_doc, &caps1, "paths", new_paths);
    let caps2 = capture_spans(DOC_TAGS_PATTERN, d1.as_str());
    let d2 = extend_list_with(d1.as_str(), &caps2, "tags", new_tags);
    let caps3 = capture_spans(DOC_SCHEMAS_PATTERN, d2.as_str());
    let d3 = extend_list_with(d2.as_str(), &caps3, "schemas", new_schemas);
    let f = chars_of(filename2);
    let dir = chars_of(SERVER_DIR);
    proof {
        reveal_strlit(".rs");
    }
    assert(f@.len() >= dir@.len() + 3) by {
        assert(f@.skip(dir@.len() as int).len() >= 3);
    }
    let module = slice_vec(&f[dir.len()..f.len() - 3]);
    let mut out = chars_of("use crate::server::");
    push_all(&mut out, module.as_slice());
    push_lit(&mut out, "::*; ");
    push_lit(&mut out, d3.as_str());
    string_of(out.as_slice())
}

} // verus!

verus! {

/// The model file beside a `server.ts` route source (not itself a model):
/// the path checked for existence, and the path read.
pub open spec fn model_paths(input_file: Seq<char>) -> Option<(Seq<char>, Seq<char>)> {
    if !contains(input_file, "model.ts"@) && contains(input_file, "server.ts"@) {
        let a = crate::text::replace(crate::text::replace(input_file, "server.ts"@, "model.ts"@), "server.py"@, "model.ts"@);
        Some((crate::text::replace(a, "server.ubi"@, "model.rs"@), crate::text::replace(a, "server.ubi"@, "model.ts"@)))
    } else {
        None
    }
}

/// Replaces `from` by `to` in `s` (literals).
fn replace_lit(s: &[char], from: &str, to: &str) -> (r: Vec<char>)
    requires
        from@.len() > 0,
    ensures
        r@ == crate::text::replace(s@, from@, to@),
{
    let f = chars_of(from);
    let t = chars_of(to);
    crate::text::replace_exec(s, f.as_slice(), t.as_slice())
}

/// The model file to merge into the route source `input_file`, if any:
/// the path whose existence decides, and the path to read.
pub fn model_source_paths(input_file: &str) -> (r: Option<(String, String)>)
    ensures
        match r {
            Some((a, b)) => model_paths(input_file@) == Some((a@, b@)),
            None => model_paths(input_file@) is None,
        },
{
    let p = chars_of(input_file);
    let model = chars_of("model.ts");
    let server = chars_of("server.ts");
    if !contains_exec(p.as_slice(), model.as_slice()) && contains_exec(p.as_slice(), server.as_slice()) {
        proof {
            reveal_strlit("server.ts");
            reveal_strlit("server.py");
            reveal_strlit("server.ubi");
        }
        let a1 = replace_lit(p.as_slice(), "server.ts", "model.ts");
        let a = replace_lit(a1.as_slice(), "server.py", "model.ts");
        let check = replace_lit(a.as_slice(), "server.ubi", "model.rs");
        let read = replace_lit(a.as_slice(), "server.ubi", "model.ts");
        Some((string_of(check.as_slice()), string_of(read.as_slice())))
    } else {
        None
    }
}

/// A route source made ready for the rewriter: its model (if any)
/// appended and the intersection types merged, then the coroutines on
/// shared state given their clones.
pub open spec fn prepared_source(source: Seq<char>, model: Option<Seq<char>>) -> Seq<char> {
    let s = match model {
        Some(m) => types_merged(source + m, matches_of(TYPE_PATTERN@, source + m), matches_of(ALIAS_PATTERN@, source + m)),
        None => source,
    };
    spawn_shared_transformed(s, matches_of(SPAWN_SHARED_PATTERN@, s))
}

/// Prepares the route source `source`, with the content `model` of its
/// model file if it has one, for the rewriter.
pub fn prepare_source(source: &str, model: Option<&str>) -> (r: String)
    ensures
        r@ == prepared_source(source@, match model {
            Some(m) => Some(m@),
            None => None,
        }),
{
    let s = match model {
        Some(m) => {
            let mut all = chars_of(source);
            push_lit(&mut all, m);
            let joined = string_of(all.as_slice());
            transform_type(joined.as_str())
        },
        None => source.to_owned(),
    };
    transform_spawn_shared(s.as_str())
}

/// The rewritten source of `input_file` for `output_file`: Rust modules
/// (not SQL models, not websocket modules) import `BufRead`, and Rust made
/// from `server.ts` gets its query parameters borrowed.
pub open spec fn finished_source(output: Seq<char>, input_file: Seq<char>, output_file: Seq<char>) -> Seq<char> {
    let s = if !contains(output_file, "model.sql"@) && !contains(output_file, "ws.rs"@) {
        "use std::io::BufRead;"@ + output
    } else {
        output
    };
    if contains(input_file, "server.ts"@) {
        query_params_fixed(s, matches_of(QUERY_PARAMS_PATTERN@, s))
    } else {
        s
    }
}

/// Finishes the rewritten source `output` of `input_file`; the flag says
/// whether its handlers are to be documented (sources from `server.ts`).
pub fn finish_conversion(output: &str, input_file: &str, output_file: &str) -> (r: (String, bool))
    ensures
        r.0@ == finished_source(output@, input_file@, output_file@),
        r.1 == contains(input_file@, "server.ts"@),
{
    let of = chars_of(output_file);
    let sql = chars_of("model.sql");
    let ws = chars_of("ws.rs");
    let s = if !contains_exec(of.as_slice(), sql.as_slice()) && !contains_exec(of.as_slice(), ws.as_slice()) {
        let mut t = chars_of("use std::io::BufRead;");
        push_lit(&mut t, output);
        string_of(t.as_slice())
    } else {
        output.to_owned()
    };
    let inf = chars_of(input_file);
    let server = chars_of("server.ts");
    if contains_exec(inf.as_slice(), server.as_slice()) {
        (fix_query_params(s.as_str()), true)
    } else {
        (s, false)
    }
}

} // verus!

verus! {

/// A documented handler is documented with its HTTP method: a handler
/// named `post`, `put` or `delete` with that method, any other with `get`.
pub proof fn lemma_handler_documented_with_its_method(code: Seq<char>, m: Seq<Option<Span>>)
    ensures
        ({
            let f = group_text(code, m, 10);
            &&& (f == "post"@ || f == "put"@ || f == "delete"@) ==> crate::text::starts_with(
                documented_handler(code, m),
                "\n#[utoipa::path(\n    "@ + f + ","@,
            )
            &&& !(f == "post"@ || f == "put"@ || f == "delete"@) ==> crate::text::starts_with(
                documented_handler(code, m),
                "\n#[utoipa::path(\n    get,"@,
            )
        }),
{
    let f = group_text(code, m, 10);
    let d = documented_handler(code, m);
    reveal_strlit(",\n    path = \"/");
    reveal_strlit(",");
    reveal_strlit("get");
    reveal_strlit("\n#[utoipa::path(\n    get,");
    reveal_strlit("\n#[utoipa::path(\n    ");
    if f == "post"@ || f == "put"@ || f == "delete"@ {
        let p = "\n#[utoipa::path(\n    "@ + f + ","@;
        assert(d.subrange(0, p.len() as int) =~= p);
    } else {
        let p = "\n#[utoipa::path(\n    get,"@;
        assert(d.subrange(0, p.len() as int) =~= p);
    }
}

} // verus!
