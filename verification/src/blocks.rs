//! The `<if>` and `<for>` blocks of a page: nested blocks are found with a
//! stack, every closed block becomes an element with a fresh id, and the
//! script that drives it is generated.

use vstd::prelude::*;
use crate::pattern::{
    Groups, Span, caps_view, capture_spans, group_chars, group_present, group_present_exec,
    group_text, group_texts, matches_of, mend, mstart, well_formed_captures,
};
use crate::text::{
    chars_of, contains, contains_exec, push_all, push_lit, replace, replace_exec, slice_vec,
    string_of, string_views, trim, trim_exec, views,
};

verus! {

/// A version 4 UUID as `Uuid::to_string` writes it: 36 characters, lower
/// case hexadecimal digits in groups of 8, 4, 4, 4 and 12, joined by `-`.
pub open spec fn is_hyphenated_uuid(s: Seq<char>) -> bool {
    &&& s.len() == 36
    &&& forall|i: int|
        0 <= i < 36 ==> if i == 8 || i == 13 || i == 18 || i == 23 {
            #[trigger] s[i] == '-'
        } else {
            ('0' <= s[i] && s[i] <= '9') || ('a' <= s[i] && s[i] <= 'f')
        }
}

/// A fresh random UUID (`Uuid::new_v4`), as its `Display` text. The
/// contract claims only the form of that text (lowercase, hyphenated: 36
/// characters, `-` at 8, 13, 18 and 23, hexadecimal digits elsewhere);
/// which UUID comes out is left open.
#[verifier::external_body]
pub(crate) fn new_uuid() -> (s: String)
    ensures
        is_hyphenated_uuid(s@),
{
    uuid::Uuid::new_v4().to_string()
}

/// An element id made from a UUID: `a` followed by the UUID with its `-`
/// turned into `_`, so that it is also a JavaScript identifier.
pub open spec fn is_block_id(s: Seq<char>) -> bool {
    exists|u: Seq<char>| is_hyphenated_uuid(u) && s == "a"@ + replace(u, "-"@, "_"@)
}

/// A fresh element id.
pub fn new_block_id() -> (r: Vec<char>)
    ensures
        is_block_id(r@),
{
    let u = new_uuid();
    let uc = chars_of(u.as_str());
    let dash = chars_of("-");
    let under = chars_of("_");
    proof {
        reveal_strlit("-");
    }
    let rest = replace_exec(uc.as_slice(), dash.as_slice(), under.as_slice());
    let mut id = chars_of("a");
    push_all(&mut id, rest.as_slice());
    assert(is_hyphenated_uuid(u@) && id@ == "a"@ + replace(u@, "-"@, "_"@));
    id
}

/// Where the scan of a page's blocks stands: the output so far, the
/// script so far, the open blocks (condition and text so far, innermost
/// last) and the position after the last tag.
pub struct BlockState {
    pub out: Seq<char>,
    pub js: Seq<char>,
    pub stack: Seq<(Seq<char>, Seq<char>)>,
    pub last: int,
}

/// `t` added to the innermost open block, or to the output when no block
/// is open.
pub open spec fn with_text(st: BlockState, t: Seq<char>) -> BlockState {
    if st.stack.len() == 0 {
        BlockState { out: st.out + t, ..st }
    } else {
        BlockState {
            stack: st.stack.update(st.stack.len() - 1, (st.stack.last().0, st.stack.last().1 + t)),
            ..st
        }
    }
}

} // verus!
verus! {

/// The element that stands for an `<if>` block.
pub open spec fn if_block_html(id: Seq<char>, content: Seq<char>) -> Seq<char> {
    "\n<div id='"@ + id + "'>"@ + content + "</div>\n"@
}

/// Executable `if_block_html`.
fn if_block_html_exec(id: &[char], content: &[char]) -> (r: Vec<char>)
    ensures
        r@ == if_block_html(id@, content@),
{
    let mut out = chars_of("\n<div id='");
    push_all(&mut out, id);
    push_lit(&mut out, "'>");
    push_all(&mut out, content);
    push_lit(&mut out, "</div>\n");
    out
}

/// Script that shows the block `id` while `condition` holds, re-evaluated whenever a signal it reads changes.
pub open spec fn if_effect_js(id: Seq<char>, condition: Seq<char>) -> Seq<char> {
    "\n    let "@ + id + " = document.getElementById('"@ + id + "');\n    let "@ + id + "_prev_display = window.getComputedStyle("@ + id + ").display;\n    if ("@ + id + "_prev_display === \"none\") {\n        "@ + id + "_prev_display = \"block\";\n    }\n\n    effect(() => {\n        if ("@ + condition + ") {\n        "@ + id + ".style.display = "@ + id + "_prev_display;\n    } else {\n        "@ + id + ".style.display = \"none\";\n            }\n    });\n    "@
}

/// Executable `if_effect_js`.
fn if_effect_js_exec(id: &[char], condition: &[char]) -> (r: Vec<char>)
    ensures
        r@ == if_effect_js(id@, condition@),
{
    let mut out = chars_of("\n    let ");
    push_all(&mut out, id);
    push_lit(&mut out, " = document.getElementById('");
    push_all(&mut out, id);
    push_lit(&mut out, "');\n    let ");
    push_all(&mut out, id);
    push_lit(&mut out, "_prev_display = window.getComputedStyle(");
    push_all(&mut out, id);
    push_lit(&mut out, ").display;\n    if (");
    push_all(&mut out, id);
    push_lit(&mut out, "_prev_display === \"none\") {\n        ");
    push_all(&mut out, id);
    push_lit(&mut out, "_prev_display = \"block\";\n    }\n\n    effect(() => {\n        if (");
    push_all(&mut out, condition);
    push_lit(&mut out, ") {\n        ");
    push_all(&mut out, id);
    push_lit(&mut out, ".style.display = ");
    push_all(&mut out, id);
    push_lit(&mut out, "_prev_display;\n    } else {\n        ");
    push_all(&mut out, id);
    push_lit(&mut out, ".style.display = \"none\";\n            }\n    });\n    ");
    out
}

/// Script that shows the block `id` if `condition` holds when the page loads.
pub open spec fn if_static_js(id: Seq<char>, condition: Seq<char>) -> Seq<char> {
    "\n    let "@ + id + " = document.getElementById('"@ + id + "');\n    let "@ + id + "_prev_display = window.getComputedStyle("@ + id + ").display;\n    if ("@ + id + "_prev_display === \"none\") {\n        "@ + id + "_prev_display = \"block\";\n    }\n\n    if ("@ + condition + ") {\n        "@ + id + ".style.display = "@ + id + "_prev_display;\n    } else {\n        "@ + id + ".style.display = \"none\";\n            }\n\n    "@
}

/// Executable `if_static_js`.
fn if_static_js_exec(id: &[char], condition: &[char]) -> (r: Vec<char>)
    ensures
        r@ == if_static_js(id@, condition@),
{
    let mut out = chars_of("\n    let ");
    push_all(&mut out, id);
    push_lit(&mut out, " = document.getElementById('");
    push_all(&mut out, id);
    push_lit(&mut out, "');\n    let ");
    push_all(&mut out, id);
    push_lit(&mut out, "_prev_display = window.getComputedStyle(");
    push_all(&mut out, id);
    push_lit(&mut out, ").display;\n    if (");
    push_all(&mut out, id);
    push_lit(&mut out, "_prev_display === \"none\") {\n        ");
    push_all(&mut out, id);
    push_lit(&mut out, "_prev_display = \"block\";\n    }\n\n    if (");
    push_all(&mut out, condition);
    push_lit(&mut out, ") {\n        ");
    push_all(&mut out, id);
    push_lit(&mut out, ".style.display = ");
    push_all(&mut out, id);
    push_lit(&mut out, "_prev_display;\n    } else {\n        ");
    push_all(&mut out, id);
    push_lit(&mut out, ".style.display = \"none\";\n            }\n\n    ");
    out
}

} // verus!

verus! {

/// The open blocks held by an executable stack.
pub open spec fn frames(s: Seq<(Vec<char>, Vec<char>)>) -> Seq<(Seq<char>, Seq<char>)> {
    s.map_values(|f: (Vec<char>, Vec<char>)| (f.0@, f.1@))
}

/// Executable `with_text`.
fn add_text(out: &mut Vec<char>, stack: &mut Vec<(Vec<char>, Vec<char>)>, t: &[char])
    ensures
        ({
            let st = with_text(BlockState { out: old(out)@, js: Seq::empty(), stack: frames(old(stack)@), last: 0 }, t@);
            final(out)@ == st.out && frames(final(stack)@) == st.stack
        }),
{
    if stack.len() == 0 {
        push_all(out, t);
    } else {
        let ghost before = frames(stack@);
        let (c, mut text) = stack.pop().unwrap();
        assert(before.last() == (c@, text@));
        push_all(&mut text, t);
        stack.push((c, text));
        assert(frames(stack@) =~= before.update(before.len() - 1, (before.last().0, before.last().1 + t@)));
    }
}

/// The script after closing the `<if>` block `id` with `condition`: the
/// script for the block replaces the script so far, and it re-evaluates
/// the condition on change when the condition reads the last declared
/// signal (`name.get()`); with no signal declared the script is kept.
pub open spec fn if_block_js(js: Seq<char>, vars: Seq<Seq<char>>, id: Seq<char>, condition: Seq<char>) -> Seq<char> {
    if vars.len() == 0 {
        js
    } else if contains(condition, vars.last() + ".get()"@) {
        if_effect_js(id, condition)
    } else {
        if_static_js(id, condition)
    }
}

/// Executable `if_block_js`.
fn if_block_js_exec(js: Vec<char>, vars: &Vec<Vec<char>>, id: &[char], condition: &[char]) -> (r: Vec<char>)
    ensures
        r@ == if_block_js(js@, views(vars@), id@, condition@),
{
    if vars.len() == 0 {
        return js;
    }
    let mut needle = slice_vec(vars[vars.len() - 1].as_slice());
    push_lit(&mut needle, ".get()");
    if contains_exec(condition, needle.as_slice()) {
        if_effect_js_exec(id, condition)
    } else {
        if_static_js_exec(id, condition)
    }
}

/// One tag of an `<if>` scan: the text before it goes to the innermost
/// open block (or the output); an opening tag opens a block with its
/// trimmed condition; a closing tag closes the innermost block, which
/// becomes an element with id `id` holding its trimmed text; a closing tag
/// with no open block is dropped.
pub open spec fn if_step(input: Seq<char>, vars: Seq<Seq<char>>, m: Seq<Option<Span>>, id: Seq<char>, st: BlockState) -> BlockState {
    let st1 = with_text(st, input.subrange(st.last, mstart(m)));
    if group_present(m, 1) {
        BlockState { stack: st1.stack.push((trim(group_text(input, m, 1)), Seq::empty())), last: mend(m), ..st1 }
    } else if st1.stack.len() > 0 {
        let frame = st1.stack.last();
        let closed = BlockState { stack: st1.stack.drop_last(), js: if_block_js(st1.js, vars, id, frame.0), ..st1 };
        BlockState { last: mend(m), ..with_text(closed, if_block_html(id, trim(frame.1))) }
    } else {
        BlockState { last: mend(m), ..st1 }
    }
}

/// The scan state after the first `k` tags.
pub open spec fn if_run(input: Seq<char>, vars: Seq<Seq<char>>, caps: Seq<Seq<Option<Span>>>, ids: Seq<Seq<char>>, k: int) -> BlockState
    decreases k,
{
    if k <= 0 {
        BlockState { out: Seq::empty(), js: Seq::empty(), stack: Seq::empty(), last: 0 }
    } else {
        if_step(input, vars, caps[k - 1], ids[k - 1], if_run(input, vars, caps, ids, k - 1))
    }
}

/// The page with its `<if>` blocks compiled, and their script: the tag
/// matches are `caps`, the id of the block closed at the `k`-th tag is
/// `ids[k]`, and `vars` are the page's signals. Blocks still open at the
/// end are dropped.
pub open spec fn if_blocks(input: Seq<char>, vars: Seq<Seq<char>>, caps: Seq<Seq<Option<Span>>>, ids: Seq<Seq<char>>) -> (Seq<char>, Seq<char>) {
    let st = if_run(input, vars, caps, ids, caps.len() as int);
    (st.out + input.subrange(st.last, input.len() as int), st.js)
}

/// Executable `if_blocks`.
pub fn if_blocks_exec(input: &[char], vars: &Vec<Vec<char>>, caps: &Vec<Groups>, ids: &Vec<Vec<char>>) -> (r: (Vec<char>, Vec<char>))
    requires
        well_formed_captures(caps_view(caps@), input@.len() as int),
        ids@.len() == caps@.len(),
    ensures
        (r.0@, r.1@) == if_blocks(input@, views(vars@), caps_view(caps@), views(ids@)),
{
    let ghost cv = caps_view(caps@);
    let ghost vv = views(vars@);
    let ghost iv = views(ids@);
    let mut out: Vec<char> = Vec::new();
    let mut js: Vec<char> = Vec::new();
    let mut stack: Vec<(Vec<char>, Vec<char>)> = Vec::new();
    let mut last: usize = 0;
    let mut k: usize = 0;
    assert(frames(stack@) =~= Seq::empty());
    while k < caps.len()
        invariant
            cv == caps_view(caps@),
            vv == views(vars@),
            iv == views(ids@),
            well_formed_captures(cv, input@.len() as int),
            ids@.len() == caps@.len(),
            k <= caps@.len(),
            last <= input@.len(),
            k < caps@.len() ==> last <= mstart(cv[k as int]),
            ({
                let st = if_run(input@, vv, cv, iv, k as int);
                st.out == out@ && st.js == js@ && st.stack == frames(stack@) && st.last == last as int
            }),
        decreases caps@.len() - k,
    {
        let m = &caps[k];
        assert(cv[k as int] == m@);
        assert(m@.len() >= 1 && m@[0] is Some);
        let sp = m[0].unwrap();
        assert(forall|g: int| 0 <= g < m@.len() && #[trigger] m@[g] is Some ==> m@[g].unwrap().start <= m@[g].unwrap().end <= input@.len()) by {
            assert forall|g: int| 0 <= g < m@.len() && #[trigger] m@[g] is Some implies m@[g].unwrap().start <= m@[g].unwrap().end <= input@.len() by {
                assert(cv[k as int][g] is Some);
            }
        }
        let ghost st0 = if_run(input@, vv, cv, iv, k as int);
        add_text(&mut out, &mut stack, &input[last..sp.start]);
        let ghost st1 = with_text(st0, input@.subrange(last as int, sp.start as int));
        assert(st1.out == out@ && st1.stack == frames(stack@) && st1.js == js@);
        assert(iv[k as int] == ids@[k as int]@);
        if group_present_exec(m, 1) {
            let raw = group_chars(input, m, 1);
            let cond = trim_exec(raw.as_slice());
            let ghost before = frames(stack@);
            stack.push((cond, Vec::new()));
            assert(frames(stack@) =~= before.push((trim(group_text(input@, m@, 1)), Seq::empty())));
        } else if stack.len() > 0 {
            let ghost before = frames(stack@);
            let (cond, text) = stack.pop().unwrap();
            assert(before.last() == (cond@, text@));
            assert(frames(stack@) =~= before.drop_last());
            js = if_block_js_exec(js, vars, ids[k].as_slice(), cond.as_slice());
            let content = trim_exec(text.as_slice());
            let html = if_block_html_exec(ids[k].as_slice(), content.as_slice());
            add_text(&mut out, &mut stack, html.as_slice());
        }
        last = sp.end;
        k = k + 1;
        assert(k < caps@.len() ==> last <= mstart(cv[k as int])) by {
            if k < caps@.len() {
                assert(mend(cv[k - 1]) <= mstart(cv[k as int]));
            }
        }
    }
    push_all(&mut out, &input[last..input.len()]);
    (out, js)
}

} // verus!

verus! {

/// Declarations of signals (`name = new Signal(`), the name in group 1.
pub const VARIABLE_PATTERN: &'static str = r"\b(\w+)\s*=\s*new\s+Signal\s*\(";

/// Opening and closing `<if>` tags; an opening tag's condition is group 1.
pub const IF_PATTERN: &'static str = r"(?i)<if\s+([^>]+)>|</if>";

/// The texts of group 1 of the matches `caps` on `hay`.
pub fn group1_texts(hay: &[char], caps: &Vec<Groups>) -> (r: Vec<Vec<char>>)
    requires
        well_formed_captures(caps_view(caps@), hay@.len() as int),
    ensures
        views(r@) == group_texts(hay@, caps_view(caps@), 1),
{
    let ghost cv = caps_view(caps@);
    let mut r: Vec<Vec<char>> = Vec::new();
    let mut k: usize = 0;
    while k < caps.len()
        invariant
            cv == caps_view(caps@),
            well_formed_captures(cv, hay@.len() as int),
            k <= caps@.len(),
            r@.len() == k,
            forall|j: int| 0 <= j < k ==> #[trigger] r@[j]@ == group_text(hay@, cv[j], 1),
        decreases caps@.len() - k,
    {
        assert(cv[k as int] == caps@[k as int]@);
        assert forall|g: int| 0 <= g < caps@[k as int]@.len() && #[trigger] caps@[k as int]@[g] is Some
            implies caps@[k as int]@[g].unwrap().start <= caps@[k as int]@[g].unwrap().end <= hay@.len() by {
            assert(cv[k as int][g] is Some);
        }
        r.push(group_chars(hay, &caps[k], 1));
        k = k + 1;
    }
    assert(views(r@) =~= group_texts(hay@, cv, 1));
    r
}

/// The names of the signals that `js_code` declares, in order.
pub fn get_variables(js_code: &str) -> (r: Vec<String>)
    ensures
        string_views(r@) == group_texts(js_code@, matches_of(VARIABLE_PATTERN@, js_code@), 1),
{
    let caps = capture_spans(VARIABLE_PATTERN, js_code);
    let js = chars_of(js_code);
    let names = group1_texts(js.as_slice(), &caps);
    crate::text::strings_of_all(&names)
}

/// Compiles the `<if>` blocks of `input`, given the page's signals
/// `variables`, the tag matches `caps` of `IF_PATTERN` and the id to give
/// the block closed at each tag.
pub fn handle_if_with(input: &str, variables: &Vec<String>, caps: &Vec<Groups>, ids: &Vec<String>) -> (r: (String, String))
    requires
        well_formed_captures(caps_view(caps@), input@.len() as int),
        ids@.len() == caps@.len(),
    ensures
        (r.0@, r.1@) == if_blocks(input@, string_views(variables@), caps_view(caps@), string_views(ids@)),
{
    let cs = chars_of(input);
    let vars = crate::text::chars_of_all(variables);
    let idc = crate::text::chars_of_all(ids);
    let (out, js) = if_blocks_exec(cs.as_slice(), &vars, caps, &idc);
    (string_of(out.as_slice()), string_of(js.as_slice()))
}

/// A fresh element id for each of `n` tags.
pub fn new_block_ids(n: usize) -> (r: Vec<Vec<char>>)
    ensures
        r@.len() == n,
        forall|k: int| 0 <= k < n ==> is_block_id(#[trigger] r@[k]@),
{
    let mut r: Vec<Vec<char>> = Vec::new();
    let mut k: usize = 0;
    while k < n
        invariant
            k <= n,
            r@.len() == k,
            forall|j: int| 0 <= j < k ==> is_block_id(#[trigger] r@[j]@),
        decreases n - k,
    {
        r.push(new_block_id());
        k = k + 1;
    }
    r
}

/// Compiles the `<if>` blocks of the page `input` whose script is
/// `js_input`: each closed block gets a fresh id and a script that shows
/// it while its condition holds.
pub fn handle_if(input: &str, js_input: &str) -> (r: (String, String))
    ensures
        exists|ids: Seq<Seq<char>>|
            ids.len() == matches_of(IF_PATTERN@, input@).len()
            && (forall|k: int| 0 <= k < ids.len() ==> is_block_id(#[trigger] ids[k]))
            && (r.0@, r.1@) == if_blocks(
                input@,
                group_texts(js_input@, matches_of(VARIABLE_PATTERN@, js_input@), 1),
                matches_of(IF_PATTERN@, input@),
                ids,
            ),
{
    let variables = get_variables(js_input);
    let caps = capture_spans(IF_PATTERN, input);
    let ids = new_block_ids(caps.len());
    let cs = chars_of(input);
    let vars = crate::text::chars_of_all(&variables);
    let (out, js) = if_blocks_exec(cs.as_slice(), &vars, &caps, &ids);
    let ghost w = views(ids@);
    assert(w.len() == matches_of(IF_PATTERN@, input@).len()) by {
        assert(caps_view(caps@).len() == caps@.len());
    }
    assert(forall|k: int| 0 <= k < w.len() ==> is_block_id(#[trigger] w[k])) by {
        assert forall|k: int| 0 <= k < w.len() implies is_block_id(#[trigger] w[k]) by {
            assert(w[k] == ids@[k]@);
        }
    }
    (string_of(out.as_slice()), string_of(js.as_slice()))
}

} // verus!
verus! {

/// The element that stands for a `<for>` block.
pub open spec fn for_block_html(id: Seq<char>) -> Seq<char> {
    "\n<div id='"@ + id + "'></ul>\n"@
}

/// Executable `for_block_html`.
fn for_block_html_exec(id: &[char]) -> (r: Vec<char>)
    ensures
        r@ == for_block_html(id@),
{
    let mut out = chars_of("\n<div id='");
    push_all(&mut out, id);
    push_lit(&mut out, "'></ul>\n");
    out
}

/// Script that renders the block `id` once per item of `array_var`, again whenever a signal changes.
pub open spec fn for_effect_js(id: Seq<char>, array_var: Seq<char>, item_var: Seq<char>, content: Seq<char>) -> Seq<char> {
    "\nlet "@ + id + " = document.getElementById('"@ + id + "');\nfunction render_"@ + id + "() {\n    "@ + id + ".innerHTML = \"\";\n    "@ + array_var + ".forEach(("@ + item_var + ", i) => {\n        let div = document.createElement(\"div\");\n        div.innerHTML = `"@ + content + "`;\n        "@ + id + ".appendChild(div);\n    });\n}\neffect(() => render_"@ + id + "());\n"@
}

/// Executable `for_effect_js`.
fn for_effect_js_exec(id: &[char], array_var: &[char], item_var: &[char], content: &[char]) -> (r: Vec<char>)
    ensures
        r@ == for_effect_js(id@, array_var@, item_var@, content@),
{
    let mut out = chars_of("\nlet ");
    push_all(&mut out, id);
    push_lit(&mut out, " = document.getElementById('");
    push_all(&mut out, id);
    push_lit(&mut out, "');\nfunction render_");
    push_all(&mut out, id);
    push_lit(&mut out, "() {\n    ");
    push_all(&mut out, id);
    push_lit(&mut out, ".innerHTML = \"\";\n    ");
    push_all(&mut out, array_var);
    push_lit(&mut out, ".forEach((");
    push_all(&mut out, item_var);
    push_lit(&mut out, ", i) => {\n        let div = document.createElement(\"div\");\n        div.innerHTML = `");
    push_all(&mut out, content);
    push_lit(&mut out, "`;\n        ");
    push_all(&mut out, id);
    push_lit(&mut out, ".appendChild(div);\n    });\n}\neffect(() => render_");
    push_all(&mut out, id);
    push_lit(&mut out, "());\n");
    out
}

/// Script that defines the renderer of the block `id`, once per item of `array_var`.
pub open spec fn for_list_js(id: Seq<char>, array_var: Seq<char>, item_var: Seq<char>, content: Seq<char>) -> Seq<char> {
    "\nlet "@ + id + " = document.getElementById('"@ + id + "');\nfunction render_"@ + id + "() {\n    "@ + id + ".innerHTML = \"\";\n    "@ + array_var + ".forEach(("@ + item_var + ", i) => {\n        let div = document.createElement(\"div\");\n        div.innerHTML = `"@ + content + "`;\n        "@ + id + ".appendChild(div);\n    });\n}\n"@
}

/// Executable `for_list_js`.
fn for_list_js_exec(id: &[char], array_var: &[char], item_var: &[char], content: &[char]) -> (r: Vec<char>)
    ensures
        r@ == for_list_js(id@, array_var@, item_var@, content@),
{
    let mut out = chars_of("\nlet ");
    push_all(&mut out, id);
    push_lit(&mut out, " = document.getElementById('");
    push_all(&mut out, id);
    push_lit(&mut out, "');\nfunction render_");
    push_all(&mut out, id);
    push_lit(&mut out, "() {\n    ");
    push_all(&mut out, id);
    push_lit(&mut out, ".innerHTML = \"\";\n    ");
    push_all(&mut out, array_var);
    push_lit(&mut out, ".forEach((");
    push_all(&mut out, item_var);
    push_lit(&mut out, ", i) => {\n        let div = document.createElement(\"div\");\n        div.innerHTML = `");
    push_all(&mut out, content);
    push_lit(&mut out, "`;\n        ");
    push_all(&mut out, id);
    push_lit(&mut out, ".appendChild(div);\n    });\n}\n");
    out
}

/// Script that renders the block `id` once per value of `var_name` below `range_value`.
pub open spec fn for_range_js(id: Seq<char>, var_name: Seq<char>, range_value: Seq<char>, content: Seq<char>) -> Seq<char> {
    "\nlet "@ + id + " = document.getElementById('"@ + id + "');\nfor (let "@ + var_name + " = 0; "@ + var_name + " < "@ + range_value + "; "@ + var_name + "++) {\n    let div = document.createElement(\"div\");\n    div.innerHTML = `"@ + content + "`;\n    "@ + id + ".appendChild(div);\n}\n"@
}

/// Executable `for_range_js`.
fn for_range_js_exec(id: &[char], var_name: &[char], range_value: &[char], content: &[char]) -> (r: Vec<char>)
    ensures
        r@ == for_range_js(id@, var_name@, range_value@, content@),
{
    let mut out = chars_of("\nlet ");
    push_all(&mut out, id);
    push_lit(&mut out, " = document.getElementById('");
    push_all(&mut out, id);
    push_lit(&mut out, "');\nfor (let ");
    push_all(&mut out, var_name);
    push_lit(&mut out, " = 0; ");
    push_all(&mut out, var_name);
    push_lit(&mut out, " < ");
    push_all(&mut out, range_value);
    push_lit(&mut out, "; ");
    push_all(&mut out, var_name);
    push_lit(&mut out, "++) {\n    let div = document.createElement(\"div\");\n    div.innerHTML = `");
    push_all(&mut out, content);
    push_lit(&mut out, "`;\n    ");
    push_all(&mut out, id);
    push_lit(&mut out, ".appendChild(div);\n}\n");
    out
}

} // verus!

verus! {

/// Opening and closing `<for>` tags; an opening tag's loop header is
/// group 1.
pub const FOR_PATTERN: &'static str = r"(?i)<for\s+([^>]+)>|</for>";

/// The script of a closed `<for>` block `id` with loop header `condition`
/// and (converted) body `content`: `item in array` renders once per item
/// (re-rendering on change when the header reads the last declared signal,
/// nothing with no signal declared); `name = bound` renders once per value
/// below the bound; any other header has no script.
pub open spec fn for_block_js(vars: Seq<Seq<char>>, id: Seq<char>, condition: Seq<char>, content: Seq<char>) -> Seq<char> {
    if contains(condition, " in "@) {
        let parts = crate::text::split(condition, " in "@);
        if vars.len() == 0 {
            Seq::empty()
        } else if contains(condition, vars.last() + ".get()"@) {
            for_effect_js(id, trim(parts[1]), trim(parts[0]), content)
        } else {
            for_list_js(id, trim(parts[1]), trim(parts[0]), content)
        }
    } else if contains(condition, "="@) {
        let parts = crate::text::split(condition, "="@);
        for_range_js(id, trim(parts[0]), trim(parts[1]), content)
    } else {
        Seq::empty()
    }
}

/// Executable `for_block_js`.
fn for_block_js_exec(vars: &Vec<Vec<char>>, id: &[char], condition: &[char], content: &[char]) -> (r: Vec<char>)
    ensures
        r@ == for_block_js(views(vars@), id@, condition@, content@),
{
    let sep_in = chars_of(" in ");
    let sep_eq = chars_of("=");
    proof {
        reveal_strlit(" in ");
        reveal_strlit("=");
    }
    if contains_exec(condition, sep_in.as_slice()) {
        let parts = crate::text::split_exec(condition, sep_in.as_slice());
        proof {
            crate::text::lemma_split_contains(condition@, sep_in@);
        }
        assert(parts@.len() == views(parts@).len());
        if vars.len() == 0 {
            return Vec::new();
        }
        let item_var = trim_exec(parts[0].as_slice());
        let array_var = trim_exec(parts[1].as_slice());
        assert(views(parts@)[0] == parts@[0]@ && views(parts@)[1] == parts@[1]@);
        let mut needle = slice_vec(vars[vars.len() - 1].as_slice());
        push_lit(&mut needle, ".get()");
        if contains_exec(condition, needle.as_slice()) {
            for_effect_js_exec(id, array_var.as_slice(), item_var.as_slice(), content)
        } else {
            for_list_js_exec(id, array_var.as_slice(), item_var.as_slice(), content)
        }
    } else if contains_exec(condition, sep_eq.as_slice()) {
        let parts = crate::text::split_exec(condition, sep_eq.as_slice());
        proof {
            crate::text::lemma_split_contains(condition@, sep_eq@);
        }
        assert(parts@.len() == views(parts@).len());
        let var_name = trim_exec(parts[0].as_slice());
        let range_value = trim_exec(parts[1].as_slice());
        assert(views(parts@)[0] == parts@[0]@ && views(parts@)[1] == parts@[1]@);
        for_range_js_exec(id, var_name.as_slice(), range_value.as_slice(), content)
    } else {
        Vec::new()
    }
}

/// One tag of a `<for>` scan: as `if_step`, except that a closed block
/// becomes an empty element with id `id`, and its script, made from the
/// converted body `content`, is appended to the script so far.
pub open spec fn for_step(
    input: Seq<char>,
    vars: Seq<Seq<char>>,
    m: Seq<Option<Span>>,
    id: Seq<char>,
    content: Seq<char>,
    st: BlockState,
) -> BlockState {
    let st1 = with_text(st, input.subrange(st.last, mstart(m)));
    if group_present(m, 1) {
        BlockState { stack: st1.stack.push((trim(group_text(input, m, 1)), Seq::empty())), last: mend(m), ..st1 }
    } else if st1.stack.len() > 0 {
        let frame = st1.stack.last();
        let closed = BlockState {
            stack: st1.stack.drop_last(),
            js: st1.js + for_block_js(vars, id, frame.0, content),
            ..st1
        };
        BlockState { last: mend(m), ..with_text(closed, for_block_html(id)) }
    } else {
        BlockState { last: mend(m), ..st1 }
    }
}

/// The `<for>` scan state after the first `k` tags.
pub open spec fn for_run(
    input: Seq<char>,
    vars: Seq<Seq<char>>,
    caps: Seq<Seq<Option<Span>>>,
    ids: Seq<Seq<char>>,
    converted: Seq<Seq<char>>,
    k: int,
) -> BlockState
    decreases k,
{
    if k <= 0 {
        BlockState { out: Seq::empty(), js: Seq::empty(), stack: Seq::empty(), last: 0 }
    } else {
        for_step(input, vars, caps[k - 1], ids[k - 1], converted[k - 1], for_run(input, vars, caps, ids, converted, k - 1))
    }
}

/// The page with its `<for>` blocks compiled, and their script: `caps` are
/// the tag matches, `ids[k]` the id and `converted[k]` the converted body
/// of the block closed at the `k`-th tag.
pub open spec fn for_blocks(
    input: Seq<char>,
    vars: Seq<Seq<char>>,
    caps: Seq<Seq<Option<Span>>>,
    ids: Seq<Seq<char>>,
    converted: Seq<Seq<char>>,
) -> (Seq<char>, Seq<char>) {
    let st = for_run(input, vars, caps, ids, converted, caps.len() as int);
    (st.out + input.subrange(st.last, input.len() as int), st.js)
}

/// The trimmed body of the block that the `k`-th tag closes, if it closes
/// one, in a scan with signals `vars` and converted bodies `converted`.
pub open spec fn for_body_in(
    input: Seq<char>,
    vars: Seq<Seq<char>>,
    caps: Seq<Seq<Option<Span>>>,
    ids: Seq<Seq<char>>,
    converted: Seq<Seq<char>>,
    k: int,
) -> Option<Seq<char>> {
    let st = for_run(input, vars, caps, ids, converted, k);
    let st1 = with_text(st, input.subrange(st.last, mstart(caps[k])));
    if !group_present(caps[k], 1) && st1.stack.len() > 0 {
        Some(trim(st1.stack.last().1))
    } else {
        None
    }
}

/// The trimmed body of the block that the `k`-th tag closes, if it closes
/// one.
pub open spec fn for_body(input: Seq<char>, caps: Seq<Seq<Option<Span>>>, ids: Seq<Seq<char>>, k: int) -> Option<Seq<char>> {
    for_body_in(input, Seq::empty(), caps, ids, Seq::new(caps.len(), |j: int| Seq::<char>::empty()), k)
}

/// The page text, the open blocks and the position of a `<for>` scan do
/// not depend on the signals nor on the converted bodies.
pub proof fn lemma_for_run_shape(
    input: Seq<char>,
    v1: Seq<Seq<char>>,
    v2: Seq<Seq<char>>,
    caps: Seq<Seq<Option<Span>>>,
    ids: Seq<Seq<char>>,
    c1: Seq<Seq<char>>,
    c2: Seq<Seq<char>>,
    k: int,
)
    ensures
        for_run(input, v1, caps, ids, c1, k).out == for_run(input, v2, caps, ids, c2, k).out,
        for_run(input, v1, caps, ids, c1, k).stack == for_run(input, v2, caps, ids, c2, k).stack,
        for_run(input, v1, caps, ids, c1, k).last == for_run(input, v2, caps, ids, c2, k).last,
    decreases k,
{
    if k > 0 {
        lemma_for_run_shape(input, v1, v2, caps, ids, c1, c2, k - 1);
    }
}

/// The body at each tag is the same whatever the signals and conversions.
pub proof fn lemma_for_body_in(
    input: Seq<char>,
    vars: Seq<Seq<char>>,
    caps: Seq<Seq<Option<Span>>>,
    ids: Seq<Seq<char>>,
    converted: Seq<Seq<char>>,
    k: int,
)
    ensures
        for_body_in(input, vars, caps, ids, converted, k) == for_body(input, caps, ids, k),
{
    lemma_for_run_shape(input, vars, Seq::empty(), caps, ids, converted, Seq::new(caps.len(), |j: int| Seq::<char>::empty()), k);
}

/// The scan of `<for>` blocks with executable state; `vars` and
/// `converted` may be left empty when only the bodies are wanted.
fn for_scan(
    input: &[char],
    vars: &Vec<Vec<char>>,
    caps: &Vec<Groups>,
    ids: &Vec<Vec<char>>,
    converted: &Vec<Vec<char>>,
) -> (r: (Vec<char>, Vec<char>, Vec<Option<Vec<char>>>))
    requires
        well_formed_captures(caps_view(caps@), input@.len() as int),
        ids@.len() == caps@.len(),
        converted@.len() == caps@.len(),
    ensures
        (r.0@, r.1@) == for_blocks(input@, views(vars@), caps_view(caps@), views(ids@), views(converted@)),
        r.2@.len() == caps@.len(),
        forall|k: int| 0 <= k < caps@.len() ==> (match #[trigger] r.2@[k] {
            Some(b) => for_body_in(input@, views(vars@), caps_view(caps@), views(ids@), views(converted@), k) == Some(b@),
            None => for_body_in(input@, views(vars@), caps_view(caps@), views(ids@), views(converted@), k) is None,
        }),
{
    let ghost cv = caps_view(caps@);
    let ghost vv = views(vars@);
    let ghost iv = views(ids@);
    let ghost tv = views(converted@);
    let mut out: Vec<char> = Vec::new();
    let mut js: Vec<char> = Vec::new();
    let mut stack: Vec<(Vec<char>, Vec<char>)> = Vec::new();
    let mut bodies: Vec<Option<Vec<char>>> = Vec::new();
    let mut last: usize = 0;
    let mut k: usize = 0;
    assert(frames(stack@) =~= Seq::empty());
    while k < caps.len()
        invariant
            cv == caps_view(caps@),
            vv == views(vars@),
            iv == views(ids@),
            tv == views(converted@),
            well_formed_captures(cv, input@.len() as int),
            ids@.len() == caps@.len(),
            converted@.len() == caps@.len(),
            k <= caps@.len(),
            last <= input@.len(),
            k < caps@.len() ==> last <= mstart(cv[k as int]),
            ({
                let st = for_run(input@, vv, cv, iv, tv, k as int);
                st.out == out@ && st.js == js@ && st.stack == frames(stack@) && st.last == last as int
            }),
            bodies@.len() == k,
            forall|j: int| 0 <= j < k ==> (match #[trigger] bodies@[j] {
                Some(b) => for_body_in(input@, vv, cv, iv, tv, j) == Some(b@),
                None => for_body_in(input@, vv, cv, iv, tv, j) is None,
            }),
        decreases caps@.len() - k,
    {
        let m = &caps[k];
        assert(cv[k as int] == m@);
        assert(m@.len() >= 1 && m@[0] is Some);
        let sp = m[0].unwrap();
        assert forall|g: int| 0 <= g < m@.len() && #[trigger] m@[g] is Some
            implies m@[g].unwrap().start <= m@[g].unwrap().end <= input@.len() by {
            assert(cv[k as int][g] is Some);
        }
        add_text(&mut out, &mut stack, &input[last..sp.start]);
        assert(iv[k as int] == ids@[k as int]@);
        assert(tv[k as int] == converted@[k as int]@);
        if group_present_exec(m, 1) {
            let raw = group_chars(input, m, 1);
            let cond = trim_exec(raw.as_slice());
            let ghost before = frames(stack@);
            stack.push((cond, Vec::new()));
            assert(frames(stack@) =~= before.push((trim(group_text(input@, m@, 1)), Seq::empty())));
            bodies.push(None);
        } else if stack.len() > 0 {
            let ghost before = frames(stack@);
            let (cond, text) = stack.pop().unwrap();
            assert(before.last() == (cond@, text@));
            assert(frames(stack@) =~= before.drop_last());
            let content = trim_exec(text.as_slice());
            let script = for_block_js_exec(vars, ids[k].as_slice(), cond.as_slice(), converted[k].as_slice());
            push_all(&mut js, script.as_slice());
            let html = for_block_html_exec(ids[k].as_slice());
            add_text(&mut out, &mut stack, html.as_slice());
            bodies.push(Some(content));
        } else {
            bodies.push(None);
        }
        last = sp.end;
        k = k + 1;
        assert(k < caps@.len() ==> last <= mstart(cv[k as int])) by {
            if k < caps@.len() {
                assert(mend(cv[k - 1]) <= mstart(cv[k as int]));
            }
        }
    }
    push_all(&mut out, &input[last..input.len()]);
    (out, js, bodies)
}

} // verus!

verus! {

/// Optional texts held by a vector of optional strings.
pub open spec fn option_views(v: Seq<Option<String>>) -> Seq<Option<Seq<char>>> {
    v.map_values(|o: Option<String>| match o {
        Some(s) => Some(s@),
        None => None,
    })
}

/// Strings for optional character vectors.
fn option_strings(v: &Vec<Option<Vec<char>>>) -> (r: Vec<Option<String>>)
    ensures
        r@.len() == v@.len(),
        forall|k: int| 0 <= k < v@.len() ==> (match #[trigger] v@[k] {
            Some(b) => option_views(r@)[k] == Some(b@),
            None => option_views(r@)[k] is None,
        }),
{
    let mut r: Vec<Option<String>> = Vec::new();
    let mut k: usize = 0;
    while k < v.len()
        invariant
            k <= v@.len(),
            r@.len() == k,
            forall|j: int| 0 <= j < k ==> (match #[trigger] v@[j] {
                Some(b) => option_views(r@)[j] == Some(b@),
                None => option_views(r@)[j] is None,
            }),
        decreases v@.len() - k,
    {
        match &v[k] {
            Some(b) => r.push(Some(string_of(b.as_slice()))),
            None => r.push(None),
        }
        k = k + 1;
    }
    r
}

/// Empty texts, one per match.
fn empty_texts(n: usize) -> (r: Vec<Vec<char>>)
    ensures
        views(r@) == Seq::new(n as nat, |j: int| Seq::<char>::empty()),
        r@.len() == n,
{
    let mut r: Vec<Vec<char>> = Vec::new();
    let mut k: usize = 0;
    while k < n
        invariant
            k <= n,
            r@.len() == k,
            forall|j: int| 0 <= j < k ==> #[trigger] r@[j]@ == Seq::<char>::empty(),
        decreases n - k,
    {
        r.push(Vec::new());
        k = k + 1;
    }
    assert(views(r@) =~= Seq::new(n as nat, |j: int| Seq::<char>::empty()));
    r
}

/// The trimmed body of the `<for>` block closed at each tag of `caps`
/// (`None` at the other tags), the block closed at tag `k` having id
/// `ids[k]`: the bodies to convert before `handle_for`.
pub fn for_block_bodies(input: &str, caps: &Vec<Groups>, ids: &Vec<String>) -> (r: Vec<Option<String>>)
    requires
        well_formed_captures(caps_view(caps@), input@.len() as int),
        ids@.len() == caps@.len(),
    ensures
        r@.len() == caps@.len(),
        forall|k: int| 0 <= k < caps@.len() ==> #[trigger] option_views(r@)[k] == for_body(input@, caps_view(caps@), string_views(ids@), k),
{
    let cs = chars_of(input);
    let idc = crate::text::chars_of_all(ids);
    let none: Vec<Vec<char>> = Vec::new();
    let conv = empty_texts(caps.len());
    let (_, _, bodies) = for_scan(cs.as_slice(), &none, caps, &idc, &conv);
    let r = option_strings(&bodies);
    assert forall|k: int| 0 <= k < caps@.len() implies #[trigger] option_views(r@)[k] == for_body(input@, caps_view(caps@), string_views(ids@), k) by {
        assert(views(none@) =~= Seq::empty());
        lemma_for_body_in(input@, Seq::empty(), caps_view(caps@), string_views(ids@), views(conv@), k);
        match bodies@[k] {
            Some(b) => {},
            None => {},
        }
    }
    r
}

/// The tag matches of the `<for>` blocks of `input`, a fresh id for each
/// tag, and the trimmed body of the block each tag closes: the bodies to
/// convert before `handle_for`.
pub fn prepare_for(input: &str) -> (r: (Vec<Groups>, Vec<String>, Vec<Option<String>>))
    ensures
        caps_view(r.0@) == matches_of(FOR_PATTERN@, input@),
        well_formed_captures(caps_view(r.0@), input@.len() as int),
        r.1@.len() == r.0@.len(),
        forall|k: int| 0 <= k < r.1@.len() ==> is_block_id(#[trigger] r.1@[k]@),
        r.2@.len() == r.0@.len(),
        forall|k: int| 0 <= k < r.0@.len() ==> #[trigger] option_views(r.2@)[k] == for_body(input@, caps_view(r.0@), string_views(r.1@), k),
{
    let caps = capture_spans(FOR_PATTERN, input);
    let idc = new_block_ids(caps.len());
    let ids = crate::text::strings_of_all(&idc);
    assert forall|k: int| 0 <= k < ids@.len() implies is_block_id(#[trigger] ids@[k]@) by {
        assert(string_views(ids@)[k] == ids@[k]@);
        assert(views(idc@)[k] == idc@[k]@);
    }
    let bodies = for_block_bodies(input, &caps, &ids);
    (caps, ids, bodies)
}

/// Compiles the `<for>` blocks of `input`, given the page's signals
/// `variables`, the tag matches `caps`, the id `ids[k]` and converted body
/// `converted[k]` of the block closed at each tag.
pub fn handle_for_with(
    input: &str,
    variables: &Vec<String>,
    caps: &Vec<Groups>,
    ids: &Vec<String>,
    converted: &Vec<String>,
) -> (r: (String, String))
    requires
        well_formed_captures(caps_view(caps@), input@.len() as int),
        ids@.len() == caps@.len(),
        converted@.len() == caps@.len(),
    ensures
        (r.0@, r.1@) == for_blocks(input@, string_views(variables@), caps_view(caps@), string_views(ids@), string_views(converted@)),
{
    let cs = chars_of(input);
    let vars = crate::text::chars_of_all(variables);
    let idc = crate::text::chars_of_all(ids);
    let conv = crate::text::chars_of_all(converted);
    let (out, js, _) = for_scan(cs.as_slice(), &vars, caps, &idc, &conv);
    (string_of(out.as_slice()), string_of(js.as_slice()))
}

/// Compiles the `<for>` blocks of the page `input` whose script is
/// `js_input`, with the tags, ids and converted bodies of `prepare_for`.
pub fn handle_for(input: &str, js_input: &str, caps: &Vec<Groups>, ids: &Vec<String>, converted: &Vec<String>) -> (r: (String, String))
    requires
        well_formed_captures(caps_view(caps@), input@.len() as int),
        ids@.len() == caps@.len(),
        converted@.len() == caps@.len(),
    ensures
        (r.0@, r.1@) == for_blocks(
            input@,
            group_texts(js_input@, matches_of(VARIABLE_PATTERN@, js_input@), 1),
            caps_view(caps@),
            string_views(ids@),
            string_views(converted@),
        ),
{
    let variables = get_variables(js_input);
    handle_for_with(input, &variables, caps, ids, converted)
}

} // verus!

verus! {

/// The script of an `<if>` block whose condition reads the last declared
/// signal (`<signal>.get()`) re-evaluates the condition whenever signals
/// change: it holds `effect(() => { if (<condition>) {`.
pub proof fn lemma_if_reading_signal_is_reactive(js: Seq<char>, vars: Seq<Seq<char>>, id: Seq<char>, condition: Seq<char>)
    requires
        vars.len() > 0,
        contains(condition, vars.last() + ".get()"@),
    ensures
        contains(if_block_js(js, vars, id, condition), "effect(() => {\n        if ("@ + condition + ") {"@),
{
    let s = if_block_js(js, vars, id, condition);
    let a = "\n    let "@ + id + " = document.getElementById('"@ + id + "');\n    let "@ + id
        + "_prev_display = window.getComputedStyle("@ + id + ").display;\n    if ("@ + id
        + "_prev_display === \"none\") {\n        "@ + id + "_prev_display = \"block\";\n    }\n\n    "@;
    let t = "effect(() => {\n        if ("@ + condition + ") {"@;
    reveal_strlit("_prev_display = \"block\";\n    }\n\n    effect(() => {\n        if (");
    reveal_strlit("_prev_display = \"block\";\n    }\n\n    ");
    reveal_strlit("effect(() => {\n        if (");
    reveal_strlit(") {\n        ");
    reveal_strlit(") {");
    assert(s.subrange(a.len() as int, a.len() + t.len() as int) =~= t);
    crate::text::lemma_contains_at(s, t, a.len() as int);
}

/// The script of an `<if>` block whose condition does not read the last
/// declared signal tests the condition once, when the page loads: it holds
/// `if (<condition>) {` right after the display set-up, without an effect.
pub proof fn lemma_if_without_signal_is_static(js: Seq<char>, vars: Seq<Seq<char>>, id: Seq<char>, condition: Seq<char>)
    requires
        vars.len() > 0,
        !contains(condition, vars.last() + ".get()"@),
    ensures
        contains(if_block_js(js, vars, id, condition), "\"block\";\n    }\n\n    if ("@ + condition + ") {"@),
{
    let s = if_block_js(js, vars, id, condition);
    let a = "\n    let "@ + id + " = document.getElementById('"@ + id + "');\n    let "@ + id
        + "_prev_display = window.getComputedStyle("@ + id + ").display;\n    if ("@ + id
        + "_prev_display === \"none\") {\n        "@ + id + "_prev_display = "@;
    let t = "\"block\";\n    }\n\n    if ("@ + condition + ") {"@;
    reveal_strlit("_prev_display = \"block\";\n    }\n\n    if (");
    reveal_strlit("_prev_display = ");
    reveal_strlit("\"block\";\n    }\n\n    if (");
    reveal_strlit(") {\n        ");
    reveal_strlit(") {");
    assert(s.subrange(a.len() as int, a.len() + t.len() as int) =~= t);
    crate::text::lemma_contains_at(s, t, a.len() as int);
}

/// The script of a closed `<for>` block with header `item in array` (and a
/// signal declared) walks the array: it holds
/// `<array>.forEach((<item>, i) =>`, the array being the trimmed text after
/// ` in ` and the loop variable the trimmed text before it.
pub proof fn lemma_for_in_iterates_array(vars: Seq<Seq<char>>, id: Seq<char>, condition: Seq<char>, content: Seq<char>)
    requires
        vars.len() > 0,
        contains(condition, " in "@),
    ensures
        ({
            let parts = crate::text::split(condition, " in "@);
            contains(
                for_block_js(vars, id, condition, content),
                trim(parts[1]) + ".forEach(("@ + trim(parts[0]) + ", i) =>"@,
            )
        }),
{
    let parts = crate::text::split(condition, " in "@);
    let arr = trim(parts[1]);
    let item = trim(parts[0]);
    let s = for_block_js(vars, id, condition, content);
    let a = "\nlet "@ + id + " = document.getElementById('"@ + id + "');\nfunction render_"@ + id + "() {\n    "@ + id
        + ".innerHTML = \"\";\n    "@;
    let t = arr + ".forEach(("@ + item + ", i) =>"@;
    reveal_strlit(", i) => {\n        let div = document.createElement(\"div\");\n        div.innerHTML = `");
    reveal_strlit(", i) =>");
    assert(s.subrange(a.len() as int, a.len() + t.len() as int) =~= t);
    crate::text::lemma_contains_at(s, t, a.len() as int);
}

} // verus!
