//! Compiling pages to Jetpack Compose screens for the Android build: page
//! imports become composable calls, flex containers become rows, and the
//! screens are registered for navigation.

use vstd::prelude::*;
use crate::pattern::{
    Groups, Span, caps_view, capture_spans, group_chars, group_text, matches_of, splice, spliced,
    well_formed_captures,
};
use crate::text::{
    chars_of, join, join_exec, push_all, push_lit, replace, replace_exec, slice_vec, string_of,
    trim, trim_exec, views, words, words_exec,
};

verus! {

/// The head of a Jetpack Compose screen named `name`: package, imports, and the opening of its composable function.
pub open spec fn kotlin_opening(name: Seq<char>) -> Seq<char> {
    "package com.fuji.ubi\n\nimport androidx.compose.foundation.background\nimport androidx.compose.foundation.layout.*\nimport androidx.compose.material3.*\nimport androidx.compose.runtime.*\nimport androidx.compose.ui.Alignment\nimport androidx.compose.ui.Modifier\nimport androidx.compose.ui.graphics.Color\nimport androidx.compose.ui.unit.dp\nimport androidx.navigation.NavController\n\n@Composable\nfun "@ + name + "(navController: NavController) {"@
}

/// Executable `kotlin_opening`.
fn kotlin_opening_exec(name: &[char]) -> (r: Vec<char>)
    ensures
        r@ == kotlin_opening(name@),
{
    let mut out = chars_of("package com.fuji.ubi\n\nimport androidx.compose.foundation.background\nimport androidx.compose.foundation.layout.*\nimport androidx.compose.material3.*\nimport androidx.compose.runtime.*\nimport androidx.compose.ui.Alignment\nimport androidx.compose.ui.Modifier\nimport androidx.compose.ui.graphics.Color\nimport androidx.compose.ui.unit.dp\nimport androidx.navigation.NavController\n\n@Composable\nfun ");
    push_all(&mut out, name);
    push_lit(&mut out, "(navController: NavController) {");
    out
}

/// The navigation item of the screen `name` at `route`.
pub open spec fn nav_item(name: Seq<char>, route: Seq<char>) -> Seq<char> {
    "    "@ + name + "(\n                            route = \""@ + route + "\",\n                                            icon = Icons.Filled.Settings,\n                                            label = \""@ + name + "\"\n                                            ),\n            "@
}

/// Executable `nav_item`.
fn nav_item_exec(name: &[char], route: &[char]) -> (r: Vec<char>)
    ensures
        r@ == nav_item(name@, route@),
{
    let mut out = chars_of("    ");
    push_all(&mut out, name);
    push_lit(&mut out, "(\n                            route = \"");
    push_all(&mut out, route);
    push_lit(&mut out, "\",\n                                            icon = Icons.Filled.Settings,\n                                            label = \"");
    push_all(&mut out, name);
    push_lit(&mut out, "\"\n                                            ),\n            ");
    out
}

/// The navigation destination that shows the screen `name`.
pub open spec fn nav_destination(name: Seq<char>) -> Seq<char> {
    " composable(NavigationItem."@ + name + ".route) {\n                "@ + name + "(navController)\n                                }\n            "@
}

/// Executable `nav_destination`.
fn nav_destination_exec(name: &[char]) -> (r: Vec<char>)
    ensures
        r@ == nav_destination(name@),
{
    let mut out = chars_of(" composable(NavigationItem.");
    push_all(&mut out, name);
    push_lit(&mut out, ".route) {\n                ");
    push_all(&mut out, name);
    push_lit(&mut out, "(navController)\n                                }\n            ");
    out
}

} // verus!

verus! {

/// Page imports (`<ubi+ "path">` and the whitespace after it), the path
/// in group 1.
pub const ANDROID_IMPORT_PATTERN: &'static str = r#"(?i)<ubi\+\s*"([^"]+)">\s*"#;

/// Replaces `from` by `to` in `s` (literals).
fn replace_lit(s: &[char], from: &str, to: &str) -> (r: Vec<char>)
    requires
        from@.len() > 0,
    ensures
        r@ == replace(s@, from@, to@),
{
    let f = chars_of(from);
    let t = chars_of(to);
    replace_exec(s, f.as_slice(), t.as_slice())
}

/// The name of the screen of the imported page `path`: the trimmed path
/// without `./` and `/ui.ubi`, `/` and `-` read as `_`.
pub open spec fn screen_function(path: Seq<char>) -> Seq<char> {
    replace(replace(replace(replace(trim(path), "./"@, ""@), "/ui.ubi"@, ""@), "/"@, "_"@), "-"@, "_"@)
}

/// What an import of the page `path` becomes: a call of its screen.
pub open spec fn android_import_call(path: Seq<char>) -> Seq<char> {
    "Ubi_"@ + screen_function(path) + "(navController);"@
}

/// `input` with the imports at the matches `caps` replaced by calls.
pub open spec fn android_imports_replaced(input: Seq<char>, caps: Seq<Seq<Option<Span>>>) -> Seq<char> {
    spliced(input, caps, Seq::new(caps.len(), |k: int| android_import_call(group_text(input, caps[k], 1))))
}

/// Executable `android_import_call`.
fn android_import_call_exec(path: &[char]) -> (r: Vec<char>)
    ensures
        r@ == android_import_call(path@),
{
    proof {
        reveal_strlit("./");
        reveal_strlit("/ui.ubi");
        reveal_strlit("/");
        reveal_strlit("-");
    }
    let t = trim_exec(path);
    let a = replace_lit(t.as_slice(), "./", "");
    let b = replace_lit(a.as_slice(), "/ui.ubi", "");
    let c = replace_lit(b.as_slice(), "/", "_");
    let d = replace_lit(c.as_slice(), "-", "_");
    let mut out = chars_of("Ubi_");
    push_all(&mut out, d.as_slice());
    push_lit(&mut out, "(navController);");
    out
}

/// Replaces the page imports of `input` at the matches `caps` of
/// `ANDROID_IMPORT_PATTERN` by calls of their screens.
pub fn handle_android_import_with(input: &str, caps: &Vec<Groups>) -> (r: String)
    requires
        well_formed_captures(caps_view(caps@), input@.len() as int),
    ensures
        r@ == android_imports_replaced(input@, caps_view(caps@)),
{
    let cs = chars_of(input);
    let ghost cv = caps_view(caps@);
    let mut reps: Vec<Vec<char>> = Vec::new();
    let mut k: usize = 0;
    while k < caps.len()
        invariant
            cv == caps_view(caps@),
            cs@ == input@,
            well_formed_captures(cv, input@.len() as int),
            k <= caps@.len(),
            reps@.len() == k,
            forall|j: int| 0 <= j < k ==> #[trigger] reps@[j]@ == android_import_call(group_text(input@, cv[j], 1)),
        decreases caps@.len() - k,
    {
        assert(cv[k as int] == caps@[k as int]@);
        assert forall|i: int| 0 <= i < caps@[k as int]@.len() && #[trigger] caps@[k as int]@[i] is Some
            implies caps@[k as int]@[i].unwrap().start <= caps@[k as int]@[i].unwrap().end <= cs@.len() by {
            assert(cv[k as int][i] is Some);
        }
        let path = group_chars(cs.as_slice(), &caps[k], 1);
        reps.push(android_import_call_exec(path.as_slice()));
        k = k + 1;
    }
    assert(views(reps@) =~= Seq::new(cv.len(), |j: int| android_import_call(group_text(input@, cv[j], 1))));
    let out = splice(cs.as_slice(), caps, &reps);
    string_of(out.as_slice())
}

/// Replaces the page imports of a screen's markup by calls of the
/// imported screens.
pub fn handle_android_import(input: &str) -> (r: String)
    ensures
        r@ == android_imports_replaced(input@, matches_of(ANDROID_IMPORT_PATTERN@, input@)),
{
    let caps = capture_spans(ANDROID_IMPORT_PATTERN, input);
    handle_android_import_with(input, &caps)
}

/// Elements with a class attribute: tag in group 1, the attributes before
/// the class in group 2, the classes in group 3.
pub const FLEX_PATTERN: &'static str = r#"(?i)<(\w+)([^>]*)class="([^"]*)""#;

/// `str::eq_ignore_ascii_case(w, "flex")`.
pub open spec fn is_flex(w: Seq<char>) -> bool {
    &&& w.len() == 4
    &&& (w[0] == 'f' || w[0] == 'F')
    &&& (w[1] == 'l' || w[1] == 'L')
    &&& (w[2] == 'e' || w[2] == 'E')
    &&& (w[3] == 'x' || w[3] == 'X')
}

/// The classes of `ws` other than `flex`, in order.
pub open spec fn without_flex(ws: Seq<Seq<char>>) -> Seq<Seq<char>>
    decreases ws.len(),
{
    if ws.len() == 0 {
        Seq::empty()
    } else if is_flex(ws.last()) {
        without_flex(ws.drop_last())
    } else {
        without_flex(ws.drop_last()).push(ws.last())
    }
}

/// Whether some class of `ws` is `flex`.
pub open spec fn any_flex(ws: Seq<Seq<char>>) -> bool {
    exists|i: int| 0 <= i < ws.len() && is_flex(#[trigger] ws[i])
}

/// What the opening of an element (`tag`, attributes `other`, classes
/// `class`) becomes: a flex container turns into a `row`, and the `flex`
/// class is dropped (with the whole attribute when no class is left).
pub open spec fn flex_rewritten(tag: Seq<char>, other: Seq<char>, class: Seq<char>) -> Seq<char> {
    let ws = words(class);
    let new_class = join(without_flex(ws), " "@);
    let new_tag = if any_flex(ws) { "row"@ } else { tag };
    if new_class.len() == 0 {
        "<"@ + new_tag + other
    } else {
        "<"@ + new_tag + other + " class=\""@ + new_class + "\""@
    }
}

/// `input` with the elements at the matches `caps` rewritten.
pub open spec fn display_flex_handled(input: Seq<char>, caps: Seq<Seq<Option<Span>>>) -> Seq<char> {
    spliced(
        input,
        caps,
        Seq::new(caps.len(), |k: int| flex_rewritten(group_text(input, caps[k], 1), group_text(input, caps[k], 2), group_text(input, caps[k], 3))),
    )
}

/// Executable `is_flex`.
fn is_flex_exec(w: &[char]) -> (r: bool)
    ensures
        r == is_flex(w@),
{
    w.len() == 4 && (w[0] == 'f' || w[0] == 'F') && (w[1] == 'l' || w[1] == 'L') && (w[2] == 'e' || w[2] == 'E')
        && (w[3] == 'x' || w[3] == 'X')
}

/// Executable `flex_rewritten`.
fn flex_rewritten_exec(tag: &[char], other: &[char], class: &[char]) -> (r: Vec<char>)
    ensures
        r@ == flex_rewritten(tag@, other@, class@),
{
    let ws = words_exec(class);
    let ghost wv = views(ws@);
    let mut kept: Vec<Vec<char>> = Vec::new();
    let mut found = false;
    let mut k: usize = 0;
    while k < ws.len()
        invariant
            wv == views(ws@),
            k <= ws@.len(),
            views(kept@) == without_flex(wv.take(k as int)),
            found == any_flex(wv.take(k as int)),
        decreases ws@.len() - k,
    {
        assert(wv.take(k + 1).drop_last() =~= wv.take(k as int));
        assert(wv.take(k + 1).last() == ws@[k as int]@);
        if is_flex_exec(ws[k].as_slice()) {
            found = true;
            assert(wv.take(k + 1)[k as int] == ws@[k as int]@);
        } else {
            let ghost before = views(kept@);
            kept.push(slice_vec(ws[k].as_slice()));
            assert(views(kept@) =~= before.push(ws@[k as int]@));
            assert(any_flex(wv.take(k + 1)) == any_flex(wv.take(k as int))) by {
                if any_flex(wv.take(k + 1)) {
                    let i = choose|i: int| 0 <= i < wv.take(k + 1).len() && is_flex(#[trigger] wv.take(k + 1)[i]);
                    assert(i < k);
                    assert(wv.take(k as int)[i] == wv.take(k + 1)[i]);
                }
                if any_flex(wv.take(k as int)) {
                    let i = choose|i: int| 0 <= i < wv.take(k as int).len() && is_flex(#[trigger] wv.take(k as int)[i]);
                    assert(wv.take(k as int)[i] == wv.take(k + 1)[i]);
                }
            }
        }
        k = k + 1;
    }
    assert(wv.take(ws@.len() as int) =~= wv);
    let sp = chars_of(" ");
    let new_class = join_exec(&kept, sp.as_slice());
    let new_tag = if found { chars_of("row") } else { slice_vec(tag) };
    let mut out = chars_of("<");
    push_all(&mut out, new_tag.as_slice());
    push_all(&mut out, other);
    if new_class.len() > 0 {
        push_lit(&mut out, " class=\"");
        push_all(&mut out, new_class.as_slice());
        push_lit(&mut out, "\"");
    }
    out
}

/// Rewrites the flex containers of `input` at the matches `caps` of
/// `FLEX_PATTERN`.
pub fn handle_display_flex_with(input: &str, caps: &Vec<Groups>) -> (r: String)
    requires
        well_formed_captures(caps_view(caps@), input@.len() as int),
    ensures
        r@ == display_flex_handled(input@, caps_view(caps@)),
{
    let cs = chars_of(input);
    let ghost cv = caps_view(caps@);
    let mut reps: Vec<Vec<char>> = Vec::new();
    let mut k: usize = 0;
    while k < caps.len()
        invariant
            cv == caps_view(caps@),
            cs@ == input@,
            well_formed_captures(cv, input@.len() as int),
            k <= caps@.len(),
            reps@.len() == k,
            forall|j: int| 0 <= j < k ==> #[trigger] reps@[j]@ == flex_rewritten(group_text(input@, cv[j], 1), group_text(input@, cv[j], 2), group_text(input@, cv[j], 3)),
        decreases caps@.len() - k,
    {
        assert(cv[k as int] == caps@[k as int]@);
        assert forall|i: int| 0 <= i < caps@[k as int]@.len() && #[trigger] caps@[k as int]@[i] is Some
            implies caps@[k as int]@[i].unwrap().start <= caps@[k as int]@[i].unwrap().end <= cs@.len() by {
            assert(cv[k as int][i] is Some);
        }
        let tag = group_chars(cs.as_slice(), &caps[k], 1);
        let other = group_chars(cs.as_slice(), &caps[k], 2);
        let class = group_chars(cs.as_slice(), &caps[k], 3);
        reps.push(flex_rewritten_exec(tag.as_slice(), other.as_slice(), class.as_slice()));
        k = k + 1;
    }
    assert(views(reps@) =~= Seq::new(cv.len(), |j: int| flex_rewritten(group_text(input@, cv[j], 1), group_text(input@, cv[j], 2), group_text(input@, cv[j], 3))));
    let out = splice(cs.as_slice(), caps, &reps);
    string_of(out.as_slice())
}

/// Turns the flex containers of a page's markup into rows.
pub fn handle_display_flex(input: &str) -> (r: String)
    ensures
        r@ == display_flex_handled(input@, matches_of(FLEX_PATTERN@, input@)),
{
    let caps = capture_spans(FLEX_PATTERN, input);
    handle_display_flex_with(input, &caps)
}

/// The name of the screen compiled from the page at `input_file`.
pub open spec fn screen_name(input_file: Seq<char>) -> Seq<char> {
    "Ubi"@ + replace(replace(replace(input_file, "./routes"@, ""@), "/ui.ubi"@, ""@), "/"@, "_"@)
}

/// The name of the screen compiled from the page at `input_file`.
pub fn kotlin_screen_name(input_file: &str) -> (r: String)
    ensures
        r@ == screen_name(input_file@),
{
    proof {
        reveal_strlit("./routes");
        reveal_strlit("/ui.ubi");
        reveal_strlit("/");
    }
    let p = chars_of(input_file);
    let a = replace_lit(p.as_slice(), "./routes", "");
    let b = replace_lit(a.as_slice(), "/ui.ubi", "");
    let c = replace_lit(b.as_slice(), "/", "_");
    let mut out = chars_of("Ubi");
    push_all(&mut out, c.as_slice());
    string_of(out.as_slice())
}

/// The Kotlin source of the screen `name` with script `js` and markup
/// `html` (both already rewritten): head, script, markup with page imports
/// turned into calls, and the closing brace.
pub open spec fn screen_source(name: Seq<char>, js: Seq<char>, html: Seq<char>) -> Seq<char> {
    kotlin_opening(name) + js + android_imports_replaced(html, matches_of(ANDROID_IMPORT_PATTERN@, html)) + "}"@
}

/// The Kotlin source of the screen `name`.
pub fn kotlin_screen_source(name: &str, js: &str, html: &str) -> (r: String)
    ensures
        r@ == screen_source(name@, js@, html@),
{
    let n = chars_of(name);
    let body = handle_android_import(html);
    let mut out = kotlin_opening_exec(n.as_slice());
    push_lit(&mut out, js);
    push_lit(&mut out, body.as_str());
    push_lit(&mut out, "}");
    string_of(out.as_slice())
}

/// The file the screen `name` is written to, in the directory
/// `output_file`.
pub fn kotlin_output_file(output_file: &str, name: &str) -> (r: String)
    ensures
        r@ == output_file@ + name@ + ".kt"@,
{
    let mut out = chars_of(output_file);
    push_lit(&mut out, name);
    push_lit(&mut out, ".kt");
    string_of(out.as_slice())
}

/// The route of the screen `name`: `Ubi_` and `Ubi` read as `/`, `_` as
/// `/`.
pub open spec fn screen_route(name: Seq<char>) -> Seq<char> {
    replace(replace(replace(name, "Ubi_"@, "/"@), "Ubi"@, "/"@), "_"@, "/"@)
}

/// The navigation item and destination of the screen `name`.
pub fn android_nav_entries(name: &str) -> (r: (String, String))
    ensures
        r.0@ == nav_item(name@, screen_route(name@)),
        r.1@ == nav_destination(name@),
{
    proof {
        reveal_strlit("Ubi_");
        reveal_strlit("Ubi");
        reveal_strlit("_");
    }
    let n = chars_of(name);
    let a = replace_lit(n.as_slice(), "Ubi_", "/");
    let b = replace_lit(a.as_slice(), "Ubi", "/");
    let route = replace_lit(b.as_slice(), "_", "/");
    let item = nav_item_exec(n.as_slice(), route.as_slice());
    let dest = nav_destination_exec(n.as_slice());
    (string_of(item.as_slice()), string_of(dest.as_slice()))
}

} // verus!

verus! {

/// The opening of the navigation items enum of the app.
pub const NAV_ITEMS_HEAD: &'static str = " enum class NavigationItem(\n    val route: String,\n    val icon: ImageVector,\n    val label: String\n) {\n\n    ";

/// The opening of the navigation host of the app.
pub const NAV_HOST_HEAD: &'static str = "\n\n@Composable\n                fun AppNavHost(\n                    navController: NavHostController,\n                    modifier: Modifier = Modifier\n            ) {\n                    NavHost(\n                        navController = navController,\n                        startDestination = NavigationItem.Ubi.route,\n                        modifier = modifier\n                        ) {\n\n\n                ";

/// The navigation source of the app: the items enum holding `items`, then
/// the navigation host holding `destinations`.
pub open spec fn navigation_text(items: Seq<char>, destinations: Seq<char>) -> Seq<char> {
    NAV_ITEMS_HEAD@ + items + "}"@ + NAV_HOST_HEAD@ + destinations + "}}"@
}

/// The navigation source of the app, from the items and destinations of
/// its screens.
pub fn navigation_source(items: &str, destinations: &str) -> (r: String)
    ensures
        r@ == navigation_text(items@, destinations@),
{
    let mut out = chars_of(NAV_ITEMS_HEAD);
    push_lit(&mut out, items);
    push_lit(&mut out, "}");
    push_lit(&mut out, NAV_HOST_HEAD);
    push_lit(&mut out, destinations);
    push_lit(&mut out, "}}");
    string_of(out.as_slice())
}

} // verus!
