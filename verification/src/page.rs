//! Compiling a `ui.ubi` page to HTML: anchors, scripts, styles, signals,
//! `<if>` and `<for>` blocks, imports, layouts.

use vstd::prelude::*;
use crate::pattern::{
    Groups, Span, caps_view, capture_spans, group_chars, group_text, group_texts, matches_of,
    regex_compiles, regex_replace_first_expanded, replace_first_expanded, splice, spliced,
    well_formed_captures,
};
use crate::text::{
    chars_of, contains, contains_exec, join, push_all, push_lit, replace, replace_exec, slice_vec,
    starts_with, starts_with_exec, string_of, string_views, views,
};

verus! {

/// `std::io::Error`, carried through unchanged.
#[verifier::external_type_specification]
#[verifier::external_body]
pub struct ExIoError(std::io::Error);

/// Opening tags of anchors, the link target in group 1.
pub const ANCHOR_PATTERN: &'static str = r#"<a\s+[^>]*href\s*=\s*\"([^\"]*)\"[^>]*>"#;

/// What an anchor tag with target `href` becomes: spaces are removed from
/// the target; a site-local target (one that starts with `/`) gets the
/// client-side navigation handler, any other anchor tag is dropped.
pub open spec fn anchor_replacement(href: Seq<char>) -> Seq<char> {
    let h = replace(href, " "@, ""@);
    if starts_with(h, "/"@) {
        "<a href=\""@ + h + "\" onClick=\"handleNavigation(event)\">"@
    } else {
        Seq::empty()
    }
}

/// The page with every matched anchor tag replaced as `anchor_replacement`
/// says.
pub open spec fn anchors_rewritten(content: Seq<char>, caps: Seq<Seq<Option<Span>>>) -> Seq<char> {
    spliced(content, caps, Seq::new(caps.len(), |k: int| anchor_replacement(group_text(content, caps[k], 1))))
}

/// Executable `anchor_replacement`.
fn anchor_replacement_exec(href: &[char]) -> (r: Vec<char>)
    ensures
        r@ == anchor_replacement(href@),
{
    let space = chars_of(" ");
    let empty = chars_of("");
    proof {
        reveal_strlit(" ");
    }
    let h = replace_exec(href, space.as_slice(), empty.as_slice());
    let slash = chars_of("/");
    if starts_with_exec(h.as_slice(), slash.as_slice()) {
        let mut out = chars_of("<a href=\"");
        push_all(&mut out, h.as_slice());
        let tail = chars_of("\" onClick=\"handleNavigation(event)\">");
        push_all(&mut out, tail.as_slice());
        out
    } else {
        Vec::new()
    }
}

/// Rewrites the anchors of `content` found at the matches `caps` of
/// `ANCHOR_PATTERN`.
pub fn rewrite_anchors(content: &[char], caps: &Vec<Groups>) -> (r: Vec<char>)
    requires
        well_formed_captures(caps_view(caps@), content@.len() as int),
    ensures
        r@ == anchors_rewritten(content@, caps_view(caps@)),
{
    let ghost cv = caps_view(caps@);
    let mut reps: Vec<Vec<char>> = Vec::new();
    let mut k: usize = 0;
    while k < caps.len()
        invariant
            cv == caps_view(caps@),
            well_formed_captures(cv, content@.len() as int),
            k <= caps@.len(),
            reps@.len() == k,
            forall|j: int| 0 <= j < k ==> #[trigger] reps@[j]@ == anchor_replacement(group_text(content@, cv[j], 1)),
        decreases caps@.len() - k,
    {
        assert(cv[k as int] == caps@[k as int]@);
        let href = group_chars(content, &caps[k], 1);
        let rep = anchor_replacement_exec(href.as_slice());
        reps.push(rep);
        k = k + 1;
    }
    assert(views(reps@) =~= Seq::new(cv.len(), |j: int| anchor_replacement(group_text(content@, cv[j], 1))));
    splice(content, caps, &reps)
}

/// Gives every site-local anchor of the page the client-side navigation
/// handler and drops every other anchor tag.
pub fn handle_anchors(content: &mut String) -> (r: Result<(), std::io::Error>)
    ensures
        r is Ok,
        final(content)@ == anchors_rewritten(old(content)@, matches_of(ANCHOR_PATTERN@, old(content)@)),
{
    let caps = capture_spans(ANCHOR_PATTERN, content.as_str());
    let cs = chars_of(content.as_str());
    let out = rewrite_anchors(cs.as_slice(), &caps);
    *content = string_of(out.as_slice());
    Ok(())
}

} // verus!

verus! {

/// The marker in the site's index page that the compiled page replaces.
pub const MAIN_MARKER: &'static str = "<ubi:main>";

/// The site's index page around a compiled page: the marker replaced by
/// the page, then the anchors rewritten.
pub open spec fn main_page(index_html: Seq<char>, new_code: Seq<char>) -> Seq<char> {
    let page = replace(index_html, MAIN_MARKER@, new_code);
    anchors_rewritten(page, matches_of(ANCHOR_PATTERN@, page))
}

/// Puts the compiled page `new_code` into the site's index page
/// `index_html`.
pub fn import_main(index_html: &str, new_code: &str) -> (r: Result<String, std::io::Error>)
    ensures
        r is Ok,
        r matches Ok(s) && s@ == main_page(index_html@, new_code@),
{
    let index = chars_of(index_html);
    let marker = chars_of(MAIN_MARKER);
    let code = chars_of(new_code);
    proof {
        reveal_strlit("<ubi:main>");
    }
    let replaced = replace_exec(index.as_slice(), marker.as_slice(), code.as_slice());
    let mut content = string_of(replaced.as_slice());
    let _ = handle_anchors(&mut content);
    Ok(content)
}

} // verus!

verus! {

/// Script elements, their body in group 1.
pub const SCRIPT_PATTERN: &'static str = r#"(?s)<script\b[^>]*>(.*?)</script>"#;

/// Style elements.
pub const STYLE_PATTERN: &'static str = r"(?s)<style.*?>.*?</style>";

/// Empty replacements, one per match.
pub open spec fn no_text(n: nat) -> Seq<Seq<char>> {
    Seq::new(n, |k: int| Seq::<char>::empty())
}

/// The concatenation of `parts`.
pub open spec fn concat(parts: Seq<Seq<char>>) -> Seq<char> {
    join(parts, Seq::empty())
}

/// `hay` without the matches `caps`.
fn remove_matches(hay: &[char], caps: &Vec<Groups>) -> (r: Vec<char>)
    requires
        well_formed_captures(caps_view(caps@), hay@.len() as int),
    ensures
        r@ == spliced(hay@, caps_view(caps@), no_text(caps@.len())),
{
    let mut reps: Vec<Vec<char>> = Vec::new();
    let mut k: usize = 0;
    while k < caps.len()
        invariant
            k <= caps@.len(),
            reps@.len() == k,
            forall|j: int| 0 <= j < k ==> #[trigger] reps@[j]@ == Seq::<char>::empty(),
        decreases caps@.len() - k,
    {
        reps.push(Vec::new());
        k = k + 1;
    }
    assert(views(reps@) =~= no_text(caps@.len()));
    splice(hay, caps, &reps)
}

/// The concatenated texts of group `g` of the matches `caps`.
fn concat_groups(hay: &[char], caps: &Vec<Groups>, g: usize) -> (r: Vec<char>)
    requires
        well_formed_captures(caps_view(caps@), hay@.len() as int),
    ensures
        r@ == concat(group_texts(hay@, caps_view(caps@), g as int)),
{
    let ghost cv = caps_view(caps@);
    let mut parts: Vec<Vec<char>> = Vec::new();
    let mut k: usize = 0;
    while k < caps.len()
        invariant
            cv == caps_view(caps@),
            well_formed_captures(cv, hay@.len() as int),
            k <= caps@.len(),
            parts@.len() == k,
            forall|j: int| 0 <= j < k ==> #[trigger] parts@[j]@ == group_text(hay@, cv[j], g as int),
        decreases caps@.len() - k,
    {
        assert(cv[k as int] == caps@[k as int]@);
        assert forall|i: int| 0 <= i < caps@[k as int]@.len() && #[trigger] caps@[k as int]@[i] is Some
            implies caps@[k as int]@[i].unwrap().start <= caps@[k as int]@[i].unwrap().end <= hay@.len() by {
            assert(cv[k as int][i] is Some);
        }
        parts.push(group_chars(hay, &caps[k], g));
        k = k + 1;
    }
    assert(views(parts@) =~= group_texts(hay@, cv, g as int));
    let empty: Vec<char> = Vec::new();
    crate::text::join_exec(&parts, empty.as_slice())
}

/// The page without its script elements, and the concatenated bodies of
/// those elements, given the matches `caps` of `SCRIPT_PATTERN`.
pub open spec fn html_js_parts(input: Seq<char>, caps: Seq<Seq<Option<Span>>>) -> (Seq<char>, Seq<char>) {
    (spliced(input, caps, no_text(caps.len())), concat(group_texts(input, caps, 1)))
}

/// Splits a page into its markup and its script, given the matches `caps`
/// of `SCRIPT_PATTERN` in it.
pub fn split_html_js_with(input: &[char], caps: &Vec<Groups>) -> (r: (String, String))
    requires
        well_formed_captures(caps_view(caps@), input@.len() as int),
    ensures
        (r.0@, r.1@) == html_js_parts(input@, caps_view(caps@)),
{
    let html = remove_matches(input, caps);
    let js = concat_groups(input, caps, 1);
    (string_of(html.as_slice()), string_of(js.as_slice()))
}

/// Splits a page into its markup and its script.
pub fn split_html_js(input: &str) -> (r: (String, String))
    ensures
        (r.0@, r.1@) == html_js_parts(input@, matches_of(SCRIPT_PATTERN@, input@)),
{
    let caps = capture_spans(SCRIPT_PATTERN, input);
    let cs = chars_of(input);
    split_html_js_with(cs.as_slice(), &caps)
}

/// The concatenated style elements of a page and the page without them,
/// given the matches `caps` of `STYLE_PATTERN`.
pub open spec fn style_parts(html: Seq<char>, caps: Seq<Seq<Option<Span>>>) -> (Seq<char>, Seq<char>) {
    (concat(group_texts(html, caps, 0)), spliced(html, caps, no_text(caps.len())))
}

/// Splits the style elements off a page, given the matches `caps` of
/// `STYLE_PATTERN` in it.
pub fn extract_styles_with(html: &[char], caps: &Vec<Groups>) -> (r: (String, String))
    requires
        well_formed_captures(caps_view(caps@), html@.len() as int),
    ensures
        (r.0@, r.1@) == style_parts(html@, caps_view(caps@)),
{
    let styles = concat_groups(html, caps, 0);
    let clean = remove_matches(html, caps);
    (string_of(styles.as_slice()), string_of(clean.as_slice()))
}

/// Splits the style elements off a page.
pub fn extract_styles(html: &str) -> (r: (String, String))
    ensures
        (r.0@, r.1@) == style_parts(html@, matches_of(STYLE_PATTERN@, html@)),
{
    let caps = capture_spans(STYLE_PATTERN, html);
    let cs = chars_of(html);
    extract_styles_with(cs.as_slice(), &caps)
}

/// Script that shows the value of `var` in the elements of class `var`:
/// kept up to date when the page's script declares `var` as a signal,
/// set once otherwise.
pub open spec fn signal_binding(var: Seq<char>, js: Seq<char>) -> Seq<char> {
    if contains(js, var + " = new Signal"@) {
        "effect(() => document.querySelectorAll('."@ + var + "').forEach(el => el.textContent = "@ + var + ".get()));"@
    } else {
        "document.querySelectorAll('."@ + var + "').forEach(el => el.textContent = "@ + var + ");"@
    }
}

/// The bindings of `vars`, each added unless the text so far already holds
/// it.
pub open spec fn signal_bindings(vars: Seq<Seq<char>>, js: Seq<char>) -> Seq<char>
    decreases vars.len(),
{
    if vars.len() == 0 {
        Seq::empty()
    } else {
        let acc = signal_bindings(vars.drop_last(), js);
        let t = signal_binding(vars.last(), js);
        if contains(acc, t) {
            acc
        } else {
            acc + t
        }
    }
}

/// Executable `signal_binding`.
fn signal_binding_exec(var: &[char], js: &[char]) -> (r: Vec<char>)
    ensures
        r@ == signal_binding(var@, js@),
{
    let mut needle = slice_vec(var);
    push_lit(&mut needle, " = new Signal");
    if contains_exec(js, needle.as_slice()) {
        let mut out = chars_of("effect(() => document.querySelectorAll('.");
        push_all(&mut out, var);
        push_lit(&mut out, "').forEach(el => el.textContent = ");
        push_all(&mut out, var);
        push_lit(&mut out, ".get()));");
        out
    } else {
        let mut out = chars_of("document.querySelectorAll('.");
        push_all(&mut out, var);
        push_lit(&mut out, "').forEach(el => el.textContent = ");
        push_all(&mut out, var);
        push_lit(&mut out, ");");
        out
    }
}

/// The script that shows the values of the page's variables `vars`, given
/// the page's script `js`.
pub fn bind_signals(vars: &Vec<String>, js: &str) -> (r: String)
    ensures
        r@ == signal_bindings(string_views(vars@), js@),
{
    let jc = chars_of(js);
    let ghost vv = string_views(vars@);
    let mut out: Vec<char> = Vec::new();
    let mut k: usize = 0;
    while k < vars.len()
        invariant
            vv == string_views(vars@),
            jc@ == js@,
            k <= vars@.len(),
            out@ == signal_bindings(vv.take(k as int), js@),
        decreases vars@.len() - k,
    {
        let v = chars_of(vars[k].as_str());
        let t = signal_binding_exec(v.as_slice(), jc.as_slice());
        assert(vv.take(k + 1).drop_last() =~= vv.take(k as int));
        assert(vv.take(k + 1).last() == vars@[k as int]@);
        if !contains_exec(out.as_slice(), t.as_slice()) {
            push_all(&mut out, t.as_slice());
        }
        k = k + 1;
    }
    assert(vv.take(vars@.len() as int) =~= vv);
    string_of(out.as_slice())
}

/// A compiled page: its styles, then its markup, then one script element
/// with the page's script, the variable bindings, and the scripts of its
/// `<if>` and `<for>` blocks.
pub open spec fn page_source(
    style: Seq<char>,
    html: Seq<char>,
    js: Seq<char>,
    js_new: Seq<char>,
    js_if: Seq<char>,
    js_for: Seq<char>,
) -> Seq<char> {
    style + (html + "<script>"@ + js + js_new + js_if + js_for + "</script>"@)
}

/// Assembles a compiled page from its parts.
pub fn assemble_page(style: &str, html: &str, js: &str, js_new: &str, js_if: &str, js_for: &str) -> (r: String)
    ensures
        r@ == page_source(style@, html@, js@, js_new@, js_if@, js_for@),
{
    let mut tail = chars_of(html);
    push_lit(&mut tail, "<script>");
    push_lit(&mut tail, js);
    push_lit(&mut tail, js_new);
    push_lit(&mut tail, js_if);
    push_lit(&mut tail, js_for);
    push_lit(&mut tail, "</script>");
    let mut out = chars_of(style);
    push_all(&mut out, tail.as_slice());
    string_of(out.as_slice())
}

} // verus!

verus! {

/// Imports of other pages (`<ubi+ "path">`), the path in group 1.
pub const IMPORT_PATTERN: &'static str = r#"<ubi\+\s*"(.*?)">"#;

/// The paths that the page `content` imports, in order.
pub fn import_requests(content: &str) -> (r: Vec<String>)
    ensures
        string_views(r@) == group_texts(content@, matches_of(IMPORT_PATTERN@, content@), 1),
{
    let caps = capture_spans(IMPORT_PATTERN, content);
    let cs = chars_of(content);
    let paths = crate::blocks::group1_texts(cs.as_slice(), &caps);
    crate::text::strings_of_all(&paths)
}

/// The pairs of texts held by a vector of string pairs.
pub open spec fn pair_views(v: Seq<(String, String)>) -> Seq<(Seq<char>, Seq<char>)> {
    v.map_values(|p: (String, String)| (p.0@, p.1@))
}

/// The import tag for `path`, as the page is expected to write it.
pub open spec fn import_tag(path: Seq<char>) -> Seq<char> {
    "<ubi+ \""@ + path + "\">"@
}

/// `content` with the import tag of each `(path, text)` of `imports`
/// replaced by `text`, one import after the other.
pub open spec fn imports_applied(content: Seq<char>, imports: Seq<(Seq<char>, Seq<char>)>) -> Seq<char>
    decreases imports.len(),
{
    if imports.len() == 0 {
        content
    } else {
        replace(imports_applied(content, imports.drop_last()), import_tag(imports.last().0), imports.last().1)
    }
}

/// The page `content` with its imports replaced by the imported texts
/// `imports` (path and text), then its anchors rewritten.
pub fn apply_imports(content: &str, imports: &Vec<(String, String)>) -> (r: Result<String, std::io::Error>)
    ensures
        r is Ok,
        r matches Ok(s) && s@ == ({
            let applied = imports_applied(content@, pair_views(imports@));
            anchors_rewritten(applied, matches_of(ANCHOR_PATTERN@, applied))
        }),
{
    let ghost iv = pair_views(imports@);
    let mut cur = chars_of(content);
    let mut k: usize = 0;
    while k < imports.len()
        invariant
            iv == pair_views(imports@),
            k <= imports@.len(),
            cur@ == imports_applied(content@, iv.take(k as int)),
        decreases imports@.len() - k,
    {
        let (path, text) = &imports[k];
        let mut tag = chars_of("<ubi+ \"");
        push_lit(&mut tag, path.as_str());
        push_lit(&mut tag, "\">");
        proof {
            reveal_strlit("<ubi+ \"");
        }
        let tc = chars_of(text.as_str());
        cur = replace_exec(cur.as_slice(), tag.as_slice(), tc.as_slice());
        assert(iv.take(k + 1).drop_last() =~= iv.take(k as int));
        assert(iv.take(k + 1).last() == (path@, text@));
        k = k + 1;
    }
    assert(iv.take(imports@.len() as int) =~= iv);
    let mut s = string_of(cur.as_slice());
    let _ = handle_anchors(&mut s);
    Ok(s)
}

/// `Path::parent`.
pub uninterp spec fn path_parent(p: Seq<char>) -> Option<Seq<char>>;

/// `Path::parent` (converted to and from text). The contract claims that
/// the result is `path_parent` of the path, and that a parent is shorter
/// than the path, as it lacks the path's final component.
#[verifier::external_body]
pub(crate) fn parent_of(p: &str) -> (r: Option<String>)
    ensures
        match r {
            Some(q) => path_parent(p@) == Some(q@) && q@.len() < p@.len(),
            None => path_parent(p@) is None,
        },
{
    std::path::Path::new(p).parent().and_then(|q| q.to_str()).map(|q| q.to_string())
}

/// `PathBuf::join` with a relative path `q`: a `/` between them unless
/// `p` is empty or already ends with one.
pub open spec fn path_join(p: Seq<char>, q: Seq<char>) -> Seq<char> {
    if p.len() == 0 {
        q
    } else if p.last() == '/' {
        p + q
    } else {
        p + "/"@ + q
    }
}

/// Slot elements of a layout.
pub const SLOT_PATTERN: &'static str = r"<slot\s*/>";

/// Root of the routes of the build tree.
pub const ROUTES_PREFIX: &'static str = "./.project_build/routes/";

/// The text stored under `key` (the first such entry).
pub open spec fn lookup(files: Seq<(Seq<char>, Seq<char>)>, key: Seq<char>) -> Option<Seq<char>>
    decreases files.len(),
{
    if files.len() == 0 {
        None
    } else if files[0].0 == key {
        Some(files[0].1)
    } else {
        lookup(files.drop_first(), key)
    }
}

/// A layout with its first slot replaced by `content` (`$` references in
/// `content` expanded as `Regex::replace` does).
pub open spec fn slot_filled(layout: Seq<char>, content: Seq<char>) -> Seq<char> {
    if regex_compiles(SLOT_PATTERN@) {
        regex_replace_first_expanded(SLOT_PATTERN@, layout, content)
    } else {
        layout
    }
}

/// `content` wrapped, from `cur` upwards, in the layout (`layout.ubi`) of
/// every enclosing directory that has one, looked up in `files` by the
/// joined path.
pub open spec fn slot_walk(files: Seq<(Seq<char>, Seq<char>)>, cur: Seq<char>, content: Seq<char>) -> Seq<char>
    decreases cur.len(),
{
    match path_parent(cur) {
        Some(parent) => if parent.len() < cur.len() {
            let next = match lookup(files, path_join(parent, "layout.ubi"@)) {
                Some(layout) => slot_filled(layout, content),
                None => content,
            };
            slot_walk(files, parent, next)
        } else {
            content
        },
        None => content,
    }
}

/// The page of the route directory `target_path` (which ends in `/`):
/// its `ui.ubi`, looked up in `files` by the path relative to the routes
/// root (empty when missing), wrapped in the enclosing layouts.
pub open spec fn rendered_slot(target_path: Seq<char>, files: Seq<(Seq<char>, Seq<char>)>) -> Seq<char> {
    let ui_path = target_path.skip(ROUTES_PREFIX@.len() as int) + "ui.ubi"@;
    let content = match lookup(files, ui_path) {
        Some(c) => c,
        None => Seq::empty(),
    };
    slot_walk(files, target_path, content)
}

/// The text stored under `key` in `files`.
fn lookup_exec(files: &Vec<(String, String)>, key: &str) -> (r: Option<String>)
    ensures
        match r {
            Some(t) => lookup(pair_views(files@), key@) == Some(t@),
            None => lookup(pair_views(files@), key@) is None,
        },
{
    let ghost fv = pair_views(files@);
    let k0 = chars_of(key);
    let mut k: usize = 0;
    assert(fv.skip(0) =~= fv);
    while k < files.len()
        invariant
            fv == pair_views(files@),
            k0@ == key@,
            k <= files@.len(),
            lookup(fv, key@) == lookup(fv.skip(k as int), key@),
        decreases files@.len() - k,
    {
        let (name, text) = &files[k];
        let nc = chars_of(name.as_str());
        assert(fv.skip(k as int)[0] == (name@, text@));
        if nc.len() == k0.len() && crate::text::matches_at_exec(nc.as_slice(), k0.as_slice(), 0) {
            assert(nc@.subrange(0, k0@.len() as int) =~= nc@);
            return Some(text.clone());
        }
        assert(name@ != key@) by {
            if name@ == key@ {
                assert(nc@.subrange(0, k0@.len() as int) =~= nc@);
            }
        }
        assert(fv.skip(k as int).drop_first() =~= fv.skip(k + 1));
        k = k + 1;
    }
    None
}

/// Renders the page of the route directory `target_path` inside its
/// layouts; `files` are the `.ubi` files of the routes tree, by path
/// relative to the routes root.
pub fn render_slot(target_path: &str, files: &Vec<(String, String)>) -> (r: String)
    requires
        starts_with(target_path@, ROUTES_PREFIX@),
    ensures
        r@ == rendered_slot(target_path@, pair_views(files@)),
{
    let tp = chars_of(target_path);
    let prefix = chars_of(ROUTES_PREFIX);
    let mut ui = slice_vec(&tp[prefix.len()..tp.len()]);
    push_lit(&mut ui, "ui.ubi");
    assert(tp@.subrange(prefix@.len() as int, tp@.len() as int) =~= target_path@.skip(ROUTES_PREFIX@.len() as int));
    let ui_path = string_of(ui.as_slice());
    let mut content = match lookup_exec(files, ui_path.as_str()) {
        Some(c) => c,
        None => String::new(),
    };
    let ghost fv = pair_views(files@);
    let mut cur = string_of(tp.as_slice());
    loop
        invariant
            fv == pair_views(files@),
            slot_walk(fv, cur@, content@) == rendered_slot(target_path@, fv),
        ensures
            content@ == rendered_slot(target_path@, fv),
        decreases cur@.len(),
    {
        match parent_of(cur.as_str()) {
            Some(parent) => {
                let pc = chars_of(parent.as_str());
                let mut layout_path = slice_vec(pc.as_slice());
                if pc.len() == 0 {
                    layout_path = chars_of("layout.ubi");
                } else if pc[pc.len() - 1] == '/' {
                    push_lit(&mut layout_path, "layout.ubi");
                } else {
                    push_lit(&mut layout_path, "/");
                    push_lit(&mut layout_path, "layout.ubi");
                }
                assert(layout_path@ == path_join(parent@, "layout.ubi"@)) by {
                    if pc@.len() > 0 && pc@.last() != '/' {
                        assert(layout_path@ =~= parent@ + "/"@ + "layout.ubi"@);
                    }
                }
                let layout_name = string_of(layout_path.as_slice());
                match lookup_exec(files, layout_name.as_str()) {
                    Some(layout) => {
                        content = replace_first_expanded(SLOT_PATTERN, layout.as_str(), content.as_str());
                    },
                    None => {},
                }
                cur = parent;
            },
            None => {
                assert(slot_walk(fv, cur@, content@) == content@);
                break;
            },
        }
    }
    content
}

} // verus!
