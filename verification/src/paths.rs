//! Names of the files of a Ubi project: which sources are compiled, where
//! their output goes, and which middleware modules enclose a route.

use vstd::prelude::*;
use crate::text::{
    chars_of, join, join_exec, matches_at_exec, slice_vec, split, split_exec, starts_with,
    starts_with_exec, ends_with, ends_with_exec, string_of, views, push_all, push_lit, contains, string_views, eq_chars,
};

verus! {

/// The last piece of `pieces` that is a normal path component (neither
/// empty nor `.`).
pub open spec fn last_component(pieces: Seq<Seq<char>>) -> Option<Seq<char>>
    decreases pieces.len(),
{
    if pieces.len() == 0 {
        None
    } else if pieces.last().len() == 0 || pieces.last() == "."@ {
        last_component(pieces.drop_last())
    } else {
        Some(pieces.last())
    }
}

/// `Path::file_name` on Unix: the final component of the path, unless the
/// path has none or ends in `..`.
pub open spec fn file_name(p: Seq<char>) -> Option<Seq<char>> {
    match last_component(split(p, "/"@)) {
        Some(c) => if c == ".."@ { None } else { Some(c) },
        None => None,
    }
}

/// Position of the last `c` in `s`.
pub open spec fn last_index_of(s: Seq<char>, c: char) -> Option<int>
    decreases s.len(),
{
    if s.len() == 0 {
        None
    } else if s.last() == c {
        Some(s.len() - 1)
    } else {
        last_index_of(s.drop_last(), c)
    }
}

/// `Path::file_stem` of a file name: the name before its final `.`, or the
/// whole name when it has no `.` or only a leading one.
pub open spec fn stem_of(name: Seq<char>) -> Seq<char> {
    match last_index_of(name, '.') {
        Some(i) => if i == 0 { name } else { name.take(i) },
        None => name,
    }
}

/// `Path::extension` of a file name: the text after its final `.`, if it
/// has a `.` other than a leading one.
pub open spec fn extension_of(name: Seq<char>) -> Option<Seq<char>> {
    match last_index_of(name, '.') {
        Some(i) => if i == 0 { None } else { Some(name.skip(i + 1)) },
        None => None,
    }
}

/// `Path::file_stem`.
pub open spec fn file_stem(p: Seq<char>) -> Option<Seq<char>> {
    match file_name(p) {
        Some(n) => Some(stem_of(n)),
        None => None,
    }
}

/// `Path::extension`.
pub open spec fn extension(p: Seq<char>) -> Option<Seq<char>> {
    match file_name(p) {
        Some(n) => extension_of(n),
        None => None,
    }
}

/// Executable `last_component`.
fn last_component_exec(pieces: &Vec<Vec<char>>) -> (r: Option<Vec<char>>)
    ensures
        match r {
            Some(c) => last_component(views(pieces@)) == Some(c@),
            None => last_component(views(pieces@)) is None,
        },
{
    let dot = chars_of(".");
    proof {
        reveal_strlit(".");
    }
    let mut n = pieces.len();
    assert(views(pieces@).take(n as int) =~= views(pieces@));
    while n > 0
        invariant
            n <= pieces@.len(),
            last_component(views(pieces@)) == last_component(views(pieces@).take(n as int)),
        decreases n,
    {
        let ghost pv = views(pieces@).take(n as int);
        let piece = &pieces[n - 1];
        assert(pv.last() == piece@);
        proof {
            reveal_strlit(".");
        }
        if piece.len() == 0 || (piece.len() == 1 && piece[0] == '.') {
            assert(piece@.len() == 0 || piece@ =~= "."@);
            assert(pv.drop_last() =~= views(pieces@).take(n - 1));
            n = n - 1;
        } else {
            assert(piece@ != "."@) by {
                if piece@ == "."@ {
                    assert(piece@.len() == 1 && piece@[0] == '.');
                }
            }
            return Some(slice_vec(piece.as_slice()));
        }
    }
    None
}

/// `Path::file_name` on Unix.
pub fn file_name_exec(p: &[char]) -> (r: Option<Vec<char>>)
    ensures
        match r {
            Some(c) => file_name(p@) == Some(c@),
            None => file_name(p@) is None,
        },
{
    let slash = chars_of("/");
    proof {
        reveal_strlit("/");
        reveal_strlit("..");
    }
    let pieces = split_exec(p, slash.as_slice());
    match last_component_exec(&pieces) {
        Some(c) => {
            if c.len() == 2 && c[0] == '.' && c[1] == '.' {
                assert(c@ =~= ".."@);
                None
            } else {
                assert(c@ != ".."@) by {
                    if c@ == ".."@ {
                        assert(c@.len() == 2 && c@[0] == '.' && c@[1] == '.');
                    }
                }
                Some(c)
            }
        },
        None => None,
    }
}

/// Executable `last_index_of`.
pub fn last_index_of_exec(s: &[char], c: char) -> (r: Option<usize>)
    ensures
        match r {
            Some(i) => last_index_of(s@, c) == Some(i as int) && i < s@.len() && s@[i as int] == c,
            None => last_index_of(s@, c) is None,
        },
{
    let mut n = s.len();
    assert(s@.take(n as int) =~= s@);
    while n > 0
        invariant
            n <= s@.len(),
            n == s@.len() ==> s@.take(n as int) == s@,
            last_index_of(s@, c) == last_index_of(s@.take(n as int), c),
        decreases n,
    {
        if s[n - 1] == c {
            return Some(n - 1);
        }
        assert(s@.take(n as int).drop_last() =~= s@.take(n - 1));
        n = n - 1;
    }
    None
}

/// Executable `stem_of` and `extension_of`.
pub fn split_name_exec(name: &[char]) -> (r: (Vec<char>, Option<Vec<char>>))
    ensures
        r.0@ == stem_of(name@),
        match r.1 {
            Some(e) => extension_of(name@) == Some(e@),
            None => extension_of(name@) is None,
        },
{
    let len = name.len();
    match last_index_of_exec(name, '.') {
        Some(i) => {
            assert(i < len);
            if i == 0 {
                (slice_vec(name), None)
            } else {
                let stem = slice_vec(&name[0..i]);
                let ext = slice_vec(&name[i + 1..name.len()]);
                assert(name@.subrange(0, i as int) =~= name@.take(i as int));
                assert(name@.subrange(i + 1, name@.len() as int) =~= name@.skip(i + 1));
                (stem, Some(ext))
            }
        },
        None => (slice_vec(name), None),
    }
}

/// Whether `s` is one of `options`.
pub open spec fn one_of(s: Seq<char>, options: Seq<Seq<char>>) -> bool {
    exists|i: int| 0 <= i < options.len() && options[i] == s
}

/// Stems of the files that hold server code.
pub open spec fn server_stems() -> Seq<Seq<char>> {
    seq!["server"@, "ws"@, "middleware"@]
}

/// Extensions of the files that hold server code.
pub open spec fn server_extensions() -> Seq<Seq<char>> {
    seq!["py"@, "js"@, "ts"@, "ubi"@]
}

/// Whether `s` equals the literal `lit`.
fn eq_lit(s: &[char], lit: &str) -> (b: bool)
    ensures
        b == (s@ == lit@),
{
    let l = chars_of(lit);
    if s.len() != l.len() {
        return false;
    }
    let r = matches_at_exec(s, l.as_slice(), 0);
    assert(r ==> s@.subrange(0, l@.len() as int) =~= s@);
    assert(s@ == l@ ==> s@.subrange(0, l@.len() as int) =~= s@);
    r
}

/// Whether the file at `path_str` holds server code: its stem is `server`,
/// `ws` or `middleware` and its extension `py`, `js`, `ts` or `ubi`.
pub fn cek_file(path_str: &str) -> (b: bool)
    ensures
        b == (match (file_stem(path_str@), extension(path_str@)) {
            (Some(stem), Some(ext)) => one_of(stem, server_stems()) && one_of(ext, server_extensions()),
            _ => false,
        }),
{
    let p = chars_of(path_str);
    match file_name_exec(p.as_slice()) {
        Some(name) => {
            let (stem, ext) = split_name_exec(name.as_slice());
            let stem_ok = eq_lit(stem.as_slice(), "server") || eq_lit(stem.as_slice(), "ws")
                || eq_lit(stem.as_slice(), "middleware");
            assert(stem_ok == one_of(stem@, server_stems())) by {
                if one_of(stem@, server_stems()) {
                    let i = choose|i: int| 0 <= i < 3 && server_stems()[i] == stem@;
                    assert(i == 0 || i == 1 || i == 2);
                }
                if stem_ok {
                    if stem@ == "server"@ { assert(server_stems()[0] == stem@); }
                    if stem@ == "ws"@ { assert(server_stems()[1] == stem@); }
                    if stem@ == "middleware"@ { assert(server_stems()[2] == stem@); }
                }
            }
            match ext {
                Some(e) => {
                    let ext_ok = eq_lit(e.as_slice(), "py") || eq_lit(e.as_slice(), "js")
                        || eq_lit(e.as_slice(), "ts") || eq_lit(e.as_slice(), "ubi");
                    assert(ext_ok == one_of(e@, server_extensions())) by {
                        if one_of(e@, server_extensions()) {
                            let i = choose|i: int| 0 <= i < 4 && server_extensions()[i] == e@;
                            assert(i == 0 || i == 1 || i == 2 || i == 3);
                        }
                        if ext_ok {
                            if e@ == "py"@ { assert(server_extensions()[0] == e@); }
                            if e@ == "js"@ { assert(server_extensions()[1] == e@); }
                            if e@ == "ts"@ { assert(server_extensions()[2] == e@); }
                            if e@ == "ubi"@ { assert(server_extensions()[3] == e@); }
                        }
                    }
                    stem_ok && ext_ok
                },
                None => false,
            }
        },
        None => false,
    }
}

} // verus!

verus! {

/// Directory of the generated middleware modules.
pub const MIDDLEWARE_DIR: &'static str = "./.project_build/src/middleware/";

/// The middleware modules that enclose the module at `module_file`: the
/// module name is cut at every `_`, and each proper prefix of the pieces
/// names an enclosing module (`a_b_c` is enclosed by `a` and `a_b`).
pub open spec fn parent_modules(module_file: Seq<char>) -> Seq<Seq<char>> {
    let name = crate::text::trim_start_matches(module_file, MIDDLEWARE_DIR@);
    let parts = split(crate::text::trim_end_matches(name, ".rs"@), "_"@);
    Seq::new(
        (if parts.len() >= 1 { parts.len() - 1 } else { 0 }) as nat,
        |i: int| MIDDLEWARE_DIR@ + join(parts.take(i + 1), "_"@) + ".rs"@,
    )
}

/// Paths of the middleware modules that enclose the module at
/// `module_file`, outermost first.
pub fn find_parent_modules(module_file: &str) -> (r: Vec<String>)
    ensures
        crate::text::string_views(r@) == parent_modules(module_file@),
{
    let dir = chars_of(MIDDLEWARE_DIR);
    let rs = chars_of(".rs");
    let underscore = chars_of("_");
    proof {
        reveal_strlit("_");
    }
    let p = chars_of(module_file);
    let name = crate::text::trim_start_matches_exec(p.as_slice(), dir.as_slice());
    let stripped = crate::text::trim_end_matches_exec(name.as_slice(), rs.as_slice());
    let parts = split_exec(stripped.as_slice(), underscore.as_slice());
    let ghost pv = views(parts@);
    let ghost spec_r = parent_modules(module_file@);
    let mut out: Vec<String> = Vec::new();
    let mut i: usize = 1;
    while i < parts.len()
        invariant
            pv == views(parts@),
            pv == split(crate::text::trim_end_matches(crate::text::trim_start_matches(module_file@, MIDDLEWARE_DIR@), ".rs"@), "_"@),
            spec_r == parent_modules(module_file@),
            dir@ == MIDDLEWARE_DIR@,
            rs@ == ".rs"@,
            underscore@ == "_"@,
            1 <= i,
            i <= parts@.len() || parts@.len() == 0,
            out@.len() == i - 1,
            forall|j: int| 0 <= j < i - 1 ==> #[trigger] out@[j]@ == spec_r[j],
        decreases parts@.len() - i,
    {
        let mut prefix: Vec<Vec<char>> = Vec::new();
        let mut k: usize = 0;
        while k < i
            invariant
                k <= i < parts@.len(),
                prefix@.len() == k,
                forall|j: int| 0 <= j < k ==> #[trigger] prefix@[j]@ == parts@[j]@,
            decreases i - k,
        {
            prefix.push(slice_vec(parts[k].as_slice()));
            k = k + 1;
        }
        assert(views(prefix@) =~= pv.take(i as int));
        let joined = join_exec(&prefix, underscore.as_slice());
        let mut full = slice_vec(dir.as_slice());
        push_all(&mut full, joined.as_slice());
        push_all(&mut full, rs.as_slice());
        out.push(string_of(full.as_slice()));
        i = i + 1;
    }
    proof {
        crate::text::lemma_split_nonempty(stripped@, underscore@, 0, 0);
    }
    assert(crate::text::string_views(out@) =~= spec_r);
    out
}

} // verus!

verus! {

/// A file name whose extension is `e` ends with `.` and `e`.
pub proof fn lemma_extension_suffix(name: Seq<char>)
    requires
        extension_of(name) is Some,
    ensures
        ({
            let e = extension_of(name)->0;
            name.len() >= e.len() + 1 && name.skip(name.len() - e.len()) == e
                && name[name.len() - e.len() - 1] == '.'
                && crate::text::ends_with(name, "."@ + e)
        }),
{
    lemma_last_index_of(name, '.');
    let i = last_index_of(name, '.')->0;
    let e = name.skip(i + 1);
    assert(name.subrange(name.len() - (e.len() + 1), name.len() as int) =~= "."@ + e) by {
        reveal_strlit(".");
    }
}

/// Where `last_index_of` finds `c`.
pub proof fn lemma_last_index_of(s: Seq<char>, c: char)
    ensures
        last_index_of(s, c) matches Some(i) ==> 0 <= i < s.len() && s[i] == c,
    decreases s.len(),
{
    if s.len() > 0 && s.last() != c {
        lemma_last_index_of(s.drop_last(), c);
    }
}

} // verus!

verus! {

/// Root of the routes of the build tree, with its separator.
pub const ROUTES_DIR: &'static str = "./.project_build/routes/";

/// The text of `p` before its last `/` (empty when it has none).
pub open spec fn dir_part(p: Seq<char>) -> Seq<char> {
    match last_index_of(p, '/') {
        Some(i) => p.take(i),
        None => Seq::empty(),
    }
}

/// Where the route module compiled from the server file at `path` goes:
/// its directory under the routes root, with `/` read as `_`, prefixed by
/// `server`, and every `server` in it read as `ws` for a websocket file
/// (`/ws.` in the path) or `api` otherwise.
pub open spec fn server_output(path: Seq<char>) -> Seq<char> {
    let rel = path.skip(ROUTES_DIR@.len() as int);
    let d = dir_part(rel);
    let dest = if d.len() == 0 { "server"@ } else { "server/"@ + d };
    let kind = if contains(path, "/ws."@) { "ws"@ } else { "api"@ };
    "./.project_build/src/server/"@ + crate::text::replace(crate::text::replace(dest, "/"@, "_"@), "server"@, kind) + ".rs"@
}

/// The file the route module compiled from the server file at `path` (a
/// file of the routes tree) is written to.
pub fn server_output_path(path: &str) -> (r: String)
    requires
        starts_with(path@, ROUTES_DIR@),
    ensures
        r@ == server_output(path@),
{
    let p = chars_of(path);
    let prefix = chars_of(ROUTES_DIR);
    let rel = slice_vec(&p[prefix.len()..p.len()]);
    assert(rel@ =~= path@.skip(ROUTES_DIR@.len() as int));
    let mut dest = chars_of("server");
    match last_index_of_exec(rel.as_slice(), '/') {
        Some(i) => {
            if i > 0 {
                push_lit(&mut dest, "/");
                push_all(&mut dest, &rel[0..i]);
                assert(rel@.subrange(0, i as int) =~= rel@.take(i as int));
                assert(dest@ =~= "server/"@ + rel@.take(i as int)) by {
                    reveal_strlit("server");
                    reveal_strlit("/");
                    reveal_strlit("server/");
                }
            } else {
                assert(rel@.take(0).len() == 0);
            }
        },
        None => {},
    }
    let ws = chars_of("/ws.");
    let kind = if crate::text::contains_exec(p.as_slice(), ws.as_slice()) { chars_of("ws") } else { chars_of("api") };
    let slash = chars_of("/");
    let under = chars_of("_");
    let server = chars_of("server");
    proof {
        reveal_strlit("/");
        reveal_strlit("server");
    }
    let d1 = crate::text::replace_exec(dest.as_slice(), slash.as_slice(), under.as_slice());
    let d2 = crate::text::replace_exec(d1.as_slice(), server.as_slice(), kind.as_slice());
    let mut out = chars_of("./.project_build/src/server/");
    push_all(&mut out, d2.as_slice());
    push_lit(&mut out, ".rs");
    string_of(out.as_slice())
}

/// Where the page compiled from the `ui.ubi` at `path` goes (the same path
/// under the build root with extension `html`), and where the site page
/// that embeds it goes (`ui.ubi` read as `index.html`).
pub open spec fn ui_outputs(path: Seq<char>) -> (Seq<char>, Seq<char>) {
    let js_path = "./.project_build/build/"@ + path.skip(ROUTES_DIR@.len() as int);
    (js_path.take(js_path.len() - 3) + "html"@, crate::text::replace(js_path, "ui.ubi"@, "index.html"@))
}

/// The output files of the `ui.ubi` file at `path`.
pub fn ui_output_paths(path: &str) -> (r: (String, String))
    requires
        starts_with(path@, ROUTES_DIR@),
        ends_with(path@.skip(ROUTES_DIR@.len() as int), "ui.ubi"@),
    ensures
        (r.0@, r.1@) == ui_outputs(path@),
{
    let p = chars_of(path);
    let prefix = chars_of(ROUTES_DIR);
    proof {
        reveal_strlit("./.project_build/routes/");
        reveal_strlit("./.project_build/build/");
        reveal_strlit("ui.ubi");
    }
    let mut js_path = chars_of("./.project_build/build/");
    push_all(&mut js_path, &p[prefix.len()..p.len()]);
    assert(p@.subrange(prefix@.len() as int, p@.len() as int) =~= path@.skip(ROUTES_DIR@.len() as int));
    let mut html = slice_vec(&js_path[0..js_path.len() - 3]);
    assert(js_path@.subrange(0, js_path@.len() - 3) =~= js_path@.take(js_path@.len() - 3));
    push_lit(&mut html, "html");
    let from = chars_of("ui.ubi");
    let to = chars_of("index.html");
    let main = crate::text::replace_exec(js_path.as_slice(), from.as_slice(), to.as_slice());
    (string_of(html.as_slice()), string_of(main.as_slice()))
}

/// Where the SQL compiled from the `model.ts` at `path` goes: its path
/// under the routes root with extension `sql` and `/` read as `_`, in the
/// database directory.
pub open spec fn sql_output(path: Seq<char>) -> Seq<char> {
    let rel = path.skip(ROUTES_DIR@.len() as int);
    ".project_build/db/postgres/"@ + crate::text::replace(rel.take(rel.len() - 2) + "sql"@, "/"@, "_"@)
}

/// The output file of the `model.ts` file at `path`.
pub fn sql_output_path(path: &str) -> (r: String)
    requires
        starts_with(path@, ROUTES_DIR@),
        ends_with(path@.skip(ROUTES_DIR@.len() as int), "model.ts"@),
    ensures
        r@ == sql_output(path@),
{
    let p = chars_of(path);
    let prefix = chars_of(ROUTES_DIR);
    proof {
        reveal_strlit("model.ts");
        reveal_strlit("./.project_build/routes/");
        reveal_strlit("/");
    }
    let rel = slice_vec(&p[prefix.len()..p.len()]);
    assert(rel@ =~= path@.skip(ROUTES_DIR@.len() as int));
    let mut renamed = slice_vec(&rel[0..rel.len() - 2]);
    assert(rel@.subrange(0, rel@.len() - 2) =~= rel@.take(rel@.len() - 2));
    push_lit(&mut renamed, "sql");
    let slash = chars_of("/");
    let under = chars_of("_");
    let flat = crate::text::replace_exec(renamed.as_slice(), slash.as_slice(), under.as_slice());
    let mut out = chars_of(".project_build/db/postgres/");
    push_all(&mut out, flat.as_slice());
    string_of(out.as_slice())
}

/// The kinds of route source file.
#[derive(Clone, Copy, Debug, PartialEq, Eq)]
pub enum SourceKind {
    ServerTs,
    ServerPy,
    UiUbi,
    MiddlewareTs,
    Unsupported,
    NoFileName,
}

/// The kind of the source file at `input_file`, by its file name.
pub open spec fn source_kind_of(input_file: Seq<char>) -> SourceKind {
    match file_name(input_file) {
        Some(n) => if n == "server.ts"@ {
            SourceKind::ServerTs
        } else if n == "server.py"@ {
            SourceKind::ServerPy
        } else if n == "ui.ubi"@ {
            SourceKind::UiUbi
        } else if n == "middleware.ts"@ {
            SourceKind::MiddlewareTs
        } else {
            SourceKind::Unsupported
        },
        None => SourceKind::NoFileName,
    }
}

/// How the source file at `input_file` is compiled.
pub fn source_kind(input_file: &str) -> (r: SourceKind)
    ensures
        r == source_kind_of(input_file@),
{
    let p = chars_of(input_file);
    match file_name_exec(p.as_slice()) {
        Some(n) => {
            if eq_lit(n.as_slice(), "server.ts") {
                SourceKind::ServerTs
            } else if eq_lit(n.as_slice(), "server.py") {
                SourceKind::ServerPy
            } else if eq_lit(n.as_slice(), "ui.ubi") {
                SourceKind::UiUbi
            } else if eq_lit(n.as_slice(), "middleware.ts") {
                SourceKind::MiddlewareTs
            } else {
                SourceKind::Unsupported
            }
        },
        None => SourceKind::NoFileName,
    }
}

/// Where a compiled middleware goes: its route module path moved from the
/// server directory to the middleware directory.
pub fn middleware_output_path(out_filename: &str) -> (r: String)
    ensures
        r@ == crate::text::replace(out_filename@, "./.project_build/src/server"@, "./.project_build/src/middleware"@),
{
    let p = chars_of(out_filename);
    let from = chars_of("./.project_build/src/server");
    let to = chars_of("./.project_build/src/middleware");
    proof {
        reveal_strlit("./.project_build/src/server");
    }
    let r = crate::text::replace_exec(p.as_slice(), from.as_slice(), to.as_slice());
    string_of(r.as_slice())
}

} // verus!

verus! {

/// The build tree, which a rebuild writes and the watcher must not react
/// to.
pub const BUILD_DIR: &'static str = ".project_build";

/// Whether `path` lies in the build tree: `Path::starts_with` with the
/// build directory, whose only component must be the path's first one.
pub open spec fn in_build_tree(path: Seq<char>) -> bool {
    path == BUILD_DIR@ || starts_with(path, BUILD_DIR@ + "/"@)
}

/// Whether a change to the files `paths` calls for a rebuild: none of them
/// lies in the build tree.
pub open spec fn needs_rebuild(paths: Seq<Seq<char>>) -> bool {
    forall|i: int| 0 <= i < paths.len() ==> !in_build_tree(#[trigger] paths[i])
}

/// Whether the watcher rebuilds the project after a change to `paths`.
pub fn should_rebuild(paths: &Vec<String>) -> (r: bool)
    ensures
        r == needs_rebuild(string_views(paths@)),
{
    let ghost pv = string_views(paths@);
    let dir = chars_of(BUILD_DIR);
    let mut prefix = chars_of(BUILD_DIR);
    push_lit(&mut prefix, "/");
    let mut k: usize = 0;
    while k < paths.len()
        invariant
            pv == string_views(paths@),
            dir@ == BUILD_DIR@,
            prefix@ == BUILD_DIR@ + "/"@,
            k <= paths@.len(),
            forall|j: int| 0 <= j < k ==> !in_build_tree(#[trigger] pv[j]),
        decreases paths@.len() - k,
    {
        let p = chars_of(paths[k].as_str());
        assert(pv[k as int] == p@);
        if eq_chars(p.as_slice(), dir.as_slice()) || starts_with_exec(p.as_slice(), prefix.as_slice()) {
            return false;
        }
        k = k + 1;
    }
    true
}

} // verus!

verus! {

/// Every route module compiled from a server file lies in the server
/// directory and is a Rust file: the module that the handler
/// documentation is written for.
pub proof fn lemma_server_output_in_server_dir(path: Seq<char>)
    ensures
        starts_with(server_output(path), crate::transform::SERVER_DIR@),
        ends_with(server_output(path).skip(crate::transform::SERVER_DIR@.len() as int), ".rs"@),
{
    reveal_strlit("./.project_build/src/server/");
    reveal_strlit(".rs");
    let rel = path.skip(ROUTES_DIR@.len() as int);
    let d = dir_part(rel);
    let dest = if d.len() == 0 { "server"@ } else { "server/"@ + d };
    let kind = if contains(path, "/ws."@) { "ws"@ } else { "api"@ };
    let body = crate::text::replace(crate::text::replace(dest, "/"@, "_"@), "server"@, kind);
    let out = server_output(path);
    assert(out == "./.project_build/src/server/"@ + body + ".rs"@);
    assert(out.subrange(0, crate::transform::SERVER_DIR@.len() as int) =~= crate::transform::SERVER_DIR@);
    let rest = out.skip(crate::transform::SERVER_DIR@.len() as int);
    assert(rest =~= body + ".rs"@);
    assert(rest.subrange(rest.len() - 3, rest.len() as int) =~= ".rs"@);
}

} // verus!

verus! {

/// The file name of a path that ends in `.rs` is a Rust file name.
proof fn lemma_rust_file_name(p: Seq<char>)
    ensures
        file_name(p + ".rs"@) matches Some(n) && ends_with(n, ".rs"@) && n.len() >= 3,
{
    reveal_strlit(".rs");
    reveal_strlit("/");
    let t = ".rs"@;
    assert forall|k: int| 0 <= k < t.len() implies t[k] != "/"@[0] by {}
    crate::text::lemma_split_append(p, t, "/"@, 0, 0);
    crate::text::lemma_split_nonempty(p, "/"@, 0, 0);
    let pieces = split(p + t, "/"@);
    let last = split(p, "/"@).last() + t;
    assert(pieces.last() == last);
    assert(last.len() >= 3);
    assert(last != "."@ && last != ".."@) by {
        reveal_strlit(".");
        reveal_strlit("..");
    }
    assert(last_component(pieces) == Some(last));
    assert(last.subrange(last.len() - 3, last.len() as int) =~= t);
}

/// Every enclosing middleware module named by `find_parent_modules` is a
/// Rust file, as the chaining of middleware needs.
pub proof fn lemma_parent_modules_are_rust_files(module_file: Seq<char>)
    ensures
        forall|i: int| 0 <= i < parent_modules(module_file).len() ==>
            (file_name(#[trigger] parent_modules(module_file)[i]) matches Some(n) && ends_with(n, ".rs"@) && n.len() >= 3),
{
    let name = crate::text::trim_start_matches(module_file, MIDDLEWARE_DIR@);
    let parts = split(crate::text::trim_end_matches(name, ".rs"@), "_"@);
    assert forall|i: int| 0 <= i < parent_modules(module_file).len() implies
        (file_name(#[trigger] parent_modules(module_file)[i]) matches Some(n) && ends_with(n, ".rs"@) && n.len() >= 3) by {
        lemma_rust_file_name(MIDDLEWARE_DIR@ + join(parts.take(i + 1), "_"@));
    }
}

} // verus!
