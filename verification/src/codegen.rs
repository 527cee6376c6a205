//! Generated glue of the built project: the route table, the middleware
//! table and chain, and the package name.

use vstd::prelude::*;
use crate::text::{
    chars_of, contains, contains_exec, join, join_exec, push_all, push_lit, replace, replace_exec,
    slice_vec, starts_with, starts_with_exec, string_of, string_views, views,
};

verus! {

/// The opening of the route table module: its imports, the route modules
/// `modules`, the handler types, and the opening of the plain route map.
pub open spec fn mod_rs_head(modules: Seq<char>) -> Seq<char> {
    "\nuse std::collections::HashMap;\nuse lazy_static::lazy_static;\nuse crate::PgConnection;\nuse may::net::TcpStream;\nuse std::io;\n\n#[cfg(feature = \"ws\")]\nuse may_minihttp::WsContext;\n\n"@ + modules + "\n\npub type HandlerFn = fn(&PgConnection, may_minihttp::Request) -> Result<String, may_postgres::Error>;\npub type HandlerFn2 = fn(&PgConnection, may_minihttp::Request, &HashMap<String, String>) -> Result<String, may_postgres::Error>;\n\n#[cfg(feature = \"ws\")]\npub type WsOnConnectHandler = fn(&str, &mut TcpStream, &mut WsContext) -> io::Result<()>;\n\n#[cfg(feature = \"ws\")]\npub type WsOnMessageHandler = fn(&str, &mut TcpStream, &mut WsContext, Option<&str>) -> io::Result<()>;\n\n#[cfg(feature = \"ws\")]\npub type WsOnCloseHandler = fn(&str, &mut TcpStream, &mut WsContext, u16, &str) -> io::Result<()>;\n\n#[cfg(not(feature = \"ws\"))]\nlazy_static! {\n    pub static ref ROUTES: HashMap<&'static str, HandlerFn> = {\n        let mut map = HashMap::new();\n        "@
}

/// The text between the plain and the parameterized route maps.
pub open spec fn mod_rs_between() -> Seq<char> {
    ";\n        map\n    };\n\n    pub static ref PARAMETERIZED_ROUTES: HashMap<&'static str, HandlerFn2> = {\n        let mut map = HashMap::new();\n        "@
}

/// The route table module: the route modules, then the handler types and
/// the route maps, with and without the `ws` feature.
pub open spec fn mod_rs_text(
    modules: Seq<char>,
    routes: Seq<char>,
    params: Seq<char>,
    wsc: Seq<char>,
    wsm: Seq<char>,
    wscl: Seq<char>,
) -> Seq<char> {
    mod_rs_head(modules) + routes + mod_rs_between() + params + ";\n        map\n    };\n\n}\n\n#[cfg(feature = \"ws\")]\nlazy_static! {\n    pub static ref ROUTES: HashMap<&'static str, HandlerFn> = {\n        let mut map = HashMap::new();\n        "@ + routes + ";\n        map\n    };\n\n    pub static ref PARAMETERIZED_ROUTES: HashMap<&'static str, HandlerFn2> = {\n        let mut map = HashMap::new();\n        "@ + params + ";\n        map\n    };\n\n    pub static ref WS_ONCONNECT_ROUTES: HashMap<&'static str, WsOnConnectHandler> = {\n        let mut map = HashMap::new();\n        "@ + wsc + "\n        map\n    };\n\n    pub static ref WS_ONMESSAGE_ROUTES: HashMap<&'static str, WsOnMessageHandler> = {\n        let mut map = HashMap::new();\n        "@ + wsm + "\n        map\n    };\n\n    pub static ref WS_ONCLOSE_ROUTES: HashMap<&'static str, WsOnCloseHandler> = {\n        let mut map = HashMap::new();\n        "@ + wscl + "\n        map\n    };\n}\n"@
}

/// Executable `mod_rs_text`.
fn mod_rs_text_exec(
    modules: &[char],
    routes: &[char],
    params: &[char],
    wsc: &[char],
    wsm: &[char],
    wscl: &[char],
) -> (r: Vec<char>)
    ensures
        r@ == mod_rs_text(modules@, routes@, params@, wsc@, wsm@, wscl@),
{
    let mut out = chars_of("\nuse std::collections::HashMap;\nuse lazy_static::lazy_static;\nuse crate::PgConnection;\nuse may::net::TcpStream;\nuse std::io;\n\n#[cfg(feature = \"ws\")]\nuse may_minihttp::WsContext;\n\n");
    push_all(&mut out, modules);
    push_lit(&mut out, "\n\npub type HandlerFn = fn(&PgConnection, may_minihttp::Request) -> Result<String, may_postgres::Error>;\npub type HandlerFn2 = fn(&PgConnection, may_minihttp::Request, &HashMap<String, String>) -> Result<String, may_postgres::Error>;\n\n#[cfg(feature = \"ws\")]\npub type WsOnConnectHandler = fn(&str, &mut TcpStream, &mut WsContext) -> io::Result<()>;\n\n#[cfg(feature = \"ws\")]\npub type WsOnMessageHandler = fn(&str, &mut TcpStream, &mut WsContext, Option<&str>) -> io::Result<()>;\n\n#[cfg(feature = \"ws\")]\npub type WsOnCloseHandler = fn(&str, &mut TcpStream, &mut WsContext, u16, &str) -> io::Result<()>;\n\n#[cfg(not(feature = \"ws\"))]\nlazy_static! {\n    pub static ref ROUTES: HashMap<&'static str, HandlerFn> = {\n        let mut map = HashMap::new();\n        ");
    push_all(&mut out, routes);
    push_lit(&mut out, ";\n        map\n    };\n\n    pub static ref PARAMETERIZED_ROUTES: HashMap<&'static str, HandlerFn2> = {\n        let mut map = HashMap::new();\n        ");
    push_all(&mut out, params);
    push_lit(&mut out, ";\n        map\n    };\n\n}\n\n#[cfg(feature = \"ws\")]\nlazy_static! {\n    pub static ref ROUTES: HashMap<&'static str, HandlerFn> = {\n        let mut map = HashMap::new();\n        ");
    push_all(&mut out, routes);
    push_lit(&mut out, ";\n        map\n    };\n\n    pub static ref PARAMETERIZED_ROUTES: HashMap<&'static str, HandlerFn2> = {\n        let mut map = HashMap::new();\n        ");
    push_all(&mut out, params);
    push_lit(&mut out, ";\n        map\n    };\n\n    pub static ref WS_ONCONNECT_ROUTES: HashMap<&'static str, WsOnConnectHandler> = {\n        let mut map = HashMap::new();\n        ");
    push_all(&mut out, wsc);
    push_lit(&mut out, "\n        map\n    };\n\n    pub static ref WS_ONMESSAGE_ROUTES: HashMap<&'static str, WsOnMessageHandler> = {\n        let mut map = HashMap::new();\n        ");
    push_all(&mut out, wsm);
    push_lit(&mut out, "\n        map\n    };\n\n    pub static ref WS_ONCLOSE_ROUTES: HashMap<&'static str, WsOnCloseHandler> = {\n        let mut map = HashMap::new();\n        ");
    push_all(&mut out, wscl);
    push_lit(&mut out, "\n        map\n    };\n}\n");
    out
}

/// The middleware table module: the middleware modules, then the map from
/// path to middleware.
pub open spec fn middleware_mod_text(mods: Seq<char>, routes: Seq<char>) -> Seq<char> {
    "\n\nuse lazy_static::lazy_static;\nuse std::collections::HashMap;\n\n        "@ + mods + "\npub type MiddlewareFn = fn(&mut may_minihttp::Response) -> bool;\n\nlazy_static! {\n    pub static ref MIDDLEWARE_ROUTES: HashMap<&'static str, MiddlewareFn> = {\n        let mut map = HashMap::new();\n        "@ + routes + ";\n        map\n    };\n\n}\n\n\n\n    "@
}

/// Executable `middleware_mod_text`.
fn middleware_mod_text_exec(mods: &[char], routes: &[char]) -> (r: Vec<char>)
    ensures
        r@ == middleware_mod_text(mods@, routes@),
{
    let mut out = chars_of("\n\nuse lazy_static::lazy_static;\nuse std::collections::HashMap;\n\n        ");
    push_all(&mut out, mods);
    push_lit(&mut out, "\npub type MiddlewareFn = fn(&mut may_minihttp::Response) -> bool;\n\nlazy_static! {\n    pub static ref MIDDLEWARE_ROUTES: HashMap<&'static str, MiddlewareFn> = {\n        let mut map = HashMap::new();\n        ");
    push_all(&mut out, routes);
    push_lit(&mut out, ";\n        map\n    };\n\n}\n\n\n\n    ");
    out
}

/// One entry of a route map: `("/key/name", module::name as Type)`.
pub open spec fn route_entry(key: Seq<char>, name: Seq<char>, module: Seq<char>, ty: Seq<char>) -> Seq<char> {
    "(\"/"@ + key + "/"@ + name + "\", "@ + module + "::"@ + name + " as "@ + ty + ")"@
}

/// Executable `route_entry`.
fn route_entry_exec(key: &[char], name: &[char], module: &[char], ty: &[char]) -> (r: Vec<char>)
    ensures
        r@ == route_entry(key@, name@, module@, ty@),
{
    let mut out = chars_of("(\"/");
    push_all(&mut out, key);
    push_lit(&mut out, "/");
    push_all(&mut out, name);
    push_lit(&mut out, "\", ");
    push_all(&mut out, module);
    push_lit(&mut out, "::");
    push_all(&mut out, name);
    push_lit(&mut out, " as ");
    push_all(&mut out, ty);
    push_lit(&mut out, ")");
    out
}

/// The request handlers a route module may define, in table order.
pub open spec fn handler_names() -> Seq<Seq<char>> {
    seq!["get"@, "post"@, "update"@, "delete"@]
}

/// The entries for the handlers among `names` that `content` defines
/// (`pub fn name(`).
pub open spec fn handler_routes(content: Seq<char>, key: Seq<char>, module: Seq<char>, ty: Seq<char>, names: Seq<Seq<char>>) -> Seq<Seq<char>>
    decreases names.len(),
{
    if names.len() == 0 {
        Seq::empty()
    } else {
        let rest = handler_routes(content, key, module, ty, names.drop_last());
        if contains(content, "pub fn "@ + names.last() + "("@) {
            rest.push(route_entry(key, names.last(), module, ty))
        } else {
            rest
        }
    }
}

/// The entry for the websocket event `event` if `content` defines its
/// handler (`pub fn event`).
pub open spec fn ws_route(content: Seq<char>, stem: Seq<char>, event: Seq<char>, ty: Seq<char>) -> Seq<Seq<char>> {
    if contains(content, "pub fn "@ + event) {
        seq![route_entry(replace(stem, "_"@, "/"@), event, stem, ty)]
    } else {
        Seq::empty()
    }
}

/// Whether a route module belongs to a parameterized route (`_:` in its
/// name).
pub open spec fn is_param_module(stem: Seq<char>) -> bool {
    contains(stem, "_:"@)
}

/// The module declaration of a route module; a parameterized one is
/// declared under a name without `:` and its file named by `#[path]`.
pub open spec fn module_line(stem: Seq<char>) -> Seq<char> {
    if is_param_module(stem) {
        "#[path = \""@ + stem + ".rs\"]\npub mod "@ + replace(stem, "_:"@, "_"@) + ";"@
    } else {
        "pub mod "@ + stem + ";"@
    }
}

/// What one route module contributes to the table: plain routes,
/// parameterized routes, and the three kinds of websocket routes.
pub open spec fn module_routes(stem: Seq<char>, content: Seq<char>) -> (Seq<Seq<char>>, Seq<Seq<char>>, Seq<Seq<char>>, Seq<Seq<char>>, Seq<Seq<char>>) {
    if is_param_module(stem) {
        (
            Seq::empty(),
            handler_routes(content, replace(stem, "_"@, "/"@), replace(stem, "_:"@, "_"@), "HandlerFn2"@, handler_names()),
            Seq::empty(),
            Seq::empty(),
            Seq::empty(),
        )
    } else {
        (
            handler_routes(content, stem, stem, "HandlerFn"@, handler_names()),
            Seq::empty(),
            ws_route(content, stem, "onconnect"@, "WsOnConnectHandler"@),
            ws_route(content, stem, "onmessage"@, "WsOnMessageHandler"@),
            ws_route(content, stem, "onclose"@, "WsOnCloseHandler"@),
        )
    }
}

/// The route table entries of the modules `files` (stem and content), in
/// order: module lines, plain, parameterized and websocket routes.
pub struct RouteTable {
    pub modules: Seq<Seq<char>>,
    pub routes: Seq<Seq<char>>,
    pub params: Seq<Seq<char>>,
    pub wsc: Seq<Seq<char>>,
    pub wsm: Seq<Seq<char>>,
    pub wscl: Seq<Seq<char>>,
}

/// The route table entries of the modules `files`.
pub open spec fn route_table(files: Seq<(Seq<char>, Seq<char>)>) -> RouteTable
    decreases files.len(),
{
    if files.len() == 0 {
        RouteTable {
            modules: Seq::empty(),
            routes: Seq::empty(),
            params: Seq::empty(),
            wsc: Seq::empty(),
            wsm: Seq::empty(),
            wscl: Seq::empty(),
        }
    } else {
        let t = route_table(files.drop_last());
        let (stem, content) = files.last();
        let c = module_routes(stem, content);
        RouteTable {
            modules: t.modules.push(module_line(stem)),
            routes: t.routes + c.0,
            params: t.params + c.1,
            wsc: t.wsc + c.2,
            wsm: t.wsm + c.3,
            wscl: t.wscl + c.4,
        }
    }
}

/// Map insertions for route entries, one per line.
pub open spec fn inserts(entries: Seq<Seq<char>>) -> Seq<char> {
    join(entries.map_values(|r: Seq<char>| "map.insert"@ + r + ";"@), "\n        "@)
}

/// The route table module for the route modules `files` (stem and
/// content, in directory order).
pub open spec fn mod_rs_source(files: Seq<(Seq<char>, Seq<char>)>) -> Seq<char> {
    let t = route_table(files);
    mod_rs_text(join(t.modules, "\n"@), inserts(t.routes), inserts(t.params), inserts(t.wsc), inserts(t.wsm), inserts(t.wscl))
}

} // verus!

verus! {

/// Appends the entries for the handlers that `content` defines.
fn handler_routes_exec(content: &[char], key: &[char], module: &[char], ty: &[char], out: &mut Vec<Vec<char>>)
    ensures
        views(final(out)@) == views(old(out)@) + handler_routes(content@, key@, module@, ty@, handler_names()),
{
    let mut names: Vec<Vec<char>> = Vec::new();
    names.push(chars_of("get"));
    names.push(chars_of("post"));
    names.push(chars_of("update"));
    names.push(chars_of("delete"));
    let ghost nv = views(names@);
    assert(nv =~= handler_names());
    let ghost o0 = views(out@);
    let mut k: usize = 0;
    assert(views(out@) =~= o0 + handler_routes(content@, key@, module@, ty@, nv.take(0)));
    while k < names.len()
        invariant
            nv == views(names@),
            o0 == views(old(out)@),
            k <= names@.len(),
            views(out@) == o0 + handler_routes(content@, key@, module@, ty@, nv.take(k as int)),
        decreases names@.len() - k,
    {
        assert(nv.take(k + 1).drop_last() =~= nv.take(k as int));
        assert(nv.take(k + 1).last() == names@[k as int]@);
        let mut needle = chars_of("pub fn ");
        push_all(&mut needle, names[k].as_slice());
        push_lit(&mut needle, "(");
        if contains_exec(content, needle.as_slice()) {
            let ghost before = views(out@);
            out.push(route_entry_exec(key, names[k].as_slice(), module, ty));
            assert(views(out@) =~= before.push(route_entry(key@, names@[k as int]@, module@, ty@)));
        }
        k = k + 1;
    }
    assert(nv.take(names@.len() as int) =~= nv);
}

/// Appends the entry for the websocket event `event`, if defined.
fn ws_route_exec(content: &[char], stem: &[char], event: &str, ty: &str, out: &mut Vec<Vec<char>>)
    ensures
        views(final(out)@) == views(old(out)@) + ws_route(content@, stem@, event@, ty@),
{
    let mut needle = chars_of("pub fn ");
    push_lit(&mut needle, event);
    let ghost before = views(out@);
    if contains_exec(content, needle.as_slice()) {
        let under = chars_of("_");
        let slash = chars_of("/");
        proof {
            reveal_strlit("_");
        }
        let key = replace_exec(stem, under.as_slice(), slash.as_slice());
        let ev = chars_of(event);
        let t = chars_of(ty);
        out.push(route_entry_exec(key.as_slice(), ev.as_slice(), stem, t.as_slice()));
        assert(views(out@) =~= before + ws_route(content@, stem@, event@, ty@));
    } else {
        assert(views(out@) =~= before + ws_route(content@, stem@, event@, ty@));
    }
}

/// Executable `module_line`.
fn module_line_exec(stem: &[char]) -> (r: Vec<char>)
    ensures
        r@ == module_line(stem@),
{
    let marker = chars_of("_:");
    proof {
        reveal_strlit("_:");
    }
    if contains_exec(stem, marker.as_slice()) {
        let under = chars_of("_");
        let plain = replace_exec(stem, marker.as_slice(), under.as_slice());
        let mut out = chars_of("#[path = \"");
        push_all(&mut out, stem);
        push_lit(&mut out, ".rs\"]\npub mod ");
        push_all(&mut out, plain.as_slice());
        push_lit(&mut out, ";");
        out
    } else {
        let mut out = chars_of("pub mod ");
        push_all(&mut out, stem);
        push_lit(&mut out, ";");
        out
    }
}

/// Map insertions for route entries (executable `inserts`).
fn inserts_exec(entries: &Vec<Vec<char>>) -> (r: Vec<char>)
    ensures
        r@ == inserts(views(entries@)),
{
    let ghost ev = views(entries@);
    let mut lines_v: Vec<Vec<char>> = Vec::new();
    let mut k: usize = 0;
    while k < entries.len()
        invariant
            ev == views(entries@),
            k <= entries@.len(),
            lines_v@.len() == k,
            forall|j: int| 0 <= j < k ==> #[trigger] lines_v@[j]@ == "map.insert"@ + ev[j] + ";"@,
        decreases entries@.len() - k,
    {
        let mut l = chars_of("map.insert");
        push_all(&mut l, entries[k].as_slice());
        push_lit(&mut l, ";");
        lines_v.push(l);
        k = k + 1;
    }
    assert(views(lines_v@) =~= ev.map_values(|r: Seq<char>| "map.insert"@ + r + ";"@));
    let sep = chars_of("\n        ");
    join_exec(&lines_v, sep.as_slice())
}

/// The route table module for the route modules `files` (stem and
/// content of each `.rs` module other than `mod.rs`, in directory order).
pub fn generate_mod_rs(files: &Vec<(String, String)>) -> (r: String)
    ensures
        r@ == mod_rs_source(crate::page::pair_views(files@)),
{
    let ghost fv = crate::page::pair_views(files@);
    let mut modules: Vec<Vec<char>> = Vec::new();
    let mut routes: Vec<Vec<char>> = Vec::new();
    let mut params: Vec<Vec<char>> = Vec::new();
    let mut wsc: Vec<Vec<char>> = Vec::new();
    let mut wsm: Vec<Vec<char>> = Vec::new();
    let mut wscl: Vec<Vec<char>> = Vec::new();
    let mut k: usize = 0;
    assert(views(modules@) =~= Seq::empty());
    assert(views(routes@) =~= Seq::empty());
    assert(views(params@) =~= Seq::empty());
    assert(views(wsc@) =~= Seq::empty());
    assert(views(wsm@) =~= Seq::empty());
    assert(views(wscl@) =~= Seq::empty());
    while k < files.len()
        invariant
            fv == crate::page::pair_views(files@),
            k <= files@.len(),
            ({
                let t = route_table(fv.take(k as int));
                &&& views(modules@) == t.modules
                &&& views(routes@) == t.routes
                &&& views(params@) == t.params
                &&& views(wsc@) == t.wsc
                &&& views(wsm@) == t.wsm
                &&& views(wscl@) == t.wscl
            }),
        decreases files@.len() - k,
    {
        assert(fv.take(k + 1).drop_last() =~= fv.take(k as int));
        let (stem_s, content_s) = &files[k];
        assert(fv.take(k + 1).last() == (stem_s@, content_s@));
        let stem = chars_of(stem_s.as_str());
        let content = chars_of(content_s.as_str());
        let ghost m0 = views(modules@);
        modules.push(module_line_exec(stem.as_slice()));
        assert(views(modules@) =~= m0.push(module_line(stem@)));
        let marker = chars_of("_:");
        let ghost r0 = views(routes@);
        let ghost p0 = views(params@);
        let ghost c0 = views(wsc@);
        let ghost s0 = views(wsm@);
        let ghost l0 = views(wscl@);
        if contains_exec(stem.as_slice(), marker.as_slice()) {
            let under = chars_of("_");
            let slash = chars_of("/");
            proof {
                reveal_strlit("_");
                reveal_strlit("_:");
            }
            let key = replace_exec(stem.as_slice(), under.as_slice(), slash.as_slice());
            let module = replace_exec(stem.as_slice(), marker.as_slice(), under.as_slice());
            let ty = chars_of("HandlerFn2");
            handler_routes_exec(content.as_slice(), key.as_slice(), module.as_slice(), ty.as_slice(), &mut params);
            assert(r0 + Seq::<Seq<char>>::empty() =~= r0);
            assert(c0 + Seq::<Seq<char>>::empty() =~= c0);
            assert(s0 + Seq::<Seq<char>>::empty() =~= s0);
            assert(l0 + Seq::<Seq<char>>::empty() =~= l0);
        } else {
            let ty = chars_of("HandlerFn");
            handler_routes_exec(content.as_slice(), stem.as_slice(), stem.as_slice(), ty.as_slice(), &mut routes);
            ws_route_exec(content.as_slice(), stem.as_slice(), "onconnect", "WsOnConnectHandler", &mut wsc);
            ws_route_exec(content.as_slice(), stem.as_slice(), "onmessage", "WsOnMessageHandler", &mut wsm);
            ws_route_exec(content.as_slice(), stem.as_slice(), "onclose", "WsOnCloseHandler", &mut wscl);
            assert(p0 + Seq::<Seq<char>>::empty() =~= p0);
        }
        k = k + 1;
    }
    assert(fv.take(files@.len() as int) =~= fv);
    let nl = chars_of("\n");
    let mods = join_exec(&modules, nl.as_slice());
    let r = inserts_exec(&routes);
    let p = inserts_exec(&params);
    let c = inserts_exec(&wsc);
    let m = inserts_exec(&wsm);
    let l = inserts_exec(&wscl);
    let out = mod_rs_text_exec(mods.as_slice(), r.as_slice(), p.as_slice(), c.as_slice(), m.as_slice(), l.as_slice());
    string_of(out.as_slice())
}

} // verus!

verus! {

/// The module name of a middleware file: the file name without `.rs`,
/// for a Rust file other than `mod.rs`.
pub open spec fn middleware_module(file_name: Seq<char>) -> Option<Seq<char>> {
    if crate::paths::extension_of(file_name) == Some("rs"@) && file_name != "mod.rs"@ {
        Some(file_name.take(file_name.len() - 3))
    } else {
        None
    }
}

/// The stem of a route module file: for a Rust file whose stem is not
/// `mod`.
pub open spec fn route_module(file_name: Seq<char>) -> Option<Seq<char>> {
    if crate::paths::extension_of(file_name) == Some("rs"@) && crate::paths::stem_of(file_name) != "mod"@ {
        Some(crate::paths::stem_of(file_name))
    } else {
        None
    }
}

/// Whether the file name has extension `rs`.
fn is_rust_file(name: &[char]) -> (r: bool)
    ensures
        r == (crate::paths::extension_of(name@) == Some("rs"@)),
        r ==> crate::text::ends_with(name@, ".rs"@) && name@.len() >= 3,
{
    let (_, ext) = crate::paths::split_name_exec(name);
    let rs = chars_of("rs");
    proof {
        reveal_strlit("rs");
        reveal_strlit(".rs");
    }
    match ext {
        Some(e) => {
            let r = crate::text::eq_chars(e.as_slice(), rs.as_slice());
            proof {
                if r {
                    crate::paths::lemma_extension_suffix(name@);
                    reveal_strlit(".");
                    assert("."@ + "rs"@ =~= ".rs"@);
                }
            }
            r
        },
        None => false,
    }
}

/// The module name of the middleware file `file_name`, if it is one.
pub fn middleware_module_name(file_name: &str) -> (r: Option<String>)
    ensures
        match r {
            Some(m) => middleware_module(file_name@) == Some(m@),
            None => middleware_module(file_name@) is None,
        },
{
    let name = chars_of(file_name);
    let modrs = chars_of("mod.rs");
    if is_rust_file(name.as_slice()) && !crate::text::eq_chars(name.as_slice(), modrs.as_slice()) {
        Some(string_of(&name[0..name.len() - 3]))
    } else {
        None
    }
}

/// The stem of the route module file `file_name`, if it is one.
pub fn route_module_stem(file_name: &str) -> (r: Option<String>)
    ensures
        match r {
            Some(m) => route_module(file_name@) == Some(m@),
            None => route_module(file_name@) is None,
        },
{
    let name = chars_of(file_name);
    let (stem, _) = crate::paths::split_name_exec(name.as_slice());
    let modn = chars_of("mod");
    if is_rust_file(name.as_slice()) && !crate::text::eq_chars(stem.as_slice(), modn.as_slice()) {
        Some(string_of(stem.as_slice()))
    } else {
        None
    }
}

/// The entry of the middleware module `f`: mounted at the path made of
/// its name with `_` read as `/`.
pub open spec fn middleware_entry(f: Seq<char>) -> Seq<char> {
    "(\"/"@ + replace(f, "_"@, "/"@) + "\", "@ + f + "::run_middleware as MiddlewareFn)"@
}

/// The middleware table module for the middleware modules `names`.
pub open spec fn middleware_mod_source(names: Seq<Seq<char>>) -> Seq<char> {
    middleware_mod_text(
        crate::page::concat(names.map_values(|f: Seq<char>| "pub mod "@ + f + ";"@)),
        join(names.map_values(|f: Seq<char>| "map.insert"@ + middleware_entry(f) + ";"@), "\n        "@),
    )
}

/// The middleware table module for the middleware modules `names`, in
/// directory order.
pub fn generate_mod_rs_middleware(names: &Vec<String>) -> (r: String)
    ensures
        r@ == middleware_mod_source(string_views(names@)),
{
    let ghost nv = string_views(names@);
    let mut mods: Vec<Vec<char>> = Vec::new();
    let mut entries: Vec<Vec<char>> = Vec::new();
    let mut k: usize = 0;
    while k < names.len()
        invariant
            nv == string_views(names@),
            k <= names@.len(),
            mods@.len() == k,
            entries@.len() == k,
            forall|j: int| 0 <= j < k ==> #[trigger] mods@[j]@ == "pub mod "@ + nv[j] + ";"@,
            forall|j: int| 0 <= j < k ==> #[trigger] entries@[j]@ == "map.insert"@ + middleware_entry(nv[j]) + ";"@,
        decreases names@.len() - k,
    {
        let f = chars_of(names[k].as_str());
        assert(nv[k as int] == f@);
        let mut m = chars_of("pub mod ");
        push_all(&mut m, f.as_slice());
        push_lit(&mut m, ";");
        mods.push(m);
        let under = chars_of("_");
        let slash = chars_of("/");
        proof {
            reveal_strlit("_");
        }
        let key = replace_exec(f.as_slice(), under.as_slice(), slash.as_slice());
        let mut e = chars_of("map.insert");
        push_lit(&mut e, "(\"/");
        push_all(&mut e, key.as_slice());
        push_lit(&mut e, "\", ");
        push_all(&mut e, f.as_slice());
        push_lit(&mut e, "::run_middleware as MiddlewareFn)");
        push_lit(&mut e, ";");
        assert(e@ =~= "map.insert"@ + middleware_entry(f@) + ";"@);
        entries.push(e);
        k = k + 1;
    }
    assert(views(mods@) =~= nv.map_values(|f: Seq<char>| "pub mod "@ + f + ";"@));
    assert(views(entries@) =~= nv.map_values(|f: Seq<char>| "map.insert"@ + middleware_entry(f) + ";"@));
    let empty: Vec<char> = Vec::new();
    let all_mods = join_exec(&mods, empty.as_slice());
    let sep = chars_of("\n        ");
    let all_entries = join_exec(&entries, sep.as_slice());
    let out = middleware_mod_text_exec(all_mods.as_slice(), all_entries.as_slice());
    string_of(out.as_slice())
}

} // verus!

verus! {

/// The texts held by pairs of a path and an optional content.
pub open spec fn probe_views(v: Seq<(String, Option<String>)>) -> Seq<(Seq<char>, Option<Seq<char>>)> {
    v.map_values(|p: (String, Option<String>)| (p.0@, match p.1 {
        Some(c) => Some(c@),
        None => None,
    }))
}

/// Whether a module source defines a middleware function.
pub open spec fn defines_middleware(content: Option<Seq<char>>) -> bool {
    content matches Some(c) && contains(c, "pub fn middleware("@)
}

/// The module names of the enclosing middleware modules (path and
/// content, `None` when the file is missing) that define a middleware
/// function: their file names without `.rs`.
pub open spec fn chained_middleware(parents: Seq<(Seq<char>, Option<Seq<char>>)>) -> Seq<Seq<char>>
    decreases parents.len(),
{
    if parents.len() == 0 {
        Seq::empty()
    } else {
        let rest = chained_middleware(parents.drop_last());
        if defines_middleware(parents.last().1) {
            let n = crate::paths::file_name(parents.last().0)->0;
            rest.push(n.take(n.len() - 3))
        } else {
            rest
        }
    }
}

/// The middleware module with its chain: it imports the enclosing
/// middleware modules `names`, and its `run_middleware` runs theirs
/// (outermost first) and then its own, stopping at the first refusal;
/// the module's own source `local` follows.
pub open spec fn run_middleware_text(names: Seq<Seq<char>>, local: Seq<char>) -> Seq<char> {
    let uses = crate::page::concat(names.map_values(|n: Seq<char>| "use crate::middleware::"@ + n + ";"@));
    let checks = crate::page::concat(names.map_values(|n: Seq<char>| "if !"@ + n + "::middleware(res) { return false; }"@));
    uses + " "@ + ("pub fn run_middleware(res: &mut may_minihttp::Response) -> bool {"@ + checks
        + "if !middleware(res) { return false; }"@) + " return true; } "@ + local
}

/// Whether every probed parent that defines a middleware function has a
/// Rust file name.
pub open spec fn parents_named(parents: Seq<(Seq<char>, Option<Seq<char>>)>) -> bool {
    forall|i: int| 0 <= i < parents.len() && defines_middleware(#[trigger] parents[i].1) ==> (
        crate::paths::file_name(parents[i].0) matches Some(n) && crate::text::ends_with(n, ".rs"@) && n.len() >= 3)
}

/// The middleware module whose source is `local`, chained after the
/// enclosing middleware modules `parents` (path, and content when the
/// file exists).
pub fn generate_run_middleware(parents: &Vec<(String, Option<String>)>, local: &str) -> (r: String)
    requires
        parents_named(probe_views(parents@)),
    ensures
        r@ == run_middleware_text(chained_middleware(probe_views(parents@)), local@),
{
    let ghost pv = probe_views(parents@);
    let mut names: Vec<Vec<char>> = Vec::new();
    let mut k: usize = 0;
    while k < parents.len()
        invariant
            pv == probe_views(parents@),
            parents_named(pv),
            k <= parents@.len(),
            views(names@) == chained_middleware(pv.take(k as int)),
        decreases parents@.len() - k,
    {
        assert(pv.take(k + 1).drop_last() =~= pv.take(k as int));
        let (path, content) = &parents[k];
        assert(pv.take(k + 1).last() == pv[k as int]);
        assert(pv[k as int].0 == path@);
        match content {
            Some(c) => {
                assert(pv[k as int].1 == Some(c@));
                let cc = chars_of(c.as_str());
                let needle = chars_of("pub fn middleware(");
                if contains_exec(cc.as_slice(), needle.as_slice()) {
                    let pc = chars_of(path.as_str());
                    let name = crate::paths::file_name_exec(pc.as_slice());
                    assert(defines_middleware(pv[k as int].1));
                    let n = name.unwrap();
                    let ghost before = views(names@);
                    names.push(slice_vec(&n[0..n.len() - 3]));
                    assert(views(names@) =~= before.push(n@.take(n@.len() - 3)));
                }
            },
            None => {
                assert(pv[k as int].1 is None);
            },
        }
        k = k + 1;
    }
    assert(pv.take(parents@.len() as int) =~= pv);
    let ghost nv = views(names@);
    let mut uses: Vec<char> = Vec::new();
    let mut checks: Vec<char> = Vec::new();
    let mut j: usize = 0;
    let mut use_parts: Vec<Vec<char>> = Vec::new();
    let mut check_parts: Vec<Vec<char>> = Vec::new();
    while j < names.len()
        invariant
            nv == views(names@),
            j <= names@.len(),
            use_parts@.len() == j,
            check_parts@.len() == j,
            forall|i: int| 0 <= i < j ==> #[trigger] use_parts@[i]@ == "use crate::middleware::"@ + nv[i] + ";"@,
            forall|i: int| 0 <= i < j ==> #[trigger] check_parts@[i]@ == "if !"@ + nv[i] + "::middleware(res) { return false; }"@,
        decreases names@.len() - j,
    {
        let mut u = chars_of("use crate::middleware::");
        push_all(&mut u, names[j].as_slice());
        push_lit(&mut u, ";");
        use_parts.push(u);
        let mut c = chars_of("if !");
        push_all(&mut c, names[j].as_slice());
        push_lit(&mut c, "::middleware(res) { return false; }");
        check_parts.push(c);
        j = j + 1;
    }
    assert(views(use_parts@) =~= nv.map_values(|n: Seq<char>| "use crate::middleware::"@ + n + ";"@));
    assert(views(check_parts@) =~= nv.map_values(|n: Seq<char>| "if !"@ + n + "::middleware(res) { return false; }"@));
    let empty: Vec<char> = Vec::new();
    uses = join_exec(&use_parts, empty.as_slice());
    checks = join_exec(&check_parts, empty.as_slice());
    let mut run = chars_of("pub fn run_middleware(res: &mut may_minihttp::Response) -> bool {");
    push_all(&mut run, checks.as_slice());
    push_lit(&mut run, "if !middleware(res) { return false; }");
    let mut out = uses;
    push_lit(&mut out, " ");
    push_all(&mut out, run.as_slice());
    push_lit(&mut out, " return true; } ");
    push_lit(&mut out, local);
    string_of(out.as_slice())
}

/// The lines of a `Cargo.toml` with every `name = ` line naming `name`,
/// joined by line breaks.
pub open spec fn cargo_renamed(content: Seq<char>, name: Seq<char>) -> Seq<char> {
    join(
        crate::text::lines(content).map_values(|l: Seq<char>| if starts_with(l, "name = "@) {
            "name = \""@ + name + "\""@
        } else {
            l
        }),
        "\n"@,
    )
}

/// `Cargo.toml` content with the package named `nama_baru`.
pub fn set_name(nama_baru: &str, content: &str) -> (r: String)
    ensures
        r@ == cargo_renamed(content@, nama_baru@),
{
    let cs = chars_of(content);
    let ls = crate::text::lines_exec(cs.as_slice());
    let ghost lv = views(ls@);
    let prefix = chars_of("name = ");
    let mut out_lines: Vec<Vec<char>> = Vec::new();
    let mut k: usize = 0;
    while k < ls.len()
        invariant
            lv == views(ls@),
            prefix@ == "name = "@,
            k <= ls@.len(),
            out_lines@.len() == k,
            forall|j: int| 0 <= j < k ==> #[trigger] out_lines@[j]@ == (if starts_with(lv[j], "name = "@) {
                "name = \""@ + nama_baru@ + "\""@
            } else {
                lv[j]
            }),
        decreases ls@.len() - k,
    {
        assert(lv[k as int] == ls@[k as int]@);
        if starts_with_exec(ls[k].as_slice(), prefix.as_slice()) {
            let mut l = chars_of("name = \"");
            push_lit(&mut l, nama_baru);
            push_lit(&mut l, "\"");
            out_lines.push(l);
        } else {
            out_lines.push(slice_vec(ls[k].as_slice()));
        }
        k = k + 1;
    }
    assert(views(out_lines@) =~= lv.map_values(|l: Seq<char>| if starts_with(l, "name = "@) {
        "name = \""@ + nama_baru@ + "\""@
    } else {
        l
    }));
    let nl = chars_of("\n");
    let out = join_exec(&out_lines, nl.as_slice());
    string_of(out.as_slice())
}

} // verus!

verus! {

/// A handler among `names` that `content` defines gets its entry.
proof fn lemma_handler_routes_has(
    content: Seq<char>,
    key: Seq<char>,
    module: Seq<char>,
    ty: Seq<char>,
    names: Seq<Seq<char>>,
    n: Seq<char>,
)
    requires
        names.contains(n),
        contains(content, "pub fn "@ + n + "("@),
    ensures
        handler_routes(content, key, module, ty, names).contains(route_entry(key, n, module, ty)),
    decreases names.len(),
{
    let rest = handler_routes(content, key, module, ty, names.drop_last());
    let entry = route_entry(key, n, module, ty);
    if names.last() == n {
        let r = rest.push(entry);
        assert(r[r.len() - 1] == entry);
    } else {
        let i = choose|i: int| 0 <= i < names.len() && names[i] == n;
        assert(names.drop_last()[i] == n);
        lemma_handler_routes_has(content, key, module, ty, names.drop_last(), n);
        let j = choose|j: int| 0 <= j < rest.len() && rest[j] == entry;
        let last = route_entry(key, names.last(), module, ty);
        assert(rest.push(last)[j] == entry);
    }
}

/// The entries a module contributes stand in the route table.
proof fn lemma_route_table_has(files: Seq<(Seq<char>, Seq<char>)>, i: int, x: Seq<char>)
    requires
        0 <= i < files.len(),
    ensures
        module_routes(files[i].0, files[i].1).0.contains(x) ==> route_table(files).routes.contains(x),
        module_routes(files[i].0, files[i].1).1.contains(x) ==> route_table(files).params.contains(x),
    decreases files.len(),
{
    let t = route_table(files.drop_last());
    let c = module_routes(files.last().0, files.last().1);
    if i == files.len() - 1 {
        if c.0.contains(x) {
            let j = choose|j: int| 0 <= j < c.0.len() && c.0[j] == x;
            assert((t.routes + c.0)[t.routes.len() + j] == x);
        }
        if c.1.contains(x) {
            let j = choose|j: int| 0 <= j < c.1.len() && c.1[j] == x;
            assert((t.params + c.1)[t.params.len() + j] == x);
        }
    } else {
        lemma_route_table_has(files.drop_last(), i, x);
        assert(files.drop_last()[i] == files[i]);
        if t.routes.contains(x) {
            let j = choose|j: int| 0 <= j < t.routes.len() && t.routes[j] == x;
            assert((t.routes + c.0)[j] == x);
        }
        if t.params.contains(x) {
            let j = choose|j: int| 0 <= j < t.params.len() && t.params[j] == x;
            assert((t.params + c.1)[j] == x);
        }
    }
}

/// An entry of a route map is inserted by the generated module.
proof fn lemma_inserts_has(entries: Seq<Seq<char>>, x: Seq<char>)
    requires
        entries.contains(x),
    ensures
        contains(inserts(entries), "map.insert"@ + x + ";"@),
{
    let j = choose|j: int| 0 <= j < entries.len() && entries[j] == x;
    let lines = entries.map_values(|r: Seq<char>| "map.insert"@ + r + ";"@);
    assert(lines[j] == "map.insert"@ + x + ";"@);
    crate::text::lemma_join_contains(lines, "\n        "@, j);
}

/// The route maps stand in the route table module.
proof fn lemma_mod_rs_has_maps(m: Seq<char>, r: Seq<char>, p: Seq<char>, c: Seq<char>, w: Seq<char>, l: Seq<char>)
    ensures
        contains(mod_rs_text(m, r, p, c, w, l), r),
        contains(mod_rs_text(m, r, p, c, w, l), p),
{
    let text = mod_rs_text(m, r, p, c, w, l);
    let head = mod_rs_head(m);
    assert(text.subrange(head.len() as int, head.len() + r.len() as int) =~= r);
    crate::text::lemma_contains_at(text, r, head.len() as int);
    let at: int = head.len() as int + r.len() as int + mod_rs_between().len() as int;
    assert(text.subrange(at, at + p.len()) =~= p);
    crate::text::lemma_contains_at(text, p, at);
}

/// The inserted text of a plain route entry.
proof fn lemma_plain_insert_text(key: Seq<char>, n: Seq<char>, module: Seq<char>)
    ensures
        "map.insert"@ + route_entry(key, n, module, "HandlerFn"@) + ";"@
            == "map.insert(\"/"@ + key + "/"@ + n + "\", "@ + module + "::"@ + n + " as HandlerFn);"@,
{
    reveal_strlit("map.insert(\"/");
    reveal_strlit("map.insert");
    reveal_strlit("(\"/");
    reveal_strlit(" as HandlerFn);");
    reveal_strlit(" as ");
    reveal_strlit(")");
    reveal_strlit(";");
    reveal_strlit("HandlerFn");
    assert("map.insert"@ + route_entry(key, n, module, "HandlerFn"@) + ";"@
        =~= "map.insert(\"/"@ + key + "/"@ + n + "\", "@ + module + "::"@ + n + " as HandlerFn);"@);
}

/// The inserted text of a parameterized route entry.
proof fn lemma_param_insert_text(key: Seq<char>, n: Seq<char>, module: Seq<char>)
    ensures
        "map.insert"@ + route_entry(key, n, module, "HandlerFn2"@) + ";"@
            == "map.insert(\"/"@ + key + "/"@ + n + "\", "@ + module + "::"@ + n + " as HandlerFn2);"@,
{
    reveal_strlit("map.insert(\"/");
    reveal_strlit("map.insert");
    reveal_strlit("(\"/");
    reveal_strlit(" as HandlerFn2);");
    reveal_strlit(" as ");
    reveal_strlit(")");
    reveal_strlit(";");
    reveal_strlit("HandlerFn2");
    assert("map.insert"@ + route_entry(key, n, module, "HandlerFn2"@) + ";"@
        =~= "map.insert(\"/"@ + key + "/"@ + n + "\", "@ + module + "::"@ + n + " as HandlerFn2);"@);
}

/// Every request handler that a route module defines (`pub fn get(`,
/// `post(`, `update(` or `delete(`) gets a route in the generated route
/// table: `/<stem>/<name>` to `<stem>::<name>` for a plain module, and, for
/// a parameterized module (`_:` in its stem), its stem read as a path
/// (`_` as `/`) to the module named without `:`.
pub proof fn lemma_every_handler_is_routed(files: Seq<(Seq<char>, Seq<char>)>, i: int, n: Seq<char>)
    requires
        0 <= i < files.len(),
        n == "get"@ || n == "post"@ || n == "update"@ || n == "delete"@,
        contains(files[i].1, "pub fn "@ + n + "("@),
    ensures
        !contains(files[i].0, "_:"@) ==> contains(
            mod_rs_source(files),
            "map.insert(\"/"@ + files[i].0 + "/"@ + n + "\", "@ + files[i].0 + "::"@ + n + " as HandlerFn);"@,
        ),
        contains(files[i].0, "_:"@) ==> contains(
            mod_rs_source(files),
            "map.insert(\"/"@ + replace(files[i].0, "_"@, "/"@) + "/"@ + n + "\", "@ + replace(files[i].0, "_:"@, "_"@)
                + "::"@ + n + " as HandlerFn2);"@,
        ),
{
    let (stem, content) = files[i];
    let names = handler_names();
    assert(names.contains(n)) by {
        if n == "get"@ { assert(names[0] == n); }
        else if n == "post"@ { assert(names[1] == n); }
        else if n == "update"@ { assert(names[2] == n); }
        else { assert(names[3] == n); }
    }
    let t = route_table(files);
    let text = mod_rs_source(files);
    lemma_mod_rs_has_maps(join(t.modules, "\n"@), inserts(t.routes), inserts(t.params), inserts(t.wsc), inserts(t.wsm), inserts(t.wscl));
    if !is_param_module(stem) {
        let entry = route_entry(stem, n, stem, "HandlerFn"@);
        lemma_handler_routes_has(content, stem, stem, "HandlerFn"@, names, n);
        lemma_route_table_has(files, i, entry);
        lemma_inserts_has(t.routes, entry);
        crate::text::lemma_contains_trans(text, inserts(t.routes), "map.insert"@ + entry + ";"@);
        lemma_plain_insert_text(stem, n, stem);
    } else {
        let key = replace(stem, "_"@, "/"@);
        let module = replace(stem, "_:"@, "_"@);
        let entry = route_entry(key, n, module, "HandlerFn2"@);
        lemma_handler_routes_has(content, key, module, "HandlerFn2"@, names, n);
        lemma_route_table_has(files, i, entry);
        lemma_inserts_has(t.params, entry);
        crate::text::lemma_contains_trans(text, inserts(t.params), "map.insert"@ + entry + ";"@);
        lemma_param_insert_text(key, n, module);
    }
}

} // verus!
