use ubi::codegen::{
    generate_mod_rs, generate_mod_rs_middleware, generate_run_middleware, middleware_module_name,
    route_module_stem, set_name,
};

fn mod_rs_expected(modules: &str, routes: &str, params: &str, wsc: &str, wsm: &str, wscl: &str) -> String {
    format!(
        r#"
use std::collections::HashMap;
use lazy_static::lazy_static;
use crate::PgConnection;
use may::net::TcpStream;
use std::io;

#[cfg(feature = "ws")]
use may_minihttp::WsContext;

{}

pub type HandlerFn = fn(&PgConnection, may_minihttp::Request) -> Result<String, may_postgres::Error>;
pub type HandlerFn2 = fn(&PgConnection, may_minihttp::Request, &HashMap<String, String>) -> Result<String, may_postgres::Error>;

#[cfg(feature = "ws")]
pub type WsOnConnectHandler = fn(&str, &mut TcpStream, &mut WsContext) -> io::Result<()>;

#[cfg(feature = "ws")]
pub type WsOnMessageHandler = fn(&str, &mut TcpStream, &mut WsContext, Option<&str>) -> io::Result<()>;

#[cfg(feature = "ws")]
pub type WsOnCloseHandler = fn(&str, &mut TcpStream, &mut WsContext, u16, &str) -> io::Result<()>;

#[cfg(not(feature = "ws"))]
lazy_static! {{
    pub static ref ROUTES: HashMap<&'static str, HandlerFn> = {{
        let mut map = HashMap::new();
        {};
        map
    }};

    pub static ref PARAMETERIZED_ROUTES: HashMap<&'static str, HandlerFn2> = {{
        let mut map = HashMap::new();
        {};
        map
    }};

}}

#[cfg(feature = "ws")]
lazy_static! {{
    pub static ref ROUTES: HashMap<&'static str, HandlerFn> = {{
        let mut map = HashMap::new();
        {};
        map
    }};

    pub static ref PARAMETERIZED_ROUTES: HashMap<&'static str, HandlerFn2> = {{
        let mut map = HashMap::new();
        {};
        map
    }};

    pub static ref WS_ONCONNECT_ROUTES: HashMap<&'static str, WsOnConnectHandler> = {{
        let mut map = HashMap::new();
        {}
        map
    }};

    pub static ref WS_ONMESSAGE_ROUTES: HashMap<&'static str, WsOnMessageHandler> = {{
        let mut map = HashMap::new();
        {}
        map
    }};

    pub static ref WS_ONCLOSE_ROUTES: HashMap<&'static str, WsOnCloseHandler> = {{
        let mut map = HashMap::new();
        {}
        map
    }};
}}
"#,
        modules, routes, params, routes, params, wsc, wsm, wscl
    )
}

#[test]
fn mod_rs_for_plain_parameterized_and_ws_modules() {
    let files = vec![
        ("api_user".to_string(), "pub fn get(db) {}\npub fn post(db) {}".to_string()),
        ("api_user_:id".to_string(), "pub fn get(db, req, params) {}\npub fn delete(x) {}".to_string()),
        ("ws_chat".to_string(), "pub fn onconnect(p) {}\npub fn onmessage(p) {}".to_string()),
    ];
    let expected = mod_rs_expected(
        "pub mod api_user;\n#[path = \"api_user_:id.rs\"]\npub mod api_user_id;\npub mod ws_chat;",
        "map.insert(\"/api_user/get\", api_user::get as HandlerFn);\n        map.insert(\"/api_user/post\", api_user::post as HandlerFn);",
        "map.insert(\"/api/user/:id/get\", api_user_id::get as HandlerFn2);\n        map.insert(\"/api/user/:id/delete\", api_user_id::delete as HandlerFn2);",
        "map.insert(\"/ws/chat/onconnect\", ws_chat::onconnect as WsOnConnectHandler);",
        "map.insert(\"/ws/chat/onmessage\", ws_chat::onmessage as WsOnMessageHandler);",
        "",
    );
    assert_eq!(generate_mod_rs(&files), expected);
}

#[test]
fn mod_rs_without_modules() {
    assert_eq!(generate_mod_rs(&Vec::new()), mod_rs_expected("", "", "", "", "", ""));
}

#[test]
fn route_module_stems() {
    assert_eq!(route_module_stem("api_user.rs"), Some("api_user".to_string()));
    assert_eq!(route_module_stem("mod.rs"), None);
    assert_eq!(route_module_stem("api.ts"), None);
    assert_eq!(route_module_stem("rs"), None);
}

#[test]
fn middleware_module_names() {
    assert_eq!(middleware_module_name("api.rs"), Some("api".to_string()));
    assert_eq!(middleware_module_name("api_admin.rs"), Some("api_admin".to_string()));
    assert_eq!(middleware_module_name("mod.rs"), None);
    assert_eq!(middleware_module_name("notes.txt"), None);
}

#[test]
fn middleware_table() {
    let names = vec!["api".to_string(), "api_admin".to_string()];
    let expected = format!(
        r#"

use lazy_static::lazy_static;
use std::collections::HashMap;

        {}
pub type MiddlewareFn = fn(&mut may_minihttp::Response) -> bool;

lazy_static! {{
    pub static ref MIDDLEWARE_ROUTES: HashMap<&'static str, MiddlewareFn> = {{
        let mut map = HashMap::new();
        {};
        map
    }};

}}



    "#,
        "pub mod api;pub mod api_admin;",
        "map.insert(\"/api\", api::run_middleware as MiddlewareFn);\n        map.insert(\"/api/admin\", api_admin::run_middleware as MiddlewareFn);"
    );
    assert_eq!(generate_mod_rs_middleware(&names), expected);
}

#[test]
fn run_middleware_chains_enclosing_middleware() {
    let parents = vec![
        ("./.project_build/src/middleware/api.rs".to_string(), Some("pub fn middleware(res: &mut R) -> bool { true }".to_string())),
        ("./.project_build/src/middleware/api_user.rs".to_string(), None),
    ];
    let local = "pub fn middleware(res: &mut R) -> bool { false }";
    assert_eq!(
        generate_run_middleware(&parents, local),
        "use crate::middleware::api; pub fn run_middleware(res: &mut may_minihttp::Response) -> bool {if !api::middleware(res) { return false; }if !middleware(res) { return false; } return true; } pub fn middleware(res: &mut R) -> bool { false }"
    );
}

#[test]
fn run_middleware_skips_parents_without_middleware() {
    let parents = vec![("./.project_build/src/middleware/api.rs".to_string(), Some("fn helper() {}".to_string()))];
    assert_eq!(
        generate_run_middleware(&parents, "X"),
        " pub fn run_middleware(res: &mut may_minihttp::Response) -> bool {if !middleware(res) { return false; } return true; } X"
    );
}

#[test]
fn set_name_renames_package_lines() {
    let cargo = "[package]\nname = \"template\"\nversion = \"0.1.0\"\n\n[dependencies]\nrename = \"1\"\n";
    assert_eq!(
        set_name("shop", cargo),
        "[package]\nname = \"shop\"\nversion = \"0.1.0\"\n\n[dependencies]\nrename = \"1\""
    );
}
