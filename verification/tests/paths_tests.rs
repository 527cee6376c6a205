use std::path::Path;
use ubi::paths::{
    cek_file, file_name_exec, find_parent_modules, middleware_output_path, server_output_path,
    should_rebuild, source_kind, split_name_exec, sql_output_path, ui_output_paths, SourceKind,
};

fn chars(s: &str) -> Vec<char> {
    s.chars().collect()
}

fn text(v: &[char]) -> String {
    v.iter().collect()
}

#[test]
fn cek_file_accepts_server_sources() {
    assert!(cek_file("server.ts"));
    assert!(cek_file("server.py"));
    assert!(cek_file("ws.js"));
    assert!(cek_file("middleware.ubi"));
    assert!(cek_file("./.project_build/routes/api/user/server.ts"));
    assert!(cek_file("./.project_build/routes/chat/ws.ts"));
}

#[test]
fn cek_file_rejects_other_files() {
    assert!(!cek_file("model.ts"));
    assert!(!cek_file("server.rs"));
    assert!(!cek_file("ui.ubi"));
    assert!(!cek_file("server"));
    assert!(!cek_file("servers.ts"));
    assert!(!cek_file(".ts"));
    assert!(!cek_file(""));
    assert!(!cek_file("routes/server.ts/.."));
}

#[test]
fn file_name_agrees_with_std_path() {
    let samples = [
        "a/b.txt", "a/b/", "a/b/.", "a/..", "/", "", ".", "..", "foo", "a//b", "./x", "/usr/lib/libpcre.so.3",
        ".project_build/routes/ui.ubi",
    ];
    for s in samples.iter() {
        let expected = Path::new(s).file_name().map(|n| n.to_str().unwrap().to_string());
        let got = file_name_exec(&chars(s)).map(|v| text(&v));
        assert_eq!(got, expected, "file name of {:?}", s);
    }
}

#[test]
fn stem_and_extension_agree_with_std_path() {
    let names = ["server.ts", "archive.tar.gz", ".hidden", "noext", "dot.", "a.b.c"];
    for n in names.iter() {
        let p = Path::new(n);
        let (stem, ext) = split_name_exec(&chars(n));
        assert_eq!(text(&stem), p.file_stem().unwrap().to_str().unwrap(), "stem of {:?}", n);
        assert_eq!(ext.map(|e| text(&e)), p.extension().map(|e| e.to_str().unwrap().to_string()), "extension of {:?}", n);
    }
}

#[test]
fn parent_modules_of_nested_middleware() {
    let parents = find_parent_modules("./.project_build/src/middleware/api_user_profile.rs");
    assert_eq!(
        parents,
        vec![
            "./.project_build/src/middleware/api.rs".to_string(),
            "./.project_build/src/middleware/api_user.rs".to_string(),
        ]
    );
}

#[test]
fn top_level_middleware_has_no_parent() {
    assert!(find_parent_modules("./.project_build/src/middleware/api.rs").is_empty());
}

#[test]
fn server_output_for_api_and_ws_routes() {
    assert_eq!(
        server_output_path("./.project_build/routes/api/user/server.ts"),
        "./.project_build/src/server/api_api_user.rs"
    );
    assert_eq!(server_output_path("./.project_build/routes/chat/ws.ts"), "./.project_build/src/server/ws_chat.rs");
    assert_eq!(server_output_path("./.project_build/routes/server.py"), "./.project_build/src/server/api.rs");
}

#[test]
fn ui_outputs_of_a_page() {
    let (html, index) = ui_output_paths("./.project_build/routes/about/ui.ubi");
    assert_eq!(html, "./.project_build/build/about/ui.html");
    assert_eq!(index, "./.project_build/build/about/index.html");
}

#[test]
fn sql_output_of_a_model() {
    assert_eq!(sql_output_path("./.project_build/routes/user/model.ts"), ".project_build/db/postgres/user_model.sql");
    assert_eq!(
        sql_output_path("./.project_build/routes/shop/item/model.ts"),
        ".project_build/db/postgres/shop_item_model.sql"
    );
}

#[test]
fn source_kinds_by_file_name() {
    assert_eq!(source_kind("routes/a/server.ts"), SourceKind::ServerTs);
    assert_eq!(source_kind("routes/a/server.py"), SourceKind::ServerPy);
    assert_eq!(source_kind("routes/a/ui.ubi"), SourceKind::UiUbi);
    assert_eq!(source_kind("routes/a/middleware.ts"), SourceKind::MiddlewareTs);
    assert_eq!(source_kind("routes/a/ws.ts"), SourceKind::Unsupported);
    assert_eq!(source_kind("routes/.."), SourceKind::NoFileName);
}

#[test]
fn middleware_output_moves_to_middleware_dir() {
    assert_eq!(
        middleware_output_path("./.project_build/src/server/api_admin.rs"),
        "./.project_build/src/middleware/api_admin.rs"
    );
}

#[test]
fn watcher_ignores_build_tree_changes() {
    let build = vec![".project_build/src/main.rs".to_string()];
    assert!(!should_rebuild(&build));
    let exact = vec!["src/a.rs".to_string(), ".project_build".to_string()];
    assert!(!should_rebuild(&exact));
    let outside = vec!["routes/ui.ubi".to_string(), "/home/u/app/.project_build/x".to_string()];
    assert!(should_rebuild(&outside));
    let similar = vec![".project_builder/x".to_string(), "./.project_build/x".to_string()];
    assert!(should_rebuild(&similar));
    assert!(should_rebuild(&Vec::new()));
}

#[test]
fn watcher_rule_agrees_with_std_path() {
    let samples = [".project_build/x", ".project_build", "./.project_build/x", "a/.project_build", ".project_build//y", ".project_buildx"];
    for s in samples.iter() {
        let expected = !Path::new(s).starts_with(".project_build");
        assert_eq!(should_rebuild(&vec![s.to_string()]), expected, "rebuild after {:?}", s);
    }
}
