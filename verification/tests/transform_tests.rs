use ubi::transform::{
    default_api_doc, document_handlers, finish_conversion, fix_query_params, model_source_paths, prepare_source,
    transform_spawn_shared, transform_type, update_struct_doc,
};

#[test]
fn query_params_are_borrowed() {
    assert_eq!(
        fix_query_params("db.query(sql, Some(&[id, name])); db.query(s2, Some(&[x]))"),
        "db.query(sql, Some(&[&id, &name])); db.query(s2, Some(&[&x]))"
    );
}

#[test]
fn empty_query_param_list_gets_lone_borrow() {
    assert_eq!(fix_query_params("Some(&[])"), "Some(&[&])");
}

#[test]
fn code_without_query_params_is_unchanged() {
    assert_eq!(fix_query_params("let v = vec![1, 2];"), "let v = vec![1, 2];");
}

#[test]
fn shared_handles_used_in_body_are_cloned() {
    let code = "spawn_shared((db, cache) => {\n  let x = db.get();\n\n  y\n})";
    assert_eq!(
        transform_spawn_shared(code),
        "let db_clone = std::sync::Arc::clone(&db);\nspawn_shared(let x = db_clone.get();\ny)"
    );
}

#[test]
fn shared_handle_used_twice_is_cloned_once() {
    let code = "spawn_shared((db, db) => { db.a(); db.b(); })";
    assert_eq!(
        transform_spawn_shared(code),
        "let db_clone = std::sync::Arc::clone(&db);\nspawn_shared(db_clone.a(); db_clone.b();)"
    );
}

#[test]
fn coroutine_without_parameters() {
    assert_eq!(transform_spawn_shared("spawn_shared(() => {\nrun();\n})"), "\nspawn_shared(run();)");
}

#[test]
fn intersection_types_are_merged() {
    let code = "type A = { id: number; name: string; };\ntype B = { id: number; age: number };\ntype C = A & B;";
    assert_eq!(
        transform_type(code),
        "type A = { id: number; name: string; };\ntype B = { id: number; age: number };\ntype C = {\n    id: number;\n    name: string;\n    age: number;\n};"
    );
}

#[test]
fn alias_of_unknown_type_is_empty() {
    assert_eq!(transform_type("type C = Missing;"), "type C = {\n    \n};");
}

#[test]
fn default_document_of_project() {
    assert_eq!(
        default_api_doc("shop", "A shop", "1.0"),
        "\nuse utoipa::OpenApi;\n\n#[derive(OpenApi)]\n#[openapi(\n    info(\n        title = \"shop\",\n        description = \"A shop\",\n        version = \"1.0\"\n    ),\n    paths(),\n    components(schemas()),\n    tags()\n)]\npub struct ApiDoc;"
    );
}

const HANDLER: &str = "// name users, about User list, 200 OK, 500 Failed, body User\npub fn get(db: &Db) -> Result<String, E> { Ok(x) }";

#[test]
fn handlers_get_documentation_attribute() {
    let (code, paths, tags, schemas) = document_handlers(HANDLER);
    assert_eq!(
        code,
        "\n#[utoipa::path(\n    get,\n    path = \"/users\",\n    responses(\n        (status = 200, description = \"OK\", body = User),\n        (status = 500, description = \"Failed\")\n    ),\n    tag = \"users\"\n)]\npub fn get(db: &Db) -> Result<String, E> { Ok(x) }"
    );
    assert_eq!(paths, vec!["get".to_string()]);
    assert_eq!(tags, vec!["(name = \"users\", description = \"User list\")".to_string()]);
    assert_eq!(schemas, vec!["User".to_string()]);
}

#[test]
fn unknown_handler_name_is_documented_as_get() {
    let code = "// name items, about Items, 201 Made, 500 Bad, body Item\npub fn create(x: i32) -> String { s }";
    let (out, paths, _, _) = document_handlers(code);
    assert!(out.starts_with("\n#[utoipa::path(\n    get,\n"));
    assert_eq!(paths, vec!["create".to_string()]);
}

#[test]
fn undocumented_code_is_unchanged() {
    let (code, paths, tags, schemas) = document_handlers("pub fn get() -> String { s }");
    assert_eq!(code, "pub fn get() -> String { s }");
    assert!(paths.is_empty() && tags.is_empty() && schemas.is_empty());
}

#[test]
fn document_lists_are_extended() {
    let doc = default_api_doc("shop", "d", "1");
    let updated = update_struct_doc(
        &doc,
        &vec!["get".to_string()],
        &vec!["(name = \"users\", description = \"User list\")".to_string()],
        &vec!["User".to_string()],
        "./.project_build/src/server/api_users.rs",
    );
    assert_eq!(
        updated,
        "use crate::server::api_users::*; \nuse utoipa::OpenApi;\n\n#[derive(OpenApi)]\n#[openapi(\n    info(\n        title = \"shop\",\n        description = \"d\",\n        version = \"1\"\n    ),\n    paths(get),\n    components(schemas(User)),\n    tags((name = \"users\", description = \"User list\"))\n)]\npub struct ApiDoc;"
    );
    let again = update_struct_doc(&updated, &vec!["post".to_string()], &Vec::new(), &vec!["Item".to_string()], "./.project_build/src/server/api_items.rs");
    assert!(again.starts_with("use crate::server::api_items::*; use crate::server::api_users::*; "));
    assert!(again.contains("paths(get, post)"));
    assert!(again.contains("schemas(User, Item)"));
}

#[test]
fn model_is_looked_up_beside_ts_server() {
    assert_eq!(
        model_source_paths("./.project_build/routes/user/server.ts"),
        Some(("./.project_build/routes/user/model.ts".to_string(), "./.project_build/routes/user/model.ts".to_string()))
    );
    assert_eq!(model_source_paths("./.project_build/routes/user/server.py"), None);
    assert_eq!(model_source_paths("./.project_build/routes/user/model.ts"), None);
}

#[test]
fn source_is_merged_with_model_types() {
    let src = "type Row = A & B;\n";
    let model = "type A = { id: number };\ntype B = { name: string };";
    assert_eq!(
        prepare_source(src, Some(model)),
        "type Row = {\n    id: number;\n    name: string;\n};\ntype A = { id: number };\ntype B = { name: string };"
    );
    assert_eq!(prepare_source("plain", None), "plain");
}

#[test]
fn conversion_is_finished_per_file_kind() {
    let (out, doc) = finish_conversion("q(Some(&[a]))", "routes/x/server.ts", "./.project_build/src/server/api_x.rs");
    assert_eq!(out, "use std::io::BufRead;q(Some(&[&a]))");
    assert!(doc);
    let (out, doc) = finish_conversion("q(Some(&[a]))", "routes/x/server.py", ".project_build/db/postgres/x_model.sql");
    assert_eq!(out, "q(Some(&[a]))");
    assert!(!doc);
}

#[test]
fn shared_handle_is_matched_literally() {
    assert_eq!(
        transform_spawn_shared("spawn_shared((a.b) => { axb(a.b) })"),
        "let a.b_clone = std::sync::Arc::clone(&a.b);\nspawn_shared(axb(a.b_clone))"
    );
}
