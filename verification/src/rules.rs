//! Rewrite rules handed to the structural rewriter: pairs of match and
//! rewrite templates, per kind of source file.

use vstd::prelude::*;
use crate::text::{chars_of, contains, contains_exec, string_views};

verus! {

/// The texts of string literals.
pub open spec fn lit_views(lits: Seq<&str>) -> Seq<Seq<char>> {
    lits.map_values(|l: &str| l@)
}

/// Appends owned copies of `lits` to `out`.
fn push_lits(out: &mut Vec<String>, lits: &[&str])
    ensures
        string_views(final(out)@) == string_views(old(out)@) + lit_views(lits@),
{
    let mut k: usize = 0;
    while k < lits.len()
        invariant
            k <= lits@.len(),
            string_views(out@) == string_views(old(out)@) + lit_views(lits@.take(k as int)),
        decreases lits@.len() - k,
    {
        let ghost before = string_views(out@);
        out.push(lits[k].to_owned());
        assert(lit_views(lits@.take(k + 1)) =~= lit_views(lits@.take(k as int)).push(lits@[k as int]@));
        assert(string_views(out@) =~= before.push(lits@[k as int]@));
        k = k + 1;
    }
    assert(lits@.take(lits@.len() as int) =~= lits@);
}

/// Match templates for `middleware.ts` sources.
pub open spec fn middleware_inputs() -> Seq<Seq<char>> {
    seq![
        "function middleware(): boolean { :[1] }"@,
        r#"// json
        type :[1] = { :[2] };"#@,
        r#"type :[1] = { :[2] };"#@,
        ":[1]: string;"@,
        ":[1]: number;"@,
        ":[1]: boolean"@,
        "function :[1](:[2]): string {\n:[4]\n}"@,
        "function :[1](:[2]): :[3] {\n:[4]\n}"@,
        "ubi.json(:[1])"@,
        "ubi.req.params(:[1])"@,
        "console.log(:[1])"@,
        "\":[1]\""@,
        "let :[1]: :[2] = ubi.query(:[3].to_string())"@,
        "ubi.query(:[1].to_string(), null)"@,
        "ubi.query(:[1].to_string(), :[2])"@,
        "let :[1]: :[2] = db.query(:[3])"@,
        "= [:[1]]"@,
        "([:[1]])"@,
        "Array<:[1]>"@,
        ": :[1][]"@,
        "\"{:?}\".to_string()"@,
        ": :[1] = {:[2]}"@,
        "ubi.req.data"@,
        "spawn_isolated(() => {:[1]})"@,
        "spawn_shared(:[1])"@,
        "shared(:[1])"@,
        "lock(:[1])"@,
        "null"@,
        ": string ="@,
        "ubi.res(:[1])"@,
    ]
}

/// Appends `middleware_inputs` to `out`.
fn push_middleware_inputs(out: &mut Vec<String>)
    ensures
        string_views(final(out)@) == string_views(old(out)@) + middleware_inputs(),
{
    let lits: &[&str] = &[
        "function middleware(): boolean { :[1] }",
        r#"// json
        type :[1] = { :[2] };"#,
        r#"type :[1] = { :[2] };"#,
        ":[1]: string;",
        ":[1]: number;",
        ":[1]: boolean",
        "function :[1](:[2]): string {\n:[4]\n}",
        "function :[1](:[2]): :[3] {\n:[4]\n}",
        "ubi.json(:[1])",
        "ubi.req.params(:[1])",
        "console.log(:[1])",
        "\":[1]\"",
        "let :[1]: :[2] = ubi.query(:[3].to_string())",
        "ubi.query(:[1].to_string(), null)",
        "ubi.query(:[1].to_string(), :[2])",
        "let :[1]: :[2] = db.query(:[3])",
        "= [:[1]]",
        "([:[1]])",
        "Array<:[1]>",
        ": :[1][]",
        "\"{:?}\".to_string()",
        ": :[1] = {:[2]}",
        "ubi.req.data",
        "spawn_isolated(() => {:[1]})",
        "spawn_shared(:[1])",
        "shared(:[1])",
        "lock(:[1])",
        "null",
        ": string =",
        "ubi.res(:[1])",
    ];
    assert(lit_views(lits@) =~= middleware_inputs());
    push_lits(out, lits);
}

/// Rewrite templates for `middleware.ts` sources.
pub open spec fn middleware_outputs() -> Seq<Seq<char>> {
    seq![
        "pub fn middleware(res: &mut may_minihttp::Response) -> bool { :[1] }"@,
        r#"#[derive(Debug, serde::Deserialize, serde::Serialize, utoipa::ToSchema)]
        pub struct :[1] { :[2] }"#@,
        "struct :[1] { :[2] }"@,
        ":[1]: String,"@,
        ":[1]: i32,"@,
        ":[1]: bool"@,
        "fn :[1](:[2]) -> String {\n:[4]\n}"@,
        "fn :[1](:[2]) -> :[3] {\n:[4]\n}"@,
        "serde_json::json!(&:[1]).to_string()"@,
        "req_params.get(&:[1])"@,
        "println!(\"{:?}\", :[1])"@,
        "\":[1]\".to_string()"@,
        "let :[1] = db.query(:[3])?"@,
        "db.query(:[1], None)?"@,
        "db.query(:[1], Some(&:[2]))?"@,
        "let :[1] = db.query(:[3])"@,
        "= vec![:[1]]"@,
        "(vec![:[1]])"@,
        "Vec<:[1]>"@,
        ": Vec<:[1]>"@,
        "\"{:?}\""@,
        " = :[1] {:[2]}"@,
        "serde_json::from_slice(req.body().fill_buf().unwrap()).unwrap()"@,
        "go!(move || { :[1] })"@,
        "go!(move || { :[1] })"@,
        "std::sync::Arc::new(may::sync::Mutex::new(:[1]))"@,
        ":[1].lock().unwrap()"@,
        "None"@,
        ": String ="@,
        "res.body_vec(:[1].into_bytes())"@,
    ]
}

/// Appends `middleware_outputs` to `out`.
fn push_middleware_outputs(out: &mut Vec<String>)
    ensures
        string_views(final(out)@) == string_views(old(out)@) + middleware_outputs(),
{
    let lits: &[&str] = &[
        "pub fn middleware(res: &mut may_minihttp::Response) -> bool { :[1] }",
        r#"#[derive(Debug, serde::Deserialize, serde::Serialize, utoipa::ToSchema)]
        pub struct :[1] { :[2] }"#,
        "struct :[1] { :[2] }",
        ":[1]: String,",
        ":[1]: i32,",
        ":[1]: bool",
        "fn :[1](:[2]) -> String {\n:[4]\n}",
        "fn :[1](:[2]) -> :[3] {\n:[4]\n}",
        "serde_json::json!(&:[1]).to_string()",
        "req_params.get(&:[1])",
        "println!(\"{:?}\", :[1])",
        "\":[1]\".to_string()",
        "let :[1] = db.query(:[3])?",
        "db.query(:[1], None)?",
        "db.query(:[1], Some(&:[2]))?",
        "let :[1] = db.query(:[3])",
        "= vec![:[1]]",
        "(vec![:[1]])",
        "Vec<:[1]>",
        ": Vec<:[1]>",
        "\"{:?}\"",
        " = :[1] {:[2]}",
        "serde_json::from_slice(req.body().fill_buf().unwrap()).unwrap()",
        "go!(move || { :[1] })",
        "go!(move || { :[1] })",
        "std::sync::Arc::new(may::sync::Mutex::new(:[1]))",
        ":[1].lock().unwrap()",
        "None",
        ": String =",
        "res.body_vec(:[1].into_bytes())",
    ];
    assert(lit_views(lits@) =~= middleware_outputs());
    push_lits(out, lits);
}

/// Match templates for the request handlers of ts sources.
pub open spec fn ts_handler_inputs() -> Seq<Seq<char>> {
    seq![
        "function get(): string {:[1] return :[2]; }"@,
        "function post(): string {:[1] return :[2]; }"@,
        "function update(): string {:[1] return :[2]; }"@,
        "function delete(): string {:[1] return :[2]; }"@,
    ]
}

/// Appends `ts_handler_inputs` to `out`.
fn push_ts_handler_inputs(out: &mut Vec<String>)
    ensures
        string_views(final(out)@) == string_views(old(out)@) + ts_handler_inputs(),
{
    let lits: &[&str] = &[
        "function get(): string {:[1] return :[2]; }",
        "function post(): string {:[1] return :[2]; }",
        "function update(): string {:[1] return :[2]; }",
        "function delete(): string {:[1] return :[2]; }",
    ];
    assert(lit_views(lits@) =~= ts_handler_inputs());
    push_lits(out, lits);
}

/// Rewrite templates for the handlers of a parameterized route (ts sources).
pub open spec fn ts_handler_outputs_with_params() -> Seq<Seq<char>> {
    seq![
        "pub fn get(db: &crate::PgConnection, req: may_minihttp::Request, req_params: &std::collections::HashMap<String, String>) -> Result<String, may_postgres::Error> {\n:[1]\n return Ok(:[2]); }"@,
        "pub fn post(db: &crate::PgConnection, req: may_minihttp::Request, req_params: &std::collections::HashMap<String, String>) -> Result<String, may_postgres::Error> {\n:[1]\n return Ok(:[2]); }"@,
        "pub fn update(db: &crate::PgConnection, req: may_minihttp::Request, req_params: &std::collections::HashMap<String, String>) -> Result<String, may_postgres::Error> {\n:[1]\n return Ok(:[2]); }"@,
        "pub fn delete(db: &crate::PgConnection, req: may_minihttp::Request, req_params: &std::collections::HashMap<String, String>) -> Result<String, may_postgres::Error> {\n:[1]\n return Ok(:[2]); }"@,
    ]
}

/// Appends `ts_handler_outputs_with_params` to `out`.
fn push_ts_handler_outputs_with_params(out: &mut Vec<String>)
    ensures
        string_views(final(out)@) == string_views(old(out)@) + ts_handler_outputs_with_params(),
{
    let lits: &[&str] = &[
        "pub fn get(db: &crate::PgConnection, req: may_minihttp::Request, req_params: &std::collections::HashMap<String, String>) -> Result<String, may_postgres::Error> {\n:[1]\n return Ok(:[2]); }",
        "pub fn post(db: &crate::PgConnection, req: may_minihttp::Request, req_params: &std::collections::HashMap<String, String>) -> Result<String, may_postgres::Error> {\n:[1]\n return Ok(:[2]); }",
        "pub fn update(db: &crate::PgConnection, req: may_minihttp::Request, req_params: &std::collections::HashMap<String, String>) -> Result<String, may_postgres::Error> {\n:[1]\n return Ok(:[2]); }",
        "pub fn delete(db: &crate::PgConnection, req: may_minihttp::Request, req_params: &std::collections::HashMap<String, String>) -> Result<String, may_postgres::Error> {\n:[1]\n return Ok(:[2]); }",
    ];
    assert(lit_views(lits@) =~= ts_handler_outputs_with_params());
    push_lits(out, lits);
}

/// Rewrite templates for the handlers of a plain route (ts sources).
pub open spec fn ts_handler_outputs() -> Seq<Seq<char>> {
    seq![
        "pub fn get(db: &crate::PgConnection, req: may_minihttp::Request) -> Result<String, may_postgres::Error> {\n:[1]\n return Ok(:[2]); }"@,
        "pub fn post(db: &crate::PgConnection, req: may_minihttp::Request) -> Result<String, may_postgres::Error> {\n:[1]\n return Ok(:[2]); }"@,
        "pub fn update(db: &crate::PgConnection, req: may_minihttp::Request) -> Result<String, may_postgres::Error> {\n:[1]\n return Ok(:[2]); }"@,
        "pub fn delete(db: &crate::PgConnection, req: may_minihttp::Request) -> Result<String, may_postgres::Error> {\n:[1]\n return Ok(:[2]); }"@,
    ]
}

/// Appends `ts_handler_outputs` to `out`.
fn push_ts_handler_outputs(out: &mut Vec<String>)
    ensures
        string_views(final(out)@) == string_views(old(out)@) + ts_handler_outputs(),
{
    let lits: &[&str] = &[
        "pub fn get(db: &crate::PgConnection, req: may_minihttp::Request) -> Result<String, may_postgres::Error> {\n:[1]\n return Ok(:[2]); }",
        "pub fn post(db: &crate::PgConnection, req: may_minihttp::Request) -> Result<String, may_postgres::Error> {\n:[1]\n return Ok(:[2]); }",
        "pub fn update(db: &crate::PgConnection, req: may_minihttp::Request) -> Result<String, may_postgres::Error> {\n:[1]\n return Ok(:[2]); }",
        "pub fn delete(db: &crate::PgConnection, req: may_minihttp::Request) -> Result<String, may_postgres::Error> {\n:[1]\n return Ok(:[2]); }",
    ];
    assert(lit_views(lits@) =~= ts_handler_outputs());
    push_lits(out, lits);
}

/// Match templates for the statements of ts sources.
pub open spec fn ts_rule_inputs() -> Seq<Seq<char>> {
    seq![
        "function onmessage(:[2]) {:[1]}"@,
        "function onconnect(:[2]) {:[1]}"@,
        "function onclose(:[2]) {:[1]}"@,
        "ws.send(:[1])"@,
        "ws.msg()"@,
        r#"// json
        type :[1] = { :[2] };"#@,
        r#"type :[1] = { :[2] };"#@,
        ":[1]: string;"@,
        ":[1]: number;"@,
        ":[1]: boolean"@,
        "function :[1](:[2]): string {\n:[4]\n}"@,
        "function :[1](:[2]): :[3] {\n:[4]\n}"@,
        "ubi.json(:[1])"@,
        "ubi.req.params(:[1])"@,
        "console.log(:[1])"@,
        "\":[1]\""@,
        "let :[1]: :[2] = ubi.query(:[3].to_string())"@,
        "ubi.query(:[1].to_string(), null)"@,
        "ubi.query(:[1].to_string(), :[2])"@,
        "let :[1]: :[2] = db.query(:[3])"@,
        "= [:[1]]"@,
        "([:[1]])"@,
        "Array<:[1]>"@,
        ": :[1][]"@,
        "\"{:?}\".to_string()"@,
        ": :[1] = {:[2]}"@,
        "ubi.req.data"@,
        "spawn_isolated(() => {:[1]})"@,
        "spawn_shared(:[1])"@,
        "shared(:[1])"@,
        "lock(:[1])"@,
        "null"@,
        ": string ="@,
    ]
}

/// Appends `ts_rule_inputs` to `out`.
fn push_ts_rule_inputs(out: &mut Vec<String>)
    ensures
        string_views(final(out)@) == string_views(old(out)@) + ts_rule_inputs(),
{
    let lits: &[&str] = &[
        "function onmessage(:[2]) {:[1]}",
        "function onconnect(:[2]) {:[1]}",
        "function onclose(:[2]) {:[1]}",
        "ws.send(:[1])",
        "ws.msg()",
        r#"// json
        type :[1] = { :[2] };"#,
        r#"type :[1] = { :[2] };"#,
        ":[1]: string;",
        ":[1]: number;",
        ":[1]: boolean",
        "function :[1](:[2]): string {\n:[4]\n}",
        "function :[1](:[2]): :[3] {\n:[4]\n}",
        "ubi.json(:[1])",
        "ubi.req.params(:[1])",
        "console.log(:[1])",
        "\":[1]\"",
        "let :[1]: :[2] = ubi.query(:[3].to_string())",
        "ubi.query(:[1].to_string(), null)",
        "ubi.query(:[1].to_string(), :[2])",
        "let :[1]: :[2] = db.query(:[3])",
        "= [:[1]]",
        "([:[1]])",
        "Array<:[1]>",
        ": :[1][]",
        "\"{:?}\".to_string()",
        ": :[1] = {:[2]}",
        "ubi.req.data",
        "spawn_isolated(() => {:[1]})",
        "spawn_shared(:[1])",
        "shared(:[1])",
        "lock(:[1])",
        "null",
        ": string =",
    ];
    assert(lit_views(lits@) =~= ts_rule_inputs());
    push_lits(out, lits);
}

/// Rewrite templates for the statements of ts sources.
pub open spec fn ts_rule_outputs() -> Seq<Seq<char>> {
    seq![
        "pub fn onmessage(path: &str, stream: &mut may::net::TcpStream, ctx: &mut may_minihttp::WsContext, msg: Option<&str>) -> std::io::Result<()> {
    let msg = msg.unwrap();

            :[1]

    Ok(())
}"@,
        "pub fn onconnect(path: &str, stream: &mut may::net::TcpStream, ctx: &mut may_minihttp::WsContext) -> std::io::Result<()> {
            :[1]

    Ok(())
}"@,
        "pub fn onclose(path: &str, stream: &mut may::net::TcpStream, ctx: &mut may_minihttp::WsContext, code: u16, reason: &str) -> std::io::Result<()> {

            :[1]

    Ok(())
}"@,
        "ctx.send_text(stream, :[1])"@,
        "msg"@,
        r#"#[derive(Debug, serde::Deserialize, serde::Serialize, utoipa::ToSchema)]
        pub struct :[1] { :[2] }"#@,
        "struct :[1] { :[2] }"@,
        ":[1]: String,"@,
        ":[1]: i32,"@,
        ":[1]: bool"@,
        "fn :[1](:[2]) -> String {\n:[4]\n}"@,
        "fn :[1](:[2]) -> :[3] {\n:[4]\n}"@,
        "serde_json::json!(&:[1]).to_string()"@,
        "req_params.get(&:[1])"@,
        "println!(\"{:?}\", :[1])"@,
        "\":[1]\".to_string()"@,
        "let :[1] = db.query(:[3])?"@,
        "db.query(:[1], None)?"@,
        "db.query(:[1], Some(&:[2]))?"@,
        "let :[1] = db.query(:[3])"@,
        "= vec![:[1]]"@,
        "(vec![:[1]])"@,
        "Vec<:[1]>"@,
        ": Vec<:[1]>"@,
        "\"{:?}\""@,
        " = :[1] {:[2]}"@,
        "serde_json::from_slice(req.body().fill_buf().unwrap()).unwrap()"@,
        "go!(move || { :[1] })"@,
        "go!(move || { :[1] })"@,
        "std::sync::Arc::new(may::sync::Mutex::new(:[1]))"@,
        ":[1].lock().unwrap()"@,
        "None"@,
        ": String ="@,
    ]
}

/// Appends `ts_rule_outputs` to `out`.
fn push_ts_rule_outputs(out: &mut Vec<String>)
    ensures
        string_views(final(out)@) == string_views(old(out)@) + ts_rule_outputs(),
{
    let lits: &[&str] = &[
        "pub fn onmessage(path: &str, stream: &mut may::net::TcpStream, ctx: &mut may_minihttp::WsContext, msg: Option<&str>) -> std::io::Result<()> {
    let msg = msg.unwrap();

            :[1]

    Ok(())
}",
        "pub fn onconnect(path: &str, stream: &mut may::net::TcpStream, ctx: &mut may_minihttp::WsContext) -> std::io::Result<()> {
            :[1]

    Ok(())
}",
        "pub fn onclose(path: &str, stream: &mut may::net::TcpStream, ctx: &mut may_minihttp::WsContext, code: u16, reason: &str) -> std::io::Result<()> {

            :[1]

    Ok(())
}",
        "ctx.send_text(stream, :[1])",
        "msg",
        r#"#[derive(Debug, serde::Deserialize, serde::Serialize, utoipa::ToSchema)]
        pub struct :[1] { :[2] }"#,
        "struct :[1] { :[2] }",
        ":[1]: String,",
        ":[1]: i32,",
        ":[1]: bool",
        "fn :[1](:[2]) -> String {\n:[4]\n}",
        "fn :[1](:[2]) -> :[3] {\n:[4]\n}",
        "serde_json::json!(&:[1]).to_string()",
        "req_params.get(&:[1])",
        "println!(\"{:?}\", :[1])",
        "\":[1]\".to_string()",
        "let :[1] = db.query(:[3])?",
        "db.query(:[1], None)?",
        "db.query(:[1], Some(&:[2]))?",
        "let :[1] = db.query(:[3])",
        "= vec![:[1]]",
        "(vec![:[1]])",
        "Vec<:[1]>",
        ": Vec<:[1]>",
        "\"{:?}\"",
        " = :[1] {:[2]}",
        "serde_json::from_slice(req.body().fill_buf().unwrap()).unwrap()",
        "go!(move || { :[1] })",
        "go!(move || { :[1] })",
        "std::sync::Arc::new(may::sync::Mutex::new(:[1]))",
        ":[1].lock().unwrap()",
        "None",
        ": String =",
    ];
    assert(lit_views(lits@) =~= ts_rule_outputs());
    push_lits(out, lits);
}

/// Match templates for the request handlers of py sources.
pub open spec fn py_handler_inputs() -> Seq<Seq<char>> {
    seq![
        "pub fn get() -> String {:[1] return :[2]; }"@,
        "pub fn post() -> String {:[1] return :[2]; }"@,
        "pub fn update() -> String {:[1] return :[2]; }"@,
        "pub fn delete() -> String {:[1] return :[2]; }"@,
    ]
}

/// Appends `py_handler_inputs` to `out`.
fn push_py_handler_inputs(out: &mut Vec<String>)
    ensures
        string_views(final(out)@) == string_views(old(out)@) + py_handler_inputs(),
{
    let lits: &[&str] = &[
        "pub fn get() -> String {:[1] return :[2]; }",
        "pub fn post() -> String {:[1] return :[2]; }",
        "pub fn update() -> String {:[1] return :[2]; }",
        "pub fn delete() -> String {:[1] return :[2]; }",
    ];
    assert(lit_views(lits@) =~= py_handler_inputs());
    push_lits(out, lits);
}

/// Rewrite templates for the handlers of a parameterized route (py sources).
pub open spec fn py_handler_outputs_with_params() -> Seq<Seq<char>> {
    seq![
        "pub fn get(db: &crate::PgConnection, req: may_minihttp::Request, req_params: &std::collections::HashMap) -> Result<String, may_postgres::Error> {\n:[1]\n return Ok(:[2]); }"@,
        "pub fn post(db: &crate::PgConnection, req: may_minihttp::Request, req_params: &std::collections::HashMap) -> Result<String, may_postgres::Error> {\n:[1]\n return Ok(:[2]); }"@,
        "pub fn update(db: &crate::PgConnection, req: may_minihttp::Request, req_params: &std::collections::HashMap) -> Result<String, may_postgres::Error> {\n:[1]\n return Ok(:[2]); }"@,
        "pub fn delete(db: &crate::PgConnection, req: may_minihttp::Request, req_params: &std::collections::HashMap) -> Result<String, may_postgres::Error> {\n:[1]\n return Ok(:[2]); }"@,
    ]
}

/// Appends `py_handler_outputs_with_params` to `out`.
fn push_py_handler_outputs_with_params(out: &mut Vec<String>)
    ensures
        string_views(final(out)@) == string_views(old(out)@) + py_handler_outputs_with_params(),
{
    let lits: &[&str] = &[
        "pub fn get(db: &crate::PgConnection, req: may_minihttp::Request, req_params: &std::collections::HashMap) -> Result<String, may_postgres::Error> {\n:[1]\n return Ok(:[2]); }",
        "pub fn post(db: &crate::PgConnection, req: may_minihttp::Request, req_params: &std::collections::HashMap) -> Result<String, may_postgres::Error> {\n:[1]\n return Ok(:[2]); }",
        "pub fn update(db: &crate::PgConnection, req: may_minihttp::Request, req_params: &std::collections::HashMap) -> Result<String, may_postgres::Error> {\n:[1]\n return Ok(:[2]); }",
        "pub fn delete(db: &crate::PgConnection, req: may_minihttp::Request, req_params: &std::collections::HashMap) -> Result<String, may_postgres::Error> {\n:[1]\n return Ok(:[2]); }",
    ];
    assert(lit_views(lits@) =~= py_handler_outputs_with_params());
    push_lits(out, lits);
}

/// Rewrite templates for the handlers of a plain route (py sources).
pub open spec fn py_handler_outputs() -> Seq<Seq<char>> {
    seq![
        "pub fn get(db: &crate::PgConnection, req: may_minihttp::Request) -> Result<String, may_postgres::Error> {\n:[1]\n return Ok(:[2]); }"@,
        "pub fn post(db: &crate::PgConnection, req: may_minihttp::Request) -> Result<String, may_postgres::Error> {\n:[1]\n return Ok(:[2]); }"@,
        "pub fn update(db: &crate::PgConnection, req: may_minihttp::Request) -> Result<String, may_postgres::Error> {\n:[1]\n return Ok(:[2]); }"@,
        "pub fn delete(db: &crate::PgConnection, req: may_minihttp::Request) -> Result<String, may_postgres::Error> {\n:[1]\n return Ok(:[2]); }"@,
    ]
}

/// Appends `py_handler_outputs` to `out`.
fn push_py_handler_outputs(out: &mut Vec<String>)
    ensures
        string_views(final(out)@) == string_views(old(out)@) + py_handler_outputs(),
{
    let lits: &[&str] = &[
        "pub fn get(db: &crate::PgConnection, req: may_minihttp::Request) -> Result<String, may_postgres::Error> {\n:[1]\n return Ok(:[2]); }",
        "pub fn post(db: &crate::PgConnection, req: may_minihttp::Request) -> Result<String, may_postgres::Error> {\n:[1]\n return Ok(:[2]); }",
        "pub fn update(db: &crate::PgConnection, req: may_minihttp::Request) -> Result<String, may_postgres::Error> {\n:[1]\n return Ok(:[2]); }",
        "pub fn delete(db: &crate::PgConnection, req: may_minihttp::Request) -> Result<String, may_postgres::Error> {\n:[1]\n return Ok(:[2]); }",
    ];
    assert(lit_views(lits@) =~= py_handler_outputs());
    push_lits(out, lits);
}

/// Match templates for the statements of py sources.
pub open spec fn py_rule_inputs() -> Seq<Seq<char>> {
    seq![
        "&str"@,
        "ubi.json(:[1])"@,
        "ubi.req.params(:[1])"@,
        ": String = None"@,
        "impl :[1] { :[2] }"@,
        ": :[1] = ubi.query(:[2])"@,
        "ubi.query(:[2])"@,
        "ubi.req.data"@,
        "#json"@,
    ]
}

/// Appends `py_rule_inputs` to `out`.
fn push_py_rule_inputs(out: &mut Vec<String>)
    ensures
        string_views(final(out)@) == string_views(old(out)@) + py_rule_inputs(),
{
    let lits: &[&str] = &[
        "&str",
        "ubi.json(:[1])",
        "ubi.req.params(:[1])",
        ": String = None",
        "impl :[1] { :[2] }",
        ": :[1] = ubi.query(:[2])",
        "ubi.query(:[2])",
        "ubi.req.data",
        "#json",
    ];
    assert(lit_views(lits@) =~= py_rule_inputs());
    push_lits(out, lits);
}

/// Rewrite templates for the statements of py sources.
pub open spec fn py_rule_outputs() -> Seq<Seq<char>> {
    seq![
        "String"@,
        "serde_json::json!(:[1]).to_string()"@,
        "req_params.get(&:[1])"@,
        ": String = String::new()"@,
        ""@,
        " = db.query(:[2])?"@,
        "db.query(:[2])?"@,
        "serde_json::from_slice(req.body().fill_buf().unwrap()).unwrap()"@,
        "#[derive(Debug, serde::Serialize, serde::Deserialize)]"@,
    ]
}

/// Appends `py_rule_outputs` to `out`.
fn push_py_rule_outputs(out: &mut Vec<String>)
    ensures
        string_views(final(out)@) == string_views(old(out)@) + py_rule_outputs(),
{
    let lits: &[&str] = &[
        "String",
        "serde_json::json!(:[1]).to_string()",
        "req_params.get(&:[1])",
        ": String = String::new()",
        "",
        " = db.query(:[2])?",
        "db.query(:[2])?",
        "serde_json::from_slice(req.body().fill_buf().unwrap()).unwrap()",
        "#[derive(Debug, serde::Serialize, serde::Deserialize)]",
    ];
    assert(lit_views(lits@) =~= py_rule_outputs());
    push_lits(out, lits);
}

/// Match templates for the request handlers of ubi sources.
pub open spec fn ubi_handler_inputs() -> Seq<Seq<char>> {
    seq![
        "f get(): text {:[1] >> :[2] }"@,
        "f post(): text {:[1] >> :[2] }"@,
        "f update(): text {:[1] >> :[2] }"@,
        "f delete(): text {:[1] >> :[2] }"@,
    ]
}

/// Appends `ubi_handler_inputs` to `out`.
fn push_ubi_handler_inputs(out: &mut Vec<String>)
    ensures
        string_views(final(out)@) == string_views(old(out)@) + ubi_handler_inputs(),
{
    let lits: &[&str] = &[
        "f get(): text {:[1] >> :[2] }",
        "f post(): text {:[1] >> :[2] }",
        "f update(): text {:[1] >> :[2] }",
        "f delete(): text {:[1] >> :[2] }",
    ];
    assert(lit_views(lits@) =~= ubi_handler_inputs());
    push_lits(out, lits);
}

/// Rewrite templates for the handlers of a parameterized route (ubi sources).
pub open spec fn ubi_handler_outputs_with_params() -> Seq<Seq<char>> {
    seq![
        "pub fn get(db: &crate::PgConnection, req: may_minihttp::Request, req_params: &std::collections::HashMap<String, String>) -> Result<String, may_postgres::Error> {\n:[1]\n return Ok(:[2]); }"@,
        "pub fn post(db: &crate::PgConnection, req: may_minihttp::Request, req_params: &std::collections::HashMap<String, String>) -> Result<String, may_postgres::Error> {\n:[1]\n return Ok(:[2]); }"@,
        "pub fn update(db: &crate::PgConnection, req: may_minihttp::Request, req_params: &std::collections::HashMap<String, String>) -> Result<String, may_postgres::Error> {\n:[1]\n return Ok(:[2]); }"@,
        "pub fn delete(db: &crate::PgConnection, req: may_minihttp::Request, req_params: &std::collections::HashMap<String, String>) -> Result<String, may_postgres::Error> {\n:[1]\n return Ok(:[2]); }"@,
    ]
}

/// Appends `ubi_handler_outputs_with_params` to `out`.
fn push_ubi_handler_outputs_with_params(out: &mut Vec<String>)
    ensures
        string_views(final(out)@) == string_views(old(out)@) + ubi_handler_outputs_with_params(),
{
    let lits: &[&str] = &[
        "pub fn get(db: &crate::PgConnection, req: may_minihttp::Request, req_params: &std::collections::HashMap<String, String>) -> Result<String, may_postgres::Error> {\n:[1]\n return Ok(:[2]); }",
        "pub fn post(db: &crate::PgConnection, req: may_minihttp::Request, req_params: &std::collections::HashMap<String, String>) -> Result<String, may_postgres::Error> {\n:[1]\n return Ok(:[2]); }",
        "pub fn update(db: &crate::PgConnection, req: may_minihttp::Request, req_params: &std::collections::HashMap<String, String>) -> Result<String, may_postgres::Error> {\n:[1]\n return Ok(:[2]); }",
        "pub fn delete(db: &crate::PgConnection, req: may_minihttp::Request, req_params: &std::collections::HashMap<String, String>) -> Result<String, may_postgres::Error> {\n:[1]\n return Ok(:[2]); }",
    ];
    assert(lit_views(lits@) =~= ubi_handler_outputs_with_params());
    push_lits(out, lits);
}

/// Rewrite templates for the handlers of a plain route (ubi sources).
pub open spec fn ubi_handler_outputs() -> Seq<Seq<char>> {
    seq![
        "pub fn get(db: &crate::PgConnection, req: may_minihttp::Request) -> Result<String, may_postgres::Error> {\n:[1]\n return Ok(:[2]); }"@,
        "pub fn post(db: &crate::PgConnection, req: may_minihttp::Request) -> Result<String, may_postgres::Error> {\n:[1]\n return Ok(:[2]); }"@,
        "pub fn update(db: &crate::PgConnection, req: may_minihttp::Request) -> Result<String, may_postgres::Error> {\n:[1]\n return Ok(:[2]); }"@,
        "pub fn delete(db: &crate::PgConnection, req: may_minihttp::Request) -> Result<String, may_postgres::Error> {\n:[1]\n return Ok(:[2]); }"@,
    ]
}

/// Appends `ubi_handler_outputs` to `out`.
fn push_ubi_handler_outputs(out: &mut Vec<String>)
    ensures
        string_views(final(out)@) == string_views(old(out)@) + ubi_handler_outputs(),
{
    let lits: &[&str] = &[
        "pub fn get(db: &crate::PgConnection, req: may_minihttp::Request) -> Result<String, may_postgres::Error> {\n:[1]\n return Ok(:[2]); }",
        "pub fn post(db: &crate::PgConnection, req: may_minihttp::Request) -> Result<String, may_postgres::Error> {\n:[1]\n return Ok(:[2]); }",
        "pub fn update(db: &crate::PgConnection, req: may_minihttp::Request) -> Result<String, may_postgres::Error> {\n:[1]\n return Ok(:[2]); }",
        "pub fn delete(db: &crate::PgConnection, req: may_minihttp::Request) -> Result<String, may_postgres::Error> {\n:[1]\n return Ok(:[2]); }",
    ];
    assert(lit_views(lits@) =~= ubi_handler_outputs());
    push_lits(out, lits);
}

/// Match templates for the statements of ubi sources.
pub open spec fn ubi_rule_inputs() -> Seq<Seq<char>> {
    seq![
        ":[1] :[2] = ubi.query(:[3])"@,
        "ubi.query(:[1])"@,
        "f :[1] (:[2]): :[3] {:[4]}"@,
        "f :[1] (:[2]) {:[3]}"@,
        ":[1] := \":[2]\""@,
        ":[1]: := :[2]"@,
        "= \":[1]\""@,
        ":[1] = :[2]"@,
        ": text"@,
        "text :[1]"@,
        "text :[1]"@,
        "int :[1]"@,
        "float :[1]"@,
        "[:[1]] :[2]"@,
        "bol :[1]"@,
        "type :[1] { :[2] }"@,
        "show(:[1])"@,
        "for :[1] = :[2]..:[3] { :[4] }"@,
        "for :[1] in :[2] { :[3] }"@,
        " break "@,
        ">> :[1]"@,
        ">>"@,
        ": [:[1]]"@,
    ]
}

/// Appends `ubi_rule_inputs` to `out`.
fn push_ubi_rule_inputs(out: &mut Vec<String>)
    ensures
        string_views(final(out)@) == string_views(old(out)@) + ubi_rule_inputs(),
{
    let lits: &[&str] = &[
        ":[1] :[2] = ubi.query(:[3])",
        "ubi.query(:[1])",
        "f :[1] (:[2]): :[3] {:[4]}",
        "f :[1] (:[2]) {:[3]}",
        ":[1] := \":[2]\"",
        ":[1]: := :[2]",
        "= \":[1]\"",
        ":[1] = :[2]",
        ": text",
        "text :[1]",
        "text :[1]",
        "int :[1]",
        "float :[1]",
        "[:[1]] :[2]",
        "bol :[1]",
        "type :[1] { :[2] }",
        "show(:[1])",
        "for :[1] = :[2]..:[3] { :[4] }",
        "for :[1] in :[2] { :[3] }",
        " break ",
        ">> :[1]",
        ">>",
        ": [:[1]]",
    ];
    assert(lit_views(lits@) =~= ubi_rule_inputs());
    push_lits(out, lits);
}

/// Rewrite templates for the statements of ubi sources.
pub open spec fn ubi_rule_outputs() -> Seq<Seq<char>> {
    seq![
        "let :[2]: :[1] = ubi.query(:[3].to_string())"@,
        "ubi.query(:[1].to_string())"@,
        "fn :[1] (:[2]) -> :[3] {:[4]}"@,
        "fn :[1] (:[2]) {:[3]}"@,
        "let :[1] = String::from(\":[2]\")"@,
        "let :[1] = :[2];"@,
        "= String::from(:[1]);"@,
        ":[1] = :[2];"@,
        ": String"@,
        ":[1]: String"@,
        ":[1]: String"@,
        ":[1]: int32"@,
        ":[1]: float32"@,
        ":[2]: Vec<:[1]>"@,
        ":[1] bool"@,
        "struct :[1] { :[2] }"@,
        "println!(:[1]);"@,
        "for :[1] in :[2]..:[3] { :[4] }"@,
        "for :[1] in :[2].iter() { :[3] }"@,
        " break; "@,
        "return :[1];"@,
        "return"@,
        ": Vec<:[1]>"@,
    ]
}

/// Appends `ubi_rule_outputs` to `out`.
fn push_ubi_rule_outputs(out: &mut Vec<String>)
    ensures
        string_views(final(out)@) == string_views(old(out)@) + ubi_rule_outputs(),
{
    let lits: &[&str] = &[
        "let :[2]: :[1] = ubi.query(:[3].to_string())",
        "ubi.query(:[1].to_string())",
        "fn :[1] (:[2]) -> :[3] {:[4]}",
        "fn :[1] (:[2]) {:[3]}",
        "let :[1] = String::from(\":[2]\")",
        "let :[1] = :[2];",
        "= String::from(:[1]);",
        ":[1] = :[2];",
        ": String",
        ":[1]: String",
        ":[1]: String",
        ":[1]: int32",
        ":[1]: float32",
        ":[2]: Vec<:[1]>",
        ":[1] bool",
        "struct :[1] { :[2] }",
        "println!(:[1]);",
        "for :[1] in :[2]..:[3] { :[4] }",
        "for :[1] in :[2].iter() { :[3] }",
        " break; ",
        "return :[1];",
        "return",
        ": Vec<:[1]>",
    ];
    assert(lit_views(lits@) =~= ubi_rule_outputs());
    push_lits(out, lits);
}

/// Match templates for `model.ts` sources.
pub open spec fn sql_inputs() -> Seq<Seq<char>> {
    seq![
        "// delete_table_:[1]"@,
        "type :[1] = :[2] & :[3];"@,
        "number"@,
        "string"@,
        "type :[1] = { :[2] }"@,
        ":[1]: :[2]; //:[3]"@,
        "primary_key"@,
        "not_null"@,
        "unique"@,
        ":[1]: :[2];"@,
        ",;"@,
        ";,"@,
        "bigint bigserial primary key"@,
        "foreign_key(:[1].:[2])"@,
        "// delete_all_table"@,
        "//"@,
    ]
}

/// Appends `sql_inputs` to `out`.
fn push_sql_inputs(out: &mut Vec<String>)
    ensures
        string_views(final(out)@) == string_views(old(out)@) + sql_inputs(),
{
    let lits: &[&str] = &[
        "// delete_table_:[1]",
        "type :[1] = :[2] & :[3];",
        "number",
        "string",
        "type :[1] = { :[2] }",
        ":[1]: :[2]; //:[3]",
        "primary_key",
        "not_null",
        "unique",
        ":[1]: :[2];",
        ",;",
        ";,",
        "bigint bigserial primary key",
        "foreign_key(:[1].:[2])",
        "// delete_all_table",
        "//",
    ];
    assert(lit_views(lits@) =~= sql_inputs());
    push_lits(out, lits);
}

/// Rewrite templates for `model.ts` sources.
pub open spec fn sql_outputs() -> Seq<Seq<char>> {
    seq![
        "DROP TABLE IF EXISTS :[1] CASCADE;"@,
        ""@,
        "bigint"@,
        "text"@,
        "create table if not exists \":[1]\" (
            :[2]"@,
        ":[1] :[2] :[3],"@,
        "bigserial primary key"@,
        "not null"@,
        "unique"@,
        ":[1] :[2],"@,
        ");"@,
        ");"@,
        "bigserial primary key"@,
        "references :[1](:[2])"@,
        "
DO $$
DECLARE
    drop_query TEXT;
BEGIN
    SELECT 'DROP TABLE IF EXISTS ' || string_agg(tablename::text, ', ') || ' CASCADE;'
    INTO drop_query
    FROM pg_tables
    WHERE schemaname = 'public';

    -- Eksekusi query drop
    EXECUTE drop_query;
END $$;
"@,
        ""@,
    ]
}

/// Appends `sql_outputs` to `out`.
fn push_sql_outputs(out: &mut Vec<String>)
    ensures
        string_views(final(out)@) == string_views(old(out)@) + sql_outputs(),
{
    let lits: &[&str] = &[
        "DROP TABLE IF EXISTS :[1] CASCADE;",
        "",
        "bigint",
        "text",
        "create table if not exists \":[1]\" (
            :[2]",
        ":[1] :[2] :[3],",
        "bigserial primary key",
        "not null",
        "unique",
        ":[1] :[2],",
        ");",
        ");",
        "bigserial primary key",
        "references :[1](:[2])",
        "
DO $$
DECLARE
    drop_query TEXT;
BEGIN
    SELECT 'DROP TABLE IF EXISTS ' || string_agg(tablename::text, ', ') || ' CASCADE;'
    INTO drop_query
    FROM pg_tables
    WHERE schemaname = 'public';

    -- Eksekusi query drop
    EXECUTE drop_query;
END $$;
",
        "",
    ];
    assert(lit_views(lits@) =~= sql_outputs());
    push_lits(out, lits);
}

/// Match templates for the markup of a page compiled to Kotlin.
pub open spec fn kotlin_html_inputs() -> Seq<Seq<char>> {
    seq![
        "{:[1]}"@,
        "<div>"@,
        "</div>"@,
        "<row :[1]>"@,
        "class=\":[1]\""@,
        "<button :[1]>:[2]</button>"@,
        "<p>:[1]</p>"@,
        "onclick=\":[1]()\""@,
        "<a href=\":[1]\">:[2]</a>"@,
        "justify-center"@,
        "items-center"@,
    ]
}

/// Appends `kotlin_html_inputs` to `out`.
fn push_kotlin_html_inputs(out: &mut Vec<String>)
    ensures
        string_views(final(out)@) == string_views(old(out)@) + kotlin_html_inputs(),
{
    let lits: &[&str] = &[
        "{:[1]}",
        "<div>",
        "</div>",
        "<row :[1]>",
        "class=\":[1]\"",
        "<button :[1]>:[2]</button>",
        "<p>:[1]</p>",
        "onclick=\":[1]()\"",
        "<a href=\":[1]\">:[2]</a>",
        "justify-center",
        "items-center",
    ];
    assert(lit_views(lits@) =~= kotlin_html_inputs());
    push_lits(out, lits);
}

/// Rewrite templates for the markup of a page compiled to Kotlin.
pub open spec fn kotlin_html_outputs() -> Seq<Seq<char>> {
    seq![
        "Text(\"$:[1]\")"@,
        "Box() {"@,
        "}"@,
        "Row(:[1]) {"@,
        ":[1]"@,
        "Button(:[1]) {:[2]}"@,
        "Text(\":[1]\")"@,
        "onClick = { :[1]() }"@,
        "   Button(onClick = {

            navController.navigate(\":[1]\") {
                     popUpTo(navController.graph.startDestinationId) {
                    saveState = true
                }
                launchSingleTop = true
                restoreState = true
            }


            }) {:[2]}"@,
        "horizontalArrangement = Arrangement.Center,"@,
        "verticalAlignment = Alignment.CenterVertically,"@,
    ]
}

/// Appends `kotlin_html_outputs` to `out`.
fn push_kotlin_html_outputs(out: &mut Vec<String>)
    ensures
        string_views(final(out)@) == string_views(old(out)@) + kotlin_html_outputs(),
{
    let lits: &[&str] = &[
        "Text(\"$:[1]\")",
        "Box() {",
        "}",
        "Row(:[1]) {",
        ":[1]",
        "Button(:[1]) {:[2]}",
        "Text(\":[1]\")",
        "onClick = { :[1]() }",
        "   Button(onClick = {

            navController.navigate(\":[1]\") {
                     popUpTo(navController.graph.startDestinationId) {
                    saveState = true
                }
                launchSingleTop = true
                restoreState = true
            }


            }) {:[2]}",
        "horizontalArrangement = Arrangement.Center,",
        "verticalAlignment = Alignment.CenterVertically,",
    ];
    assert(lit_views(lits@) =~= kotlin_html_outputs());
    push_lits(out, lits);
}

/// Match templates for the script of a page compiled to Kotlin.
pub open spec fn kotlin_js_inputs() -> Seq<Seq<char>> {
    seq![
        "let :[1] = new Signal(:[2])"@,
        "function :[1](:[2]){:[3]}"@,
        "${:[1]}"@,
        ":[1].set(:[2])"@,
        ":[1].get()"@,
    ]
}

/// Appends `kotlin_js_inputs` to `out`.
fn push_kotlin_js_inputs(out: &mut Vec<String>)
    ensures
        string_views(final(out)@) == string_views(old(out)@) + kotlin_js_inputs(),
{
    let lits: &[&str] = &[
        "let :[1] = new Signal(:[2])",
        "function :[1](:[2]){:[3]}",
        "${:[1]}",
        ":[1].set(:[2])",
        ":[1].get()",
    ];
    assert(lit_views(lits@) =~= kotlin_js_inputs());
    push_lits(out, lits);
}

/// Rewrite templates for the script of a page compiled to Kotlin.
pub open spec fn kotlin_js_outputs() -> Seq<Seq<char>> {
    seq![
        "var :[1] by remember { mutableStateOf(:[2]) }"@,
        "fun :[1] (:[2]) {:[3]}"@,
        "$:[1]"@,
        ":[1] = :[2]"@,
        ":[1]"@,
    ]
}

/// Appends `kotlin_js_outputs` to `out`.
fn push_kotlin_js_outputs(out: &mut Vec<String>)
    ensures
        string_views(final(out)@) == string_views(old(out)@) + kotlin_js_outputs(),
{
    let lits: &[&str] = &[
        "var :[1] by remember { mutableStateOf(:[2]) }",
        "fun :[1] (:[2]) {:[3]}",
        "$:[1]",
        ":[1] = :[2]",
        ":[1]",
    ];
    assert(lit_views(lits@) =~= kotlin_js_outputs());
    push_lits(out, lits);
}

/// Rewrite rules that turn a `server.ts` source into Rust: the match templates, and the rewrite templates (those of the
/// handlers depend on whether `out_filename` names a parameterized route,
/// one whose name holds `_:`).
pub open spec fn ts_templates(out_filename: Seq<char>) -> (Seq<Seq<char>>, Seq<Seq<char>>) {
    (
        ts_handler_inputs() + ts_rule_inputs(),
        (if contains(out_filename, "_:"@) {
            ts_handler_outputs_with_params()
        } else {
            ts_handler_outputs()
        }) + ts_rule_outputs(),
    )
}

/// Rewrite rules that turn a `server.ts` source into Rust, for the output file `out_filename`.
pub fn convert_ts_to_rust(out_filename: &str) -> (r: (Vec<String>, Vec<String>))
    ensures
        string_views(r.0@) == ts_templates(out_filename@).0,
        string_views(r.1@) == ts_templates(out_filename@).1,
{
    let mut inputs: Vec<String> = Vec::new();
    let mut outputs: Vec<String> = Vec::new();
    assert(string_views(inputs@) =~= Seq::empty());
    assert(string_views(outputs@) =~= Seq::empty());
    push_ts_handler_inputs(&mut inputs);
    push_ts_rule_inputs(&mut inputs);
    let name = chars_of(out_filename);
    let marker = chars_of("_:");
    if contains_exec(name.as_slice(), marker.as_slice()) {
        push_ts_handler_outputs_with_params(&mut outputs);
    } else {
        push_ts_handler_outputs(&mut outputs);
    }
    push_ts_rule_outputs(&mut outputs);
    assert(string_views(inputs@) =~= ts_templates(out_filename@).0);
    assert(string_views(outputs@) =~= ts_templates(out_filename@).1);
    (inputs, outputs)
}

/// Rewrite rules that turn the Rust that `py2many` makes of a `server.py` source into a route module: the match templates, and the rewrite templates (those of the
/// handlers depend on whether `out_filename` names a parameterized route,
/// one whose name holds `_:`).
pub open spec fn py_templates(out_filename: Seq<char>) -> (Seq<Seq<char>>, Seq<Seq<char>>) {
    (
        py_handler_inputs() + py_rule_inputs(),
        (if contains(out_filename, "_:"@) {
            py_handler_outputs_with_params()
        } else {
            py_handler_outputs()
        }) + py_rule_outputs(),
    )
}

/// Rewrite rules that turn the Rust that `py2many` makes of a `server.py` source into a route module, for the output file `out_filename`.
pub fn convert_py_to_rust(out_filename: &str) -> (r: (Vec<String>, Vec<String>))
    ensures
        string_views(r.0@) == py_templates(out_filename@).0,
        string_views(r.1@) == py_templates(out_filename@).1,
{
    let mut inputs: Vec<String> = Vec::new();
    let mut outputs: Vec<String> = Vec::new();
    assert(string_views(inputs@) =~= Seq::empty());
    assert(string_views(outputs@) =~= Seq::empty());
    push_py_handler_inputs(&mut inputs);
    push_py_rule_inputs(&mut inputs);
    let name = chars_of(out_filename);
    let marker = chars_of("_:");
    if contains_exec(name.as_slice(), marker.as_slice()) {
        push_py_handler_outputs_with_params(&mut outputs);
    } else {
        push_py_handler_outputs(&mut outputs);
    }
    push_py_rule_outputs(&mut outputs);
    assert(string_views(inputs@) =~= py_templates(out_filename@).0);
    assert(string_views(outputs@) =~= py_templates(out_filename@).1);
    (inputs, outputs)
}

/// Rewrite rules that turn a `server.ubi` source into Rust: the match templates, and the rewrite templates (those of the
/// handlers depend on whether `out_filename` names a parameterized route,
/// one whose name holds `_:`).
pub open spec fn ubi_templates(out_filename: Seq<char>) -> (Seq<Seq<char>>, Seq<Seq<char>>) {
    (
        ubi_handler_inputs() + ubi_rule_inputs(),
        (if contains(out_filename, "_:"@) {
            ubi_handler_outputs_with_params()
        } else {
            ubi_handler_outputs()
        }) + ubi_rule_outputs(),
    )
}

/// Rewrite rules that turn a `server.ubi` source into Rust, for the output file `out_filename`.
pub fn convert_ubi_to_rust(out_filename: &str) -> (r: (Vec<String>, Vec<String>))
    ensures
        string_views(r.0@) == ubi_templates(out_filename@).0,
        string_views(r.1@) == ubi_templates(out_filename@).1,
{
    let mut inputs: Vec<String> = Vec::new();
    let mut outputs: Vec<String> = Vec::new();
    assert(string_views(inputs@) =~= Seq::empty());
    assert(string_views(outputs@) =~= Seq::empty());
    push_ubi_handler_inputs(&mut inputs);
    push_ubi_rule_inputs(&mut inputs);
    let name = chars_of(out_filename);
    let marker = chars_of("_:");
    if contains_exec(name.as_slice(), marker.as_slice()) {
        push_ubi_handler_outputs_with_params(&mut outputs);
    } else {
        push_ubi_handler_outputs(&mut outputs);
    }
    push_ubi_rule_outputs(&mut outputs);
    assert(string_views(inputs@) =~= ubi_templates(out_filename@).0);
    assert(string_views(outputs@) =~= ubi_templates(out_filename@).1);
    (inputs, outputs)
}

/// Rewrite rules that turn a `middleware.ts` source into Rust.
pub fn convert_middleware() -> (r: (Vec<String>, Vec<String>))
    ensures
        string_views(r.0@) == middleware_inputs(),
        string_views(r.1@) == middleware_outputs(),
{
    let mut inputs: Vec<String> = Vec::new();
    let mut outputs: Vec<String> = Vec::new();
    assert(string_views(inputs@) =~= Seq::empty());
    assert(string_views(outputs@) =~= Seq::empty());
    push_middleware_inputs(&mut inputs);
    push_middleware_outputs(&mut outputs);
    assert(string_views(inputs@) =~= middleware_inputs());
    assert(string_views(outputs@) =~= middleware_outputs());
    (inputs, outputs)
}

/// Rewrite rules that turn a `model.ts` source into PostgreSQL.
pub fn convert_ts_to_sql() -> (r: (Vec<String>, Vec<String>))
    ensures
        string_views(r.0@) == sql_inputs(),
        string_views(r.1@) == sql_outputs(),
{
    let mut inputs: Vec<String> = Vec::new();
    let mut outputs: Vec<String> = Vec::new();
    assert(string_views(inputs@) =~= Seq::empty());
    assert(string_views(outputs@) =~= Seq::empty());
    push_sql_inputs(&mut inputs);
    push_sql_outputs(&mut outputs);
    assert(string_views(inputs@) =~= sql_inputs());
    assert(string_views(outputs@) =~= sql_outputs());
    (inputs, outputs)
}

/// Rewrite rules for the markup of a page compiled to Jetpack Compose.
pub fn kotlin_markup_templates() -> (r: (Vec<String>, Vec<String>))
    ensures
        string_views(r.0@) == kotlin_html_inputs(),
        string_views(r.1@) == kotlin_html_outputs(),
{
    let mut inputs: Vec<String> = Vec::new();
    let mut outputs: Vec<String> = Vec::new();
    assert(string_views(inputs@) =~= Seq::empty());
    assert(string_views(outputs@) =~= Seq::empty());
    push_kotlin_html_inputs(&mut inputs);
    push_kotlin_html_outputs(&mut outputs);
    assert(string_views(inputs@) =~= kotlin_html_inputs());
    assert(string_views(outputs@) =~= kotlin_html_outputs());
    (inputs, outputs)
}

/// Rewrite rules for the script of a page compiled to Jetpack Compose.
pub fn kotlin_script_templates() -> (r: (Vec<String>, Vec<String>))
    ensures
        string_views(r.0@) == kotlin_js_inputs(),
        string_views(r.1@) == kotlin_js_outputs(),
{
    let mut inputs: Vec<String> = Vec::new();
    let mut outputs: Vec<String> = Vec::new();
    assert(string_views(inputs@) =~= Seq::empty());
    assert(string_views(outputs@) =~= Seq::empty());
    push_kotlin_js_inputs(&mut inputs);
    push_kotlin_js_outputs(&mut outputs);
    assert(string_views(inputs@) =~= kotlin_js_inputs());
    assert(string_views(outputs@) =~= kotlin_js_outputs());
    (inputs, outputs)
}

} // verus!

verus! {

/// The rewriter's output for a fragment of markup, put on one line: every
/// newline removed.
pub fn single_line(output: &str) -> (r: String)
    ensures
        r@ == crate::text::replace(output@, "\n"@, ""@),
{
    let cs = chars_of(output);
    let nl = chars_of("\n");
    let empty = chars_of("");
    proof {
        reveal_strlit("\n");
    }
    let out = crate::text::replace_exec(cs.as_slice(), nl.as_slice(), empty.as_slice());
    crate::text::string_of(out.as_slice())
}

} // verus!

verus! {

/// The model-to-PostgreSQL rules give each match template its rewrite,
/// and map the field types of a model: a `number` field becomes a `bigint`
/// column and a `string` field a `text` column.
pub proof fn lemma_sql_field_types()
    ensures
        sql_inputs().len() == sql_outputs().len(),
        forall|i: int| 0 <= i < sql_inputs().len() && sql_inputs()[i] == "number"@ ==> sql_outputs()[i] == "bigint"@,
        forall|i: int| 0 <= i < sql_inputs().len() && sql_inputs()[i] == "string"@ ==> sql_outputs()[i] == "text"@,
{
    reveal_strlit("number");
    reveal_strlit("string");
    reveal_strlit("// delete_table_:[1]");
    reveal_strlit("type :[1] = :[2] & :[3];");
    reveal_strlit("type :[1] = { :[2] }");
    reveal_strlit(":[1]: :[2]; //:[3]");
    reveal_strlit("primary_key");
    reveal_strlit("not_null");
    reveal_strlit("unique");
    reveal_strlit(":[1]: :[2];");
    reveal_strlit(",;");
    reveal_strlit(";,");
    reveal_strlit("bigint bigserial primary key");
    reveal_strlit("foreign_key(:[1].:[2])");
    reveal_strlit("// delete_all_table");
    reveal_strlit("//");
    let ins = sql_inputs();
    assert forall|i: int| 0 <= i < ins.len() && ins[i] == "number"@ implies i == 2 by {
        if i != 2 {
            assert(ins[i].len() != 6 || ins[i][0] != 'n' || ins[i][1] != 'u');
        }
    }
    assert forall|i: int| 0 <= i < ins.len() && ins[i] == "string"@ implies i == 3 by {
        if i != 3 {
            assert(ins[i].len() != 6 || ins[i][0] != 's' || ins[i][1] != 't');
        }
    }
}

} // verus!
