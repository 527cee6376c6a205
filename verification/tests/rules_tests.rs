use ubi::rules::{
    convert_middleware, convert_py_to_rust, convert_ts_to_rust, convert_ts_to_sql, convert_ubi_to_rust,
    kotlin_markup_templates, kotlin_script_templates, single_line,
};

fn paired((inputs, outputs): &(Vec<String>, Vec<String>)) {
    assert_eq!(inputs.len(), outputs.len());
    assert!(!inputs.is_empty());
}

#[test]
fn ts_rules_for_parameterized_route() {
    let rules = convert_ts_to_rust("./.project_build/src/server/api_user_:id.rs");
    paired(&rules);
    assert_eq!(rules.0[0], "function get(): string {:[1] return :[2]; }");
    assert_eq!(
        rules.1[0],
        "pub fn get(db: &crate::PgConnection, req: may_minihttp::Request, req_params: &std::collections::HashMap<String, String>) -> Result<String, may_postgres::Error> {\n:[1]\n return Ok(:[2]); }"
    );
}

#[test]
fn ts_rules_for_plain_route() {
    let rules = convert_ts_to_rust("./.project_build/src/server/api_user.rs");
    paired(&rules);
    assert_eq!(
        rules.1[3],
        "pub fn delete(db: &crate::PgConnection, req: may_minihttp::Request) -> Result<String, may_postgres::Error> {\n:[1]\n return Ok(:[2]); }"
    );
    assert!(rules.0.iter().any(|r| r == "function onmessage(:[2]) {:[1]}"));
}

#[test]
fn other_rule_tables_are_paired() {
    paired(&convert_py_to_rust("./.project_build/src/server/api_a.rs"));
    paired(&convert_py_to_rust("./.project_build/src/server/api_a_:id.rs"));
    paired(&convert_ubi_to_rust("./.project_build/src/server/api_a.rs"));
    paired(&convert_middleware());
    paired(&convert_ts_to_sql());
    paired(&kotlin_markup_templates());
    paired(&kotlin_script_templates());
}

#[test]
fn kotlin_rules_start_with_interpolation() {
    let (inputs, outputs) = kotlin_markup_templates();
    assert_eq!(inputs[0], "{:[1]}");
    assert_eq!(outputs[0], "Text(\"$:[1]\")");
    assert_eq!(inputs.len(), 11);
    let (inputs, outputs) = kotlin_script_templates();
    assert_eq!(inputs[0], "let :[1] = new Signal(:[2])");
    assert_eq!(outputs[0], "var :[1] by remember { mutableStateOf(:[2]) }");
    assert_eq!(inputs.len(), 5);
}

#[test]
fn rewriter_output_on_one_line() {
    assert_eq!(single_line("<li>\n${item}\n</li>\n"), "<li>${item}</li>");
    assert_eq!(single_line("flat"), "flat");
}
