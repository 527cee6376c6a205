use ubi::page::{
    apply_imports, assemble_page, bind_signals, extract_styles, handle_anchors, import_main, import_requests,
    render_slot, split_html_js,
};

#[test]
fn anchors_get_navigation_handler_or_are_dropped() {
    let mut content =
        r#"<p><a href="/about us" class="x">About</a> <a href="https://example.com">Ext</a></p>"#.to_string();
    handle_anchors(&mut content).unwrap();
    assert_eq!(content, r#"<p><a href="/aboutus" onClick="handleNavigation(event)">About</a> Ext</a></p>"#);
}

#[test]
fn page_without_anchors_is_unchanged() {
    let mut content = "<p>No links <b>here</b></p>".to_string();
    handle_anchors(&mut content).unwrap();
    assert_eq!(content, "<p>No links <b>here</b></p>");
}

#[test]
fn rewritten_anchors_stay_rewritten() {
    let mut content = r#"<a href="/a b">x</a>"#.to_string();
    handle_anchors(&mut content).unwrap();
    let once = content.clone();
    handle_anchors(&mut content).unwrap();
    assert_eq!(content, once);
}

#[test]
fn main_page_embeds_compiled_page() {
    let index = "<html><body><ubi:main></body></html>";
    let page = r#"<a href="/home">Home</a>"#;
    assert_eq!(
        import_main(index, page).unwrap(),
        r#"<html><body><a href="/home" onClick="handleNavigation(event)">Home</a></body></html>"#
    );
}

#[test]
fn scripts_are_split_off() {
    let (html, js) = split_html_js("<div>a</div><script>let x = 1;</script><p>b</p><SCRIPT>no</SCRIPT><script type=\"m\">\ny();</script>");
    assert_eq!(html, "<div>a</div><p>b</p><SCRIPT>no</SCRIPT>");
    assert_eq!(js, "let x = 1;\ny();");
}

#[test]
fn styles_are_split_off() {
    let (styles, clean) = extract_styles("<style>p { color: red; }</style><p>x</p><style media=\"x\">\nb {}</style>");
    assert_eq!(styles, "<style>p { color: red; }</style><style media=\"x\">\nb {}</style>");
    assert_eq!(clean, "<p>x</p>");
}

#[test]
fn signal_bindings_follow_declarations() {
    let vars = vec!["count".to_string(), "name".to_string(), "count".to_string()];
    let js = "let count = new Signal(0);";
    assert_eq!(
        bind_signals(&vars, js),
        "effect(() => document.querySelectorAll('.count').forEach(el => el.textContent = count.get()));document.querySelectorAll('.name').forEach(el => el.textContent = name);"
    );
}

#[test]
fn page_parts_are_assembled_in_order() {
    assert_eq!(
        assemble_page("<style>s</style>", "<p>h</p>", "j;", "n;", "i;", "f;"),
        "<style>s</style><p>h</p><script>j;n;i;f;</script>"
    );
}

#[test]
fn import_requests_in_order() {
    let content = r#"<ubi+ "./nav.ubi"><p>x</p><ubi+"footer.ubi">"#;
    assert_eq!(import_requests(content), vec!["./nav.ubi".to_string(), "footer.ubi".to_string()]);
}

#[test]
fn imports_are_inlined() {
    let content = r#"<ubi+ "./nav.ubi"><p>x</p><ubi+ "./nav.ubi">"#;
    let imports = vec![("./nav.ubi".to_string(), r#"<a href="/">Home</a>"#.to_string())];
    let expected = r#"<a href="/" onClick="handleNavigation(event)">Home</a><p>x</p><a href="/" onClick="handleNavigation(event)">Home</a>"#;
    assert_eq!(apply_imports(content, &imports).unwrap(), expected);
}

#[test]
fn import_without_space_is_not_inlined() {
    let content = r#"<ubi+"nav.ubi">"#;
    let imports = vec![("nav.ubi".to_string(), "NAV".to_string())];
    assert_eq!(apply_imports(content, &imports).unwrap(), content);
}

#[test]
fn page_is_rendered_in_root_layout() {
    let files = vec![
        ("about/ui.ubi".to_string(), "<h1>About</h1>".to_string()),
        ("layout.ubi".to_string(), "<main><slot /></main><slot/>".to_string()),
        ("about/layout.ubi".to_string(), "<div><slot/></div>".to_string()),
    ];
    assert_eq!(render_slot("./.project_build/routes/about/", &files), "<main><h1>About</h1></main><slot/>");
}

#[test]
fn missing_page_renders_empty_layout() {
    let files = vec![("layout.ubi".to_string(), "<main><slot/></main>".to_string())];
    assert_eq!(render_slot("./.project_build/routes/contact/", &files), "<main></main>");
    assert_eq!(render_slot("./.project_build/routes/contact/", &Vec::new()), "");
}

#[test]
fn anchors_after_multibyte_text() {
    let mut content = "<p>café ünïcödé <a href=\"/menü\">Menü</a> ✓</p>".to_string();
    handle_anchors(&mut content).unwrap();
    assert_eq!(content, "<p>café ünïcödé <a href=\"/menü\" onClick=\"handleNavigation(event)\">Menü</a> ✓</p>");
}

#[test]
fn scripts_after_multibyte_text() {
    let (html, js) = split_html_js("<h1>Ωmega</h1><script>let ß = 'ü';</script>✓");
    assert_eq!(html, "<h1>Ωmega</h1>✓");
    assert_eq!(js, "let ß = 'ü';");
}

#[test]
fn layout_slot_expands_group_references() {
    let files = vec![
        ("shop/ui.ubi".to_string(), "<p>$5 off</p>".to_string()),
        ("layout.ubi".to_string(), "<main><slot/></main>".to_string()),
    ];
    assert_eq!(render_slot("./.project_build/routes/shop/", &files), "<main><p> off</p></main>");
}
