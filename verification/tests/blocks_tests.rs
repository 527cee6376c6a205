use ubi::blocks::{get_variables, handle_for, handle_if, new_block_id, prepare_for};

fn block_id_of(html: &str, marker: &str) -> String {
    let start = html.find(marker).unwrap() + marker.len();
    let end = start + html[start..].find('\'').unwrap();
    html[start..end].to_string()
}

fn assert_block_id(id: &str) {
    assert_eq!(id.len(), 37, "id {:?}", id);
    assert!(id.starts_with('a'));
    assert!(!id.contains('-'));
    assert_eq!(id.matches('_').count(), 4);
}

fn effect_js(id: &str, condition: &str) -> String {
    format!(
        r#"
    let {id} = document.getElementById('{id}');
    let {id}_prev_display = window.getComputedStyle({id}).display;
    if ({id}_prev_display === "none") {{
        {id}_prev_display = "block";
    }}

    effect(() => {{
        if ({condition}) {{
        {id}.style.display = {id}_prev_display;
    }} else {{
        {id}.style.display = "none";
            }}
    }});
    "#
    )
}

fn static_js(id: &str, condition: &str) -> String {
    format!(
        r#"
    let {id} = document.getElementById('{id}');
    let {id}_prev_display = window.getComputedStyle({id}).display;
    if ({id}_prev_display === "none") {{
        {id}_prev_display = "block";
    }}

    if ({condition}) {{
        {id}.style.display = {id}_prev_display;
    }} else {{
        {id}.style.display = "none";
            }}

    "#
    )
}

#[test]
fn signals_are_found_in_script() {
    let js = "let count = new Signal(0);\nconst name= new Signal('x');\nlet other = 3;";
    assert_eq!(get_variables(js), vec!["count".to_string(), "name".to_string()]);
}

#[test]
fn block_ids_are_hyphen_free_uuids() {
    let id: String = new_block_id().iter().collect();
    assert_block_id(&id);
    let other: String = new_block_id().iter().collect();
    assert_ne!(id, other);
}

#[test]
fn if_block_reading_a_signal_gets_an_effect() {
    let input = "<p>a</p><if count.get() == 1>\n  <b>big</b>\n</if><p>z</p>";
    let (html, js) = handle_if(input, "let count = new Signal(0);");
    let id = block_id_of(&html, "<div id='");
    assert_block_id(&id);
    assert_eq!(html, format!("<p>a</p>\n<div id='{id}'><b>big</b></div>\n<p>z</p>"));
    assert_eq!(js, effect_js(&id, "count.get() == 1"));
}

#[test]
fn nested_if_blocks_keep_script_of_last_closed() {
    let input = "<if a><if b>x</if></if>";
    let (html, js) = handle_if(input, "let a = new Signal(1);");
    let outer = block_id_of(&html, "<div id='");
    let inner = block_id_of(&html[10..], "<div id='");
    assert_eq!(html, format!("\n<div id='{outer}'><div id='{inner}'>x</div></div>\n"));
    assert_eq!(js, static_js(&outer, "a"));
}

#[test]
fn if_blocks_without_signals_have_no_script() {
    let (html, js) = handle_if("<IF ok>y</IF>", "let plain = 1;");
    let id = block_id_of(&html, "<div id='");
    assert_eq!(html, format!("\n<div id='{id}'>y</div>\n"));
    assert_eq!(js, "");
}

#[test]
fn page_without_if_blocks_is_unchanged() {
    let (html, js) = handle_if("<p>plain</p></if>", "let a = new Signal(1);");
    assert_eq!(html, "<p>plain</p>");
    assert_eq!(js, "");
}

#[test]
fn for_block_over_signal_list() {
    let input = "<ul><for item in items.get()>\n<li>{item}</li>\n</for></ul>";
    let js_input = "let items = new Signal([]);";
    let (caps, ids, bodies) = prepare_for(input);
    assert_eq!(caps.len(), 2);
    assert_eq!(ids.len(), 2);
    assert_eq!(bodies, vec![None, Some("<li>{item}</li>".to_string())]);
    let converted = vec![String::new(), "<li>${item}</li>".to_string()];
    let (html, js) = handle_for(input, js_input, &caps, &ids, &converted);
    let id = ids[1].clone();
    assert_block_id(&id);
    assert_eq!(html, format!("<ul>\n<div id='{id}'></ul>\n</ul>"));
    let expected = format!(
        r#"
let {id} = document.getElementById('{id}');
function render_{id}() {{
    {id}.innerHTML = "";
    items.get().forEach((item, i) => {{
        let div = document.createElement("div");
        div.innerHTML = `<li>${{item}}</li>`;
        {id}.appendChild(div);
    }});
}}
effect(() => render_{id}());
"#
    );
    assert_eq!(js, expected);
}

#[test]
fn for_block_over_range() {
    let input = "<for i = 3><p>{i}</p></for>";
    let (caps, ids, bodies) = prepare_for(input);
    assert_eq!(bodies, vec![None, Some("<p>{i}</p>".to_string())]);
    let converted = vec![String::new(), "<p>${i}</p>".to_string()];
    let (html, js) = handle_for(input, "", &caps, &ids, &converted);
    let id = ids[1].clone();
    assert_eq!(html, format!("\n<div id='{id}'></ul>\n"));
    let expected = format!(
        r#"
let {id} = document.getElementById('{id}');
for (let i = 0; i < 3; i++) {{
    let div = document.createElement("div");
    div.innerHTML = `<p>${{i}}</p>`;
    {id}.appendChild(div);
}}
"#
    );
    assert_eq!(js, expected);
}

#[test]
fn nested_for_body_holds_inner_block() {
    let input = "<for a in xs><for b in ys>q</for></for>";
    let (_caps, ids, bodies) = prepare_for(input);
    assert_eq!(bodies.len(), 4);
    assert_eq!(bodies[2], Some("q".to_string()));
    assert_eq!(bodies[3], Some(format!("<div id='{}'></ul>", ids[2])));
}
