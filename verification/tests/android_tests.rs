use ubi::android::{
    android_nav_entries, handle_android_import, handle_display_flex, kotlin_output_file, kotlin_screen_name,
    kotlin_screen_source,
};

#[test]
fn page_imports_become_screen_calls() {
    assert_eq!(handle_android_import("<ubi+ \"./about/ui.ubi\">\n<p>x</p>"), "Ubi_about(navController);<p>x</p>");
    assert_eq!(handle_android_import("<UBI+ \" ./my-page/ui.ubi \">"), "Ubi_my_page(navController);");
    assert_eq!(handle_android_import("<p>none</p>"), "<p>none</p>");
}

#[test]
fn flex_containers_become_rows() {
    assert_eq!(handle_display_flex("<div class=\"flex p-4\">a</div>"), "<row  class=\"p-4\">a</div>");
    assert_eq!(handle_display_flex("<span class=\"FLEX\">b</span>"), "<row >b</span>");
    assert_eq!(handle_display_flex("<p id=\"x\" class=\"big\">c</p>"), "<p id=\"x\"  class=\"big\">c</p>");
    assert_eq!(handle_display_flex("<p>plain</p>"), "<p>plain</p>");
}

#[test]
fn screen_names_from_page_paths() {
    assert_eq!(kotlin_screen_name("./routes/about/ui.ubi"), "Ubi_about");
    assert_eq!(kotlin_screen_name("./routes/shop/items/ui.ubi"), "Ubi_shop_items");
    assert_eq!(kotlin_screen_name("./routes/ui.ubi"), "Ubi");
}

#[test]
fn screen_source_wraps_script_and_markup() {
    let src = kotlin_screen_source("Ubi_about", "var n by remember { mutableStateOf(0) }", "<ubi+ \"./nav/ui.ubi\">Text(\"x\")");
    let expected = "package com.fuji.ubi

import androidx.compose.foundation.background
import androidx.compose.foundation.layout.*
import androidx.compose.material3.*
import androidx.compose.runtime.*
import androidx.compose.ui.Alignment
import androidx.compose.ui.Modifier
import androidx.compose.ui.graphics.Color
import androidx.compose.ui.unit.dp
import androidx.navigation.NavController

@Composable
fun Ubi_about(navController: NavController) {var n by remember { mutableStateOf(0) }Ubi_nav(navController);Text(\"x\")}";
    assert_eq!(src, expected);
}

#[test]
fn screen_file_name() {
    assert_eq!(
        kotlin_output_file(".project_build/android/app/src/main/java/com/fuji/ubi/", "Ubi_about"),
        ".project_build/android/app/src/main/java/com/fuji/ubi/Ubi_about.kt"
    );
}

#[test]
fn navigation_entries_of_screen() {
    let (item, dest) = android_nav_entries("Ubi_shop_items");
    let expected_item = format!(
        "    {}(
                            route = \"{}\",
                                            icon = Icons.Filled.Settings,
                                            label = \"{}\"
                                            ),
            ",
        "Ubi_shop_items", "/shop/items", "Ubi_shop_items"
    );
    assert_eq!(item, expected_item);
    let expected_dest = format!(
        " composable(NavigationItem.{}.route) {{
                {}(navController)
                                }}
            ",
        "Ubi_shop_items", "Ubi_shop_items"
    );
    assert_eq!(dest, expected_dest);
    let (root_item, _) = android_nav_entries("Ubi");
    assert!(root_item.contains("route = \"/\""));
}

#[test]
fn navigation_source_wraps_entries() {
    let src = ubi::android::navigation_source("ITEMS", "DESTS");
    assert!(src.starts_with(" enum class NavigationItem(\n    val route: String,"));
    assert!(src.contains("ITEMS}\n\n@Composable\n                fun AppNavHost("));
    assert!(src.ends_with("{\n\n\n                DESTS}}"));
}
