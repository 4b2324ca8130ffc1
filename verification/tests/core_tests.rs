//! The session-level behaviors ported against the whole pipeline: theme
//! registration, utility classes, and both output projections.

use themed_styler::ordmap::OrdMap;
use themed_styler::theme::{SelectorStyles, State, ThemeEntry};
use themed_styler::units::PropMap;
use themed_styler::value::StyleValue;
use themed_styler::varres::{parse_var_references, resolve_vars};

fn props_of(pairs: &[(&str, &str)]) -> PropMap {
    let mut m = PropMap::new();
    for (k, v) in pairs {
        m.insert(k.to_string(), StyleValue::of_str(v));
    }
    m
}

fn keys_of(m: &PropMap) -> Vec<String> {
    let mut out = Vec::new();
    let mut i = 0;
    while i < m.len() {
        out.push(m.key_at(i).clone());
        i += 1;
    }
    out
}

#[test]
fn lib_default_theme_has_p2() {
    let mut st = State::new_default();
    st.register_tailwind_classes(vec!["p-2".to_string()]);
    let css = st.css_for_web();
    assert!(css.contains(".p-2{"));
    assert!(css.contains("padding:8px"));
}

#[test]
fn lib_android_conversion() {
    let mut st = State::new_default();
    let mut styles = SelectorStyles::new();
    let mut button_props = PropMap::new();
    button_props.insert("backgroundColor".to_string(), StyleValue::of_str("#007bff"));
    styles.insert("button".to_string(), button_props);
    st.add_theme("default", styles);
    st.set_theme("default").ok();

    let out = st.android_styles_for("button", &vec![]);
    assert!(out.get("backgroundColor").is_some());
}

#[test]
fn embedded_defaults_and_version() {
    let mut st = State::default_state();
    st.add_theme("default", SelectorStyles::new());
    st.set_theme("default").ok();

    let mut vars: OrdMap<String> = OrdMap::new();
    vars.insert("primary".to_string(), "#007bff".to_string());
    st.set_variables(vars);

    assert!(st.themes.contains_key("default"));
    let def = st.themes.get("default").unwrap();
    assert!(def.variables.contains_key("primary"));
}

#[test]
fn border_color_with_direction() {
    let mut st = State::new_default();

    st.register_tailwind_classes(vec!["border-b-blue-500".to_string()]);
    let css = st.css_for_web();
    assert!(css.contains(".border-b-blue-500{"));
    assert!(css.contains("border-bottom-color:#3b82f6") || css.contains("border-b-color:#3b82f6"));

    st.register_tailwind_classes(vec!["border-t-red-500".to_string()]);
    let css = st.css_for_web();
    assert!(css.contains(".border-t-red-500{"));

    st.register_tailwind_classes(vec!["border-blue-500".to_string()]);
    let css = st.css_for_web();
    assert!(css.contains(".border-blue-500{"));
    assert!(css.contains("border-color:#3b82f6"));
}

#[test]
fn multiple_selectors_support() {
    let mut st = State::new_default();
    let mut selectors = SelectorStyles::new();
    selectors.insert("h1, h2, h3".to_string(), props_of(&[("color", "#ff0000")]));

    st.add_theme("test", selectors);
    st.set_theme("test").ok();

    let android = st.android_styles_for("h1", &vec![]);
    assert_eq!(android.get("color").and_then(|v| v.as_str()), Some("#ff0000"), "h1 should have red color");

    let android = st.android_styles_for("h2", &vec![]);
    assert_eq!(android.get("color").and_then(|v| v.as_str()), Some("#ff0000"), "h2 should have red color");

    let android = st.android_styles_for("h3", &vec![]);
    assert_eq!(android.get("color").and_then(|v| v.as_str()), Some("#ff0000"), "h3 should have red color");
}

#[test]
fn multiple_selectors_classes() {
    let mut st = State::new_default();
    let mut selectors = SelectorStyles::new();
    selectors.insert(".btn, .link".to_string(), props_of(&[("padding", "10px")]));

    st.add_theme("test", selectors);
    st.set_theme("test").ok();

    let android = st.android_styles_for("div", &vec!["btn".to_string()]);
    assert_eq!(android.get("padding").and_then(|v| v.as_int()), Some(10), ".btn should have 10px padding");

    let android = st.android_styles_for("div", &vec!["link".to_string()]);
    assert_eq!(android.get("padding").and_then(|v| v.as_int()), Some(10), ".link should have 10px padding");
}

#[test]
fn border_width_with_direction() {
    let mut st = State::new_default();

    st.register_tailwind_classes(vec!["border-b-2".to_string()]);
    let css = st.css_for_web();
    assert!(css.contains(".border-b-2{"));
    assert!(css.contains("border-bottom-width:2px"));

    st.register_tailwind_classes(vec!["border-2".to_string()]);
    let css = st.css_for_web();
    assert!(css.contains(".border-2{"));
    assert!(css.contains("border-width:2px"));
}

#[test]
fn display_flex_hover_breakpoint() {
    let mut st = State::new_default();

    st.add_theme("default", SelectorStyles::new());
    st.set_theme("default").ok();

    let mut breakpoints: OrdMap<String> = OrdMap::new();
    breakpoints.insert("md".to_string(), "768px".to_string());
    st.set_breakpoints(breakpoints);

    st.register_tailwind_classes(vec![
        "block".to_string(),
        "inline-flex".to_string(),
        "hidden".to_string(),
        "md:flex".to_string(),
        "md:hover:block".to_string(),
    ]);
    let css = st.css_for_web();
    assert!(css.contains(".block{"));
    assert!(css.contains("display:block"));
    assert!(css.contains(".inline-flex{"));
    assert!(css.contains("display:inline-flex"));
    assert!(css.contains(".hidden{"));
    assert!(css.contains("display:none"));
    assert!(css.contains("@media (min-width: 768px)"));
    assert!(css.contains(".flex{display:flex"));
    assert!(css.contains(":hover{display:block"));

    let android = st.android_styles_for("div", &vec!["md:flex".to_string()]);
    assert_eq!(android.get("display").and_then(|v| v.as_str()), Some("flex"));
}

#[test]
fn parse_var_references_basic() {
    let refs = parse_var_references("var(color)");
    assert_eq!(refs.len(), 1);
    assert_eq!(refs[0].2, "color");
    assert_eq!(refs[0].0, 0);
    assert_eq!(refs[0].1, 10);

    let refs = parse_var_references("var(--primary)");
    assert_eq!(refs.len(), 1);
    assert_eq!(refs[0].2, "primary");

    let refs = parse_var_references("var(--color) and var(size)");
    assert_eq!(refs.len(), 2);
    assert_eq!(refs[0].2, "color");
    assert_eq!(refs[1].2, "size");

    let refs = parse_var_references("var( --spacing )");
    assert_eq!(refs.len(), 1);
    assert_eq!(refs[0].2, "spacing");

    let refs = parse_var_references("var(color.primary-500)");
    assert_eq!(refs.len(), 1);
    assert_eq!(refs[0].2, "color.primary-500");

    let refs = parse_var_references("no variables here");
    assert_eq!(refs.len(), 0);

    let refs = parse_var_references("var(");
    assert_eq!(refs.len(), 0);

    let refs = parse_var_references("var(color");
    assert_eq!(refs.len(), 0);
}

#[test]
fn resolve_vars_basic() {
    let mut vars: OrdMap<String> = OrdMap::new();
    vars.insert("primary".to_string(), "#ff0000".to_string());
    vars.insert("spacing".to_string(), "8px".to_string());
    vars.insert("color.blue".to_string(), "#0000ff".to_string());

    assert_eq!(resolve_vars("var(--primary)", &vars), "#ff0000");
    assert_eq!(resolve_vars("var(primary)", &vars), "#ff0000");
    assert_eq!(resolve_vars("var( --primary )", &vars), "#ff0000");

    assert_eq!(resolve_vars("var(--primary) var(--spacing)", &vars), "#ff0000 8px");

    assert_eq!(resolve_vars("var(--color.blue)", &vars), "#0000ff");

    assert_eq!(resolve_vars("var(--undefined)", &vars), "var(--undefined)");

    assert_eq!(resolve_vars("$primary", &vars), "#ff0000");

    assert_eq!(resolve_vars("plain text", &vars), "plain text");
}

#[test]
fn resolve_vars_edge_cases() {
    let mut vars: OrdMap<String> = OrdMap::new();
    vars.insert("a".to_string(), "1".to_string());
    vars.insert("b".to_string(), "2".to_string());

    assert_eq!(resolve_vars("var(a)var(b)", &vars), "12");

    assert_eq!(resolve_vars("prefix var(a) suffix", &vars), "prefix 1 suffix");

    assert_eq!(resolve_vars("", &vars), "");

    vars.insert("var123".to_string(), "value".to_string());
    assert_eq!(resolve_vars("var(var123)", &vars), "value");

    vars.insert("my_var".to_string(), "test".to_string());
    assert_eq!(resolve_vars("var(my_var)", &vars), "test");
}

#[test]
fn test_android_scrolling_mapping() {
    let mut state = State::new_default();
    state.display_density = 2000;
    state.scaled_density = 2000;
    state.current_theme = "default".to_string();

    let mut themes: OrdMap<ThemeEntry> = OrdMap::new();
    let mut default_theme = ThemeEntry::new_empty();
    default_theme.name = Some("Default".to_string());

    let mut overflow_styles = PropMap::new();
    overflow_styles.insert("overflowX".to_string(), StyleValue::of_str("auto"));
    overflow_styles.insert("overflowY".to_string(), StyleValue::of_str("scroll"));

    default_theme.selectors.insert(".scroller".to_string(), overflow_styles);
    themes.insert("default".to_string(), default_theme);
    state.themes = themes;

    let styles = state.android_styles_for("div", &vec![".scroller".to_string()]);

    assert_eq!(styles.get("androidScrollHorizontal").and_then(|v| v.as_bool()), Some(true));
    assert_eq!(styles.get("androidScrollVertical").and_then(|v| v.as_bool()), Some(true));
}

#[test]
fn lib_android_flex_row_default() {
    let st = State::new_default();
    let styles = st.android_styles_for("div", &vec!["flex".to_string()]);
    assert_eq!(styles.get("androidOrientation").and_then(|v| v.as_str()), Some("horizontal"));
    assert_eq!(styles.get("flexDirection").and_then(|v| v.as_str()), Some("row"));

    let styles = st.android_styles_for("div", &vec![]);
    assert_eq!(styles.get("androidOrientation").and_then(|v| v.as_str()), Some("vertical"));
    assert_eq!(styles.get("flexDirection").and_then(|v| v.as_str()), Some("column"));
}

#[test]
fn android_gap_orientation_order() {
    let st = State::new_default();
    let styles = st.android_styles_for("div", &vec!["flex".to_string(), "gap-4".to_string()]);

    let keys = keys_of(&styles);
    let orientation_idx = keys.iter().position(|k| k == "androidOrientation").unwrap();
    let gap_idx = keys.iter().position(|k| k == "gap").unwrap();

    assert!(orientation_idx < gap_idx, "androidOrientation should come before gap for correct layout processing");
}

#[test]
fn margin_auto_support() {
    let mut st = State::new_default();
    st.register_tailwind_classes(vec!["ml-auto".to_string(), "mr-auto".to_string(), "mx-auto".to_string()]);

    let css = st.css_for_web();
    assert!(css.contains("margin-left:auto"));
    assert!(css.contains("margin-right:auto"));

    let styles = st.android_styles_for("div", &vec!["ml-auto".to_string()]);
    assert_eq!(styles.get("marginLeft").and_then(|v| v.as_str()), Some("auto"));

    let styles = st.android_styles_for("div", &vec!["mx-auto".to_string()]);
    assert_eq!(styles.get("marginLeft").and_then(|v| v.as_str()), Some("auto"));
    assert_eq!(styles.get("marginRight").and_then(|v| v.as_str()), Some("auto"));
}

#[test]
fn alignment_mapping() {
    let st = State::new_default();

    let row_styles = st.android_styles_for("div", &vec!["flex".to_string(), "justify-center".to_string(), "items-center".to_string()]);
    assert_eq!(row_styles.get("androidOrientation").and_then(|v| v.as_str()), Some("horizontal"));
    assert_eq!(row_styles.get("androidGravity").and_then(|v| v.as_str()), Some("center"));

    let col_styles = st.android_styles_for("div", &vec!["flex".to_string(), "flex-col".to_string(), "justify-center".to_string(), "items-center".to_string()]);
    assert_eq!(col_styles.get("androidOrientation").and_then(|v| v.as_str()), Some("vertical"));
    assert_eq!(col_styles.get("androidGravity").and_then(|v| v.as_str()), Some("center"));

    let row_start_styles = st.android_styles_for("div", &vec!["flex".to_string(), "justify-start".to_string(), "items-end".to_string()]);
    assert_eq!(row_start_styles.get("androidGravity").and_then(|v| v.as_str()), Some("bottom|start"));
}

#[test]
fn lib_test_button_bg_override() {
    let mut themes: OrdMap<ThemeEntry> = OrdMap::new();

    let mut variables: OrdMap<String> = OrdMap::new();
    variables.insert("color.bg".to_string(), "#ffffff".to_string());

    let mut selectors = SelectorStyles::new();
    selectors.insert("button".to_string(), props_of(&[("background-color", "#2563eb")]));

    let default_theme = ThemeEntry {
        name: Some("default".to_string()),
        inherits: None,
        selectors,
        variables,
        breakpoints: OrdMap::new(),
    };

    themes.insert("default".to_string(), default_theme);

    let mut state = State::new_default();
    state.themes = themes;
    state.current_theme = "default".to_string();

    let classes = vec!["bg-bg".to_string(), "p-4".to_string()];
    let styles = state.android_styles_for("button", &classes);

    assert_eq!(styles.get("backgroundColor").and_then(|v| v.as_str()), Some("#ffffff"));

    assert_eq!(styles.get("paddingTop").and_then(|v| v.as_int()), Some(16));
    assert_eq!(styles.get("paddingVertical").and_then(|v| v.as_int()), Some(16));
}

#[test]
fn lib_test_class_selector_matching() {
    let mut themes: OrdMap<ThemeEntry> = OrdMap::new();
    let mut selectors = SelectorStyles::new();

    selectors.insert(".bg-primary".to_string(), props_of(&[("background-color", "#3b82f6")]));

    let default_theme = ThemeEntry {
        name: Some("default".to_string()),
        inherits: None,
        selectors,
        variables: OrdMap::new(),
        breakpoints: OrdMap::new(),
    };

    themes.insert("default".to_string(), default_theme);

    let mut state = State::new_default();
    state.themes = themes;
    state.current_theme = "default".to_string();

    let classes = vec!["bg-primary".to_string()];
    let styles = state.android_styles_for("div", &classes);

    assert_eq!(styles.get("backgroundColor").and_then(|v| v.as_str()), Some("#3b82f6"));
}

#[test]
fn test_css_kebab_case_conversion() {
    let mut themes: OrdMap<ThemeEntry> = OrdMap::new();
    let mut selectors = SelectorStyles::new();

    let mut props = PropMap::new();
    props.insert("backgroundColor".to_string(), StyleValue::of_str("#ffffff"));
    props.insert("borderTopWidth".to_string(), StyleValue::Int(1));
    selectors.insert("body".to_string(), props);

    let default_theme = ThemeEntry {
        name: Some("default".to_string()),
        inherits: None,
        selectors,
        variables: OrdMap::new(),
        breakpoints: OrdMap::new(),
    };

    themes.insert("default".to_string(), default_theme);

    let mut state = State::new_default();
    state.themes = themes;
    state.current_theme = "default".to_string();

    state.used_tags.insert("body".to_string());

    let css = state.css_for_web();

    assert!(css.contains("background-color:#ffffff;"));
    assert!(css.contains("border-top-width:1;"));
    assert!(!css.contains("backgroundColor:"));
    assert!(!css.contains("borderTopWidth:"));
}
