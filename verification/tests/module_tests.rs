//! The same session behaviors exercised once more as the smaller modules
//! expose them.

use themed_styler::ordmap::OrdMap;
use themed_styler::theme::{SelectorStyles, State, ThemeEntry};
use themed_styler::units::PropMap;
use themed_styler::value::StyleValue;

fn props_of(pairs: &[(&str, &str)]) -> PropMap {
    let mut m = PropMap::new();
    for (k, v) in pairs {
        m.insert(k.to_string(), StyleValue::of_str(v));
    }
    m
}

#[test]
fn tests_default_theme_has_p2() {
    let mut st = State::new_default();
    st.register_tailwind_classes(vec!["p-2".to_string()]);
    let css = st.css_for_web();
    assert!(css.contains(".p-2{"));
    assert!(css.contains("padding:8px"));
}

#[test]
fn tests_android_conversion() {
    let mut st = State::new_default();
    let mut styles = SelectorStyles::new();
    styles.insert("button".to_string(), props_of(&[("backgroundColor", "#007bff")]));
    st.add_theme("default", styles);
    st.set_theme("default").ok();

    let out = st.android_styles_for("button", &vec![]);
    assert!(out.get("backgroundColor").is_some());
}

#[test]
fn tests_android_flex_row_default() {
    let st = State::new_default();
    let styles = st.android_styles_for("div", &vec!["flex".to_string()]);
    assert_eq!(styles.get("androidOrientation").and_then(|v| v.as_str()), Some("horizontal"));
    assert_eq!(styles.get("flexDirection").and_then(|v| v.as_str()), Some("row"));

    let styles = st.android_styles_for("div", &vec![]);
    assert_eq!(styles.get("androidOrientation").and_then(|v| v.as_str()), Some("vertical"));
    assert_eq!(styles.get("flexDirection").and_then(|v| v.as_str()), Some("column"));
}

#[test]
fn tests_test_button_bg_override() {
    let mut themes: OrdMap<ThemeEntry> = OrdMap::new();

    let mut variables: OrdMap<String> = OrdMap::new();
    variables.insert("color.bg".to_string(), "#ffffff".to_string());

    let mut selectors = SelectorStyles::new();
    selectors.insert("button".to_string(), props_of(&[("background-color", "#2563eb")]));

    let default_theme = ThemeEntry {
        name: Some("default".to_string()),
        inherits: None,
        selectors,
        variables,
        breakpoints: OrdMap::new(),
    };

    themes.insert("default".to_string(), default_theme);

    let mut state = State::new_default();
    state.themes = themes;
    state.current_theme = "default".to_string();

    let classes = vec!["bg-bg".to_string(), "p-4".to_string()];
    let styles = state.android_styles_for("button", &classes);

    assert_eq!(styles.get("backgroundColor").and_then(|v| v.as_str()), Some("#ffffff"));
    assert_eq!(styles.get("paddingTop").and_then(|v| v.as_int()), Some(16));
    assert_eq!(styles.get("paddingVertical").and_then(|v| v.as_int()), Some(16));
}

#[test]
fn tests_test_class_selector_matching() {
    let mut themes: OrdMap<ThemeEntry> = OrdMap::new();
    let mut selectors = SelectorStyles::new();

    selectors.insert(".bg-primary".to_string(), props_of(&[("background-color", "#3b82f6")]));

    let default_theme = ThemeEntry {
        name: Some("default".to_string()),
        inherits: None,
        selectors,
        variables: OrdMap::new(),
        breakpoints: OrdMap::new(),
    };

    themes.insert("default".to_string(), default_theme);

    let mut state = State::new_default();
    state.themes = themes;
    state.current_theme = "default".to_string();

    let classes = vec!["bg-primary".to_string()];
    let styles = state.android_styles_for("div", &classes);

    assert_eq!(styles.get("backgroundColor").and_then(|v| v.as_str()), Some("#3b82f6"));
}
