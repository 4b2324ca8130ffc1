//! The stated behaviors on concrete values: unit conversion, color
//! mixing, inheritance, shorthand expansion, observation filtering, and
//! idempotent resolution.

use themed_styler::color::Color;
use themed_styler::ordmap::OrdMap;
use themed_styler::palette::get_tailwind_color;
use themed_styler::selector::{camel_case, class_to_selector, css_escape_class, is_simple_tag,
    kebab_case, should_emit_selector, split_tag_class_key, split_tag_class_selector,
    strip_hover_suffix};
use themed_styler::theme::{SelectorStyles, State, ThemeEntry};
use themed_styler::units::{dp_to_px, sp_to_px, PropMap};
use themed_styler::value::StyleValue;
use themed_styler::flatten::{flatten_variables, VarTree};
use themed_styler::bridge::{build_state, ThemesInput, UsageSnapshot};

fn props_of(pairs: &[(&str, &str)]) -> PropMap {
    let mut m = PropMap::new();
    for (k, v) in pairs {
        m.insert(k.to_string(), StyleValue::of_str(v));
    }
    m
}

#[test]
fn unit_conversion_dp_and_px() {
    // densities are thousandths: 2000 is a density of two
    assert_eq!(dp_to_px(8000, 2000), 16);
    assert_eq!(dp_to_px(1500, 1000), 2, "rounds half away from zero");
    assert_eq!(dp_to_px(-1500, 1000), -2);
    assert_eq!(sp_to_px(8000, 2000), 16000);

    let mut state = State::new_default();
    state.display_density = 2000;
    let converted = state.process_styles(props_of(&[("width", "8px")]));
    assert_eq!(converted.get("width").and_then(|v| v.as_int()), Some(16));
}

#[test]
fn color_mix_endpoints_and_midpoint() {
    let mut st = State::new_default();
    let mut selectors = SelectorStyles::new();
    selectors.insert(
        ".a".to_string(),
        props_of(&[("color", "color-mix(in srgb, #000000 0%, #ffffff 100%)")]),
    );
    selectors.insert(
        ".b".to_string(),
        props_of(&[("color", "color-mix(in srgb, #000000 50%, #ffffff 50%)")]),
    );
    st.add_theme("default", selectors);
    st.set_theme("default").ok();

    let a = st.android_styles_for("span", &vec![".a".to_string()]);
    assert_eq!(a.get("color").and_then(|v| v.as_str()), Some("#ffffff"));

    let b = st.android_styles_for("span", &vec![".b".to_string()]);
    let mixed = b.get("color").and_then(|v| v.as_str()).unwrap().to_string();
    let c = Color::from_hex(&mixed).unwrap();
    assert!(127 <= c.r && c.r <= 129, "each channel within one of the midpoint");
    assert!(127 <= c.g && c.g <= 129);
    assert!(127 <= c.b && c.b <= 129);
}

#[test]
fn color_hex_roundtrip() {
    let c = Color::from_hex("#3b82f6").unwrap();
    assert_eq!(c.to_hex(), "#3b82f6");
    let short = Color::from_hex("#fa0").unwrap();
    assert_eq!(short.to_hex(), "#ffaa00");
    assert!(Color::from_hex("#xyz").is_none());
    assert_eq!(Color::from_hex("#00000080").unwrap().to_hex(), "#00000080");
}

#[test]
fn button_theme_scenario() {
    let mut st = State::new_default();
    let mut selectors = SelectorStyles::new();
    selectors.insert(
        "button".to_string(),
        props_of(&[("background-color", "#2196F3"), ("color", "#ffffff")]),
    );
    st.add_theme("default", selectors);
    st.set_theme("default").ok();

    let out = st.android_styles_for("button", &vec![]);
    assert_eq!(out.get("backgroundColor").and_then(|v| v.as_str()), Some("#2196F3"));
}

#[test]
fn p4_class_resolves_web() {
    let mut st = State::new_default();
    st.register_tailwind_classes(vec!["p-4".to_string()]);
    let css = st.css_for_web();
    assert!(css.contains(".p-4{"));
    assert!(css.contains("padding:16px"));
}

#[test]
fn observed_tags_filter_stylesheet() {
    let mut st = State::new_default();
    let mut selectors = SelectorStyles::new();
    selectors.insert("h1".to_string(), props_of(&[("color", "#111111")]));
    selectors.insert("h2".to_string(), props_of(&[("color", "#222222")]));
    st.add_theme("default", selectors);
    st.set_theme("default").ok();
    st.register_tags(vec!["h1".to_string()]);

    let css = st.css_for_web();
    assert!(css.contains("h1{"));
    assert!(!css.contains("h2{"));
}

#[test]
fn inheritance_override_scenario() {
    let mut themes: OrdMap<ThemeEntry> = OrdMap::new();

    let mut parent_sels = SelectorStyles::new();
    parent_sels.insert(
        "button".to_string(),
        props_of(&[("color", "#111111"), ("background-color", "#222222")]),
    );
    let parent = ThemeEntry {
        name: None,
        inherits: None,
        selectors: parent_sels,
        variables: OrdMap::new(),
        breakpoints: OrdMap::new(),
    };

    let mut child_sels = SelectorStyles::new();
    child_sels.insert("button".to_string(), props_of(&[("color", "#333333")]));
    let child = ThemeEntry {
        name: None,
        inherits: Some("base".to_string()),
        selectors: child_sels,
        variables: OrdMap::new(),
        breakpoints: OrdMap::new(),
    };

    themes.insert("base".to_string(), parent);
    themes.insert("kid".to_string(), child);

    let mut st = State::new_default();
    st.themes = themes;
    st.current_theme = "kid".to_string();
    st.default_theme = "kid".to_string();

    let out = st.android_styles_for("button", &vec![]);
    // defined in both chains: the child wins
    assert_eq!(out.get("color").and_then(|v| v.as_str()), Some("#333333"));
    // defined only in the parent: still present
    assert_eq!(out.get("backgroundColor").and_then(|v| v.as_str()), Some("#222222"));
}

#[test]
fn inheritance_cycle_stops() {
    let mut themes: OrdMap<ThemeEntry> = OrdMap::new();
    let mut a = ThemeEntry::new_empty();
    a.inherits = Some("b".to_string());
    a.selectors.insert("p".to_string(), props_of(&[("color", "#aaaaaa")]));
    let mut b = ThemeEntry::new_empty();
    b.inherits = Some("a".to_string());
    themes.insert("a".to_string(), a);
    themes.insert("b".to_string(), b);

    let mut st = State::new_default();
    st.themes = themes;
    st.current_theme = "a".to_string();
    st.default_theme = "a".to_string();

    let out = st.android_styles_for("p", &vec![]);
    assert_eq!(out.get("color").and_then(|v| v.as_str()), Some("#aaaaaa"));
}

#[test]
fn shorthand_expansion_before_conversion() {
    let mut state = State::new_default();
    state.display_density = 2000;
    let converted = state.process_styles(props_of(&[("padding", "10px")]));
    assert_eq!(converted.get("paddingTop").and_then(|v| v.as_int()), Some(20));
    assert_eq!(converted.get("paddingBottom").and_then(|v| v.as_int()), Some(20));
    assert_eq!(converted.get("paddingLeft").and_then(|v| v.as_int()), Some(20));
    assert_eq!(converted.get("paddingRight").and_then(|v| v.as_int()), Some(20));
}

#[test]
fn idempotent_resolution() {
    let mut st = State::new_default();
    let mut selectors = SelectorStyles::new();
    selectors.insert("button".to_string(), props_of(&[("background-color", "#2196F3")]));
    st.add_theme("default", selectors);
    st.set_theme("default").ok();
    st.register_tailwind_classes(vec!["p-2".to_string()]);

    let css1 = st.css_for_web();
    let css2 = st.css_for_web();
    assert_eq!(css1, css2);

    let classes = vec!["flex".to_string(), "gap-4".to_string()];
    let a1 = st.android_styles_for("button", &classes);
    let a2 = st.android_styles_for("button", &classes);
    let mut i = 0;
    assert_eq!(a1.len(), a2.len());
    while i < a1.len() {
        assert_eq!(a1.key_at(i), a2.key_at(i));
        i += 1;
    }
}

#[test]
fn theme_not_found_is_reported() {
    let mut st = State::new_default();
    let err = st.set_theme("missing").unwrap_err();
    assert_eq!(err.message(), "theme not found: missing");
    assert_eq!(st.current_theme, "");
}

#[test]
fn palette_and_token_helpers() {
    assert_eq!(get_tailwind_color("blue-500").as_deref(), Some("#3b82f6"));
    assert_eq!(get_tailwind_color("blue-950").as_deref(), Some("#172554"));
    assert_eq!(get_tailwind_color("nope-500"), None);

    assert_eq!(camel_case("background-color"), "backgroundColor");
    assert_eq!(kebab_case("borderTopWidth"), "border-top-width");
    assert_eq!(css_escape_class("md:flex"), "md\\:flex");
    assert_eq!(class_to_selector("md:hover:block"), ".block:hover");
    assert!(is_simple_tag("h1"));
    assert!(!is_simple_tag(".btn"));
    assert_eq!(strip_hover_suffix("a:hover"), ("a", true));
    assert_eq!(strip_hover_suffix("a"), ("a", false));
    assert_eq!(split_tag_class_key("h1|btn"), Some(("h1".to_string(), "btn".to_string())));
    assert_eq!(split_tag_class_key("h1"), None);
    assert_eq!(split_tag_class_selector("h1.btn"), Some(("h1".to_string(), "btn".to_string())));
}

#[test]
fn observation_test_forms() {
    let mut tags = themed_styler::ordmap::OrdSet::new();
    let mut classes = themed_styler::ordmap::OrdSet::new();
    let mut pairs = themed_styler::ordmap::OrdSet::new();
    tags.insert("h1".to_string());
    classes.insert("btn".to_string());
    pairs.insert("div|card".to_string());

    assert!(should_emit_selector("h1", &tags, &classes, &pairs));
    assert!(!should_emit_selector("h2", &tags, &classes, &pairs));
    assert!(should_emit_selector(".btn", &tags, &classes, &pairs));
    assert!(should_emit_selector(".btn:hover", &tags, &classes, &pairs));
    assert!(should_emit_selector(".card", &tags, &classes, &pairs));
    assert!(should_emit_selector("div", &tags, &classes, &pairs));
    assert!(should_emit_selector("div.card", &tags, &classes, &pairs));
    assert!(!should_emit_selector("div.btn", &tags, &classes, &pairs));
    assert!(should_emit_selector("h1.btn", &tags, &classes, &pairs));
}

#[test]
fn flatten_nested_variables() {
    let tree = VarTree::Fields(vec![
        ("colors".to_string(), VarTree::Fields(vec![
            ("primary".to_string(), VarTree::Scalar("#ff0000".to_string())),
            ("shades".to_string(), VarTree::List(vec![
                VarTree::Scalar("#111111".to_string()),
                VarTree::Scalar("#222222".to_string()),
            ])),
        ])),
        ("gone".to_string(), VarTree::Null),
        ("flag".to_string(), VarTree::Scalar("true".to_string())),
    ]);
    let mut out: OrdMap<String> = OrdMap::new();
    flatten_variables(None, &tree, &mut out);
    assert_eq!(out.get("colors.primary").map(|s| s.as_str()), Some("#ff0000"));
    assert_eq!(out.get("colors.shades.0").map(|s| s.as_str()), Some("#111111"));
    assert_eq!(out.get("colors.shades.1").map(|s| s.as_str()), Some("#222222"));
    assert_eq!(out.get("flag").map(|s| s.as_str()), Some("true"));
    assert!(out.get("gone").is_none());
    assert_eq!(out.len(), 4);
}

#[test]
fn build_state_from_snapshot() {
    let mut themes: OrdMap<ThemeEntry> = OrdMap::new();
    themes.insert("night".to_string(), ThemeEntry::new_empty());
    themes.insert("day".to_string(), ThemeEntry::new_empty());
    let input = ThemesInput { themes, current_theme: Some("day".to_string()) };
    let usage = UsageSnapshot {
        selectors: vec![],
        classes: vec!["p-2".to_string(), "flex".to_string()],
    };
    let st = build_state(usage, input);
    assert_eq!(st.current_theme, "day");
    assert_eq!(st.default_theme, "night");
    assert!(st.used_classes.contains("p-2"));
    assert!(st.used_classes.contains("flex"));
}

#[test]
fn arbitrary_value_classes() {
    let mut st = State::new_default();
    st.register_tailwind_classes(vec!["bg-[#123456]".to_string()]);
    let css = st.css_for_web();
    assert!(css.contains("background-color:#123456"));
}

#[test]
fn opacity_and_shadow_tokens() {
    let st = State::new_default();
    let styles = st.android_styles_for("div", &vec!["opacity-50".to_string(), "shadow-lg".to_string()]);
    assert_eq!(styles.get("androidAlpha").and_then(|v| v.as_milli()), Some(500));
    // shadow-lg names a fifteen-pixel blur, the second elevation tier
    assert_eq!(styles.get("elevation").and_then(|v| v.as_int()), Some(16));
}

#[test]
fn width_fraction_and_scale() {
    let mut st = State::new_default();
    st.register_tailwind_classes(vec!["w-1/2".to_string(), "w-3".to_string(), "text-sm".to_string()]);
    let css = st.css_for_web();
    assert!(css.contains("width:50%"));
    assert!(css.contains("width:12px"));
    assert!(css.contains("font-size:14px"));
    assert!(css.contains("line-height:20px"));
}

#[test]
fn css_for_element_inline_text() {
    let mut st = State::new_default();
    let mut selectors = SelectorStyles::new();
    selectors.insert("p".to_string(), props_of(&[("color", "#111111")]));
    st.add_theme("default", selectors);
    st.set_theme("default").ok();
    let text = st.css_for_element("p", &vec!["p-2".to_string()]);
    assert_eq!(text, "color: #111111; padding: 8px;");
}
