//! The native projector: one element's resolved properties turned into a
//! flat map of native layout and paint properties, with shorthand
//! expansion, unit conversion, and the CSS-to-native semantic translation
//! (flex alignment to gravity, shadows to elevation, and the rest).

use vstd::prelude::*;
use crate::classes::{class_props_spec, dynamic_css_properties_for_class};
use crate::color::{opt_str_view, resolve_color, resolve_color_spec};
use crate::ordmap::{m_contains, m_get, m_insert, m_val, m_wf, OrdMap};
use crate::selector::{
    ascii_lower, camel_case, camel_spec, class_to_selector, class_to_selector_spec,
    parse_prefixed_class, parse_prefixed_spec,
};
use crate::strutil::{
    chars_to_string, ends_with_str, is_suffix_of, parse_milli, parse_milli_spec, push_str_chars,
    seq_contains, split_ws, split_ws_spec, str_to_chars, subvec, str_eq, trim, trim_spec,
};
use crate::theme::{
    effective_theme_spec, merge_props_spec, merge_props, dup_props, state_wf, SpecState,
    SpecSelectors, SpecVars, State,
};
use crate::units::{
    clamp_dim, convert_dims, convert_dims_spec, convert_scalar, convert_scalar_spec, dp_to_px,
    dp_to_px_spec, round_div, PropMap, SpecProps,
};
use crate::value::{SpecVal, StyleValue};
use crate::varres::{resolve_vars, resolve_vars_spec};

verus! {

broadcast use vstd::string::group_string_axioms, crate::ordmap::lemma_m_insert_wf;

// ===== resolving one value for the native map =====

/// What one value becomes in the native map: text has its variables and
/// colors resolved; text that then carries a single `px` suffix becomes a
/// fractional number; other values pass through.
pub open spec fn css_value_to_android_spec(
    v: SpecVal,
    vars: SpecVars,
    current: Option<Seq<char>>,
) -> SpecVal {
    match v {
        SpecVal::Str(s) => {
            let s2 = resolve_vars_spec(s, vars);
            let s3 = resolve_color_spec(s2, current);
            if is_suffix_of("px"@, s3) && parse_milli_spec(trim_spec(s3.take(s3.len() - 2)))
                is Some {
                SpecVal::Milli(parse_milli_spec(trim_spec(s3.take(s3.len() - 2)))->0)
            } else {
                SpecVal::Str(s3)
            }
        },
        _ => v,
    }
}

/// Resolve one value for the native map.
pub fn css_value_to_android(
    value: &StyleValue,
    vars: &OrdMap<String>,
    current_color: Option<&str>,
) -> (r: StyleValue)
    requires
        m_wf(vars@),
    ensures
        r@ == css_value_to_android_spec(value@, vars@, opt_str_view(current_color)),
{
    match value {
        StyleValue::Str(s) => {
            let s2 = resolve_vars(s.as_str(), vars);
            let s3 = resolve_color(s2.as_str(), current_color, vars);
            let sv = str_to_chars(s3.as_str());
            if ends_with_str(&sv, "px") {
                proof {
                    assert("px"@.len() == 2) by {
                        reveal_strlit("px");
                    }
                }
                let head = subvec(&sv, 0, sv.len() - 2);
                proof {
                    assert(head@ =~= sv@.take(sv@.len() - 2));
                }
                let t = trim(&head);
                match parse_milli(&t) {
                    Some(m) => StyleValue::Milli(m),
                    None => StyleValue::Str(s3),
                }
            } else {
                StyleValue::Str(sv_string(sv, s3))
            }
        },
        other => other.dup(),
    }
}

/// Hand back the already-built string; the vector argument only carries the
/// proof that its characters are the string's.
fn sv_string(sv: Vec<char>, s: String) -> (r: String)
    requires
        sv@ == s@,
    ensures
        r@ == sv@,
{
    s
}

// ===== merging resolved properties into the native map =====

/// The element's current color: the merged properties' own `color`, with
/// variables resolved, else the color already in the native map.
pub open spec fn current_color_spec(
    into: SpecProps,
    props: SpecProps,
    vars: SpecVars,
) -> Option<Seq<char>> {
    if m_contains(props, "color"@) && (m_val(props, "color"@) matches SpecVal::Str(_)) {
        match m_val(props, "color"@) {
            SpecVal::Str(s) => Some(resolve_vars_spec(s, vars)),
            _ => None,
        }
    } else if m_contains(into, "color"@) && (m_val(into, "color"@) matches SpecVal::Str(_)) {
        match m_val(into, "color"@) {
            SpecVal::Str(s) => Some(s),
            _ => None,
        }
    } else {
        None
    }
}

pub open spec fn ins(m: SpecProps, k: Seq<char>, v: SpecVal) -> SpecProps {
    m_insert(m, k, v)
}

/// Where one resolved property lands in the native map: box shorthands fan
/// out to their sides and aliases, a few names translate, flex direction
/// also records the orientation, and everything else becomes camel-case.
pub open spec fn apply_android_prop(into: SpecProps, k: Seq<char>, val: SpecVal) -> SpecProps {
    if k == "padding"@ {
        ins(ins(ins(ins(ins(ins(ins(into, "paddingTop"@, val), "paddingBottom"@, val),
            "paddingLeft"@, val), "paddingRight"@, val), "paddingHorizontal"@, val),
            "paddingVertical"@, val), "padding"@, val)
    } else if k == "padding-horizontal"@ || k == "paddingHorizontal"@ {
        ins(ins(ins(into, "paddingLeft"@, val), "paddingRight"@, val), "paddingHorizontal"@, val)
    } else if k == "padding-vertical"@ || k == "paddingVertical"@ {
        ins(ins(ins(into, "paddingTop"@, val), "paddingBottom"@, val), "paddingVertical"@, val)
    } else if k == "margin"@ {
        ins(ins(ins(ins(ins(ins(ins(into, "marginTop"@, val), "marginBottom"@, val),
            "marginLeft"@, val), "marginRight"@, val), "marginHorizontal"@, val),
            "marginVertical"@, val), "margin"@, val)
    } else if k == "margin-horizontal"@ || k == "marginHorizontal"@ {
        ins(ins(ins(into, "marginLeft"@, val), "marginRight"@, val), "marginHorizontal"@, val)
    } else if k == "margin-vertical"@ || k == "marginVertical"@ {
        ins(ins(ins(into, "marginTop"@, val), "marginBottom"@, val), "marginVertical"@, val)
    } else if k == "border-radius"@ || k == "borderRadius"@ {
        ins(ins(ins(ins(ins(into, "borderTopLeftRadius"@, val), "borderTopRightRadius"@, val),
            "borderBottomLeftRadius"@, val), "borderBottomRightRadius"@, val), "borderRadius"@,
            val)
    } else if k == "background-color"@ {
        ins(into, "backgroundColor"@, val)
    } else if k == "text-align"@ {
        ins(into, "textAlign"@, val)
    } else if k == "flex-direction"@ || k == "flexDirection"@ {
        let orientation: Seq<char> = if val == SpecVal::Str("column"@) || val == SpecVal::Str(
            "column-reverse"@,
        ) {
            "vertical"@
        } else {
            "horizontal"@
        };
        ins(ins(into, "androidOrientation"@, SpecVal::Str(orientation)), "flexDirection"@, val)
    } else {
        ins(into, camel_spec(k, false), val)
    }
}

/// The fold of resolved properties into the native map, in order.
pub open spec fn merge_android_from(
    into: SpecProps,
    props: SpecProps,
    vars: SpecVars,
    current: Option<Seq<char>>,
    i: int,
) -> SpecProps
    decreases props.len() - i,
{
    if i < 0 || i >= props.len() {
        into
    } else {
        let val = css_value_to_android_spec(props[i].1, vars, current);
        merge_android_from(apply_android_prop(into, props[i].0, val), props, vars, current, i + 1)
    }
}

pub open spec fn merge_android_spec(
    into: SpecProps,
    props: SpecProps,
    vars: SpecVars,
) -> SpecProps {
    merge_android_from(into, props, vars, current_color_spec(into, props, vars), 0)
}

proof fn lemma_apply_android_wf(into: SpecProps, k: Seq<char>, val: SpecVal)
    requires
        m_wf(into),
    ensures
        m_wf(apply_android_prop(into, k, val)),
{
}

proof fn lemma_merge_android_wf(
    into: SpecProps,
    props: SpecProps,
    vars: SpecVars,
    current: Option<Seq<char>>,
    i: int,
)
    requires
        m_wf(into),
    ensures
        m_wf(merge_android_from(into, props, vars, current, i)),
    decreases props.len() - i,
{
    if 0 <= i < props.len() {
        let val = css_value_to_android_spec(props[i].1, vars, current);
        lemma_apply_android_wf(into, props[i].0, val);
        lemma_merge_android_wf(
            apply_android_prop(into, props[i].0, val),
            props,
            vars,
            current,
            i + 1,
        );
    }
}

fn ins_exec(m: &mut PropMap, k: &str, v: StyleValue)
    requires
        m_wf(old(m)@),
    ensures
        final(m)@ == ins(old(m)@, k@, v@),
        m_wf(final(m)@),
{
    m.insert(String::from_str(k), v);
}

#[verifier::rlimit(100)]
fn apply_android_prop_exec(into: &mut PropMap, k: &str, val: StyleValue)
    requires
        m_wf(old(into)@),
    ensures
        final(into)@ == apply_android_prop(old(into)@, k@, val@),
        m_wf(final(into)@),
{
    if str_eq(k, "padding") {
        ins_exec(into, "paddingTop", val.dup());
        ins_exec(into, "paddingBottom", val.dup());
        ins_exec(into, "paddingLeft", val.dup());
        ins_exec(into, "paddingRight", val.dup());
        ins_exec(into, "paddingHorizontal", val.dup());
        ins_exec(into, "paddingVertical", val.dup());
        ins_exec(into, "padding", val);
    } else if str_eq(k, "padding-horizontal") || str_eq(k, "paddingHorizontal") {
        ins_exec(into, "paddingLeft", val.dup());
        ins_exec(into, "paddingRight", val.dup());
        ins_exec(into, "paddingHorizontal", val);
    } else if str_eq(k, "padding-vertical") || str_eq(k, "paddingVertical") {
        ins_exec(into, "paddingTop", val.dup());
        ins_exec(into, "paddingBottom", val.dup());
        ins_exec(into, "paddingVertical", val);
    } else if str_eq(k, "margin") {
        ins_exec(into, "marginTop", val.dup());
        ins_exec(into, "marginBottom", val.dup());
        ins_exec(into, "marginLeft", val.dup());
        ins_exec(into, "marginRight", val.dup());
        ins_exec(into, "marginHorizontal", val.dup());
        ins_exec(into, "marginVertical", val.dup());
        ins_exec(into, "margin", val);
    } else if str_eq(k, "margin-horizontal") || str_eq(k, "marginHorizontal") {
        ins_exec(into, "marginLeft", val.dup());
        ins_exec(into, "marginRight", val.dup());
        ins_exec(into, "marginHorizontal", val);
    } else if str_eq(k, "margin-vertical") || str_eq(k, "marginVertical") {
        ins_exec(into, "marginTop", val.dup());
        ins_exec(into, "marginBottom", val.dup());
        ins_exec(into, "marginVertical", val);
    } else if str_eq(k, "border-radius") || str_eq(k, "borderRadius") {
        ins_exec(into, "borderTopLeftRadius", val.dup());
        ins_exec(into, "borderTopRightRadius", val.dup());
        ins_exec(into, "borderBottomLeftRadius", val.dup());
        ins_exec(into, "borderBottomRightRadius", val.dup());
        ins_exec(into, "borderRadius", val);
    } else if str_eq(k, "background-color") {
        ins_exec(into, "backgroundColor", val);
    } else if str_eq(k, "text-align") {
        ins_exec(into, "textAlign", val);
    } else if str_eq(k, "flex-direction") || str_eq(k, "flexDirection") {
        let vertical = val.is_str("column") || val.is_str("column-reverse");
        if vertical {
            ins_exec(into, "androidOrientation", StyleValue::of_str("vertical"));
        } else {
            ins_exec(into, "androidOrientation", StyleValue::of_str("horizontal"));
        }
        ins_exec(into, "flexDirection", val);
    } else {
        let ck = camel_case(k);
        into.insert(ck, val);
    }
}

/// Resolve and merge one property set into the native map.
pub fn merge_android_props(into: &mut PropMap, css_props: &PropMap, vars: &OrdMap<String>)
    requires
        m_wf(old(into)@),
        m_wf(css_props@),
        m_wf(vars@),
    ensures
        final(into)@ == merge_android_spec(old(into)@, css_props@, vars@),
        m_wf(final(into)@),
{
    let mut current_color: Option<String> = None;
    match css_props.get("color") {
        Some(v) => {
            match v.as_str() {
                Some(s) => {
                    current_color = Some(resolve_vars(s, vars));
                },
                None => {},
            }
        },
        None => {},
    }
    if current_color.is_none() {
        match into.get("color") {
            Some(v) => {
                match v.as_str() {
                    Some(s) => {
                        current_color = Some(String::from_str(s));
                    },
                    None => {},
                }
            },
            None => {},
        }
    }
    let ghost cc = current_color_spec(old(into)@, css_props@, vars@);
    proof {
        match current_color {
            Some(ref c) => {
                assert(cc == Some(c@));
            },
            None => {
                assert(cc is None);
            },
        }
    }
    let n = css_props.len();
    let mut i: usize = 0;
    while i < n
        invariant
            i <= n,
            n == css_props@.len(),
            m_wf(into@),
            m_wf(css_props@),
            m_wf(vars@),
            match current_color {
                Some(ref c) => cc == Some(c@),
                None => cc is None,
            },
            merge_android_from(old(into)@, css_props@, vars@, cc, 0) == merge_android_from(
                into@,
                css_props@,
                vars@,
                cc,
                i as int,
            ),
        decreases n - i,
    {
        let k = css_props.key_at(i).clone();
        let v = css_props.value_at(i);
        let cur_ref: Option<&str> = match current_color {
            Some(ref c) => Some(c.as_str()),
            None => None,
        };
        let val = css_value_to_android(v, vars, cur_ref);
        apply_android_prop_exec(into, k.as_str(), val);
        i += 1;
    }
}

// ===== the per-tag platform defaults =====

/// The hardcoded platform defaults for the small fixed tag vocabulary,
/// matched on the lowercased tag.
pub open spec fn base_defaults_spec(tag: Seq<char>) -> SpecProps {
    if tag == "div"@ {
        seq![("width"@, SpecVal::Str("match_parent"@))]
    } else if tag == "p"@ {
        seq![("width"@, SpecVal::Str("match_parent"@)), ("margin-vertical"@, SpecVal::Str("16px"@))]
    } else if tag == "h1"@ {
        seq![("width"@, SpecVal::Str("match_parent"@)), ("font-size"@, SpecVal::Str("32px"@)), ("font-weight"@, SpecVal::Str("bold"@)), ("margin-vertical"@, SpecVal::Str("21.44px"@))]
    } else if tag == "h2"@ {
        seq![("width"@, SpecVal::Str("match_parent"@)), ("font-size"@, SpecVal::Str("24px"@)), ("font-weight"@, SpecVal::Str("bold"@)), ("margin-vertical"@, SpecVal::Str("19.92px"@))]
    } else if tag == "h3"@ {
        seq![("width"@, SpecVal::Str("match_parent"@)), ("font-size"@, SpecVal::Str("18.72px"@)), ("font-weight"@, SpecVal::Str("bold"@)), ("margin-vertical"@, SpecVal::Str("18.72px"@))]
    } else if tag == "h4"@ {
        seq![("width"@, SpecVal::Str("match_parent"@)), ("font-size"@, SpecVal::Str("16px"@)), ("font-weight"@, SpecVal::Str("bold"@)), ("margin-vertical"@, SpecVal::Str("21.28px"@))]
    } else if tag == "h5"@ {
        seq![("width"@, SpecVal::Str("match_parent"@)), ("font-size"@, SpecVal::Str("13.28px"@)), ("font-weight"@, SpecVal::Str("bold"@)), ("margin-vertical"@, SpecVal::Str("22.17px"@))]
    } else if tag == "h6"@ {
        seq![("width"@, SpecVal::Str("match_parent"@)), ("font-size"@, SpecVal::Str("10.72px"@)), ("font-weight"@, SpecVal::Str("bold"@)), ("margin-vertical"@, SpecVal::Str("24.96px"@))]
    } else if tag == "input"@ {
        seq![("padding-vertical"@, SpecVal::Str("8px"@)), ("padding-horizontal"@, SpecVal::Str("12px"@)), ("border-radius"@, SpecVal::Str("4px"@)), ("border-width"@, SpecVal::Str("1px"@)), ("border-color"@, SpecVal::Str("#cccccc"@)), ("background-color"@, SpecVal::Str("#ffffff"@)), ("color"@, SpecVal::Str("#000000"@)), ("placeholder-color"@, SpecVal::Str("#88888870"@)), ("min-height"@, SpecVal::Str("40px"@)), ("android-gravity"@, SpecVal::Str("center_vertical"@))]
    } else if tag == "select"@ {
        seq![("padding-vertical"@, SpecVal::Str("8px"@)), ("padding-horizontal"@, SpecVal::Str("12px"@)), ("border-radius"@, SpecVal::Str("4px"@)), ("border-width"@, SpecVal::Str("1px"@)), ("border-color"@, SpecVal::Str("#cccccc"@)), ("background-color"@, SpecVal::Str("#ffffff"@)), ("color"@, SpecVal::Str("#000000"@)), ("min-height"@, SpecVal::Str("40px"@)), ("android-gravity"@, SpecVal::Str("center_vertical"@))]
    } else if tag == "textarea"@ {
        seq![("padding"@, SpecVal::Str("12px"@)), ("border-radius"@, SpecVal::Str("4px"@)), ("border-width"@, SpecVal::Str("1px"@)), ("border-color"@, SpecVal::Str("#cccccc"@)), ("background-color"@, SpecVal::Str("#ffffff"@)), ("color"@, SpecVal::Str("#000000"@)), ("placeholder-color"@, SpecVal::Str("color-mix(in srgb, currentColor 75%, grey)"@)), ("min-height"@, SpecVal::Str("80px"@)), ("android-gravity"@, SpecVal::Str("top"@))]
    } else if tag == "button"@ {
        seq![("padding-vertical"@, SpecVal::Str("8px"@)), ("padding-horizontal"@, SpecVal::Str("16px"@)), ("border-radius"@, SpecVal::Str("4px"@)), ("background-color"@, SpecVal::Str("#2196F3"@)), ("color"@, SpecVal::Str("#ffffff"@)), ("android-gravity"@, SpecVal::Str("center"@))]
    } else {
        Seq::<(Seq<char>, SpecVal)>::empty()
    }
}

fn base_defaults(tag: &Vec<char>) -> (r: PropMap)
    ensures
        r@ == base_defaults_spec(tag@),
        m_wf(r@),
{
    let mut m = PropMap::new();
    if crate::strutil::chars_eq_str(tag, "div") {
        m.insert(String::from_str("width"), StyleValue::of_str("match_parent"));
        proof {
            reveal_strlit("width");
            assert("width"@.len() == 5);
            assert(m@ =~= base_defaults_spec(tag@));
        }
    } else if crate::strutil::chars_eq_str(tag, "p") {
        m.insert(String::from_str("width"), StyleValue::of_str("match_parent"));
        m.insert(String::from_str("margin-vertical"), StyleValue::of_str("16px"));
        proof {
            reveal_strlit("width");
            assert("width"@.len() == 5);
            reveal_strlit("margin-vertical");
            assert("margin-vertical"@.len() == 15);
            assert(m@ =~= base_defaults_spec(tag@));
        }
    } else if crate::strutil::chars_eq_str(tag, "h1") {
        m.insert(String::from_str("width"), StyleValue::of_str("match_parent"));
        m.insert(String::from_str("font-size"), StyleValue::of_str("32px"));
        m.insert(String::from_str("font-weight"), StyleValue::of_str("bold"));
        m.insert(String::from_str("margin-vertical"), StyleValue::of_str("21.44px"));
        proof {
            reveal_strlit("width");
            assert("width"@.len() == 5);
            reveal_strlit("font-size");
            assert("font-size"@.len() == 9);
            reveal_strlit("font-weight");
            assert("font-weight"@.len() == 11);
            reveal_strlit("margin-vertical");
            assert("margin-vertical"@.len() == 15);
            assert(m@ =~= base_defaults_spec(tag@));
        }
    } else if crate::strutil::chars_eq_str(tag, "h2") {
        m.insert(String::from_str("width"), StyleValue::of_str("match_parent"));
        m.insert(String::from_str("font-size"), StyleValue::of_str("24px"));
        m.insert(String::from_str("font-weight"), StyleValue::of_str("bold"));
        m.insert(String::from_str("margin-vertical"), StyleValue::of_str("19.92px"));
        proof {
            reveal_strlit("width");
            assert("width"@.len() == 5);
            reveal_strlit("font-size");
            assert("font-size"@.len() == 9);
            reveal_strlit("font-weight");
            assert("font-weight"@.len() == 11);
            reveal_strlit("margin-vertical");
            assert("margin-vertical"@.len() == 15);
            assert(m@ =~= base_defaults_spec(tag@));
        }
    } else if crate::strutil::chars_eq_str(tag, "h3") {
        m.insert(String::from_str("width"), StyleValue::of_str("match_parent"));
        m.insert(String::from_str("font-size"), StyleValue::of_str("18.72px"));
        m.insert(String::from_str("font-weight"), StyleValue::of_str("bold"));
        m.insert(String::from_str("margin-vertical"), StyleValue::of_str("18.72px"));
        proof {
            reveal_strlit("width");
            assert("width"@.len() == 5);
            reveal_strlit("font-size");
            assert("font-size"@.len() == 9);
            reveal_strlit("font-weight");
            assert("font-weight"@.len() == 11);
            reveal_strlit("margin-vertical");
            assert("margin-vertical"@.len() == 15);
            assert(m@ =~= base_defaults_spec(tag@));
        }
    } else if crate::strutil::chars_eq_str(tag, "h4") {
        m.insert(String::from_str("width"), StyleValue::of_str("match_parent"));
        m.insert(String::from_str("font-size"), StyleValue::of_str("16px"));
        m.insert(String::from_str("font-weight"), StyleValue::of_str("bold"));
        m.insert(String::from_str("margin-vertical"), StyleValue::of_str("21.28px"));
        proof {
            reveal_strlit("width");
            assert("width"@.len() == 5);
            reveal_strlit("font-size");
            assert("font-size"@.len() == 9);
            reveal_strlit("font-weight");
            assert("font-weight"@.len() == 11);
            reveal_strlit("margin-vertical");
            assert("margin-vertical"@.len() == 15);
            assert(m@ =~= base_defaults_spec(tag@));
        }
    } else if crate::strutil::chars_eq_str(tag, "h5") {
        m.insert(String::from_str("width"), StyleValue::of_str("match_parent"));
        m.insert(String::from_str("font-size"), StyleValue::of_str("13.28px"));
        m.insert(String::from_str("font-weight"), StyleValue::of_str("bold"));
        m.insert(String::from_str("margin-vertical"), StyleValue::of_str("22.17px"));
        proof {
            reveal_strlit("width");
            assert("width"@.len() == 5);
            reveal_strlit("font-size");
            assert("font-size"@.len() == 9);
            reveal_strlit("font-weight");
            assert("font-weight"@.len() == 11);
            reveal_strlit("margin-vertical");
            assert("margin-vertical"@.len() == 15);
            assert(m@ =~= base_defaults_spec(tag@));
        }
    } else if crate::strutil::chars_eq_str(tag, "h6") {
        m.insert(String::from_str("width"), StyleValue::of_str("match_parent"));
        m.insert(String::from_str("font-size"), StyleValue::of_str("10.72px"));
        m.insert(String::from_str("font-weight"), StyleValue::of_str("bold"));
        m.insert(String::from_str("margin-vertical"), StyleValue::of_str("24.96px"));
        proof {
            reveal_strlit("width");
            assert("width"@.len() == 5);
            reveal_strlit("font-size");
            assert("font-size"@.len() == 9);
            reveal_strlit("font-weight");
            assert("font-weight"@.len() == 11);
            reveal_strlit("margin-vertical");
            assert("margin-vertical"@.len() == 15);
            assert(m@ =~= base_defaults_spec(tag@));
        }
    } else if crate::strutil::chars_eq_str(tag, "input") {
        m.insert(String::from_str("padding-vertical"), StyleValue::of_str("8px"));
        m.insert(String::from_str("padding-horizontal"), StyleValue::of_str("12px"));
        m.insert(String::from_str("border-radius"), StyleValue::of_str("4px"));
        m.insert(String::from_str("border-width"), StyleValue::of_str("1px"));
        m.insert(String::from_str("border-color"), StyleValue::of_str("#cccccc"));
        m.insert(String::from_str("background-color"), StyleValue::of_str("#ffffff"));
        m.insert(String::from_str("color"), StyleValue::of_str("#000000"));
        m.insert(String::from_str("placeholder-color"), StyleValue::of_str("#88888870"));
        m.insert(String::from_str("min-height"), StyleValue::of_str("40px"));
        m.insert(String::from_str("android-gravity"), StyleValue::of_str("center_vertical"));
        proof {
            reveal_strlit("padding-vertical");
            assert("padding-vertical"@.len() == 16);
            reveal_strlit("padding-horizontal");
            assert("padding-horizontal"@.len() == 18);
            reveal_strlit("border-radius");
            assert("border-radius"@.len() == 13);
            reveal_strlit("border-width");
            assert("border-width"@.len() == 12);
            reveal_strlit("border-color");
            assert("border-color"@.len() == 12);
            reveal_strlit("background-color");
            assert("background-color"@.len() == 16);
            reveal_strlit("color");
            assert("color"@.len() == 5);
            reveal_strlit("placeholder-color");
            assert("placeholder-color"@.len() == 17);
            reveal_strlit("min-height");
            assert("min-height"@.len() == 10);
            reveal_strlit("android-gravity");
            assert("android-gravity"@.len() == 15);
            assert("padding-vertical"@[0] == 'p');
            assert("background-color"@[0] == 'b');
            assert("border-width"@[7] == 'w');
            assert("border-color"@[7] == 'c');
            assert(m@ =~= base_defaults_spec(tag@));
        }
    } else if crate::strutil::chars_eq_str(tag, "select") {
        m.insert(String::from_str("padding-vertical"), StyleValue::of_str("8px"));
        m.insert(String::from_str("padding-horizontal"), StyleValue::of_str("12px"));
        m.insert(String::from_str("border-radius"), StyleValue::of_str("4px"));
        m.insert(String::from_str("border-width"), StyleValue::of_str("1px"));
        m.insert(String::from_str("border-color"), StyleValue::of_str("#cccccc"));
        m.insert(String::from_str("background-color"), StyleValue::of_str("#ffffff"));
        m.insert(String::from_str("color"), StyleValue::of_str("#000000"));
        m.insert(String::from_str("min-height"), StyleValue::of_str("40px"));
        m.insert(String::from_str("android-gravity"), StyleValue::of_str("center_vertical"));
        proof {
            reveal_strlit("padding-vertical");
            assert("padding-vertical"@.len() == 16);
            reveal_strlit("padding-horizontal");
            assert("padding-horizontal"@.len() == 18);
            reveal_strlit("border-radius");
            assert("border-radius"@.len() == 13);
            reveal_strlit("border-width");
            assert("border-width"@.len() == 12);
            reveal_strlit("border-color");
            assert("border-color"@.len() == 12);
            reveal_strlit("background-color");
            assert("background-color"@.len() == 16);
            reveal_strlit("color");
            assert("color"@.len() == 5);
            reveal_strlit("min-height");
            assert("min-height"@.len() == 10);
            reveal_strlit("android-gravity");
            assert("android-gravity"@.len() == 15);
            assert("padding-vertical"@[0] == 'p');
            assert("background-color"@[0] == 'b');
            assert("border-width"@[7] == 'w');
            assert("border-color"@[7] == 'c');
            assert(m@ =~= base_defaults_spec(tag@));
        }
    } else if crate::strutil::chars_eq_str(tag, "textarea") {
        m.insert(String::from_str("padding"), StyleValue::of_str("12px"));
        m.insert(String::from_str("border-radius"), StyleValue::of_str("4px"));
        m.insert(String::from_str("border-width"), StyleValue::of_str("1px"));
        m.insert(String::from_str("border-color"), StyleValue::of_str("#cccccc"));
        m.insert(String::from_str("background-color"), StyleValue::of_str("#ffffff"));
        m.insert(String::from_str("color"), StyleValue::of_str("#000000"));
        m.insert(String::from_str("placeholder-color"), StyleValue::of_str("color-mix(in srgb, currentColor 75%, grey)"));
        m.insert(String::from_str("min-height"), StyleValue::of_str("80px"));
        m.insert(String::from_str("android-gravity"), StyleValue::of_str("top"));
        proof {
            reveal_strlit("padding");
            assert("padding"@.len() == 7);
            reveal_strlit("border-radius");
            assert("border-radius"@.len() == 13);
            reveal_strlit("border-width");
            assert("border-width"@.len() == 12);
            reveal_strlit("border-color");
            assert("border-color"@.len() == 12);
            reveal_strlit("background-color");
            assert("background-color"@.len() == 16);
            reveal_strlit("color");
            assert("color"@.len() == 5);
            reveal_strlit("placeholder-color");
            assert("placeholder-color"@.len() == 17);
            reveal_strlit("min-height");
            assert("min-height"@.len() == 10);
            reveal_strlit("android-gravity");
            assert("android-gravity"@.len() == 15);
            assert("border-width"@[7] == 'w');
            assert("border-color"@[7] == 'c');
            assert(m@ =~= base_defaults_spec(tag@));
        }
    } else if crate::strutil::chars_eq_str(tag, "button") {
        m.insert(String::from_str("padding-vertical"), StyleValue::of_str("8px"));
        m.insert(String::from_str("padding-horizontal"), StyleValue::of_str("16px"));
        m.insert(String::from_str("border-radius"), StyleValue::of_str("4px"));
        m.insert(String::from_str("background-color"), StyleValue::of_str("#2196F3"));
        m.insert(String::from_str("color"), StyleValue::of_str("#ffffff"));
        m.insert(String::from_str("android-gravity"), StyleValue::of_str("center"));
        proof {
            reveal_strlit("padding-vertical");
            assert("padding-vertical"@.len() == 16);
            reveal_strlit("padding-horizontal");
            assert("padding-horizontal"@.len() == 18);
            reveal_strlit("border-radius");
            assert("border-radius"@.len() == 13);
            reveal_strlit("background-color");
            assert("background-color"@.len() == 16);
            reveal_strlit("color");
            assert("color"@.len() == 5);
            reveal_strlit("android-gravity");
            assert("android-gravity"@.len() == 15);
            assert("padding-vertical"@[0] == 'p');
            assert("background-color"@[0] == 'b');
            assert(m@ =~= base_defaults_spec(tag@));
        }
    } else {
        proof {
            assert(m@ =~= base_defaults_spec(tag@));
        }
    }
    m
}


// ===== the base map for one element =====

pub open spec fn lower_seq(s: Seq<char>) -> Seq<char> {
    Seq::new(s.len(), |i: int| ascii_lower(s[i]))
}

fn lower_chars(s: &Vec<char>) -> (r: Vec<char>)
    ensures
        r@ == lower_seq(s@),
{
    let n = s.len();
    let mut r: Vec<char> = Vec::new();
    let mut i: usize = 0;
    while i < n
        invariant
            i <= n,
            n == s@.len(),
            r@.len() == i,
            forall|j: int| 0 <= j < i ==> r@[j] == ascii_lower(s@[j]),
        decreases n - i,
    {
        let c = s[i];
        let u = c as u32;
        if 65 <= u && u <= 90 {
            r.push(((u + 32) as u8) as char);
        } else {
            r.push(c);
        }
        i += 1;
    }
    proof {
        assert(r@ =~= lower_seq(s@));
    }
    r
}

pub open spec fn is_block_tag(lower: Seq<char>) -> bool {
    lower == "div"@ || lower == "h1"@ || lower == "h2"@ || lower == "h3"@ || lower == "h4"@
        || lower == "h5"@ || lower == "h6"@ || lower == "p"@
}

/// What one class contributes to the combined properties: the theme rule
/// for its selector form, else its utility expansion, else the theme rule
/// under the raw class key.
pub open spec fn class_contribution(
    acc: SpecProps,
    eff: SpecSelectors,
    vars: SpecVars,
    class: Seq<char>,
) -> SpecProps {
    let normalized = if class.len() > 0 && class[0] == '.' {
        class.skip(1)
    } else {
        class
    };
    let base = parse_prefixed_spec(normalized).2;
    let sel = class_to_selector_spec(base);
    if m_contains(eff, sel) {
        merge_props_spec(acc, m_val(eff, sel))
    } else {
        match class_props_spec(base, vars) {
            Some(p) => merge_props_spec(acc, p),
            None => {
                if m_contains(eff, base) {
                    merge_props_spec(acc, m_val(eff, base))
                } else {
                    acc
                }
            },
        }
    }
}

pub open spec fn classes_fold(
    acc: SpecProps,
    eff: SpecSelectors,
    vars: SpecVars,
    classes: Seq<Seq<char>>,
    i: int,
) -> SpecProps
    decreases classes.len() - i,
{
    if i < 0 || i >= classes.len() {
        acc
    } else {
        classes_fold(class_contribution(acc, eff, vars, classes[i]), eff, vars, classes, i + 1)
    }
}

proof fn lemma_classes_fold_wf(
    acc: SpecProps,
    eff: SpecSelectors,
    vars: SpecVars,
    classes: Seq<Seq<char>>,
    i: int,
)
    requires
        m_wf(acc),
    ensures
        m_wf(classes_fold(acc, eff, vars, classes, i)),
    decreases classes.len() - i,
{
    if 0 <= i < classes.len() {
        let c1 = class_contribution(acc, eff, vars, classes[i]);
        assert(m_wf(c1)) by {
            lemma_class_contribution_wf(acc, eff, vars, classes[i]);
        }
        lemma_classes_fold_wf(c1, eff, vars, classes, i + 1);
    }
}

proof fn lemma_class_contribution_wf(
    acc: SpecProps,
    eff: SpecSelectors,
    vars: SpecVars,
    class: Seq<char>,
)
    requires
        m_wf(acc),
    ensures
        m_wf(class_contribution(acc, eff, vars, class)),
{
    let normalized = if class.len() > 0 && class[0] == '.' {
        class.skip(1)
    } else {
        class
    };
    let base = parse_prefixed_spec(normalized).2;
    let sel = class_to_selector_spec(base);
    if m_contains(eff, sel) {
        crate::theme::lemma_merge_props_wf(acc, m_val(eff, sel));
    } else {
        match class_props_spec(base, vars) {
            Some(p) => {
                crate::theme::lemma_merge_props_wf(acc, p);
            },
            None => {
                if m_contains(eff, base) {
                    crate::theme::lemma_merge_props_wf(acc, m_val(eff, base));
                }
            },
        }
    }
}

/// The base native map: the orientation seed, the platform defaults, the
/// theme rule for the tag, each class's contribution, all resolved and
/// merged; then the flex-direction defaults.
pub open spec fn android_base_spec(
    s: SpecState,
    selector: Seq<char>,
    classes: Seq<Seq<char>>,
) -> SpecProps {
    let effv = effective_theme_spec(s);
    let eff = effv.0;
    let vars = effv.1;
    let out0 = seq![("androidOrientation"@, SpecVal::Str("vertical"@))];
    let lower = lower_seq(selector);
    let c0 = base_defaults_spec(lower);
    let c1 = if m_contains(eff, selector) {
        merge_props_spec(c0, m_val(eff, selector))
    } else {
        c0
    };
    let c2 = classes_fold(c1, eff, vars, classes, 0);
    let out1 = merge_android_spec(out0, c2, vars);
    let out2 = if m_contains(out1, "display"@) && m_val(out1, "display"@) == SpecVal::Str("flex"@)
        && !m_contains(out1, "flexDirection"@) {
        ins(
            ins(out1, "flexDirection"@, SpecVal::Str("row"@)),
            "androidOrientation"@,
            SpecVal::Str("horizontal"@),
        )
    } else {
        out1
    };
    let out3 = if !m_contains(out2, "flexDirection"@) && is_block_tag(lower) {
        ins(
            ins(out2, "flexDirection"@, SpecVal::Str("column"@)),
            "androidOrientation"@,
            SpecVal::Str("vertical"@),
        )
    } else {
        out2
    };
    out3
}

#[verifier::rlimit(100)]
fn android_base_styles_impl(st: &State, selector: &str, classes: &Vec<String>) -> (r: PropMap)
    requires
        state_wf(st@),
    ensures
        r@ == android_base_spec(st@, selector@, classes.deep_view()),
        m_wf(r@),
{
    let effv = st.effective_theme_all();
    let eff = effv.0;
    let vars = effv.1;
    let mut out = PropMap::new();
    out.insert(String::from_str("androidOrientation"), StyleValue::of_str("vertical"));
    proof {
        assert(out@ =~= seq![("androidOrientation"@, SpecVal::Str("vertical"@))]);
    }
    let selv = str_to_chars(selector);
    let lower = lower_chars(&selv);
    let mut combined = base_defaults(&lower);
    match eff.get(selector) {
        Some(props) => {
            proof {
                crate::ordmap::lemma_m_index_of(eff@, selector@);
            }
            merge_props(&mut combined, props);
        },
        None => {},
    }
    let ghost c1 = combined@;
    let n = classes.len();
    let mut i: usize = 0;
    while i < n
        invariant
            i <= n,
            n == classes@.len(),
            m_wf(combined@),
            crate::theme::sels_wf(eff@),
            m_wf(vars@),
            classes_fold(c1, eff@, vars@, classes.deep_view(), 0) == classes_fold(
                combined@,
                eff@,
                vars@,
                classes.deep_view(),
                i as int,
            ),
        decreases n - i,
    {
        proof {
            assert(classes@[i as int].deep_view() =~= classes@[i as int]@);
            assert(classes.deep_view()[i as int] == classes@[i as int]@);
        }
        let class = &classes[i];
        let cv = str_to_chars(class.as_str());
        let normalized: Vec<char> = if cv.len() > 0 && {
            let c0 = cv[0];
            c0 == '.'
        } {
            subvec(&cv, 1, cv.len())
        } else {
            subvec(&cv, 0, cv.len())
        };
        proof {
            let spec_cls = classes.deep_view()[i as int];
            if spec_cls.len() > 0 && spec_cls[0] == '.' {
                assert(normalized@ =~= spec_cls.skip(1));
            } else {
                assert(normalized@ =~= spec_cls);
            }
        }
        let norm_s = chars_to_string(&normalized);
        let parsed = parse_prefixed_class(norm_s.as_str());
        let base = parsed.2;
        let sel = class_to_selector(base.as_str());
        let mut matched = false;
        match eff.get(sel.as_str()) {
            Some(props) => {
                proof {
                    crate::ordmap::lemma_m_index_of(eff@, sel@);
                }
                merge_props(&mut combined, props);
                matched = true;
            },
            None => {},
        }
        if !matched {
            match dynamic_css_properties_for_class(base.as_str(), &vars) {
                Some(dynamic_props) => {
                    merge_props(&mut combined, &dynamic_props);
                    matched = true;
                },
                None => {},
            }
        }
        if !matched {
            match eff.get(base.as_str()) {
                Some(props) => {
                    proof {
                        crate::ordmap::lemma_m_index_of(eff@, base@);
                    }
                    merge_props(&mut combined, props);
                },
                None => {},
            }
        }
        i += 1;
    }
    let ghost c2 = classes_fold(c1, eff@, vars@, classes.deep_view(), 0);
    proof {
        assert(combined@ == c2);
    }
    merge_android_props(&mut out, &combined, &vars);
    let mut need_row = false;
    match out.get("display") {
        Some(v) => {
            if v.is_str("flex") && !out.contains_key("flexDirection") {
                need_row = true;
            }
        },
        None => {},
    }
    if need_row {
        ins_exec(&mut out, "flexDirection", StyleValue::of_str("row"));
        ins_exec(&mut out, "androidOrientation", StyleValue::of_str("horizontal"));
    }
    let is_block = crate::strutil::chars_eq_str(&lower, "div") || crate::strutil::chars_eq_str(
        &lower,
        "h1",
    ) || crate::strutil::chars_eq_str(&lower, "h2") || crate::strutil::chars_eq_str(&lower, "h3")
        || crate::strutil::chars_eq_str(&lower, "h4") || crate::strutil::chars_eq_str(&lower, "h5")
        || crate::strutil::chars_eq_str(&lower, "h6") || crate::strutil::chars_eq_str(&lower, "p");
    if !out.contains_key("flexDirection") && is_block {
        ins_exec(&mut out, "flexDirection", StyleValue::of_str("column"));
        ins_exec(&mut out, "androidOrientation", StyleValue::of_str("vertical"));
    }
    out
}


// ===== the projection phases =====

/// The orientation moved to the front when a flex direction is set: `row`
/// is horizontal, anything else vertical.
pub open spec fn phase_orient(m: SpecProps) -> SpecProps {
    if m_contains(m, "flexDirection"@) {
        let o: Seq<char> = if m_val(m, "flexDirection"@) == SpecVal::Str("row"@) {
            "horizontal"@
        } else {
            "vertical"@
        };
        if m_contains(m, "androidOrientation"@) {
            seq![("androidOrientation"@, SpecVal::Str(o))] + m.remove(
                crate::ordmap::m_index_of(m, "androidOrientation"@),
            )
        } else {
            seq![("androidOrientation"@, SpecVal::Str(o))] + m
        }
    } else {
        m
    }
}

fn phase_orient_exec(m: &mut PropMap)
    requires
        m_wf(old(m)@),
    ensures
        final(m)@ == phase_orient(old(m)@),
        m_wf(final(m)@),
{
    let mut o: Option<StyleValue> = None;
    match m.get("flexDirection") {
        Some(v) => {
            if v.is_str("row") {
                o = Some(StyleValue::of_str("horizontal"));
            } else {
                o = Some(StyleValue::of_str("vertical"));
            }
        },
        None => {},
    }
    match o {
        Some(v) => {
            m.insert_front(String::from_str("androidOrientation"), v);
        },
        None => {},
    }
}

/// The accessibility-scaled font size: the converted pixel value divided by
/// the density and multiplied by the scaled density, in thousandths; a zero
/// density leaves the font size as the dimension pass produced it.
pub open spec fn phase_font(m: SpecProps, density: int, scaled: int) -> SpecProps {
    if m_contains(m, "fontSize"@) {
        match convert_scalar_spec(m_val(m, "fontSize"@), density) {
            Some(cv) => match cv {
                SpecVal::Int(px) => {
                    if density > 0 {
                        ins(
                            m,
                            "fontSize"@,
                            SpecVal::Milli(
                                round_div(crate::units::clamp_dim(px * 1000) * scaled, density * 1000),
                            ),
                        )
                    } else {
                        m
                    }
                },
                _ => m,
            },
            None => m,
        }
    } else {
        m
    }
}

fn phase_font_exec(m: &mut PropMap, density: u32, scaled: u32)
    requires
        m_wf(old(m)@),
        density <= 1_000_000,
        scaled <= 1_000_000,
    ensures
        final(m)@ == phase_font(old(m)@, density as int, scaled as int),
        m_wf(final(m)@),
{
    let fs = match m.get("fontSize") {
        Some(v) => Some(v.dup()),
        None => None,
    };
    match fs {
        Some(v) => {
            match convert_scalar(&v, density) {
                Some(cv) => {
                    match cv {
                        StyleValue::Int(px) => {
                            if density > 0 {
                                let c: i64 = if px >= 1_000_000_000 {
                                    999_999_999_999
                                } else if px <= -1_000_000_000 {
                                    -999_999_999_999
                                } else {
                                    px * 1000
                                };
                                proof {
                                    assert(c as int == crate::units::clamp_dim((px as int) * 1000));
                                    assert(-1_000_000_000_000_000_000 <= (c as int) * (
                                    scaled as int) <= 1_000_000_000_000_000_000) by (nonlinear_arith)
                                        requires
                                            -1_000_000_000_000 < (c as int),
                                            (c as int) < 1_000_000_000_000,
                                            (scaled as int) <= 1_000_000,
                                    ;
                                }
                                let num: i64 = c * (scaled as i64);
                                let d: i64 = (density as i64) * 1000;
                                let sp: i64 = if num >= 0 {
                                    (num + d / 2) / d
                                } else {
                                    -(((-num) + d / 2) / d)
                                };
                                ins_exec(m, "fontSize", StyleValue::Milli(sp));
                            }
                        },
                        _ => {},
                    }
                },
                None => {},
            }
        },
        None => {},
    }
}

/// The wrap flag from `flexWrap: wrap`.
pub open spec fn phase_flexwrap(m: SpecProps) -> SpecProps {
    if m_contains(m, "flexWrap"@) && m_val(m, "flexWrap"@) == SpecVal::Str("wrap"@) {
        ins(m, "androidFlexWrap"@, SpecVal::Bool(true))
    } else {
        m
    }
}

fn phase_flexwrap_exec(m: &mut PropMap)
    requires
        m_wf(old(m)@),
    ensures
        final(m)@ == phase_flexwrap(old(m)@),
        m_wf(final(m)@),
{
    let mut hit = false;
    match m.get("flexWrap") {
        Some(v) => {
            if v.is_str("wrap") {
                hit = true;
            }
        },
        None => {},
    }
    if hit {
        ins_exec(m, "androidFlexWrap", StyleValue::Bool(true));
    }
}

/// The alpha value copied from `opacity`.
pub open spec fn phase_alpha(m: SpecProps) -> SpecProps {
    if m_contains(m, "opacity"@) {
        ins(m, "androidAlpha"@, m_val(m, "opacity"@))
    } else {
        m
    }
}

fn phase_alpha_exec(m: &mut PropMap)
    requires
        m_wf(old(m)@),
    ensures
        final(m)@ == phase_alpha(old(m)@),
        m_wf(final(m)@),
{
    let v = match m.get("opacity") {
        Some(v) => Some(v.dup()),
        None => None,
    };
    match v {
        Some(v) => {
            ins_exec(m, "androidAlpha", v);
        },
        None => {},
    }
}

// ===== gravity =====

pub open spec fn align_part(v: SpecVal, h: bool) -> Seq<char> {
    if v == SpecVal::Str("center"@) {
        if h {
            "center_vertical"@
        } else {
            "center_horizontal"@
        }
    } else if v == SpecVal::Str("flex-start"@) || v == SpecVal::Str("start"@) {
        if h {
            "top"@
        } else {
            "start"@
        }
    } else if v == SpecVal::Str("flex-end"@) || v == SpecVal::Str("end"@) {
        if h {
            "bottom"@
        } else {
            "end"@
        }
    } else if v == SpecVal::Str("stretch"@) {
        if h {
            "fill_vertical"@
        } else {
            "fill_horizontal"@
        }
    } else {
        Seq::<char>::empty()
    }
}

pub open spec fn justify_part(v: SpecVal, h: bool) -> Seq<char> {
    if v == SpecVal::Str("center"@) {
        if h {
            "center_horizontal"@
        } else {
            "center_vertical"@
        }
    } else if v == SpecVal::Str("flex-start"@) || v == SpecVal::Str("start"@) {
        if h {
            "start"@
        } else {
            "top"@
        }
    } else if v == SpecVal::Str("flex-end"@) || v == SpecVal::Str("end"@) {
        if h {
            "end"@
        } else {
            "bottom"@
        }
    } else {
        Seq::<char>::empty()
    }
}

pub open spec fn layout_gravity_part(v: SpecVal) -> Seq<char> {
    if v == SpecVal::Str("center"@) {
        "center_horizontal"@
    } else if v == SpecVal::Str("flex-start"@) || v == SpecVal::Str("start"@) {
        "start"@
    } else if v == SpecVal::Str("flex-end"@) || v == SpecVal::Str("end"@) {
        "end"@
    } else if v == SpecVal::Str("space-between"@) || v == SpecVal::Str("between"@) {
        "space_between"@
    } else if v == SpecVal::Str("space-around"@) || v == SpecVal::Str("around"@) {
        "space_around"@
    } else {
        Seq::<char>::empty()
    }
}

/// The cross-axis and main-axis parts joined: both centers collapse to the
/// single `center` token.
pub open spec fn gravity_join(a: Seq<char>, j: Seq<char>) -> Option<Seq<char>> {
    if a.len() == 0 && j.len() == 0 {
        None
    } else if j.len() == 0 {
        Some(a)
    } else if a.len() == 0 {
        Some(j)
    } else if (a == "center_vertical"@ && j == "center_horizontal"@) || (a == "center_horizontal"@
        && j == "center_vertical"@) {
        Some("center"@)
    } else {
        Some(a + seq!['|'] + j)
    }
}

pub open spec fn phase_gravity(m: SpecProps) -> SpecProps {
    let h = m_contains(m, "androidOrientation"@) && m_val(m, "androidOrientation"@)
        == SpecVal::Str("horizontal"@);
    let a = if m_contains(m, "alignItems"@) {
        align_part(m_val(m, "alignItems"@), h)
    } else {
        Seq::<char>::empty()
    };
    let j = if m_contains(m, "justifyContent"@) {
        justify_part(m_val(m, "justifyContent"@), h)
    } else {
        Seq::<char>::empty()
    };
    let lg = if m_contains(m, "justifyContent"@) {
        layout_gravity_part(m_val(m, "justifyContent"@))
    } else {
        Seq::<char>::empty()
    };
    let m1 = if m_contains(m, "justifyContent"@) && lg.len() > 0 {
        ins(m, "androidLayoutGravity"@, SpecVal::Str(lg))
    } else {
        m
    };
    match gravity_join(a, j) {
        Some(g) => ins(m1, "androidGravity"@, SpecVal::Str(g)),
        None => m1,
    }
}

fn align_part_exec(v: &StyleValue, h: bool) -> (r: Vec<char>)
    ensures
        r@ == align_part(v@, h),
{
    let mut out: Vec<char> = Vec::new();
    if v.is_str("center") {
        push_str_chars(&mut out, if h { "center_vertical" } else { "center_horizontal" });
    } else if v.is_str("flex-start") || v.is_str("start") {
        push_str_chars(&mut out, if h { "top" } else { "start" });
    } else if v.is_str("flex-end") || v.is_str("end") {
        push_str_chars(&mut out, if h { "bottom" } else { "end" });
    } else if v.is_str("stretch") {
        push_str_chars(&mut out, if h { "fill_vertical" } else { "fill_horizontal" });
    }
    proof {
        assert(out@ =~= align_part(v@, h));
    }
    out
}

fn justify_part_exec(v: &StyleValue, h: bool) -> (r: Vec<char>)
    ensures
        r@ == justify_part(v@, h),
{
    let mut out: Vec<char> = Vec::new();
    if v.is_str("center") {
        push_str_chars(&mut out, if h { "center_horizontal" } else { "center_vertical" });
    } else if v.is_str("flex-start") || v.is_str("start") {
        push_str_chars(&mut out, if h { "start" } else { "top" });
    } else if v.is_str("flex-end") || v.is_str("end") {
        push_str_chars(&mut out, if h { "end" } else { "bottom" });
    }
    proof {
        assert(out@ =~= justify_part(v@, h));
    }
    out
}

fn layout_gravity_exec(v: &StyleValue) -> (r: Vec<char>)
    ensures
        r@ == layout_gravity_part(v@),
{
    let mut out: Vec<char> = Vec::new();
    if v.is_str("center") {
        push_str_chars(&mut out, "center_horizontal");
    } else if v.is_str("flex-start") || v.is_str("start") {
        push_str_chars(&mut out, "start");
    } else if v.is_str("flex-end") || v.is_str("end") {
        push_str_chars(&mut out, "end");
    } else if v.is_str("space-between") || v.is_str("between") {
        push_str_chars(&mut out, "space_between");
    } else if v.is_str("space-around") || v.is_str("around") {
        push_str_chars(&mut out, "space_around");
    }
    proof {
        assert(out@ =~= layout_gravity_part(v@));
    }
    out
}

#[verifier::rlimit(100)]
fn phase_gravity_exec(m: &mut PropMap)
    requires
        m_wf(old(m)@),
    ensures
        final(m)@ == phase_gravity(old(m)@),
        m_wf(final(m)@),
{
    let mut h = false;
    match m.get("androidOrientation") {
        Some(v) => {
            if v.is_str("horizontal") {
                h = true;
            }
        },
        None => {},
    }
    let a: Vec<char> = match m.get("alignItems") {
        Some(v) => align_part_exec(v, h),
        None => Vec::new(),
    };
    let jv: Option<StyleValue> = match m.get("justifyContent") {
        Some(v) => Some(v.dup()),
        None => None,
    };
    proof {
        if !m_contains(old(m)@, "alignItems"@) {
            assert(a@ =~= Seq::<char>::empty());
        }
    }
    match jv {
        Some(v) => {
            let j = justify_part_exec(&v, h);
            let lg = layout_gravity_exec(&v);
            if lg.len() > 0 {
                ins_exec(m, "androidLayoutGravity", StyleValue::of_chars(&lg));
            }
            if a.len() == 0 && j.len() == 0 {
            } else if j.len() == 0 {
                ins_exec(m, "androidGravity", StyleValue::of_chars(&a));
            } else if a.len() == 0 {
                ins_exec(m, "androidGravity", StyleValue::of_chars(&j));
            } else if (crate::strutil::chars_eq_str(&a, "center_vertical")
                && crate::strutil::chars_eq_str(&j, "center_horizontal")) || (
            crate::strutil::chars_eq_str(&a, "center_horizontal") && crate::strutil::chars_eq_str(
                &j,
                "center_vertical",
            )) {
                ins_exec(m, "androidGravity", StyleValue::of_str("center"));
            } else {
                let mut g: Vec<char> = Vec::new();
                crate::strutil::push_chars(&mut g, &a);
                g.push('|');
                crate::strutil::push_chars(&mut g, &j);
                proof {
                    assert(g@ =~= a@ + seq!['|'] + j@);
                }
                ins_exec(m, "androidGravity", StyleValue::of_chars(&g));
            }
        },
        None => {
            if a.len() > 0 {
                ins_exec(m, "androidGravity", StyleValue::of_chars(&a));
            }
        },
    }
}


// ===== remaining translations =====

/// The pieces of a `border` shorthand folded in: a `px` word sets the
/// width, a `#` word the color; the last of each wins.
pub open spec fn border_parts_fold(m: SpecProps, parts: Seq<Seq<char>>, density: int, i: int) -> SpecProps
    decreases parts.len() - i,
{
    if i < 0 || i >= parts.len() {
        m
    } else {
        let p = parts[i];
        let m1 = if is_suffix_of("px"@, p) {
            if parse_milli_spec(crate::units::strip_unit_spec(p, "px"@)) is Some {
                ins(
                    m,
                    "borderWidth"@,
                    SpecVal::Int(
                        dp_to_px_spec(
                            clamp_dim(
                                parse_milli_spec(crate::units::strip_unit_spec(p, "px"@))->0,
                            ),
                            density,
                        ),
                    ),
                )
            } else {
                m
            }
        } else if p.len() > 0 && p[0] == '#' {
            ins(m, "borderColor"@, SpecVal::Str(p))
        } else {
            m
        };
        border_parts_fold(m1, parts, density, i + 1)
    }
}

pub open spec fn phase_border_short(m: SpecProps, density: int) -> SpecProps {
    if m_contains(m, "border"@) && (m_val(m, "border"@) matches SpecVal::Str(_)) {
        match m_val(m, "border"@) {
            SpecVal::Str(s) => border_parts_fold(m, split_ws_spec(s), density, 0),
            _ => m,
        }
    } else {
        m
    }
}

proof fn lemma_border_parts_wf(m: SpecProps, parts: Seq<Seq<char>>, density: int, i: int)
    requires
        m_wf(m),
    ensures
        m_wf(border_parts_fold(m, parts, density, i)),
    decreases parts.len() - i,
{
    if 0 <= i < parts.len() {
        let p = parts[i];
        let m1 = if is_suffix_of("px"@, p) {
            if parse_milli_spec(crate::units::strip_unit_spec(p, "px"@)) is Some {
                ins(
                    m,
                    "borderWidth"@,
                    SpecVal::Int(
                        dp_to_px_spec(
                            clamp_dim(
                                parse_milli_spec(crate::units::strip_unit_spec(p, "px"@))->0,
                            ),
                            density,
                        ),
                    ),
                )
            } else {
                m
            }
        } else if p.len() > 0 && p[0] == '#' {
            ins(m, "borderColor"@, SpecVal::Str(p))
        } else {
            m
        };
        lemma_border_parts_wf(m1, parts, density, i + 1);
    }
}

fn phase_border_short_exec(m: &mut PropMap, density: u32)
    requires
        m_wf(old(m)@),
        density <= 1_000_000,
    ensures
        final(m)@ == phase_border_short(old(m)@, density as int),
        m_wf(final(m)@),
{
    let b: Option<String> = match m.get("border") {
        Some(v) => match v.as_str() {
            Some(s) => Some(String::from_str(s)),
            None => None,
        },
        None => None,
    };
    match b {
        Some(s) => {
            let sv = str_to_chars(s.as_str());
            let parts = split_ws(&sv);
            let np = parts.len();
            let ghost pv = parts.deep_view();
            let mut i: usize = 0;
            while i < np
                invariant
                    i <= np,
                    np == parts@.len(),
                    pv == parts.deep_view(),
                    m_wf(m@),
                    density <= 1_000_000,
                    border_parts_fold(old(m)@, pv, density as int, 0) == border_parts_fold(
                        m@,
                        pv,
                        density as int,
                        i as int,
                    ),
                decreases np - i,
            {
                proof {
                    assert(parts@[i as int].deep_view() =~= parts@[i as int]@);
                    assert(pv[i as int] == parts@[i as int]@);
                }
                let p = &parts[i];
                if ends_with_str(p, "px") {
                    let stripped = strip_unit_pub(p);
                    match parse_milli(&stripped) {
                        Some(w) => {
                            let c: i64 = if w > 999_999_999_999 {
                                999_999_999_999
                            } else if w < -999_999_999_999 {
                                -999_999_999_999
                            } else {
                                w
                            };
                            ins_exec(m, "borderWidth", StyleValue::Int(dp_to_px(c, density)));
                        },
                        None => {},
                    }
                } else if p.len() > 0 && {
                    let c0 = p[0];
                    c0 == '#'
                } {
                    ins_exec(m, "borderColor", StyleValue::of_chars(p));
                }
                i += 1;
            }
        },
        None => {},
    }
}

/// Strip repeated `px` suffixes from a word.
fn strip_unit_pub(p: &Vec<char>) -> (r: Vec<char>)
    ensures
        r@ == crate::units::strip_unit_spec(p@, "px"@),
{
    crate::units::strip_unit_px(p)
}

/// The elevation tier a shadow's text implies, by its largest named blur.
pub open spec fn shadow_tier1(s: Seq<char>) -> int {
    if seq_contains(s, "20px"@) {
        24
    } else if seq_contains(s, "15px"@) {
        16
    } else if seq_contains(s, "10px"@) {
        8
    } else {
        4
    }
}

pub open spec fn phase_shadow(m: SpecProps, density: int) -> SpecProps {
    if m_contains(m, "boxShadow"@) && (m_val(m, "boxShadow"@) matches SpecVal::Str(_)) {
        match m_val(m, "boxShadow"@) {
            SpecVal::Str(s) => {
                if s.len() > 0 {
                    ins(
                        m,
                        "elevation"@,
                        SpecVal::Int(dp_to_px_spec(shadow_tier1(s) * 1000, density)),
                    )
                } else {
                    m
                }
            },
            _ => m,
        }
    } else {
        m
    }
}

fn phase_shadow_exec(m: &mut PropMap, density: u32)
    requires
        m_wf(old(m)@),
        density <= 1_000_000,
    ensures
        final(m)@ == phase_shadow(old(m)@, density as int),
        m_wf(final(m)@),
{
    let b: Option<String> = match m.get("boxShadow") {
        Some(v) => match v.as_str() {
            Some(s) => Some(String::from_str(s)),
            None => None,
        },
        None => None,
    };
    match b {
        Some(s) => {
            let sv = str_to_chars(s.as_str());
            if sv.len() > 0 {
                let tier: i64 = if crate::strutil::contains_sub_str(&sv, "20px") {
                    24
                } else if crate::strutil::contains_sub_str(&sv, "15px") {
                    16
                } else if crate::strutil::contains_sub_str(&sv, "10px") {
                    8
                } else {
                    4
                };
                ins_exec(m, "elevation", StyleValue::Int(dp_to_px(tier * 1000, density)));
            }
        },
        None => {},
    }
}

/// Scroll hints from the overflow axes.
pub open spec fn phase_overflow(m: SpecProps) -> SpecProps {
    let m1 = if m_contains(m, "overflowX"@) && (m_val(m, "overflowX"@) == SpecVal::Str("auto"@)
        || m_val(m, "overflowX"@) == SpecVal::Str("scroll"@)) {
        ins(m, "androidScrollHorizontal"@, SpecVal::Bool(true))
    } else {
        m
    };
    if m_contains(m1, "overflowY"@) && (m_val(m1, "overflowY"@) == SpecVal::Str("auto"@) || m_val(
        m1,
        "overflowY"@,
    ) == SpecVal::Str("scroll"@)) {
        ins(m1, "androidScrollVertical"@, SpecVal::Bool(true))
    } else {
        m1
    }
}

fn phase_overflow_exec(m: &mut PropMap)
    requires
        m_wf(old(m)@),
    ensures
        final(m)@ == phase_overflow(old(m)@),
        m_wf(final(m)@),
{
    let mut hx = false;
    match m.get("overflowX") {
        Some(v) => {
            if v.is_str("auto") || v.is_str("scroll") {
                hx = true;
            }
        },
        None => {},
    }
    if hx {
        ins_exec(m, "androidScrollHorizontal", StyleValue::Bool(true));
    }
    let mut hy = false;
    match m.get("overflowY") {
        Some(v) => {
            if v.is_str("auto") || v.is_str("scroll") {
                hy = true;
            }
        },
        None => {},
    }
    if hy {
        ins_exec(m, "androidScrollVertical", StyleValue::Bool(true));
    }
}

/// Text gravity from the text alignment.
pub open spec fn phase_textalign(m: SpecProps) -> SpecProps {
    if m_contains(m, "textAlign"@) {
        let v = m_val(m, "textAlign"@);
        if v == SpecVal::Str("center"@) {
            ins(m, "androidTextGravity"@, SpecVal::Str("center_horizontal"@))
        } else if v == SpecVal::Str("right"@) || v == SpecVal::Str("end"@) {
            ins(m, "androidTextGravity"@, SpecVal::Str("end"@))
        } else if v == SpecVal::Str("left"@) || v == SpecVal::Str("start"@) {
            ins(m, "androidTextGravity"@, SpecVal::Str("start"@))
        } else {
            m
        }
    } else {
        m
    }
}

fn phase_textalign_exec(m: &mut PropMap)
    requires
        m_wf(old(m)@),
    ensures
        final(m)@ == phase_textalign(old(m)@),
        m_wf(final(m)@),
{
    let mut g: Option<StyleValue> = None;
    match m.get("textAlign") {
        Some(v) => {
            if v.is_str("center") {
                g = Some(StyleValue::of_str("center_horizontal"));
            } else if v.is_str("right") || v.is_str("end") {
                g = Some(StyleValue::of_str("end"));
            } else if v.is_str("left") || v.is_str("start") {
                g = Some(StyleValue::of_str("start"));
            }
        },
        None => {},
    }
    match g {
        Some(v) => {
            ins_exec(m, "androidTextGravity", v);
        },
        None => {},
    }
}

/// Scale type from the object fit.
pub open spec fn phase_objectfit(m: SpecProps) -> SpecProps {
    if m_contains(m, "objectFit"@) {
        let v = m_val(m, "objectFit"@);
        if v == SpecVal::Str("cover"@) {
            ins(m, "androidScaleType"@, SpecVal::Str("center_crop"@))
        } else if v == SpecVal::Str("contain"@) {
            ins(m, "androidScaleType"@, SpecVal::Str("fit_center"@))
        } else if v == SpecVal::Str("fill"@) {
            ins(m, "androidScaleType"@, SpecVal::Str("fit_xy"@))
        } else if v == SpecVal::Str("none"@) {
            ins(m, "androidScaleType"@, SpecVal::Str("center"@))
        } else if v == SpecVal::Str("scale-down"@) {
            ins(m, "androidScaleType"@, SpecVal::Str("center_inside"@))
        } else {
            m
        }
    } else {
        m
    }
}

fn phase_objectfit_exec(m: &mut PropMap)
    requires
        m_wf(old(m)@),
    ensures
        final(m)@ == phase_objectfit(old(m)@),
        m_wf(final(m)@),
{
    let mut g: Option<StyleValue> = None;
    match m.get("objectFit") {
        Some(v) => {
            if v.is_str("cover") {
                g = Some(StyleValue::of_str("center_crop"));
            } else if v.is_str("contain") {
                g = Some(StyleValue::of_str("fit_center"));
            } else if v.is_str("fill") {
                g = Some(StyleValue::of_str("fit_xy"));
            } else if v.is_str("none") {
                g = Some(StyleValue::of_str("center"));
            } else if v.is_str("scale-down") {
                g = Some(StyleValue::of_str("center_inside"));
            }
        },
        None => {},
    }
    match g {
        Some(v) => {
            ins_exec(m, "androidScaleType", v);
        },
        None => {},
    }
}

/// A full-length dimension normalized to the parent-filling keyword.
pub open spec fn phase_fullsize(m: SpecProps) -> SpecProps {
    let m1 = if m_contains(m, "height"@) && m_val(m, "height"@) == SpecVal::Str("100%"@) {
        ins(m, "height"@, SpecVal::Str("match_parent"@))
    } else {
        m
    };
    if m_contains(m1, "width"@) && m_val(m1, "width"@) == SpecVal::Str("100%"@) {
        ins(m1, "width"@, SpecVal::Str("match_parent"@))
    } else {
        m1
    }
}

fn phase_fullsize_exec(m: &mut PropMap)
    requires
        m_wf(old(m)@),
    ensures
        final(m)@ == phase_fullsize(old(m)@),
        m_wf(final(m)@),
{
    let mut hh = false;
    match m.get("height") {
        Some(v) => {
            if v.is_str("100%") {
                hh = true;
            }
        },
        None => {},
    }
    if hh {
        ins_exec(m, "height", StyleValue::of_str("match_parent"));
    }
    let mut hw = false;
    match m.get("width") {
        Some(v) => {
            if v.is_str("100%") {
                hw = true;
            }
        },
        None => {},
    }
    if hw {
        ins_exec(m, "width", StyleValue::of_str("match_parent"));
    }
}

/// A flexing element without explicit dimensions defaults both to
/// content-sized.
pub open spec fn phase_flexdefaults(m: SpecProps) -> SpecProps {
    if m_contains(m, "flex"@) || m_contains(m, "flexGrow"@) {
        let m1 = if !m_contains(m, "width"@) {
            ins(m, "width"@, SpecVal::Str("wrap_content"@))
        } else {
            m
        };
        if !m_contains(m1, "height"@) {
            ins(m1, "height"@, SpecVal::Str("wrap_content"@))
        } else {
            m1
        }
    } else {
        m
    }
}

fn phase_flexdefaults_exec(m: &mut PropMap)
    requires
        m_wf(old(m)@),
    ensures
        final(m)@ == phase_flexdefaults(old(m)@),
        m_wf(final(m)@),
{
    if m.contains_key("flex") || m.contains_key("flexGrow") {
        if !m.contains_key("width") {
            ins_exec(m, "width", StyleValue::of_str("wrap_content"));
        }
        if !m.contains_key("height") {
            ins_exec(m, "height", StyleValue::of_str("wrap_content"));
        }
    }
}

/// Whether a font weight value names a bold face.
pub open spec fn is_bold_weight(v: SpecVal) -> bool {
    match v {
        SpecVal::Str(s) => seq_contains(s, "bold"@) || s == "600"@ || s == "700"@ || s == "500"@,
        SpecVal::Int(n) => n >= 500,
        _ => false,
    }
}

pub open spec fn phase_fontweight(m: SpecProps) -> SpecProps {
    if m_contains(m, "fontWeight"@) && is_bold_weight(m_val(m, "fontWeight"@)) {
        ins(m, "androidTypefaceStyle"@, SpecVal::Str("bold"@))
    } else {
        m
    }
}

fn phase_fontweight_exec(m: &mut PropMap)
    requires
        m_wf(old(m)@),
    ensures
        final(m)@ == phase_fontweight(old(m)@),
        m_wf(final(m)@),
{
    let mut bold = false;
    match m.get("fontWeight") {
        Some(v) => match v {
            StyleValue::Str(s) => {
                let sv = str_to_chars(s.as_str());
                if crate::strutil::contains_sub_str(&sv, "bold") || str_eq(s.as_str(), "600")
                    || str_eq(s.as_str(), "700") || str_eq(s.as_str(), "500") {
                    bold = true;
                }
            },
            StyleValue::Int(n) => {
                if *n >= 500 {
                    bold = true;
                }
            },
            _ => {},
        },
        None => {},
    }
    if bold {
        ins_exec(m, "androidTypefaceStyle", StyleValue::of_str("bold"));
    }
}

/// The second shadow pass, with the small tier named as well.
pub open spec fn shadow_tier2(s: Seq<char>) -> int {
    if seq_contains(s, "20px"@) {
        24
    } else if seq_contains(s, "15px"@) {
        16
    } else if seq_contains(s, "10px"@) {
        8
    } else if seq_contains(s, "5px"@) {
        4
    } else {
        4
    }
}

pub open spec fn phase_shadow2(m: SpecProps, density: int) -> SpecProps {
    if m_contains(m, "boxShadow"@) && (m_val(m, "boxShadow"@) matches SpecVal::Str(_)) {
        match m_val(m, "boxShadow"@) {
            SpecVal::Str(s) => {
                if s.len() > 0 {
                    ins(
                        m,
                        "elevation"@,
                        SpecVal::Int(dp_to_px_spec(shadow_tier2(s) * 1000, density)),
                    )
                } else {
                    m
                }
            },
            _ => m,
        }
    } else {
        m
    }
}

fn phase_shadow2_exec(m: &mut PropMap, density: u32)
    requires
        m_wf(old(m)@),
        density <= 1_000_000,
    ensures
        final(m)@ == phase_shadow2(old(m)@, density as int),
        m_wf(final(m)@),
{
    let b: Option<String> = match m.get("boxShadow") {
        Some(v) => match v.as_str() {
            Some(s) => Some(String::from_str(s)),
            None => None,
        },
        None => None,
    };
    match b {
        Some(s) => {
            let sv = str_to_chars(s.as_str());
            if sv.len() > 0 {
                let tier: i64 = if crate::strutil::contains_sub_str(&sv, "20px") {
                    24
                } else if crate::strutil::contains_sub_str(&sv, "15px") {
                    16
                } else if crate::strutil::contains_sub_str(&sv, "10px") {
                    8
                } else if crate::strutil::contains_sub_str(&sv, "5px") {
                    4
                } else {
                    4
                };
                ins_exec(m, "elevation", StyleValue::Int(dp_to_px(tier * 1000, density)));
            }
        },
        None => {},
    }
}

// ===== the full projection =====

/// The native property map for one element: the base map run through the
/// ordered projection phases — orientation first, then dimension
/// conversion, the font scale, and the semantic translations.
pub open spec fn android_styles_spec(
    s: SpecState,
    selector: Seq<char>,
    classes: Seq<Seq<char>>,
) -> SpecProps {
    let m0 = android_base_spec(s, selector, classes);
    let m1 = phase_orient(m0);
    let m2 = convert_dims_spec(m1, s.display_density, false);
    let m3 = phase_font(m2, s.display_density, s.scaled_density);
    let m4 = phase_flexwrap(m3);
    let m5 = phase_alpha(m4);
    let m6 = phase_gravity(m5);
    let m7 = phase_border_short(m6, s.display_density);
    let m8 = phase_shadow(m7, s.display_density);
    let m9 = phase_overflow(m8);
    let m10 = phase_textalign(m9);
    let m11 = phase_objectfit(m10);
    let m12 = phase_fullsize(m11);
    let m13 = phase_flexdefaults(m12);
    let m14 = phase_fontweight(m13);
    phase_shadow2(m14, s.display_density)
}

impl State {
    /// The base native map for one element, before unit conversion.
    pub fn android_base_styles(&self, selector: &str, classes: &Vec<String>) -> (r: PropMap)
        requires
            state_wf(self@),
        ensures
            r@ == android_base_spec(self@, selector@, classes.deep_view()),
            m_wf(r@),
    {
        android_base_styles_impl(self, selector, classes)
    }

    /// The native property map for one element.
    pub fn android_styles_for(&self, selector: &str, classes: &Vec<String>) -> (r: PropMap)
        requires
            state_wf(self@),
        ensures
            r@ == android_styles_spec(self@, selector@, classes.deep_view()),
            m_wf(r@),
    {
        let mut m = android_base_styles_impl(self, selector, classes);
        phase_orient_exec(&mut m);
        convert_dims(&mut m, self.display_density, false);
        phase_font_exec(&mut m, self.display_density, self.scaled_density);
        phase_flexwrap_exec(&mut m);
        phase_alpha_exec(&mut m);
        phase_gravity_exec(&mut m);
        phase_border_short_exec(&mut m, self.display_density);
        phase_shadow_exec(&mut m, self.display_density);
        phase_overflow_exec(&mut m);
        phase_textalign_exec(&mut m);
        phase_objectfit_exec(&mut m);
        phase_fullsize_exec(&mut m);
        phase_flexdefaults_exec(&mut m);
        phase_fontweight_exec(&mut m);
        phase_shadow2_exec(&mut m, self.display_density);
        m
    }
}

} // verus!
