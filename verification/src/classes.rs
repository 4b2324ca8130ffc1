//! The utility-class compiler: one class token expands to a set of
//! CSS-style property/value pairs through an ordered list of pattern rules,
//! first match winning. A token no rule matches contributes nothing.

use vstd::prelude::*;
use crate::color::tdiv100;
use crate::ordmap::{m_contains, m_insert, m_wf, OrdMap};
use crate::palette::{color_with_vars_spec, get_tailwind_color_with_vars};
use crate::strutil::{
    chars_eq_str, chars_to_string, first_ix, i64_to_chars, int_rep, is_prefix_of, opt_i64_is,
    parse_int, parse_int_spec, parse_milli, parse_milli_spec, push_chars, push_str_chars,
    split_char, split_char_spec, split_once_char, starts_with_str, str_to_chars,
    strip_prefix_str, subvec,
};
use crate::units::{PropMap, SpecProps};
use crate::value::{SpecVal, StyleValue};

verus! {

broadcast use vstd::string::group_string_axioms;


proof fn lemma_trans_keys()
    ensures
        "transition-property"@ != "transition-duration"@,
        "transition-property"@ != "transition-timing-function"@,
        "transition-duration"@ != "transition-timing-function"@,
{
    reveal_strlit("transition-property");
    reveal_strlit("transition-duration");
    reveal_strlit("transition-timing-function");
    assert("transition-property"@.len() == 19);
    assert("transition-duration"@.len() == 19);
    assert("transition-timing-function"@.len() == 26);
    assert("transition-property"@[11] == 'p');
    assert("transition-duration"@[11] == 'd');
}

proof fn lemma_border_keys()
    ensures
        "border-width"@ != "border-color"@,
        "border-width"@ != "border-style"@,
        "border-color"@ != "border-style"@,
        "border-top-width"@ != "border-color"@,
        "border-top-width"@ != "border-style"@,
        "border-bottom-width"@ != "border-color"@,
        "border-bottom-width"@ != "border-style"@,
        "border-left-width"@ != "border-color"@,
        "border-left-width"@ != "border-style"@,
        "border-right-width"@ != "border-color"@,
        "border-right-width"@ != "border-style"@,
        "border-left-width"@ != "border-right-width"@,
        "border-top-width"@ != "border-bottom-width"@,
{
    reveal_strlit("border-width");
    reveal_strlit("border-color");
    reveal_strlit("border-style");
    reveal_strlit("border-top-width");
    reveal_strlit("border-bottom-width");
    reveal_strlit("border-left-width");
    reveal_strlit("border-right-width");
    assert("border-width"@.len() == 12);
    assert("border-color"@.len() == 12);
    assert("border-style"@.len() == 12);
    assert("border-top-width"@.len() == 16);
    assert("border-bottom-width"@.len() == 19);
    assert("border-left-width"@.len() == 17);
    assert("border-right-width"@.len() == 18);
    assert("border-width"@[7] == 'w');
    assert("border-color"@[7] == 'c');
    assert("border-style"@[7] == 's');
}

// ===== small builders =====

fn props1(k: &str, v: StyleValue) -> (r: PropMap)
    ensures
        r@ == seq![(k@, v@)],
        m_wf(r@),
{
    let mut m = PropMap::new();
    m.insert(String::from_str(k), v);
    proof {
        assert(m@ =~= seq![(k@, v@)]);
    }
    m
}

fn props2(k1: &str, v1: StyleValue, k2: &str, v2: StyleValue) -> (r: PropMap)
    requires
        k1@ != k2@,
    ensures
        r@ == seq![(k1@, v1@), (k2@, v2@)],
        m_wf(r@),
{
    let mut m = props1(k1, v1);
    proof {
        assert(!m_contains(m@, k2@)) by {
            assert(forall|i: int| 0 <= i < m@.len() ==> (#[trigger] m@[i]).0 == k1@);
        }
    }
    m.insert(String::from_str(k2), v2);
    proof {
        assert(m@ =~= seq![(k1@, v1@), (k2@, v2@)]);
    }
    m
}

fn props3(k1: &str, v1: StyleValue, k2: &str, v2: StyleValue, k3: &str, v3: StyleValue) -> (r:
    PropMap)
    requires
        k1@ != k2@,
        k1@ != k3@,
        k2@ != k3@,
    ensures
        r@ == seq![(k1@, v1@), (k2@, v2@), (k3@, v3@)],
        m_wf(r@),
{
    let mut m = props2(k1, v1, k2, v2);
    proof {
        assert(!m_contains(m@, k3@)) by {
            assert(forall|i: int|
                0 <= i < m@.len() ==> (#[trigger] m@[i]).0 == k1@ || m@[i].0 == k2@);
        }
    }
    m.insert(String::from_str(k3), v3);
    proof {
        assert(m@ =~= seq![(k1@, v1@), (k2@, v2@), (k3@, v3@)]);
    }
    m
}

fn props4(
    k1: &str,
    v1: StyleValue,
    k2: &str,
    v2: StyleValue,
    k3: &str,
    v3: StyleValue,
    k4: &str,
    v4: StyleValue,
) -> (r: PropMap)
    requires
        k1@ != k2@,
        k1@ != k3@,
        k1@ != k4@,
        k2@ != k3@,
        k2@ != k4@,
        k3@ != k4@,
    ensures
        r@ == seq![(k1@, v1@), (k2@, v2@), (k3@, v3@), (k4@, v4@)],
        m_wf(r@),
{
    let mut m = props3(k1, v1, k2, v2, k3, v3);
    proof {
        assert(!m_contains(m@, k4@)) by {
            assert(forall|i: int|
                0 <= i < m@.len() ==> (#[trigger] m@[i]).0 == k1@ || m@[i].0 == k2@ || m@[i].0
                    == k3@);
        }
    }
    m.insert(String::from_str(k4), v4);
    proof {
        assert(m@ =~= seq![(k1@, v1@), (k2@, v2@), (k3@, v3@), (k4@, v4@)]);
    }
    m
}

/// A whole number of pixels as dimension text.
pub open spec fn px_str(n: int) -> SpecVal {
    SpecVal::Str(int_rep(n) + "px"@)
}

fn px_value(n: i64) -> (r: StyleValue)
    requires
        i64::MIN < n,
    ensures
        r@ == px_str(n as int),
{
    let mut v = i64_to_chars(n);
    push_str_chars(&mut v, "px");
    StyleValue::of_chars(&v)
}

// ===== numeric-scale spacing =====

/// The spacing scale: a numeric suffix maps to four pixels a step.
pub open spec fn spacing_px(rest: Seq<char>) -> Option<int> {
    match parse_int_spec(rest) {
        Some(n) => Some(n * 4),
        None => None,
    }
}

fn spacing_px_exec(rest: &Vec<char>) -> (r: Option<i64>)
    ensures
        opt_i64_is(r, spacing_px(rest@)),
        r is Some ==> i64::MIN < r->0,
{
    match parse_int(rest) {
        Some(n) => Some(n * 4),
        None => None,
    }
}


/// Exact-token rules, first match winning.
pub open spec fn k_display_spec(class: Seq<char>) -> Option<SpecProps> {
    if class == "block"@ {
        Some(seq![("display"@, SpecVal::Str("block"@))])
    } else if class == "inline-block"@ {
        Some(seq![("display"@, SpecVal::Str("inline-block"@))])
    } else if class == "inline"@ {
        Some(seq![("display"@, SpecVal::Str("inline"@))])
    } else if class == "inline-flex"@ {
        Some(seq![("display"@, SpecVal::Str("inline-flex"@))])
    } else if class == "grid"@ {
        Some(seq![("display"@, SpecVal::Str("grid"@))])
    } else if class == "hidden"@ {
        Some(seq![("display"@, SpecVal::Str("none"@))])
    } else if class == "flex"@ {
        Some(seq![("display"@, SpecVal::Str("flex"@))])
    } else if class == "flex-row"@ {
        Some(seq![("display"@, SpecVal::Str("flex"@)), ("flexDirection"@, SpecVal::Str("row"@))])
    } else if class == "flex-col"@ {
        Some(seq![("display"@, SpecVal::Str("flex"@)), ("flexDirection"@, SpecVal::Str("column"@))])
    } else if class == "flex-wrap"@ {
        Some(seq![("display"@, SpecVal::Str("flex"@)), ("flex-wrap"@, SpecVal::Str("wrap"@))])
    } else if class == "flex-nowrap"@ {
        Some(seq![("display"@, SpecVal::Str("flex"@)), ("flex-wrap"@, SpecVal::Str("nowrap"@))])
    } else if class == "flex-wrap-reverse"@ {
        Some(seq![("display"@, SpecVal::Str("flex"@)), ("flex-wrap"@, SpecVal::Str("wrap-reverse"@))])
    } else if class == "flex-1"@ {
        Some(seq![("flex"@, SpecVal::Int(1))])
    } else if class == "w-full"@ {
        Some(seq![("width"@, SpecVal::Str("match_parent"@))])
    } else if class == "h-full"@ {
        Some(seq![("height"@, SpecVal::Str("match_parent"@))])
    } else {
        None
    }
}

fn k_display(class: &Vec<char>) -> (r: Option<PropMap>)
    ensures
        match r {
            Some(m) => k_display_spec(class@) == Some(m@) && m_wf(m@),
            None => k_display_spec(class@) is None,
        },
{
    if chars_eq_str(class, "block") {
        Some(props1("display", StyleValue::of_str("block")))
    } else if chars_eq_str(class, "inline-block") {
        Some(props1("display", StyleValue::of_str("inline-block")))
    } else if chars_eq_str(class, "inline") {
        Some(props1("display", StyleValue::of_str("inline")))
    } else if chars_eq_str(class, "inline-flex") {
        Some(props1("display", StyleValue::of_str("inline-flex")))
    } else if chars_eq_str(class, "grid") {
        Some(props1("display", StyleValue::of_str("grid")))
    } else if chars_eq_str(class, "hidden") {
        Some(props1("display", StyleValue::of_str("none")))
    } else if chars_eq_str(class, "flex") {
        Some(props1("display", StyleValue::of_str("flex")))
    } else if chars_eq_str(class, "flex-row") {
        proof {
            reveal_strlit("display");
            assert("display"@.len() == 7);
            reveal_strlit("flexDirection");
            assert("flexDirection"@.len() == 13);
        }
        Some(props2("display", StyleValue::of_str("flex"), "flexDirection", StyleValue::of_str("row")))
    } else if chars_eq_str(class, "flex-col") {
        proof {
            reveal_strlit("display");
            assert("display"@.len() == 7);
            reveal_strlit("flexDirection");
            assert("flexDirection"@.len() == 13);
        }
        Some(props2("display", StyleValue::of_str("flex"), "flexDirection", StyleValue::of_str("column")))
    } else if chars_eq_str(class, "flex-wrap") {
        proof {
            reveal_strlit("display");
            assert("display"@.len() == 7);
            reveal_strlit("flex-wrap");
            assert("flex-wrap"@.len() == 9);
        }
        Some(props2("display", StyleValue::of_str("flex"), "flex-wrap", StyleValue::of_str("wrap")))
    } else if chars_eq_str(class, "flex-nowrap") {
        proof {
            reveal_strlit("display");
            assert("display"@.len() == 7);
            reveal_strlit("flex-wrap");
            assert("flex-wrap"@.len() == 9);
        }
        Some(props2("display", StyleValue::of_str("flex"), "flex-wrap", StyleValue::of_str("nowrap")))
    } else if chars_eq_str(class, "flex-wrap-reverse") {
        proof {
            reveal_strlit("display");
            assert("display"@.len() == 7);
            reveal_strlit("flex-wrap");
            assert("flex-wrap"@.len() == 9);
        }
        Some(props2("display", StyleValue::of_str("flex"), "flex-wrap", StyleValue::of_str("wrap-reverse")))
    } else if chars_eq_str(class, "flex-1") {
        Some(props1("flex", StyleValue::Int(1)))
    } else if chars_eq_str(class, "w-full") {
        Some(props1("width", StyleValue::of_str("match_parent")))
    } else if chars_eq_str(class, "h-full") {
        Some(props1("height", StyleValue::of_str("match_parent")))
    } else {
        None
    }
}

/// Exact-token rules, first match winning.
pub open spec fn k_fonts_spec(class: Seq<char>) -> Option<SpecProps> {
    if class == "font-thin"@ {
        Some(seq![("font-weight"@, SpecVal::Str("100"@))])
    } else if class == "font-extralight"@ {
        Some(seq![("font-weight"@, SpecVal::Str("200"@))])
    } else if class == "font-light"@ {
        Some(seq![("font-weight"@, SpecVal::Str("300"@))])
    } else if class == "font-normal"@ {
        Some(seq![("font-weight"@, SpecVal::Str("400"@))])
    } else if class == "font-medium"@ {
        Some(seq![("font-weight"@, SpecVal::Str("500"@))])
    } else if class == "font-semibold"@ {
        Some(seq![("font-weight"@, SpecVal::Str("600"@))])
    } else if class == "font-bold"@ {
        Some(seq![("font-weight"@, SpecVal::Str("700"@))])
    } else if class == "font-extrabold"@ {
        Some(seq![("font-weight"@, SpecVal::Str("800"@))])
    } else if class == "font-black"@ {
        Some(seq![("font-weight"@, SpecVal::Str("900"@))])
    } else if class == "font-sans"@ {
        Some(seq![("font-family"@, SpecVal::Str("system-ui, -apple-system, sans-serif"@))])
    } else if class == "font-serif"@ {
        Some(seq![("font-family"@, SpecVal::Str("Georgia, serif"@))])
    } else if class == "font-mono"@ {
        Some(seq![("font-family"@, SpecVal::Str("ui-monospace, monospace"@))])
    } else if class == "text-xs"@ {
        Some(seq![("font-size"@, SpecVal::Str("12px"@)), ("line-height"@, SpecVal::Str("16px"@))])
    } else if class == "text-sm"@ {
        Some(seq![("font-size"@, SpecVal::Str("14px"@)), ("line-height"@, SpecVal::Str("20px"@))])
    } else if class == "text-base"@ {
        Some(seq![("font-size"@, SpecVal::Str("16px"@)), ("line-height"@, SpecVal::Str("24px"@))])
    } else if class == "text-lg"@ {
        Some(seq![("font-size"@, SpecVal::Str("18px"@)), ("line-height"@, SpecVal::Str("28px"@))])
    } else if class == "text-xl"@ {
        Some(seq![("font-size"@, SpecVal::Str("20px"@)), ("line-height"@, SpecVal::Str("28px"@))])
    } else if class == "text-2xl"@ {
        Some(seq![("font-size"@, SpecVal::Str("24px"@)), ("line-height"@, SpecVal::Str("32px"@))])
    } else if class == "text-3xl"@ {
        Some(seq![("font-size"@, SpecVal::Str("30px"@)), ("line-height"@, SpecVal::Str("36px"@))])
    } else if class == "text-4xl"@ {
        Some(seq![("font-size"@, SpecVal::Str("36px"@)), ("line-height"@, SpecVal::Str("40px"@))])
    } else if class == "text-5xl"@ {
        Some(seq![("font-size"@, SpecVal::Str("48px"@)), ("line-height"@, SpecVal::Str("1"@))])
    } else if class == "text-6xl"@ {
        Some(seq![("font-size"@, SpecVal::Str("60px"@)), ("line-height"@, SpecVal::Str("1"@))])
    } else if class == "text-left"@ {
        Some(seq![("text-align"@, SpecVal::Str("left"@))])
    } else if class == "text-center"@ {
        Some(seq![("text-align"@, SpecVal::Str("center"@))])
    } else if class == "text-right"@ {
        Some(seq![("text-align"@, SpecVal::Str("right"@))])
    } else if class == "text-justify"@ {
        Some(seq![("text-align"@, SpecVal::Str("justify"@))])
    } else if class == "overflow-auto"@ {
        Some(seq![("overflow"@, SpecVal::Str("auto"@))])
    } else if class == "overflow-hidden"@ {
        Some(seq![("overflow"@, SpecVal::Str("hidden"@))])
    } else if class == "overflow-visible"@ {
        Some(seq![("overflow"@, SpecVal::Str("visible"@))])
    } else if class == "overflow-scroll"@ {
        Some(seq![("overflow"@, SpecVal::Str("scroll"@))])
    } else if class == "overflow-x-auto"@ {
        Some(seq![("overflow-x"@, SpecVal::Str("auto"@))])
    } else if class == "overflow-x-hidden"@ {
        Some(seq![("overflow-x"@, SpecVal::Str("hidden"@))])
    } else if class == "overflow-x-scroll"@ {
        Some(seq![("overflow-x"@, SpecVal::Str("scroll"@))])
    } else if class == "overflow-y-auto"@ {
        Some(seq![("overflow-y"@, SpecVal::Str("auto"@))])
    } else if class == "overflow-y-hidden"@ {
        Some(seq![("overflow-y"@, SpecVal::Str("hidden"@))])
    } else if class == "overflow-y-scroll"@ {
        Some(seq![("overflow-y"@, SpecVal::Str("scroll"@))])
    } else {
        None
    }
}

fn k_fonts(class: &Vec<char>) -> (r: Option<PropMap>)
    ensures
        match r {
            Some(m) => k_fonts_spec(class@) == Some(m@) && m_wf(m@),
            None => k_fonts_spec(class@) is None,
        },
{
    if chars_eq_str(class, "font-thin") {
        Some(props1("font-weight", StyleValue::of_str("100")))
    } else if chars_eq_str(class, "font-extralight") {
        Some(props1("font-weight", StyleValue::of_str("200")))
    } else if chars_eq_str(class, "font-light") {
        Some(props1("font-weight", StyleValue::of_str("300")))
    } else if chars_eq_str(class, "font-normal") {
        Some(props1("font-weight", StyleValue::of_str("400")))
    } else if chars_eq_str(class, "font-medium") {
        Some(props1("font-weight", StyleValue::of_str("500")))
    } else if chars_eq_str(class, "font-semibold") {
        Some(props1("font-weight", StyleValue::of_str("600")))
    } else if chars_eq_str(class, "font-bold") {
        Some(props1("font-weight", StyleValue::of_str("700")))
    } else if chars_eq_str(class, "font-extrabold") {
        Some(props1("font-weight", StyleValue::of_str("800")))
    } else if chars_eq_str(class, "font-black") {
        Some(props1("font-weight", StyleValue::of_str("900")))
    } else if chars_eq_str(class, "font-sans") {
        Some(props1("font-family", StyleValue::of_str("system-ui, -apple-system, sans-serif")))
    } else if chars_eq_str(class, "font-serif") {
        Some(props1("font-family", StyleValue::of_str("Georgia, serif")))
    } else if chars_eq_str(class, "font-mono") {
        Some(props1("font-family", StyleValue::of_str("ui-monospace, monospace")))
    } else if chars_eq_str(class, "text-xs") {
        proof {
            reveal_strlit("font-size");
            assert("font-size"@.len() == 9);
            reveal_strlit("line-height");
            assert("line-height"@.len() == 11);
        }
        Some(props2("font-size", StyleValue::of_str("12px"), "line-height", StyleValue::of_str("16px")))
    } else if chars_eq_str(class, "text-sm") {
        proof {
            reveal_strlit("font-size");
            assert("font-size"@.len() == 9);
            reveal_strlit("line-height");
            assert("line-height"@.len() == 11);
        }
        Some(props2("font-size", StyleValue::of_str("14px"), "line-height", StyleValue::of_str("20px")))
    } else if chars_eq_str(class, "text-base") {
        proof {
            reveal_strlit("font-size");
            assert("font-size"@.len() == 9);
            reveal_strlit("line-height");
            assert("line-height"@.len() == 11);
        }
        Some(props2("font-size", StyleValue::of_str("16px"), "line-height", StyleValue::of_str("24px")))
    } else if chars_eq_str(class, "text-lg") {
        proof {
            reveal_strlit("font-size");
            assert("font-size"@.len() == 9);
            reveal_strlit("line-height");
            assert("line-height"@.len() == 11);
        }
        Some(props2("font-size", StyleValue::of_str("18px"), "line-height", StyleValue::of_str("28px")))
    } else if chars_eq_str(class, "text-xl") {
        proof {
            reveal_strlit("font-size");
            assert("font-size"@.len() == 9);
            reveal_strlit("line-height");
            assert("line-height"@.len() == 11);
        }
        Some(props2("font-size", StyleValue::of_str("20px"), "line-height", StyleValue::of_str("28px")))
    } else if chars_eq_str(class, "text-2xl") {
        proof {
            reveal_strlit("font-size");
            assert("font-size"@.len() == 9);
            reveal_strlit("line-height");
            assert("line-height"@.len() == 11);
        }
        Some(props2("font-size", StyleValue::of_str("24px"), "line-height", StyleValue::of_str("32px")))
    } else if chars_eq_str(class, "text-3xl") {
        proof {
            reveal_strlit("font-size");
            assert("font-size"@.len() == 9);
            reveal_strlit("line-height");
            assert("line-height"@.len() == 11);
        }
        Some(props2("font-size", StyleValue::of_str("30px"), "line-height", StyleValue::of_str("36px")))
    } else if chars_eq_str(class, "text-4xl") {
        proof {
            reveal_strlit("font-size");
            assert("font-size"@.len() == 9);
            reveal_strlit("line-height");
            assert("line-height"@.len() == 11);
        }
        Some(props2("font-size", StyleValue::of_str("36px"), "line-height", StyleValue::of_str("40px")))
    } else if chars_eq_str(class, "text-5xl") {
        proof {
            reveal_strlit("font-size");
            assert("font-size"@.len() == 9);
            reveal_strlit("line-height");
            assert("line-height"@.len() == 11);
        }
        Some(props2("font-size", StyleValue::of_str("48px"), "line-height", StyleValue::of_str("1")))
    } else if chars_eq_str(class, "text-6xl") {
        proof {
            reveal_strlit("font-size");
            assert("font-size"@.len() == 9);
            reveal_strlit("line-height");
            assert("line-height"@.len() == 11);
        }
        Some(props2("font-size", StyleValue::of_str("60px"), "line-height", StyleValue::of_str("1")))
    } else if chars_eq_str(class, "text-left") {
        Some(props1("text-align", StyleValue::of_str("left")))
    } else if chars_eq_str(class, "text-center") {
        Some(props1("text-align", StyleValue::of_str("center")))
    } else if chars_eq_str(class, "text-right") {
        Some(props1("text-align", StyleValue::of_str("right")))
    } else if chars_eq_str(class, "text-justify") {
        Some(props1("text-align", StyleValue::of_str("justify")))
    } else if chars_eq_str(class, "overflow-auto") {
        Some(props1("overflow", StyleValue::of_str("auto")))
    } else if chars_eq_str(class, "overflow-hidden") {
        Some(props1("overflow", StyleValue::of_str("hidden")))
    } else if chars_eq_str(class, "overflow-visible") {
        Some(props1("overflow", StyleValue::of_str("visible")))
    } else if chars_eq_str(class, "overflow-scroll") {
        Some(props1("overflow", StyleValue::of_str("scroll")))
    } else if chars_eq_str(class, "overflow-x-auto") {
        Some(props1("overflow-x", StyleValue::of_str("auto")))
    } else if chars_eq_str(class, "overflow-x-hidden") {
        Some(props1("overflow-x", StyleValue::of_str("hidden")))
    } else if chars_eq_str(class, "overflow-x-scroll") {
        Some(props1("overflow-x", StyleValue::of_str("scroll")))
    } else if chars_eq_str(class, "overflow-y-auto") {
        Some(props1("overflow-y", StyleValue::of_str("auto")))
    } else if chars_eq_str(class, "overflow-y-hidden") {
        Some(props1("overflow-y", StyleValue::of_str("hidden")))
    } else if chars_eq_str(class, "overflow-y-scroll") {
        Some(props1("overflow-y", StyleValue::of_str("scroll")))
    } else {
        None
    }
}

/// Exact-token rules, first match winning.
pub open spec fn k_shadows_spec(class: Seq<char>) -> Option<SpecProps> {
    if class == "shadow-sm"@ {
        Some(seq![("box-shadow"@, SpecVal::Str("0 1px 2px 0 rgba(0, 0, 0, 0.05)"@))])
    } else if class == "shadow"@ {
        Some(seq![("box-shadow"@, SpecVal::Str("0 1px 3px 0 rgba(0, 0, 0, 0.1), 0 1px 2px -1px rgba(0, 0, 0, 0.1)"@))])
    } else if class == "shadow-md"@ {
        Some(seq![("box-shadow"@, SpecVal::Str("0 4px 6px -1px rgba(0, 0, 0, 0.1), 0 2px 4px -2px rgba(0, 0, 0, 0.1)"@))])
    } else if class == "shadow-lg"@ {
        Some(seq![("box-shadow"@, SpecVal::Str("0 10px 15px -3px rgba(0, 0, 0, 0.1), 0 4px 6px -4px rgba(0, 0, 0, 0.1)"@))])
    } else if class == "shadow-xl"@ {
        Some(seq![("box-shadow"@, SpecVal::Str("0 20px 25px -5px rgba(0, 0, 0, 0.1), 0 8px 10px -6px rgba(0, 0, 0, 0.1)"@))])
    } else if class == "shadow-2xl"@ {
        Some(seq![("box-shadow"@, SpecVal::Str("0 25px 50px -12px rgba(0, 0, 0, 0.25)"@))])
    } else if class == "shadow-none"@ {
        Some(seq![("box-shadow"@, SpecVal::Str("none"@))])
    } else {
        None
    }
}

fn k_shadows(class: &Vec<char>) -> (r: Option<PropMap>)
    ensures
        match r {
            Some(m) => k_shadows_spec(class@) == Some(m@) && m_wf(m@),
            None => k_shadows_spec(class@) is None,
        },
{
    if chars_eq_str(class, "shadow-sm") {
        Some(props1("box-shadow", StyleValue::of_str("0 1px 2px 0 rgba(0, 0, 0, 0.05)")))
    } else if chars_eq_str(class, "shadow") {
        Some(props1("box-shadow", StyleValue::of_str("0 1px 3px 0 rgba(0, 0, 0, 0.1), 0 1px 2px -1px rgba(0, 0, 0, 0.1)")))
    } else if chars_eq_str(class, "shadow-md") {
        Some(props1("box-shadow", StyleValue::of_str("0 4px 6px -1px rgba(0, 0, 0, 0.1), 0 2px 4px -2px rgba(0, 0, 0, 0.1)")))
    } else if chars_eq_str(class, "shadow-lg") {
        Some(props1("box-shadow", StyleValue::of_str("0 10px 15px -3px rgba(0, 0, 0, 0.1), 0 4px 6px -4px rgba(0, 0, 0, 0.1)")))
    } else if chars_eq_str(class, "shadow-xl") {
        Some(props1("box-shadow", StyleValue::of_str("0 20px 25px -5px rgba(0, 0, 0, 0.1), 0 8px 10px -6px rgba(0, 0, 0, 0.1)")))
    } else if chars_eq_str(class, "shadow-2xl") {
        Some(props1("box-shadow", StyleValue::of_str("0 25px 50px -12px rgba(0, 0, 0, 0.25)")))
    } else if chars_eq_str(class, "shadow-none") {
        Some(props1("box-shadow", StyleValue::of_str("none")))
    } else {
        None
    }
}

/// The spacing families: padding and margin sides, gaps, and spacing
/// custom properties; margins additionally accept `auto`.
pub open spec fn k_spacing_spec(class: Seq<char>) -> Option<Option<SpecProps>> {
    if is_prefix_of("p-"@, class) {
        let rest = class.skip(2);
        Some(match spacing_px(rest) {
            Some(n) => Some(seq![("padding"@, px_str(n))]),
            None => None,
        })
    } else
    if is_prefix_of("px-"@, class) {
        let rest = class.skip(3);
        Some(match spacing_px(rest) {
            Some(n) => Some(seq![("padding-left"@, px_str(n)), ("padding-right"@, px_str(n))]),
            None => None,
        })
    } else
    if is_prefix_of("py-"@, class) {
        let rest = class.skip(3);
        Some(match spacing_px(rest) {
            Some(n) => Some(seq![("padding-top"@, px_str(n)), ("padding-bottom"@, px_str(n))]),
            None => None,
        })
    } else
    if is_prefix_of("pt-"@, class) {
        let rest = class.skip(3);
        Some(match spacing_px(rest) {
            Some(n) => Some(seq![("padding-top"@, px_str(n))]),
            None => None,
        })
    } else
    if is_prefix_of("pr-"@, class) {
        let rest = class.skip(3);
        Some(match spacing_px(rest) {
            Some(n) => Some(seq![("padding-right"@, px_str(n))]),
            None => None,
        })
    } else
    if is_prefix_of("pb-"@, class) {
        let rest = class.skip(3);
        Some(match spacing_px(rest) {
            Some(n) => Some(seq![("padding-bottom"@, px_str(n))]),
            None => None,
        })
    } else
    if is_prefix_of("pl-"@, class) {
        let rest = class.skip(3);
        Some(match spacing_px(rest) {
            Some(n) => Some(seq![("padding-left"@, px_str(n))]),
            None => None,
        })
    } else
    if is_prefix_of("m-"@, class) {
        let rest = class.skip(2);
        if rest == "auto"@ {
            Some(Some(seq![("margin"@, SpecVal::Str("auto"@))]))
        } else {
            Some(match spacing_px(rest) {
                Some(n) => Some(seq![("margin"@, px_str(n))]),
                None => None,
            })
        }
    } else
    if is_prefix_of("mx-"@, class) {
        let rest = class.skip(3);
        if rest == "auto"@ {
            Some(Some(seq![("margin-left"@, SpecVal::Str("auto"@)), ("margin-right"@, SpecVal::Str("auto"@))]))
        } else {
            Some(match spacing_px(rest) {
                Some(n) => Some(seq![("margin-left"@, px_str(n)), ("margin-right"@, px_str(n))]),
                None => None,
            })
        }
    } else
    if is_prefix_of("my-"@, class) {
        let rest = class.skip(3);
        if rest == "auto"@ {
            Some(Some(seq![("margin-top"@, SpecVal::Str("auto"@)), ("margin-bottom"@, SpecVal::Str("auto"@))]))
        } else {
            Some(match spacing_px(rest) {
                Some(n) => Some(seq![("margin-top"@, px_str(n)), ("margin-bottom"@, px_str(n))]),
                None => None,
            })
        }
    } else
    if is_prefix_of("mt-"@, class) {
        let rest = class.skip(3);
        if rest == "auto"@ {
            Some(Some(seq![("margin-top"@, SpecVal::Str("auto"@))]))
        } else {
            Some(match spacing_px(rest) {
                Some(n) => Some(seq![("margin-top"@, px_str(n))]),
                None => None,
            })
        }
    } else
    if is_prefix_of("mr-"@, class) {
        let rest = class.skip(3);
        if rest == "auto"@ {
            Some(Some(seq![("margin-right"@, SpecVal::Str("auto"@))]))
        } else {
            Some(match spacing_px(rest) {
                Some(n) => Some(seq![("margin-right"@, px_str(n))]),
                None => None,
            })
        }
    } else
    if is_prefix_of("mb-"@, class) {
        let rest = class.skip(3);
        if rest == "auto"@ {
            Some(Some(seq![("margin-bottom"@, SpecVal::Str("auto"@))]))
        } else {
            Some(match spacing_px(rest) {
                Some(n) => Some(seq![("margin-bottom"@, px_str(n))]),
                None => None,
            })
        }
    } else
    if is_prefix_of("ml-"@, class) {
        let rest = class.skip(3);
        if rest == "auto"@ {
            Some(Some(seq![("margin-left"@, SpecVal::Str("auto"@))]))
        } else {
            Some(match spacing_px(rest) {
                Some(n) => Some(seq![("margin-left"@, px_str(n))]),
                None => None,
            })
        }
    } else
    if is_prefix_of("gap-"@, class) && !is_prefix_of("gap-x-"@, class) && !is_prefix_of(
        "gap-y-"@,
        class,
    ) {
        let rest = class.skip(4);
        Some(match spacing_px(rest) {
            Some(n) => Some(seq![("gap"@, px_str(n))]),
            None => None,
        })
    } else
    if is_prefix_of("gap-x-"@, class) {
        let rest = class.skip(6);
        Some(match spacing_px(rest) {
            Some(n) => Some(seq![("column-gap"@, px_str(n))]),
            None => None,
        })
    } else
    if is_prefix_of("gap-y-"@, class) {
        let rest = class.skip(6);
        Some(match spacing_px(rest) {
            Some(n) => Some(seq![("row-gap"@, px_str(n))]),
            None => None,
        })
    } else
    if is_prefix_of("space-x-"@, class) {
        let rest = class.skip(8);
        Some(match spacing_px(rest) {
            Some(n) => Some(seq![("--space-x"@, px_str(n))]),
            None => None,
        })
    } else
    if is_prefix_of("space-y-"@, class) {
        let rest = class.skip(8);
        Some(match spacing_px(rest) {
            Some(n) => Some(seq![("--space-y"@, px_str(n))]),
            None => None,
        })
    } else {
        None
    }
}

fn k_spacing(class: &Vec<char>) -> (r: Option<Option<PropMap>>)
    ensures
        match r {
            Some(Some(m)) => k_spacing_spec(class@) == Some(Some(m@)) && m_wf(m@),
            Some(None) => k_spacing_spec(class@) == Some(None::<SpecProps>),
            None => k_spacing_spec(class@) is None,
        },
{
    if let Some(rest) = strip_prefix_str(class, "p-") {
        proof {
            assert("p-"@.len() == 2) by {
                reveal_strlit("p-");
                assert("p-"@.len() == 2);
            }
            assert(rest@ =~= class@.skip(2));
        }
        match spacing_px_exec(&rest) {
            Some(n) => Some(Some(props1("padding", px_value(n)))),
            None => Some(None),
        }
    } else
    if let Some(rest) = strip_prefix_str(class, "px-") {
        proof {
            assert("px-"@.len() == 3) by {
                reveal_strlit("px-");
                assert("px-"@.len() == 3);
            }
            assert(rest@ =~= class@.skip(3));
        }
        match spacing_px_exec(&rest) {
            Some(n) => {
                proof {
                    reveal_strlit("padding-left");
                    assert("padding-left"@.len() == 12);
                    reveal_strlit("padding-right");
                    assert("padding-right"@.len() == 13);
                }
                Some(Some(props2("padding-left", px_value(n), "padding-right", px_value(n))))
            },
            None => Some(None),
        }
    } else
    if let Some(rest) = strip_prefix_str(class, "py-") {
        proof {
            assert("py-"@.len() == 3) by {
                reveal_strlit("py-");
                assert("py-"@.len() == 3);
            }
            assert(rest@ =~= class@.skip(3));
        }
        match spacing_px_exec(&rest) {
            Some(n) => {
                proof {
                    reveal_strlit("padding-top");
                    assert("padding-top"@.len() == 11);
                    reveal_strlit("padding-bottom");
                    assert("padding-bottom"@.len() == 14);
                }
                Some(Some(props2("padding-top", px_value(n), "padding-bottom", px_value(n))))
            },
            None => Some(None),
        }
    } else
    if let Some(rest) = strip_prefix_str(class, "pt-") {
        proof {
            assert("pt-"@.len() == 3) by {
                reveal_strlit("pt-");
                assert("pt-"@.len() == 3);
            }
            assert(rest@ =~= class@.skip(3));
        }
        match spacing_px_exec(&rest) {
            Some(n) => Some(Some(props1("padding-top", px_value(n)))),
            None => Some(None),
        }
    } else
    if let Some(rest) = strip_prefix_str(class, "pr-") {
        proof {
            assert("pr-"@.len() == 3) by {
                reveal_strlit("pr-");
                assert("pr-"@.len() == 3);
            }
            assert(rest@ =~= class@.skip(3));
        }
        match spacing_px_exec(&rest) {
            Some(n) => Some(Some(props1("padding-right", px_value(n)))),
            None => Some(None),
        }
    } else
    if let Some(rest) = strip_prefix_str(class, "pb-") {
        proof {
            assert("pb-"@.len() == 3) by {
                reveal_strlit("pb-");
                assert("pb-"@.len() == 3);
            }
            assert(rest@ =~= class@.skip(3));
        }
        match spacing_px_exec(&rest) {
            Some(n) => Some(Some(props1("padding-bottom", px_value(n)))),
            None => Some(None),
        }
    } else
    if let Some(rest) = strip_prefix_str(class, "pl-") {
        proof {
            assert("pl-"@.len() == 3) by {
                reveal_strlit("pl-");
                assert("pl-"@.len() == 3);
            }
            assert(rest@ =~= class@.skip(3));
        }
        match spacing_px_exec(&rest) {
            Some(n) => Some(Some(props1("padding-left", px_value(n)))),
            None => Some(None),
        }
    } else
    if let Some(rest) = strip_prefix_str(class, "m-") {
        proof {
            assert("m-"@.len() == 2) by {
                reveal_strlit("m-");
                assert("m-"@.len() == 2);
            }
            assert(rest@ =~= class@.skip(2));
        }
        if chars_eq_str(&rest, "auto") {
            Some(Some(props1("margin", StyleValue::of_str("auto"))))
        } else {
            match spacing_px_exec(&rest) {
                Some(n) => Some(Some(props1("margin", px_value(n)))),
                None => Some(None),
            }
        }
    } else
    if let Some(rest) = strip_prefix_str(class, "mx-") {
        proof {
            assert("mx-"@.len() == 3) by {
                reveal_strlit("mx-");
                assert("mx-"@.len() == 3);
            }
            assert(rest@ =~= class@.skip(3));
        }
        if chars_eq_str(&rest, "auto") {
            proof {
                reveal_strlit("margin-left");
                assert("margin-left"@.len() == 11);
                reveal_strlit("margin-right");
                assert("margin-right"@.len() == 12);
            }
            Some(Some(props2("margin-left", StyleValue::of_str("auto"), "margin-right", StyleValue::of_str("auto"))))
        } else {
            match spacing_px_exec(&rest) {
                Some(n) => {
                    proof {
                        reveal_strlit("margin-left");
                        assert("margin-left"@.len() == 11);
                        reveal_strlit("margin-right");
                        assert("margin-right"@.len() == 12);
                    }
                    Some(Some(props2("margin-left", px_value(n), "margin-right", px_value(n))))
                },
                None => Some(None),
            }
        }
    } else
    if let Some(rest) = strip_prefix_str(class, "my-") {
        proof {
            assert("my-"@.len() == 3) by {
                reveal_strlit("my-");
                assert("my-"@.len() == 3);
            }
            assert(rest@ =~= class@.skip(3));
        }
        if chars_eq_str(&rest, "auto") {
            proof {
                reveal_strlit("margin-top");
                assert("margin-top"@.len() == 10);
                reveal_strlit("margin-bottom");
                assert("margin-bottom"@.len() == 13);
            }
            Some(Some(props2("margin-top", StyleValue::of_str("auto"), "margin-bottom", StyleValue::of_str("auto"))))
        } else {
            match spacing_px_exec(&rest) {
                Some(n) => {
                    proof {
                        reveal_strlit("margin-top");
                        assert("margin-top"@.len() == 10);
                        reveal_strlit("margin-bottom");
                        assert("margin-bottom"@.len() == 13);
                    }
                    Some(Some(props2("margin-top", px_value(n), "margin-bottom", px_value(n))))
                },
                None => Some(None),
            }
        }
    } else
    if let Some(rest) = strip_prefix_str(class, "mt-") {
        proof {
            assert("mt-"@.len() == 3) by {
                reveal_strlit("mt-");
                assert("mt-"@.len() == 3);
            }
            assert(rest@ =~= class@.skip(3));
        }
        if chars_eq_str(&rest, "auto") {
            Some(Some(props1("margin-top", StyleValue::of_str("auto"))))
        } else {
            match spacing_px_exec(&rest) {
                Some(n) => Some(Some(props1("margin-top", px_value(n)))),
                None => Some(None),
            }
        }
    } else
    if let Some(rest) = strip_prefix_str(class, "mr-") {
        proof {
            assert("mr-"@.len() == 3) by {
                reveal_strlit("mr-");
                assert("mr-"@.len() == 3);
            }
            assert(rest@ =~= class@.skip(3));
        }
        if chars_eq_str(&rest, "auto") {
            Some(Some(props1("margin-right", StyleValue::of_str("auto"))))
        } else {
            match spacing_px_exec(&rest) {
                Some(n) => Some(Some(props1("margin-right", px_value(n)))),
                None => Some(None),
            }
        }
    } else
    if let Some(rest) = strip_prefix_str(class, "mb-") {
        proof {
            assert("mb-"@.len() == 3) by {
                reveal_strlit("mb-");
                assert("mb-"@.len() == 3);
            }
            assert(rest@ =~= class@.skip(3));
        }
        if chars_eq_str(&rest, "auto") {
            Some(Some(props1("margin-bottom", StyleValue::of_str("auto"))))
        } else {
            match spacing_px_exec(&rest) {
                Some(n) => Some(Some(props1("margin-bottom", px_value(n)))),
                None => Some(None),
            }
        }
    } else
    if let Some(rest) = strip_prefix_str(class, "ml-") {
        proof {
            assert("ml-"@.len() == 3) by {
                reveal_strlit("ml-");
                assert("ml-"@.len() == 3);
            }
            assert(rest@ =~= class@.skip(3));
        }
        if chars_eq_str(&rest, "auto") {
            Some(Some(props1("margin-left", StyleValue::of_str("auto"))))
        } else {
            match spacing_px_exec(&rest) {
                Some(n) => Some(Some(props1("margin-left", px_value(n)))),
                None => Some(None),
            }
        }
    } else
    if starts_with_str(class, "gap-") && !starts_with_str(class, "gap-x-")
        && !starts_with_str(class, "gap-y-") {
        proof {
            assert("gap-"@.len() == 4) by {
                reveal_strlit("gap-");
                assert("gap-"@.len() == 4);
            }
        }
        let rest = subvec(class, 4, class.len());
        proof {
            assert(rest@ =~= class@.skip(4));
        }
        match spacing_px_exec(&rest) {
            Some(n) => Some(Some(props1("gap", px_value(n)))),
            None => Some(None),
        }
    } else
    if let Some(rest) = strip_prefix_str(class, "gap-x-") {
        proof {
            assert("gap-x-"@.len() == 6) by {
                reveal_strlit("gap-x-");
                assert("gap-x-"@.len() == 6);
            }
            assert(rest@ =~= class@.skip(6));
        }
        match spacing_px_exec(&rest) {
            Some(n) => Some(Some(props1("column-gap", px_value(n)))),
            None => Some(None),
        }
    } else
    if let Some(rest) = strip_prefix_str(class, "gap-y-") {
        proof {
            assert("gap-y-"@.len() == 6) by {
                reveal_strlit("gap-y-");
                assert("gap-y-"@.len() == 6);
            }
            assert(rest@ =~= class@.skip(6));
        }
        match spacing_px_exec(&rest) {
            Some(n) => Some(Some(props1("row-gap", px_value(n)))),
            None => Some(None),
        }
    } else
    if let Some(rest) = strip_prefix_str(class, "space-x-") {
        proof {
            assert("space-x-"@.len() == 8) by {
                reveal_strlit("space-x-");
                assert("space-x-"@.len() == 8);
            }
            assert(rest@ =~= class@.skip(8));
        }
        match spacing_px_exec(&rest) {
            Some(n) => Some(Some(props1("--space-x", px_value(n)))),
            None => Some(None),
        }
    } else
    if let Some(rest) = strip_prefix_str(class, "space-y-") {
        proof {
            assert("space-y-"@.len() == 8) by {
                reveal_strlit("space-y-");
                assert("space-y-"@.len() == 8);
            }
            assert(rest@ =~= class@.skip(8));
        }
        match spacing_px_exec(&rest) {
            Some(n) => Some(Some(props1("--space-y", px_value(n)))),
            None => Some(None),
        }
    } else
    {
        None
    }
}


// ===== layout prefixes: elevation, alignment =====

pub open spec fn map_items(rest: Seq<char>) -> Seq<char> {
    if rest == "start"@ {
        "flex-start"@
    } else if rest == "end"@ {
        "flex-end"@
    } else if rest == "center"@ {
        "center"@
    } else if rest == "stretch"@ {
        "stretch"@
    } else {
        rest
    }
}

pub open spec fn map_justify(rest: Seq<char>) -> Seq<char> {
    if rest == "start"@ {
        "flex-start"@
    } else if rest == "end"@ {
        "flex-end"@
    } else if rest == "center"@ {
        "center"@
    } else if rest == "between"@ {
        "space-between"@
    } else if rest == "around"@ {
        "space-around"@
    } else if rest == "evenly"@ {
        "space-evenly"@
    } else {
        rest
    }
}

/// Elevation from a numeric `z-` token, and the flex alignment prefixes.
pub open spec fn k_layout_spec(class: Seq<char>) -> Option<Option<SpecProps>> {
    if is_prefix_of("z-"@, class) && parse_int_spec(class.skip(2)) is Some {
        Some(
            Some(seq![("elevation"@, SpecVal::Int(parse_int_spec(class.skip(2))->0))]),
        )
    } else if is_prefix_of("items-"@, class) {
        Some(Some(seq![("align-items"@, SpecVal::Str(map_items(class.skip(6))))]))
    } else if is_prefix_of("justify-"@, class) {
        Some(
            Some(seq![("justify-content"@, SpecVal::Str(map_justify(class.skip(8))))]),
        )
    } else {
        None
    }
}

fn map_items_exec(rest: &Vec<char>) -> (r: StyleValue)
    ensures
        r@ == SpecVal::Str(map_items(rest@)),
{
    if chars_eq_str(rest, "start") {
        StyleValue::of_str("flex-start")
    } else if chars_eq_str(rest, "end") {
        StyleValue::of_str("flex-end")
    } else if chars_eq_str(rest, "center") {
        StyleValue::of_str("center")
    } else if chars_eq_str(rest, "stretch") {
        StyleValue::of_str("stretch")
    } else {
        StyleValue::of_chars(rest)
    }
}

fn map_justify_exec(rest: &Vec<char>) -> (r: StyleValue)
    ensures
        r@ == SpecVal::Str(map_justify(rest@)),
{
    if chars_eq_str(rest, "start") {
        StyleValue::of_str("flex-start")
    } else if chars_eq_str(rest, "end") {
        StyleValue::of_str("flex-end")
    } else if chars_eq_str(rest, "center") {
        StyleValue::of_str("center")
    } else if chars_eq_str(rest, "between") {
        StyleValue::of_str("space-between")
    } else if chars_eq_str(rest, "around") {
        StyleValue::of_str("space-around")
    } else if chars_eq_str(rest, "evenly") {
        StyleValue::of_str("space-evenly")
    } else {
        StyleValue::of_chars(rest)
    }
}

fn k_layout(class: &Vec<char>) -> (r: Option<Option<PropMap>>)
    ensures
        match r {
            Some(Some(m)) => k_layout_spec(class@) == Some(Some(m@)) && m_wf(m@),
            Some(None) => k_layout_spec(class@) == Some(None::<SpecProps>),
            None => k_layout_spec(class@) is None,
        },
{
    if let Some(rest) = strip_prefix_str(class, "z-") {
        proof {
            assert("z-"@.len() == 2) by {
                reveal_strlit("z-");
                assert("z-"@.len() == 2);
            }
            assert(rest@ =~= class@.skip(2));
        }
        match parse_int(&rest) {
            Some(z) => {
                return Some(Some(props1("elevation", StyleValue::Int(z))));
            },
            None => {
                proof {
                    reveal_strlit("z-");
                    assert("z-"@.len() == 2);
                    assert("z-"@[0] == 'z');
                    reveal_strlit("items-");
                    reveal_strlit("justify-");
                    assert(class@[0] == 'z') by {
                        assert(class@.subrange(0, 2)[0] == class@[0]);
                    }
                    assert(!crate::strutil::is_prefix_of("items-"@, class@)) by {
                        if crate::strutil::is_prefix_of("items-"@, class@) {
                            assert(class@.subrange(0, 6)[0] == class@[0]);
                            assert("items-"@[0] == 'i');
                        }
                    }
                    assert(!crate::strutil::is_prefix_of("justify-"@, class@)) by {
                        if crate::strutil::is_prefix_of("justify-"@, class@) {
                            assert(class@.subrange(0, 8)[0] == class@[0]);
                            assert("justify-"@[0] == 'j');
                        }
                    }
                }
                return None;
            },
        }
    }
    if let Some(rest) = strip_prefix_str(class, "items-") {
        proof {
            assert("items-"@.len() == 6) by {
                reveal_strlit("items-");
                assert("items-"@.len() == 6);
            }
            assert(rest@ =~= class@.skip(6));
            assert(!is_prefix_of("z-"@, class@) || !(parse_int_spec(class@.skip(2)) is Some));
        }
        return Some(Some(props1("align-items", map_items_exec(&rest))));
    }
    if let Some(rest) = strip_prefix_str(class, "justify-") {
        proof {
            assert("justify-"@.len() == 8) by {
                reveal_strlit("justify-");
                assert("justify-"@.len() == 8);
            }
            assert(rest@ =~= class@.skip(8));
        }
        return Some(Some(props1("justify-content", map_justify_exec(&rest))));
    }
    None
}

// ===== opacity =====

/// A numeric `opacity-` token, divided by one hundred.
pub open spec fn k_opacity_spec(class: Seq<char>) -> Option<Option<SpecProps>> {
    if is_prefix_of("opacity-"@, class) && parse_milli_spec(class.skip(8)) is Some {
        Some(
            Some(
                seq![
                    ("opacity"@, SpecVal::Milli(tdiv100(parse_milli_spec(class.skip(8))->0))),
                ],
            ),
        )
    } else {
        None
    }
}

fn k_opacity(class: &Vec<char>) -> (r: Option<Option<PropMap>>)
    ensures
        match r {
            Some(Some(m)) => k_opacity_spec(class@) == Some(Some(m@)) && m_wf(m@),
            Some(None) => k_opacity_spec(class@) == Some(None::<SpecProps>),
            None => k_opacity_spec(class@) is None,
        },
{
    if let Some(rest) = strip_prefix_str(class, "opacity-") {
        proof {
            assert("opacity-"@.len() == 8) by {
                reveal_strlit("opacity-");
                assert("opacity-"@.len() == 8);
            }
            assert(rest@ =~= class@.skip(8));
        }
        match parse_milli(&rest) {
            Some(v) => {
                let m: i64 = if v >= 0 {
                    v / 100
                } else {
                    -((-v) / 100)
                };
                return Some(Some(props1("opacity", StyleValue::Milli(m))));
            },
            None => {
                return None;
            },
        }
    }
    None
}

// ===== arbitrary values =====

/// `prefix-[value]` forms for the color-bearing prefixes: the bracketed
/// value passes through verbatim.
pub open spec fn k_arbitrary_spec(class: Seq<char>) -> Option<SpecProps> {
    let b = first_ix(class, '[');
    if b < 0 {
        None
    } else if !(class.len() > 0 && class.last() == ']') {
        None
    } else if b + 1 > class.len() - 1 {
        None
    } else {
        let prefix = class.take(b);
        let value = class.subrange(b + 1, class.len() - 1);
        if prefix == "bg-"@ {
            Some(seq![("background-color"@, SpecVal::Str(value))])
        } else if prefix == "text-"@ {
            Some(seq![("color"@, SpecVal::Str(value))])
        } else if prefix == "border-"@ {
            Some(seq![("border-color"@, SpecVal::Str(value))])
        } else if prefix == "divide-"@ {
            Some(seq![("border-color"@, SpecVal::Str(value))])
        } else {
            None
        }
    }
}

fn k_arbitrary(class: &Vec<char>) -> (r: Option<PropMap>)
    ensures
        match r {
            Some(m) => k_arbitrary_spec(class@) == Some(m@) && m_wf(m@),
            None => k_arbitrary_spec(class@) is None,
        },
{
    proof {
        crate::strutil::lemma_first_ix(class@, '[');
    }
    match split_once_char(class, '[') {
        Some(p) => {
            let (prefix, _rest) = p;
            let n = class.len();
            if n == 0 {
                return None;
            }
            let last = class[n - 1];
            if last != ']' {
                return None;
            }
            let ghost b = first_ix(class@, '[');
            proof {
                assert(class@[b] == '[');
                assert(class@[n - 1] == ']');
                assert(b < n - 1);
            }
            let bex = prefix.len();
            proof {
                assert(prefix@.len() == b);
            }
            let value = subvec(class, bex + 1, n - 1);
            if chars_eq_str(&prefix, "bg-") {
                Some(props1("background-color", StyleValue::of_chars(&value)))
            } else if chars_eq_str(&prefix, "text-") {
                Some(props1("color", StyleValue::of_chars(&value)))
            } else if chars_eq_str(&prefix, "border-") {
                Some(props1("border-color", StyleValue::of_chars(&value)))
            } else if chars_eq_str(&prefix, "divide-") {
                Some(props1("border-color", StyleValue::of_chars(&value)))
            } else {
                None
            }
        },
        None => None,
    }
}

// ===== color utilities =====

/// The color utilities: text, background and divider colors resolved
/// against the palette and the variable table.
pub open spec fn k_colors_spec(
    class: Seq<char>,
    vars: Seq<(Seq<char>, Seq<char>)>,
) -> Option<Option<SpecProps>> {
    if is_prefix_of("text-"@, class) {
        match color_with_vars_spec(class.skip(5), vars) {
            Some(hex) => Some(Some(seq![("color"@, SpecVal::Str(hex))])),
            None => None,
        }
    } else if is_prefix_of("bg-"@, class) {
        let rest = class.skip(3);
        if rest == "white"@ {
            Some(Some(seq![("background-color"@, SpecVal::Str("#ffffff"@))]))
        } else if rest == "black"@ {
            Some(Some(seq![("background-color"@, SpecVal::Str("#000000"@))]))
        } else if rest == "transparent"@ {
            Some(Some(seq![("background-color"@, SpecVal::Str("#00000000"@))]))
        } else {
            match color_with_vars_spec(rest, vars) {
                Some(hex) => Some(Some(seq![("background-color"@, SpecVal::Str(hex))])),
                None => None,
            }
        }
    } else if is_prefix_of("divide-"@, class) {
        match color_with_vars_spec(class.skip(7), vars) {
            Some(hex) => Some(Some(seq![("border-color"@, SpecVal::Str(hex))])),
            None => None,
        }
    } else {
        None
    }
}

fn k_colors(class: &Vec<char>, vars: &OrdMap<String>) -> (r: Option<Option<PropMap>>)
    requires
        crate::ordmap::m_wf(vars@),
    ensures
        match r {
            Some(Some(m)) => k_colors_spec(class@, vars@) == Some(Some(m@)) && m_wf(m@),
            Some(None) => k_colors_spec(class@, vars@) == Some(None::<SpecProps>),
            None => k_colors_spec(class@, vars@) is None,
        },
{
    if let Some(rest) = strip_prefix_str(class, "text-") {
        proof {
            assert("text-"@.len() == 5) by {
                reveal_strlit("text-");
                assert("text-"@.len() == 5);
            }
            assert(rest@ =~= class@.skip(5));
        }
        let rest_s = chars_to_string(&rest);
        match get_tailwind_color_with_vars(rest_s.as_str(), vars) {
            Some(hex) => {
                return Some(Some(props1("color", StyleValue::Str(hex))));
            },
            None => {
                return None;
            },
        }
    }
    if let Some(rest) = strip_prefix_str(class, "bg-") {
        proof {
            assert("bg-"@.len() == 3) by {
                reveal_strlit("bg-");
                assert("bg-"@.len() == 3);
            }
            assert(rest@ =~= class@.skip(3));
        }
        if chars_eq_str(&rest, "white") {
            return Some(Some(props1("background-color", StyleValue::of_str("#ffffff"))));
        }
        if chars_eq_str(&rest, "black") {
            return Some(Some(props1("background-color", StyleValue::of_str("#000000"))));
        }
        if chars_eq_str(&rest, "transparent") {
            return Some(Some(props1("background-color", StyleValue::of_str("#00000000"))));
        }
        let rest_s = chars_to_string(&rest);
        match get_tailwind_color_with_vars(rest_s.as_str(), vars) {
            Some(hex) => {
                return Some(Some(props1("background-color", StyleValue::Str(hex))));
            },
            None => {
                return None;
            },
        }
    }
    if let Some(rest) = strip_prefix_str(class, "divide-") {
        proof {
            assert("divide-"@.len() == 7) by {
                reveal_strlit("divide-");
                assert("divide-"@.len() == 7);
            }
            assert(rest@ =~= class@.skip(7));
        }
        let rest_s = chars_to_string(&rest);
        match get_tailwind_color_with_vars(rest_s.as_str(), vars) {
            Some(hex) => {
                return Some(Some(props1("border-color", StyleValue::Str(hex))));
            },
            None => {
                return None;
            },
        }
    }
    None
}


// ===== borders =====

pub open spec fn is_side_tok(p: Seq<char>) -> bool {
    p == "t"@ || p == "b"@ || p == "l"@ || p == "r"@ || p == "x"@ || p == "y"@
}

/// The property name for a border color, scoped to a side when one is given.
pub open spec fn border_color_key(side: Option<Seq<char>>) -> Seq<char> {
    match side {
        None => "border-color"@,
        Some(s) => "border-"@ + s + "-color"@,
    }
}

/// The widths a border utility sets, with the shared color and style.
pub open spec fn border_props_spec(side: Option<Seq<char>>, w: int) -> SpecProps {
    let wv = px_str(w);
    let tail = seq![
        ("border-color"@, SpecVal::Str("var(border)"@)),
        ("border-style"@, SpecVal::Str("solid"@)),
    ];
    match side {
        None => seq![("border-width"@, wv)] + tail,
        Some(s) => {
            if s == "t"@ {
                seq![("border-top-width"@, wv)] + tail
            } else if s == "b"@ {
                seq![("border-bottom-width"@, wv)] + tail
            } else if s == "l"@ {
                seq![("border-left-width"@, wv)] + tail
            } else if s == "r"@ {
                seq![("border-right-width"@, wv)] + tail
            } else if s == "x"@ {
                seq![("border-left-width"@, wv), ("border-right-width"@, wv)] + tail
            } else if s == "y"@ {
                seq![("border-top-width"@, wv), ("border-bottom-width"@, wv)] + tail
            } else {
                seq![("border-width"@, wv)] + tail
            }
        },
    }
}

fn border_props_exec(side: Option<&Vec<char>>, w: i64) -> (r: PropMap)
    requires
        i64::MIN < w,
    ensures
        r@ == border_props_spec(
            match side {
                Some(s) => Some(s@),
                None => None,
            },
            w as int,
        ),
        m_wf(r@),
{
    proof {
        lemma_border_keys();
        reveal_strlit("border-width");
        assert("border-width"@.len() == 12);
        reveal_strlit("border-top-width");
        assert("border-top-width"@.len() == 16);
        reveal_strlit("border-bottom-width");
        assert("border-bottom-width"@.len() == 19);
        reveal_strlit("border-left-width");
        assert("border-left-width"@.len() == 17);
        reveal_strlit("border-right-width");
        assert("border-right-width"@.len() == 18);
        reveal_strlit("border-color");
        assert("border-color"@.len() == 12);
        reveal_strlit("border-style");
        assert("border-style"@.len() == 12);
    }
    let r = match side {
        None => props3(
            "border-width",
            px_value(w),
            "border-color",
            StyleValue::of_str("var(border)"),
            "border-style",
            StyleValue::of_str("solid"),
        ),
        Some(s) => {
            if chars_eq_str(s, "t") {
                props3(
                    "border-top-width",
                    px_value(w),
                    "border-color",
                    StyleValue::of_str("var(border)"),
                    "border-style",
                    StyleValue::of_str("solid"),
                )
            } else if chars_eq_str(s, "b") {
                props3(
                    "border-bottom-width",
                    px_value(w),
                    "border-color",
                    StyleValue::of_str("var(border)"),
                    "border-style",
                    StyleValue::of_str("solid"),
                )
            } else if chars_eq_str(s, "l") {
                props3(
                    "border-left-width",
                    px_value(w),
                    "border-color",
                    StyleValue::of_str("var(border)"),
                    "border-style",
                    StyleValue::of_str("solid"),
                )
            } else if chars_eq_str(s, "r") {
                props3(
                    "border-right-width",
                    px_value(w),
                    "border-color",
                    StyleValue::of_str("var(border)"),
                    "border-style",
                    StyleValue::of_str("solid"),
                )
            } else if chars_eq_str(s, "x") {
                props4(
                    "border-left-width",
                    px_value(w),
                    "border-right-width",
                    px_value(w),
                    "border-color",
                    StyleValue::of_str("var(border)"),
                    "border-style",
                    StyleValue::of_str("solid"),
                )
            } else if chars_eq_str(s, "y") {
                props4(
                    "border-top-width",
                    px_value(w),
                    "border-bottom-width",
                    px_value(w),
                    "border-color",
                    StyleValue::of_str("var(border)"),
                    "border-style",
                    StyleValue::of_str("solid"),
                )
            } else {
                props3(
                    "border-width",
                    px_value(w),
                    "border-color",
                    StyleValue::of_str("var(border)"),
                    "border-style",
                    StyleValue::of_str("solid"),
                )
            }
        },
    };
    proof {
        assert(r@ =~= border_props_spec(
            match side {
                Some(s) => Some(s@),
                None => None,
            },
            w as int,
        ));
    }
    r
}

/// The border utilities: an optional side letter, then either a palette or
/// variable color (a bare color name defaulting to shade 500) or an integer
/// width.
pub open spec fn k_border_spec(
    class: Seq<char>,
    vars: Seq<(Seq<char>, Seq<char>)>,
) -> Option<Option<SpecProps>> {
    if class == "border"@ {
        Some(Some(border_props_spec(None, 1)))
    } else if is_prefix_of("border-"@, class) {
        let rest = class.skip(7);
        let parts = split_char_spec(rest, '-');
        let has_side = parts.len() > 1 && is_side_tok(parts[0]);
        let side: Option<Seq<char>> = if has_side {
            Some(parts[0])
        } else {
            None
        };
        let cw = if has_side {
            parts.drop_first()
        } else {
            parts
        };
        if cw.len() == 2 && color_with_vars_spec(cw[0] + seq!['-'] + cw[1], vars) is Some {
            Some(
                Some(
                    seq![
                        (
                            border_color_key(side),
                            SpecVal::Str(
                                color_with_vars_spec(cw[0] + seq!['-'] + cw[1], vars)->0,
                            ),
                        ),
                    ],
                ),
            )
        } else if cw.len() == 1 && color_with_vars_spec(cw[0] + "-500"@, vars) is Some {
            Some(
                Some(
                    seq![
                        (
                            border_color_key(side),
                            SpecVal::Str(color_with_vars_spec(cw[0] + "-500"@, vars)->0),
                        ),
                    ],
                ),
            )
        } else if cw.len() == 1 && parse_int_spec(cw[0]) is Some {
            Some(Some(border_props_spec(side, parse_int_spec(cw[0])->0)))
        } else {
            None
        }
    } else {
        None
    }
}

fn border_color_key_exec(side: Option<&Vec<char>>) -> (r: String)
    ensures
        r@ == border_color_key(
            match side {
                Some(s) => Some(s@),
                None => None,
            },
        ),
{
    match side {
        None => String::from_str("border-color"),
        Some(s) => {
            let mut v: Vec<char> = Vec::new();
            push_str_chars(&mut v, "border-");
            push_chars(&mut v, s);
            push_str_chars(&mut v, "-color");
            chars_to_string(&v)
        },
    }
}

#[verifier::rlimit(60)]
fn k_border(class: &Vec<char>, vars: &OrdMap<String>) -> (r: Option<Option<PropMap>>)
    requires
        crate::ordmap::m_wf(vars@),
    ensures
        match r {
            Some(Some(m)) => k_border_spec(class@, vars@) == Some(Some(m@)) && m_wf(m@),
            Some(None) => k_border_spec(class@, vars@) == Some(None::<SpecProps>),
            None => k_border_spec(class@, vars@) is None,
        },
{
    if chars_eq_str(class, "border") {
        return Some(Some(border_props_exec(None, 1)));
    }
    if let Some(rest) = strip_prefix_str(class, "border-") {
        proof {
            assert("border-"@.len() == 7) by {
                reveal_strlit("border-");
                assert("border-"@.len() == 7);
            }
            assert(rest@ =~= class@.skip(7));
        }
        let parts = split_char(&rest, '-');
        let np = parts.len();
        proof {
            assert(parts.deep_view().len() == parts@.len());
            assert(parts.deep_view()[0] =~= parts@[0]@);
        }
        let has_side = np > 1 && {
            let p0 = &parts[0];
            chars_eq_str(p0, "t") || chars_eq_str(p0, "b") || chars_eq_str(p0, "l")
                || chars_eq_str(p0, "r") || chars_eq_str(p0, "x") || chars_eq_str(p0, "y")
        };
        let cwlen = if has_side {
            np - 1
        } else {
            np
        };
        let ghost sparts = split_char_spec(rest@, '-');
        let ghost cw = if has_side {
            sparts.drop_first()
        } else {
            sparts
        };
        proof {
            assert(sparts == parts.deep_view());
            if has_side {
                assert(cw.len() == np - 1);
                assert(forall|j: int|
                    0 <= j < cw.len() ==> cw[j] == parts.deep_view()[j + 1]);
            }
        }
        if cwlen == 2 {
            let c0 = if has_side {
                &parts[1]
            } else {
                &parts[0]
            };
            let c1 = if has_side {
                &parts[2]
            } else {
                &parts[1]
            };
            proof {
                assert(c0@ =~= cw[0]);
                assert(c1@ =~= cw[1]);
            }
            let mut shade: Vec<char> = Vec::new();
            push_chars(&mut shade, c0);
            shade.push('-');
            push_chars(&mut shade, c1);
            proof {
                assert(shade@ =~= cw[0] + seq!['-'] + cw[1]);
            }
            let shade_s = chars_to_string(&shade);
            match get_tailwind_color_with_vars(shade_s.as_str(), vars) {
                Some(hex) => {
                    let key = if has_side {
                        border_color_key_exec(Some(&parts[0]))
                    } else {
                        border_color_key_exec(None)
                    };
                    let mut m = PropMap::new();
                    m.insert(key, StyleValue::Str(hex));
                    proof {
                        assert(m@ =~= seq![
                            (
                                border_color_key(
                                    if has_side {
                                        Some(sparts[0])
                                    } else {
                                        None
                                    },
                                ),
                                SpecVal::Str(
                                    color_with_vars_spec(cw[0] + seq!['-'] + cw[1], vars@)->0,
                                ),
                            ),
                        ]);
                    }
                    return Some(Some(m));
                },
                None => {
                    return None;
                },
            }
        }
        if cwlen == 1 {
            let c0 = if has_side {
                &parts[1]
            } else {
                &parts[0]
            };
            proof {
                assert(c0@ =~= cw[0]);
            }
            let mut shaded: Vec<char> = Vec::new();
            push_chars(&mut shaded, c0);
            push_str_chars(&mut shaded, "-500");
            proof {
                assert(shaded@ =~= cw[0] + "-500"@);
            }
            let shaded_s = chars_to_string(&shaded);
            match get_tailwind_color_with_vars(shaded_s.as_str(), vars) {
                Some(hex) => {
                    let key = if has_side {
                        border_color_key_exec(Some(&parts[0]))
                    } else {
                        border_color_key_exec(None)
                    };
                    let mut m = PropMap::new();
                    m.insert(key, StyleValue::Str(hex));
                    proof {
                        assert(m@ =~= seq![
                            (
                                border_color_key(
                                    if has_side {
                                        Some(sparts[0])
                                    } else {
                                        None
                                    },
                                ),
                                SpecVal::Str(color_with_vars_spec(cw[0] + "-500"@, vars@)->0),
                            ),
                        ]);
                    }
                    return Some(Some(m));
                },
                None => {},
            }
            match parse_int(c0) {
                Some(w) => {
                    let m = if has_side {
                        border_props_exec(Some(&parts[0]), w)
                    } else {
                        border_props_exec(None, w)
                    };
                    return Some(Some(m));
                },
                None => {
                    return None;
                },
            }
        }
        return None;
    }
    None
}


// ===== rounded corners, cursor, transitions =====

/// The pixel radius a rounded-size token names; an unknown token falls back
/// to the medium radius.
pub open spec fn rounded_px(sz: Seq<char>) -> int {
    if sz == "none"@ {
        0
    } else if sz == "sm"@ {
        2
    } else if sz == "md"@ {
        4
    } else if sz == "lg"@ {
        8
    } else if sz == "xl"@ {
        12
    } else if sz == "2xl"@ {
        16
    } else if sz == "3xl"@ {
        24
    } else if sz == "full"@ {
        9999
    } else {
        match parse_int_spec(sz) {
            Some(n) => n,
            None => 4,
        }
    }
}

fn rounded_value(sz: &Vec<char>) -> (r: StyleValue)
    ensures
        r@ == px_str(rounded_px(sz@)),
{
    if chars_eq_str(sz, "none") {
        px_value(0)
    } else if chars_eq_str(sz, "sm") {
        px_value(2)
    } else if chars_eq_str(sz, "md") {
        px_value(4)
    } else if chars_eq_str(sz, "lg") {
        px_value(8)
    } else if chars_eq_str(sz, "xl") {
        px_value(12)
    } else if chars_eq_str(sz, "2xl") {
        px_value(16)
    } else if chars_eq_str(sz, "3xl") {
        px_value(24)
    } else if chars_eq_str(sz, "full") {
        px_value(9999)
    } else {
        match parse_int(sz) {
            Some(n) => px_value(n),
            None => px_value(4),
        }
    }
}

pub open spec fn map_transition(rest: Seq<char>) -> Seq<char> {
    if rest == "colors"@ {
        "color, background-color, border-color, fill, stroke"@
    } else if rest == "opacity"@ {
        "opacity"@
    } else if rest == "transform"@ {
        "transform"@
    } else if rest == "shadow"@ {
        "box-shadow"@
    } else {
        rest
    }
}

/// Rounded corners, cursor and transition utilities.
pub open spec fn k_rct_spec(class: Seq<char>) -> Option<Option<SpecProps>> {
    if class == "rounded"@ {
        Some(Some(seq![("border-radius"@, px_str(rounded_px("md"@)))]))
    } else if is_prefix_of("rounded-"@, class) {
        Some(Some(seq![("border-radius"@, px_str(rounded_px(class.skip(8))))]))
    } else if is_prefix_of("cursor-"@, class) {
        Some(Some(seq![("cursor"@, SpecVal::Str(class.skip(7)))]))
    } else if class == "transition"@ || class == "transition-all"@ {
        Some(
            Some(
                seq![
                    ("transition-property"@, SpecVal::Str("all"@)),
                    ("transition-duration"@, SpecVal::Str("150ms"@)),
                    ("transition-timing-function"@, SpecVal::Str("ease-in-out"@)),
                ],
            ),
        )
    } else if class == "transition-none"@ {
        Some(
            Some(
                seq![
                    ("transition-property"@, SpecVal::Str("none"@)),
                    ("transition-duration"@, SpecVal::Str("0ms"@)),
                ],
            ),
        )
    } else if is_prefix_of("transition-"@, class) {
        Some(
            Some(
                seq![
                    ("transition-property"@, SpecVal::Str(map_transition(class.skip(11)))),
                    ("transition-duration"@, SpecVal::Str("150ms"@)),
                    ("transition-timing-function"@, SpecVal::Str("ease-in-out"@)),
                ],
            ),
        )
    } else {
        None
    }
}

fn map_transition_exec(rest: &Vec<char>) -> (r: StyleValue)
    ensures
        r@ == SpecVal::Str(map_transition(rest@)),
{
    if chars_eq_str(rest, "colors") {
        StyleValue::of_str("color, background-color, border-color, fill, stroke")
    } else if chars_eq_str(rest, "opacity") {
        StyleValue::of_str("opacity")
    } else if chars_eq_str(rest, "transform") {
        StyleValue::of_str("transform")
    } else if chars_eq_str(rest, "shadow") {
        StyleValue::of_str("box-shadow")
    } else {
        StyleValue::of_chars(rest)
    }
}

fn k_rct(class: &Vec<char>) -> (r: Option<Option<PropMap>>)
    ensures
        match r {
            Some(Some(m)) => k_rct_spec(class@) == Some(Some(m@)) && m_wf(m@),
            Some(None) => k_rct_spec(class@) == Some(None::<SpecProps>),
            None => k_rct_spec(class@) is None,
        },
{
    if chars_eq_str(class, "rounded") {
        proof {
            reveal_strlit("md");
            assert("md"@.len() == 2);
        }
        let sz = str_to_chars("md");
        return Some(Some(props1("border-radius", rounded_value(&sz))));
    }
    if let Some(sz) = strip_prefix_str(class, "rounded-") {
        proof {
            assert("rounded-"@.len() == 8) by {
                reveal_strlit("rounded-");
                assert("rounded-"@.len() == 8);
            }
            assert(sz@ =~= class@.skip(8));
        }
        return Some(Some(props1("border-radius", rounded_value(&sz))));
    }
    if let Some(rest) = strip_prefix_str(class, "cursor-") {
        proof {
            assert("cursor-"@.len() == 7) by {
                reveal_strlit("cursor-");
                assert("cursor-"@.len() == 7);
            }
            assert(rest@ =~= class@.skip(7));
        }
        return Some(Some(props1("cursor", StyleValue::of_chars(&rest))));
    }
    if chars_eq_str(class, "transition") || chars_eq_str(class, "transition-all") {
        proof {
            lemma_trans_keys();
            reveal_strlit("transition-property");
            assert("transition-property"@.len() == 19);
            reveal_strlit("transition-duration");
            assert("transition-duration"@.len() == 19);
            reveal_strlit("transition-timing-function");
            assert("transition-timing-function"@.len() == 26);
        }
        return Some(
            Some(
                props3(
                    "transition-property",
                    StyleValue::of_str("all"),
                    "transition-duration",
                    StyleValue::of_str("150ms"),
                    "transition-timing-function",
                    StyleValue::of_str("ease-in-out"),
                ),
            ),
        );
    }
    if chars_eq_str(class, "transition-none") {
        proof {
            lemma_trans_keys();
            reveal_strlit("transition-property");
            assert("transition-property"@.len() == 19);
            reveal_strlit("transition-duration");
            assert("transition-duration"@.len() == 19);
        }
        return Some(
            Some(
                props2(
                    "transition-property",
                    StyleValue::of_str("none"),
                    "transition-duration",
                    StyleValue::of_str("0ms"),
                ),
            ),
        );
    }
    if let Some(rest) = strip_prefix_str(class, "transition-") {
        proof {
            lemma_trans_keys();
            assert("transition-"@.len() == 11) by {
                reveal_strlit("transition-");
                assert("transition-"@.len() == 11);
            }
            assert(rest@ =~= class@.skip(11));
            reveal_strlit("transition-property");
            assert("transition-property"@.len() == 19);
            reveal_strlit("transition-duration");
            assert("transition-duration"@.len() == 19);
            reveal_strlit("transition-timing-function");
            assert("transition-timing-function"@.len() == 26);
        }
        return Some(
            Some(
                props3(
                    "transition-property",
                    map_transition_exec(&rest),
                    "transition-duration",
                    StyleValue::of_str("150ms"),
                    "transition-timing-function",
                    StyleValue::of_str("ease-in-out"),
                ),
            ),
        );
    }
    None
}

// ===== width and height =====

/// Trailing zeros of a fractional digit string removed.
pub open spec fn trim_zeros(s: Seq<char>) -> Seq<char>
    decreases s.len(),
{
    if s.len() > 0 && s.last() == '0' {
        trim_zeros(s.drop_last())
    } else {
        s
    }
}

/// Division rounding to nearest, ties to even.
pub open spec fn round_half_even(n: nat, d: nat) -> nat {
    let q = n / d;
    let r = n % d;
    if 2 * r > d || (2 * r == d && q % 2 == 1) {
        q + 1
    } else {
        q
    }
}


fn zeros_trim_len(digits: &Vec<char>) -> (t: usize)
    ensures
        t <= digits@.len(),
        forall|j: int| t <= j < digits@.len() ==> digits@[j] == '0',
        t > 0 ==> digits@[t - 1] != '0',
{
    let mut t: usize = digits.len();
    while t > 0
        invariant
            t <= digits@.len(),
            forall|j: int| t <= j < digits@.len() ==> digits@[j] == '0',
        decreases t,
    {
        if digits[t - 1] != '0' {
            return t;
        }
        t -= 1;
    }
    t
}

proof fn lemma_trim_zeros(s: Seq<char>, t: int)
    requires
        0 <= t <= s.len(),
        forall|j: int| t <= j < s.len() ==> s[j] == '0',
        t > 0 ==> s[t - 1] != '0',
    ensures
        trim_zeros(s) == s.take(t),
    decreases s.len(),
{
    if t == s.len() {
        if s.len() == 0 || s.last() != '0' {
            assert(s.take(t) =~= s);
        }
    } else {
        assert(s.last() == '0');
        let head = s.drop_last();
        assert(head =~= s.take(s.len() - 1));
        lemma_trim_zeros(head, t);
        assert(head.take(t) =~= s.take(t));
    }
}

/// A fraction as percent text: six fractional digits, rounded half to even,
/// trailing zeros removed.
pub open spec fn pct_rep(a: int, b: int) -> Seq<char> {
    let neg = (a < 0) != (b < 0);
    let n = (if a < 0 { -a } else { a }) * 100000000;
    let d = if b < 0 { -b } else { b };
    let micro = round_half_even(n as nat, d as nat);
    let ip = micro / 1000000;
    let f = micro % 1000000;
    let digits = seq![
        (((f / 100000) % 10 + 48) as u8) as char,
        (((f / 10000) % 10 + 48) as u8) as char,
        (((f / 1000) % 10 + 48) as u8) as char,
        (((f / 100) % 10 + 48) as u8) as char,
        (((f / 10) % 10 + 48) as u8) as char,
        ((f % 10 + 48) as u8) as char,
    ];
    let t = trim_zeros(digits);
    (if neg {
        seq!['-']
    } else {
        Seq::<char>::empty()
    }) + crate::strutil::dec_rep(ip) + (if t.len() == 0 {
        Seq::<char>::empty()
    } else {
        seq!['.'] + t
    })
}

#[verifier::rlimit(100)]
fn pct_chars(a: i64, b: i64) -> (r: Vec<char>)
    requires
        -1_000_000_000 < a < 1_000_000_000,
        -1_000_000_000 < b < 1_000_000_000,
        b != 0,
    ensures
        r@ == pct_rep(a as int, b as int),
{
    let neg = (a < 0) != (b < 0);
    let am: u64 = if a < 0 {
        (-a) as u64
    } else {
        a as u64
    };
    let d: u64 = if b < 0 {
        (-b) as u64
    } else {
        b as u64
    };
    let n: u64 = am * 100000000;
    let q = n / d;
    let rr = n % d;
    let micro: u64 = if 2 * rr > d || (2 * rr == d && q % 2 == 1) {
        q + 1
    } else {
        q
    };
    let ip = micro / 1000000;
    let f = micro % 1000000;
    let mut digits: Vec<char> = Vec::new();
    digits.push(crate::strutil::digit_char_of((f / 100000) % 10));
    digits.push(crate::strutil::digit_char_of((f / 10000) % 10));
    digits.push(crate::strutil::digit_char_of((f / 1000) % 10));
    digits.push(crate::strutil::digit_char_of((f / 100) % 10));
    digits.push(crate::strutil::digit_char_of((f / 10) % 10));
    digits.push(crate::strutil::digit_char_of(f % 10));
    let ghost dg = digits@;
    let tlen = zeros_trim_len(&digits);
    let ghost sn = (if (a as int) < 0 { -(a as int) } else { a as int }) * 100000000;
    let ghost sd = if (b as int) < 0 { -(b as int) } else { b as int };
    let ghost smicro = round_half_even(sn as nat, sd as nat);
    let ghost sip = smicro / 1000000;
    let ghost sf = smicro % 1000000;
    let ghost sdigits = seq![
        (((sf / 100000) % 10 + 48) as u8) as char,
        (((sf / 10000) % 10 + 48) as u8) as char,
        (((sf / 1000) % 10 + 48) as u8) as char,
        (((sf / 100) % 10 + 48) as u8) as char,
        (((sf / 10) % 10 + 48) as u8) as char,
        ((sf % 10 + 48) as u8) as char,
    ];
    proof {
        assert(n as int == sn);
        assert(d as int == sd);
        assert(micro as nat == smicro);
        assert(ip as nat == sip);
        assert(f as nat == sf);
        assert(dg =~= sdigits);
        lemma_trim_zeros(dg, tlen as int);
        assert(trim_zeros(sdigits) == dg.take(tlen as int));
    }
    let mut out: Vec<char> = Vec::new();
    if neg {
        out.push('-');
    }
    let ipc = crate::strutil::u64_to_chars(ip);
    push_chars(&mut out, &ipc);
    proof {
        assert(ipc@ == crate::strutil::dec_rep(sip));
    }
    if tlen > 0 {
        out.push('.');
        let frac = subvec(&digits, 0, tlen);
        push_chars(&mut out, &frac);
        proof {
            assert(frac@ =~= dg.take(tlen as int));
            assert(out@ =~= (if neg {
                seq!['-']
            } else {
                Seq::<char>::empty()
            }) + crate::strutil::dec_rep(sip) + (seq!['.'] + trim_zeros(sdigits)));
            assert(out@ =~= pct_rep(a as int, b as int));
        }
    } else {
        proof {
            assert(trim_zeros(sdigits).len() == 0);
            assert(out@ =~= (if neg {
                seq!['-']
            } else {
                Seq::<char>::empty()
            }) + crate::strutil::dec_rep(sip));
            assert(out@ =~= pct_rep(a as int, b as int));
        }
    }
    out
}

/// The value a width or height token denotes: keywords, a fraction as a
/// percentage, or the numeric scale.
pub open spec fn width_like_spec(width_axis: bool, tok: Seq<char>) -> Option<Seq<char>> {
    if tok == "full"@ {
        Some("100%"@)
    } else if tok == "screen"@ {
        if width_axis {
            Some("100vw"@)
        } else {
            Some("100vh"@)
        }
    } else if tok == "min"@ {
        Some("min-content"@)
    } else if tok == "max"@ {
        Some("max-content"@)
    } else if tok == "fit"@ {
        Some("fit-content"@)
    } else if tok == "auto"@ {
        Some("auto"@)
    } else if tok == "px"@ {
        Some("1px"@)
    } else if first_ix(tok, '/') >= 0 {
        let e = first_ix(tok, '/');
        let a = parse_int_spec(tok.take(e));
        let b = parse_int_spec(tok.subrange(e + 1, tok.len() as int));
        if a is Some && b is Some && b->0 != 0 {
            Some(pct_rep(a->0, b->0) + "%"@)
        } else {
            None
        }
    } else {
        match parse_int_spec(tok) {
            Some(n) => Some(int_rep(n * 4) + "px"@),
            None => None,
        }
    }
}

fn width_like_value(width_axis: bool, tok: &Vec<char>) -> (r: Option<StyleValue>)
    ensures
        match r {
            Some(v) => width_like_spec(width_axis, tok@) is Some && v@ == SpecVal::Str(
                width_like_spec(width_axis, tok@)->0,
            ),
            None => width_like_spec(width_axis, tok@) is None,
        },
{
    if chars_eq_str(tok, "full") {
        Some(StyleValue::of_str("100%"))
    } else if chars_eq_str(tok, "screen") {
        if width_axis {
            Some(StyleValue::of_str("100vw"))
        } else {
            Some(StyleValue::of_str("100vh"))
        }
    } else if chars_eq_str(tok, "min") {
        Some(StyleValue::of_str("min-content"))
    } else if chars_eq_str(tok, "max") {
        Some(StyleValue::of_str("max-content"))
    } else if chars_eq_str(tok, "fit") {
        Some(StyleValue::of_str("fit-content"))
    } else if chars_eq_str(tok, "auto") {
        Some(StyleValue::of_str("auto"))
    } else if chars_eq_str(tok, "px") {
        Some(StyleValue::of_str("1px"))
    } else {
        proof {
            crate::strutil::lemma_first_ix(tok@, '/');
        }
        match split_once_char(tok, '/') {
            Some(p) => {
                let a = parse_int(&p.0);
                let b = parse_int(&p.1);
                match (a, b) {
                    (Some(av), Some(bv)) => {
                        if bv != 0 {
                            let mut v = pct_chars(av, bv);
                            push_str_chars(&mut v, "%");
                            Some(StyleValue::of_chars(&v))
                        } else {
                            None
                        }
                    },
                    _ => None,
                }
            },
            None => {
                match parse_int(tok) {
                    Some(n) => Some(px_value(n * 4)),
                    None => None,
                }
            },
        }
    }
}

/// The width and height families.
pub open spec fn k_size_spec(class: Seq<char>) -> Option<Option<SpecProps>> {
    if is_prefix_of("w-"@, class) {
        Some(
            match width_like_spec(true, class.skip(2)) {
                Some(v) => Some(seq![("width"@, SpecVal::Str(v))]),
                None => None,
            },
        )
    } else if is_prefix_of("min-w-"@, class) {
        Some(
            match width_like_spec(false, class.skip(6)) {
                Some(v) => Some(seq![("min-width"@, SpecVal::Str(v))]),
                None => None,
            },
        )
    } else if is_prefix_of("max-w-"@, class) {
        Some(
            match width_like_spec(false, class.skip(6)) {
                Some(v) => Some(seq![("max-width"@, SpecVal::Str(v))]),
                None => None,
            },
        )
    } else if is_prefix_of("h-"@, class) {
        Some(
            match width_like_spec(false, class.skip(2)) {
                Some(v) => Some(seq![("height"@, SpecVal::Str(v))]),
                None => None,
            },
        )
    } else if is_prefix_of("min-h-"@, class) {
        Some(
            match width_like_spec(false, class.skip(6)) {
                Some(v) => Some(seq![("min-height"@, SpecVal::Str(v))]),
                None => None,
            },
        )
    } else if is_prefix_of("max-h-"@, class) {
        Some(
            match width_like_spec(false, class.skip(6)) {
                Some(v) => Some(seq![("max-height"@, SpecVal::Str(v))]),
                None => None,
            },
        )
    } else {
        None
    }
}

fn k_size(class: &Vec<char>) -> (r: Option<Option<PropMap>>)
    ensures
        match r {
            Some(Some(m)) => k_size_spec(class@) == Some(Some(m@)) && m_wf(m@),
            Some(None) => k_size_spec(class@) == Some(None::<SpecProps>),
            None => k_size_spec(class@) is None,
        },
{
    if let Some(tok) = strip_prefix_str(class, "w-") {
        proof {
            assert("w-"@.len() == 2) by {
                reveal_strlit("w-");
                assert("w-"@.len() == 2);
            }
            assert(tok@ =~= class@.skip(2));
        }
        return Some(
            match width_like_value(true, &tok) {
                Some(v) => Some(props1("width", v)),
                None => None,
            },
        );
    }
    if let Some(tok) = strip_prefix_str(class, "min-w-") {
        proof {
            assert("min-w-"@.len() == 6) by {
                reveal_strlit("min-w-");
                assert("min-w-"@.len() == 6);
            }
            assert(tok@ =~= class@.skip(6));
        }
        return Some(
            match width_like_value(false, &tok) {
                Some(v) => Some(props1("min-width", v)),
                None => None,
            },
        );
    }
    if let Some(tok) = strip_prefix_str(class, "max-w-") {
        proof {
            assert("max-w-"@.len() == 6) by {
                reveal_strlit("max-w-");
                assert("max-w-"@.len() == 6);
            }
            assert(tok@ =~= class@.skip(6));
        }
        return Some(
            match width_like_value(false, &tok) {
                Some(v) => Some(props1("max-width", v)),
                None => None,
            },
        );
    }
    if let Some(tok) = strip_prefix_str(class, "h-") {
        proof {
            assert("h-"@.len() == 2) by {
                reveal_strlit("h-");
                assert("h-"@.len() == 2);
            }
            assert(tok@ =~= class@.skip(2));
        }
        return Some(
            match width_like_value(false, &tok) {
                Some(v) => Some(props1("height", v)),
                None => None,
            },
        );
    }
    if let Some(tok) = strip_prefix_str(class, "min-h-") {
        proof {
            assert("min-h-"@.len() == 6) by {
                reveal_strlit("min-h-");
                assert("min-h-"@.len() == 6);
            }
            assert(tok@ =~= class@.skip(6));
        }
        return Some(
            match width_like_value(false, &tok) {
                Some(v) => Some(props1("min-height", v)),
                None => None,
            },
        );
    }
    if let Some(tok) = strip_prefix_str(class, "max-h-") {
        proof {
            assert("max-h-"@.len() == 6) by {
                reveal_strlit("max-h-");
                assert("max-h-"@.len() == 6);
            }
            assert(tok@ =~= class@.skip(6));
        }
        return Some(
            match width_like_value(false, &tok) {
                Some(v) => Some(props1("max-height", v)),
                None => None,
            },
        );
    }
    None
}

// ===== the compiler =====

/// What one utility class contributes: the pattern rules above, tried in
/// order, first match winning; a token no rule matches contributes nothing.
pub open spec fn class_props_spec(
    class: Seq<char>,
    vars: Seq<(Seq<char>, Seq<char>)>,
) -> Option<SpecProps> {
    match k_display_spec(class) {
        Some(p) => Some(p),
        None => match k_layout_spec(class) {
            Some(r) => r,
            None => match k_spacing_spec(class) {
                Some(r) => r,
                None => match k_fonts_spec(class) {
                    Some(p) => Some(p),
                    None => match k_opacity_spec(class) {
                        Some(r) => r,
                        None => match k_shadows_spec(class) {
                            Some(p) => Some(p),
                            None => match k_arbitrary_spec(class) {
                                Some(p) => Some(p),
                                None => match k_colors_spec(class, vars) {
                                    Some(r) => r,
                                    None => match k_border_spec(class, vars) {
                                        Some(r) => r,
                                        None => match k_rct_spec(class) {
                                            Some(r) => r,
                                            None => match k_size_spec(class) {
                                                Some(r) => r,
                                                None => None,
                                            },
                                        },
                                    },
                                },
                            },
                        },
                    },
                },
            },
        },
    }
}

/// Expand one utility class into its property set.
pub fn dynamic_css_properties_for_class(class: &str, vars: &OrdMap<String>) -> (r: Option<
    PropMap,
>)
    requires
        crate::ordmap::m_wf(vars@),
    ensures
        match r {
            Some(m) => class_props_spec(class@, vars@) == Some(m@) && m_wf(m@),
            None => class_props_spec(class@, vars@) is None,
        },
{
    let cv = str_to_chars(class);
    match k_display(&cv) {
        Some(p) => {
            return Some(p);
        },
        None => {},
    }
    match k_layout(&cv) {
        Some(r) => {
            return r;
        },
        None => {},
    }
    match k_spacing(&cv) {
        Some(r) => {
            return r;
        },
        None => {},
    }
    match k_fonts(&cv) {
        Some(p) => {
            return Some(p);
        },
        None => {},
    }
    match k_opacity(&cv) {
        Some(r) => {
            return r;
        },
        None => {},
    }
    match k_shadows(&cv) {
        Some(p) => {
            return Some(p);
        },
        None => {},
    }
    match k_arbitrary(&cv) {
        Some(p) => {
            return Some(p);
        },
        None => {},
    }
    match k_colors(&cv, vars) {
        Some(r) => {
            return r;
        },
        None => {},
    }
    match k_border(&cv, vars) {
        Some(r) => {
            return r;
        },
        None => {},
    }
    match k_rct(&cv) {
        Some(r) => {
            return r;
        },
        None => {},
    }
    match k_size(&cv) {
        Some(r) => {
            return r;
        },
        None => {},
    }
    None
}

} // verus!
