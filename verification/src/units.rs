//! Unit conversion: density-scaled device pixels from device-independent
//! dimension values, and shorthand expansion of box properties. Densities
//! and fractional values are fixed-point thousandths; `1000` stands for a
//! density of one.

use vstd::prelude::*;
use crate::ordmap::{m_contains, m_or_insert, m_val, m_wf, OrdMap};
use crate::strutil::{
    ends_with, ends_with_str, is_suffix_of, parse_milli, parse_milli_spec, str_eq, str_to_chars,
    subvec, trim, trim_spec,
};
use crate::value::{SpecVal, StyleValue};

verus! {

pub type PropMap = OrdMap<StyleValue>;

pub type SpecProps = Seq<(Seq<char>, SpecVal)>;


/// Division rounding half away from zero, on a positive divisor.
pub open spec fn round_div(n: int, d: int) -> int {
    if n >= 0 {
        (n + d / 2) / d
    } else {
        -(((-n) + d / 2) / d)
    }
}

/// Device pixels from a dimension in thousandths and a density in
/// thousandths: the product, rounded half away from zero.
pub open spec fn dp_to_px_spec(dp_milli: int, density_milli: int) -> int {
    round_div(dp_milli * density_milli, 1000000)
}

/// Convert a device-independent dimension to whole device pixels.
pub fn dp_to_px(dp_milli: i64, density_milli: u32) -> (r: i64)
    requires
        -1_000_000_000_000 < dp_milli < 1_000_000_000_000,
        density_milli <= 1_000_000,
    ensures
        r as int == dp_to_px_spec(dp_milli as int, density_milli as int),
        -1_000_000_000_000 < r < 1_000_000_000_000,
{
    proof {
        assert(-999_999_999_999_000_000 <= (dp_milli as int) * (density_milli as int)
            <= 999_999_999_999_000_000) by (nonlinear_arith)
            requires
                -1_000_000_000_000 < (dp_milli as int),
                (dp_milli as int) < 1_000_000_000_000,
                (density_milli as int) <= 1_000_000,
        ;
    }
    let n: i64 = dp_milli * (density_milli as i64);
    if n >= 0 {
        (n + 500_000) / 1_000_000
    } else {
        -(((-n) + 500_000) / 1_000_000)
    }
}

/// A scaled font dimension in thousandths: the value times the scale.
pub open spec fn sp_to_px_spec(sp_milli: int, scaled_milli: int) -> int {
    round_div(sp_milli * scaled_milli, 1000)
}

/// Scale a font dimension by the accessibility density.
pub fn sp_to_px(sp_milli: i64, scaled_milli: u32) -> (r: i64)
    requires
        -1_000_000_000_000 < sp_milli < 1_000_000_000_000,
        scaled_milli <= 1_000_000,
    ensures
        r as int == sp_to_px_spec(sp_milli as int, scaled_milli as int),
{
    proof {
        assert(-999_999_999_999_000_000 <= (sp_milli as int) * (scaled_milli as int)
            <= 999_999_999_999_000_000) by (nonlinear_arith)
            requires
                -1_000_000_000_000 < (sp_milli as int),
                (sp_milli as int) < 1_000_000_000_000,
                (scaled_milli as int) <= 1_000_000,
        ;
    }
    let n: i64 = sp_milli * (scaled_milli as i64);
    if n >= 0 {
        (n + 500) / 1000
    } else {
        -(((-n) + 500) / 1000)
    }
}

/// Strip every repetition of a unit suffix.
pub open spec fn strip_unit_spec(s: Seq<char>, u: Seq<char>) -> Seq<char>
    decreases s.len(),
{
    if u.len() > 0 && is_suffix_of(u, s) {
        strip_unit_spec(s.take(s.len() - u.len()), u)
    } else {
        s
    }
}

/// Strip repeated `px` suffixes.
pub fn strip_unit_px(s: &Vec<char>) -> (r: Vec<char>)
    ensures
        r@ == strip_unit_spec(s@, "px"@),
{
    strip_unit(s, "px")
}

fn strip_unit(s: &Vec<char>, u: &str) -> (r: Vec<char>)
    ensures
        r@ == strip_unit_spec(s@, u@),
{
    let uv = crate::strutil::str_to_chars(u);
    if uv.len() == 0 {
        return subvec(s, 0, s.len());
    }
    let mut cur = subvec(s, 0, s.len());
    proof {
        assert(s@.subrange(0, s@.len() as int) =~= s@);
    }
    loop
        invariant
            uv@ == u@,
            uv@.len() > 0,
            strip_unit_spec(cur@, u@) == strip_unit_spec(s@, u@),
        ensures
            !is_suffix_of(u@, cur@),
            strip_unit_spec(cur@, u@) == strip_unit_spec(s@, u@),
        decreases cur@.len(),
    {
        if !ends_with(&cur, &uv) {
            break;
        }
        let next = subvec(&cur, 0, cur.len() - uv.len());
        proof {
            assert(cur@.subrange(0, cur@.len() - uv@.len()) =~= cur@.take(cur@.len() - uv@.len()));
        }
        cur = next;
    }
    proof {
        assert(strip_unit_spec(cur@, u@) == cur@);
    }
    cur
}

/// Parse one value and convert it to device pixels when it carries a
/// dimension; text that is no numeral is left to the caller unchanged.
pub fn parse_and_convert_to_px(value: &StyleValue, density_milli: u32) -> (r: Option<StyleValue>)
    requires
        density_milli <= 1_000_000,
    ensures
        match r {
            Some(out) => convert_scalar_spec(value@, density_milli as int) == Some(out@),
            None => convert_scalar_spec(value@, density_milli as int) is None,
        },
{
    convert_scalar(value, density_milli)
}

/// Dimensions saturate at a trillion thousandths: values beyond any
/// plausible screen size are clamped rather than overflowing.
pub open spec fn clamp_dim(m: int) -> int {
    if m > 999_999_999_999 {
        999_999_999_999
    } else if m < -999_999_999_999 {
        -999_999_999_999
    } else {
        m
    }
}

/// The meaning of converting one scalar to device pixels: whole and
/// fractional numbers convert directly; text converts when, after trimming,
/// it is a numeral with an optional `px` or `dp` suffix; any other value is
/// left to the caller unchanged.
pub open spec fn convert_scalar_spec(v: SpecVal, density: int) -> Option<SpecVal> {
    match v {
        SpecVal::Int(n) => Some(SpecVal::Int(dp_to_px_spec(clamp_dim(n * 1000), density))),
        SpecVal::Milli(m) => Some(SpecVal::Int(dp_to_px_spec(clamp_dim(m), density))),
        SpecVal::Str(s) => {
            let t = trim_spec(s);
            let num = if is_suffix_of("px"@, t) {
                parse_milli_spec(trim_spec(strip_unit_spec(t, "px"@)))
            } else if is_suffix_of("dp"@, t) {
                parse_milli_spec(trim_spec(strip_unit_spec(t, "dp"@)))
            } else {
                parse_milli_spec(t)
            };
            match num {
                Some(m) => Some(SpecVal::Int(dp_to_px_spec(m, density))),
                None => None,
            }
        },
        SpecVal::Bool(_) => None,
    }
}

/// Convert one scalar to device pixels when it carries a dimension.
pub fn convert_scalar(v: &StyleValue, density_milli: u32) -> (r: Option<StyleValue>)
    requires
        density_milli <= 1_000_000,
    ensures
        match r {
            Some(out) => convert_scalar_spec(v@, density_milli as int) == Some(out@),
            None => convert_scalar_spec(v@, density_milli as int) is None,
        },
{
    match v {
        StyleValue::Int(n) => {
            let c: i64 = if *n >= 1_000_000_000 {
                999_999_999_999
            } else if *n <= -1_000_000_000 {
                -999_999_999_999
            } else {
                *n * 1000
            };
            proof {
                assert(c as int == clamp_dim((*n as int) * 1000));
            }
            Some(StyleValue::Int(dp_to_px(c, density_milli)))
        },
        StyleValue::Milli(m) => {
            let c: i64 = if *m > 999_999_999_999 {
                999_999_999_999
            } else if *m < -999_999_999_999 {
                -999_999_999_999
            } else {
                *m
            };
            Some(StyleValue::Int(dp_to_px(c, density_milli)))
        },
        StyleValue::Str(s) => {
            let sv = str_to_chars(s.as_str());
            let t = trim(&sv);
            let num: Option<i64> = if ends_with_str(&t, "px") {
                let stripped = strip_unit(&t, "px");
                parse_milli(&trim(&stripped))
            } else if ends_with_str(&t, "dp") {
                let stripped = strip_unit(&t, "dp");
                parse_milli(&trim(&stripped))
            } else {
                parse_milli(&t)
            };
            match num {
                Some(m) => Some(StyleValue::Int(dp_to_px(m, density_milli))),
                None => None,
            }
        },
        StyleValue::Bool(_) => None,
    }
}

// ===== dimension-bearing property names =====

/// The dimension properties every projection converts.
pub open spec fn is_dim_key_native(k: Seq<char>) -> bool {
    ||| k == "width"@
    ||| k == "height"@
    ||| k == "minWidth"@
    ||| k == "minHeight"@
    ||| k == "maxWidth"@
    ||| k == "maxHeight"@
    ||| k == "padding"@
    ||| k == "paddingTop"@
    ||| k == "paddingBottom"@
    ||| k == "paddingLeft"@
    ||| k == "paddingRight"@
    ||| k == "paddingHorizontal"@
    ||| k == "paddingVertical"@
    ||| k == "margin"@
    ||| k == "marginTop"@
    ||| k == "marginBottom"@
    ||| k == "marginLeft"@
    ||| k == "marginRight"@
    ||| k == "marginHorizontal"@
    ||| k == "marginVertical"@
    ||| k == "borderRadius"@
    ||| k == "borderWidth"@
    ||| k == "borderTopWidth"@
    ||| k == "borderBottomWidth"@
    ||| k == "borderLeftWidth"@
    ||| k == "borderRightWidth"@
    ||| k == "gap"@
    ||| k == "rowGap"@
    ||| k == "columnGap"@
    ||| k == "elevation"@
    ||| k == "lineHeight"@
    ||| k == "letterSpacing"@
}

/// The extra keys the session-level pass also converts: the expanded corner
/// radii and the font size.
pub open spec fn is_dim_key_extra(k: Seq<char>) -> bool {
    ||| k == "borderTopLeftRadius"@
    ||| k == "borderTopRightRadius"@
    ||| k == "borderBottomLeftRadius"@
    ||| k == "borderBottomRightRadius"@
    ||| k == "fontSize"@
}

pub open spec fn is_dim_key_full(k: Seq<char>) -> bool {
    is_dim_key_native(k) || is_dim_key_extra(k)
}

pub fn is_dim_key_native_exec(k: &str) -> (r: bool)
    ensures
        r == is_dim_key_native(k@),
{
    ||| str_eq(k, "width")
    ||| str_eq(k, "height")
    ||| str_eq(k, "minWidth")
    ||| str_eq(k, "minHeight")
    ||| str_eq(k, "maxWidth")
    ||| str_eq(k, "maxHeight")
    ||| str_eq(k, "padding")
    ||| str_eq(k, "paddingTop")
    ||| str_eq(k, "paddingBottom")
    ||| str_eq(k, "paddingLeft")
    ||| str_eq(k, "paddingRight")
    ||| str_eq(k, "paddingHorizontal")
    ||| str_eq(k, "paddingVertical")
    ||| str_eq(k, "margin")
    ||| str_eq(k, "marginTop")
    ||| str_eq(k, "marginBottom")
    ||| str_eq(k, "marginLeft")
    ||| str_eq(k, "marginRight")
    ||| str_eq(k, "marginHorizontal")
    ||| str_eq(k, "marginVertical")
    ||| str_eq(k, "borderRadius")
    ||| str_eq(k, "borderWidth")
    ||| str_eq(k, "borderTopWidth")
    ||| str_eq(k, "borderBottomWidth")
    ||| str_eq(k, "borderLeftWidth")
    ||| str_eq(k, "borderRightWidth")
    ||| str_eq(k, "gap")
    ||| str_eq(k, "rowGap")
    ||| str_eq(k, "columnGap")
    ||| str_eq(k, "elevation")
    ||| str_eq(k, "lineHeight")
    ||| str_eq(k, "letterSpacing")
}

pub fn is_dim_key_full_exec(k: &str) -> (r: bool)
    ensures
        r == is_dim_key_full(k@),
{
    ||| is_dim_key_native_exec(k)
    ||| str_eq(k, "borderTopLeftRadius")
    ||| str_eq(k, "borderTopRightRadius")
    ||| str_eq(k, "borderBottomLeftRadius")
    ||| str_eq(k, "borderBottomRightRadius")
    ||| str_eq(k, "fontSize")
}

// ===== converting every dimension property of a map =====

/// Each entry under a dimension key is converted in place; entries whose
/// value does not convert, and entries under other keys, stay as they are.
/// Keys and entry order never change.
pub open spec fn convert_dims_spec(m: SpecProps, density: int, full: bool) -> SpecProps {
    Seq::new(
        m.len(),
        |i: int|
            {
                let k = m[i].0;
                let v = m[i].1;
                if (full && is_dim_key_full(k)) || (!full && is_dim_key_native(k)) {
                    match convert_scalar_spec(v, density) {
                        Some(nv) => (k, nv),
                        None => m[i],
                    }
                } else {
                    m[i]
                }
            },
    )
}

pub fn convert_dims(map: &mut PropMap, density_milli: u32, full: bool)
    requires
        m_wf(old(map)@),
        density_milli <= 1_000_000,
    ensures
        final(map)@ == convert_dims_spec(old(map)@, density_milli as int, full),
        m_wf(final(map)@),
{
    let ghost m0 = map@;
    let ghost target = convert_dims_spec(m0, density_milli as int, full);
    let n = map.len();
    let mut i: usize = 0;
    while i < n
        invariant
            m_wf(map@),
            map@.len() == m0.len() == n,
            density_milli <= 1_000_000,
            target == convert_dims_spec(m0, density_milli as int, full),
            forall|j: int| 0 <= j < i ==> map@[j] == target[j],
            forall|j: int| i <= j < n ==> map@[j] == m0[j],
        decreases n - i,
    {
        let is_dim = {
            let k = map.key_at(i);
            if full {
                is_dim_key_full_exec(k.as_str())
            } else {
                is_dim_key_native_exec(k.as_str())
            }
        };
        if is_dim {
            let v = map.value_at(i).dup();
            match convert_scalar(&v, density_milli) {
                Some(nv) => {
                    map.set_value_at(i, nv);
                },
                None => {},
            }
        }
        proof {
            assert(map@[i as int] == target[i as int]);
        }
        i += 1;
    }
    proof {
        assert(map@ =~= target);
    }
}

// ===== shorthand expansion =====

pub open spec fn or_insert_all(m: SpecProps, dsts: Seq<Seq<char>>, v: SpecVal) -> SpecProps
    decreases dsts.len(),
{
    if dsts.len() == 0 {
        m
    } else {
        or_insert_all(m_or_insert(m, dsts[0], v), dsts.drop_first(), v)
    }
}

/// When the source key is present, each destination key absent from the map
/// gains the source's value, in the order given.
pub open spec fn expand_from(m: SpecProps, src: Seq<char>, dsts: Seq<Seq<char>>) -> SpecProps {
    if m_contains(m, src) {
        or_insert_all(m, dsts, m_val(m, src))
    } else {
        m
    }
}

/// The box shorthands, expanded in the order the session-level pass applies
/// them: the horizontal and vertical aliases first, so that they win over
/// the all-sides shorthands; then the corner radii.
pub open spec fn expand_shorthands_spec(m: SpecProps) -> SpecProps {
    let m1 = expand_from(m, "paddingHorizontal"@, seq!["paddingLeft"@, "paddingRight"@]);
    let m2 = expand_from(m1, "paddingVertical"@, seq!["paddingTop"@, "paddingBottom"@]);
    let m3 = expand_from(
        m2,
        "padding"@,
        seq!["paddingTop"@, "paddingBottom"@, "paddingLeft"@, "paddingRight"@],
    );
    let m4 = expand_from(m3, "marginHorizontal"@, seq!["marginLeft"@, "marginRight"@]);
    let m5 = expand_from(m4, "marginVertical"@, seq!["marginTop"@, "marginBottom"@]);
    let m6 = expand_from(
        m5,
        "margin"@,
        seq!["marginTop"@, "marginBottom"@, "marginLeft"@, "marginRight"@],
    );
    expand_from(
        m6,
        "borderRadius"@,
        seq![
            "borderTopLeftRadius"@,
            "borderTopRightRadius"@,
            "borderBottomLeftRadius"@,
            "borderBottomRightRadius"@,
        ],
    )
}

fn expand_two(map: &mut PropMap, src: &str, d1: &str, d2: &str)
    requires
        m_wf(old(map)@),
    ensures
        final(map)@ == expand_from(old(map)@, src@, seq![d1@, d2@]),
        m_wf(final(map)@),
{
    let v0 = match map.get(src) {
        Some(v) => Some(v.dup()),
        None => None,
    };
    match v0 {
        Some(v) => {
            let ghost m0 = map@;
            let ghost w = v@;
            map.insert_if_absent(String::from_str(d1), v.dup());
            let ghost m1 = map@;
            map.insert_if_absent(String::from_str(d2), v);
            proof {
                let dsts = seq![d1@, d2@];
                assert(dsts.drop_first() =~= seq![d2@]);
                assert(seq![d2@].drop_first() =~= Seq::<Seq<char>>::empty());
                assert(m1 == m_or_insert(m0, d1@, w));
                assert(or_insert_all(m0, dsts, w) == or_insert_all(m1, seq![d2@], w));
                assert(or_insert_all(m1, seq![d2@], w) == or_insert_all(
                    m_or_insert(m1, d2@, w),
                    Seq::<Seq<char>>::empty(),
                    w,
                ));
            }
        },
        None => {},
    }
}

fn expand_four(map: &mut PropMap, src: &str, d1: &str, d2: &str, d3: &str, d4: &str)
    requires
        m_wf(old(map)@),
    ensures
        final(map)@ == expand_from(old(map)@, src@, seq![d1@, d2@, d3@, d4@]),
        m_wf(final(map)@),
{
    let v0 = match map.get(src) {
        Some(v) => Some(v.dup()),
        None => None,
    };
    match v0 {
        Some(v) => {
            let ghost m0 = map@;
            let ghost w = v@;
            map.insert_if_absent(String::from_str(d1), v.dup());
            let ghost m1 = map@;
            map.insert_if_absent(String::from_str(d2), v.dup());
            let ghost m2 = map@;
            map.insert_if_absent(String::from_str(d3), v.dup());
            let ghost m3 = map@;
            map.insert_if_absent(String::from_str(d4), v);
            proof {
                let dsts = seq![d1@, d2@, d3@, d4@];
                assert(dsts.drop_first() =~= seq![d2@, d3@, d4@]);
                assert(seq![d2@, d3@, d4@].drop_first() =~= seq![d3@, d4@]);
                assert(seq![d3@, d4@].drop_first() =~= seq![d4@]);
                assert(seq![d4@].drop_first() =~= Seq::<Seq<char>>::empty());
                assert(m1 == m_or_insert(m0, d1@, w));
                assert(m2 == m_or_insert(m1, d2@, w));
                assert(m3 == m_or_insert(m2, d3@, w));
                assert(or_insert_all(m0, dsts, w) == or_insert_all(m1, seq![d2@, d3@, d4@], w));
                assert(or_insert_all(m1, seq![d2@, d3@, d4@], w) == or_insert_all(
                    m2,
                    seq![d3@, d4@],
                    w,
                ));
                assert(or_insert_all(m2, seq![d3@, d4@], w) == or_insert_all(m3, seq![d4@], w));
                assert(or_insert_all(m3, seq![d4@], w) == or_insert_all(
                    m_or_insert(m3, d4@, w),
                    Seq::<Seq<char>>::empty(),
                    w,
                ));
            }
        },
        None => {},
    }
}

/// Expand the box shorthands onto their sides and corners.
pub fn expand_shorthands(map: &mut PropMap)
    requires
        m_wf(old(map)@),
    ensures
        final(map)@ == expand_shorthands_spec(old(map)@),
        m_wf(final(map)@),
{
    expand_two(map, "paddingHorizontal", "paddingLeft", "paddingRight");
    expand_two(map, "paddingVertical", "paddingTop", "paddingBottom");
    expand_four(map, "padding", "paddingTop", "paddingBottom", "paddingLeft", "paddingRight");
    expand_two(map, "marginHorizontal", "marginLeft", "marginRight");
    expand_two(map, "marginVertical", "marginTop", "marginBottom");
    expand_four(map, "margin", "marginTop", "marginBottom", "marginLeft", "marginRight");
    expand_four(
        map,
        "borderRadius",
        "borderTopLeftRadius",
        "borderTopRightRadius",
        "borderBottomLeftRadius",
        "borderBottomRightRadius",
    );
}

/// Convert every dimension-bearing property of a style map to device
/// pixels, the expanded corner radii and the font size among them.
pub fn convert_dimensions_to_px(styles: &mut PropMap, density_milli: u32)
    requires
        m_wf(old(styles)@),
        density_milli <= 1_000_000,
    ensures
        final(styles)@ == convert_dims_spec(old(styles)@, density_milli as int, true),
        m_wf(final(styles)@),
{
    convert_dims(styles, density_milli, true);
}

/// The session-level pass: expand shorthands, then convert every dimension
/// property, the font size among them.
pub open spec fn process_styles_spec(m: SpecProps, density: int) -> SpecProps {
    convert_dims_spec(expand_shorthands_spec(m), density, true)
}

pub fn process_styles_map(map: PropMap, density_milli: u32) -> (r: PropMap)
    requires
        m_wf(map@),
        density_milli <= 1_000_000,
    ensures
        r@ == process_styles_spec(map@, density_milli as int),
        m_wf(r@),
{
    let mut m = map;
    expand_shorthands(&mut m);
    convert_dims(&mut m, density_milli, true);
    m
}

} // verus!
