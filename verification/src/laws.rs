//! The library's stated laws: what resolution guarantees across calls, as
//! proved facts over the same spec functions the public contracts use.

use vstd::prelude::*;
use crate::android::{android_styles_spec, gravity_join, ins, phase_gravity};
use crate::ordmap::{m_contains, m_get, m_index_of, m_insert, m_val, m_wf};
use crate::theme::{merge_props_spec, SpecState};
use crate::units::SpecProps;
use crate::value::SpecVal;
use crate::webcss::css_for_web_spec;

verus! {

broadcast use vstd::string::group_string_axioms;

/// What a lookup sees after an insert: the inserted value under the
/// inserted key, the old view under every other key.
pub proof fn lemma_insert_get<V>(m: Seq<(Seq<char>, V)>, k: Seq<char>, v: V, q: Seq<char>)
    requires
        m_wf(m),
    ensures
        m_get(m_insert(m, k, v), q) == if q == k {
            Some(v)
        } else {
            m_get(m, q)
        },
{
    crate::ordmap::lemma_m_insert_wf(m, k, v);
    let out = m_insert(m, k, v);
    if m_contains(m, k) {
        let i = m_index_of(m, k);
        crate::ordmap::lemma_m_index_of(m, k);
        assert(out[i] == (k, v));
        crate::ordmap::lemma_m_index_unique(out, k, i);
        if q == k {
            assert(m_get(out, q) == Some(v));
        } else {
            if m_contains(out, q) {
                let j = m_index_of(out, q);
                crate::ordmap::lemma_m_index_of(out, q);
                assert(j != i);
                assert(out[j] == m[j]);
                crate::ordmap::lemma_m_index_unique(m, q, j);
            } else {
                if m_contains(m, q) {
                    let j = m_index_of(m, q);
                    crate::ordmap::lemma_m_index_of(m, q);
                    assert(j != i);
                    assert(out[j] == m[j]);
                }
            }
        }
    } else {
        assert(out == m.push((k, v)));
        if q == k {
            crate::ordmap::lemma_m_index_unique(out, k, m.len() as int);
        } else {
            if m_contains(out, q) {
                let j = m_index_of(out, q);
                crate::ordmap::lemma_m_index_of(out, q);
                assert(j < m.len());
                assert(out[j] == m[j]);
                crate::ordmap::lemma_m_index_unique(m, q, j);
            } else {
                if m_contains(m, q) {
                    let j = m_index_of(m, q);
                    crate::ordmap::lemma_m_index_of(m, q);
                    assert(out[j] == m[j]);
                }
            }
        }
    }
}

/// Inheritance override: merging a child's table over an ancestor's keeps
/// every ancestor entry the child does not restate, and takes the child's
/// value wherever both define one.
pub proof fn lemma_child_overrides(parent: SpecProps, child: SpecProps, q: Seq<char>)
    requires
        m_wf(parent),
        m_wf(child),
    ensures
        m_contains(child, q) ==> m_get(merge_props_spec(parent, child), q) == m_get(child, q),
        !m_contains(child, q) ==> m_get(merge_props_spec(parent, child), q) == m_get(parent, q),
{
    lemma_child_overrides_rec(parent, child, q);
}

proof fn lemma_child_overrides_rec(parent: SpecProps, child: SpecProps, q: Seq<char>)
    requires
        m_wf(parent),
        m_wf(child),
    ensures
        m_contains(child, q) ==> m_get(merge_props_spec(parent, child), q) == Some(
            m_val(child, q),
        ),
        !m_contains(child, q) ==> m_get(merge_props_spec(parent, child), q) == m_get(parent, q),
    decreases child.len(),
{
    if child.len() == 0 {
        assert(!m_contains(child, q));
    } else {
        let e = child[0];
        let parent1 = m_insert(parent, e.0, e.1);
        crate::ordmap::lemma_m_insert_wf(parent, e.0, e.1);
        let rest = child.drop_first();
        assert(m_wf(rest)) by {
            assert(forall|i: int| 0 <= i < rest.len() ==> rest[i] == child[i + 1]);
        }
        lemma_child_overrides_rec(parent1, rest, q);
        lemma_insert_get(parent, e.0, e.1, q);
        assert(forall|i: int| 0 <= i < rest.len() ==> rest[i] == child[i + 1]);
        if m_contains(child, q) {
            let j = m_index_of(child, q);
            crate::ordmap::lemma_m_index_of(child, q);
            if j == 0 {
                assert(q == e.0);
                assert(!m_contains(rest, q)) by {
                    if m_contains(rest, q) {
                        let w = m_index_of(rest, q);
                        crate::ordmap::lemma_m_index_of(rest, q);
                        assert(child[w + 1].0 == q);
                        assert(child[0].0 != child[w + 1].0);
                    }
                }
                assert(m_get(merge_props_spec(parent1, rest), q) == m_get(parent1, q));
                assert(m_get(parent1, q) == Some(e.1));
                assert(m_val(child, q) == e.1);
            } else {
                assert(child[j].0 == q);
                assert(m_contains(rest, q)) by {
                    assert(rest[j - 1].0 == q);
                }
                crate::ordmap::lemma_m_index_unique(rest, q, j - 1);
                assert(m_val(rest, q) == child[j].1);
                assert(m_val(child, q) == child[j].1);
            }
        } else {
            assert(!m_contains(rest, q)) by {
                if m_contains(rest, q) {
                    let w = m_index_of(rest, q);
                    crate::ordmap::lemma_m_index_of(rest, q);
                    assert(child[w + 1].0 == q);
                }
            }
            assert(q != e.0) by {
                if q == e.0 {
                    assert(child[0].0 == q);
                }
            }
        }
    }
}

/// Idempotence: the projections are functions of the state and inputs
/// alone, so resolving the same state, tag, classes and densities twice
/// yields identical output.
pub proof fn lemma_resolution_idempotent(
    s: SpecState,
    selector: Seq<char>,
    classes: Seq<Seq<char>>,
)
    ensures
        android_styles_spec(s, selector, classes) == android_styles_spec(s, selector, classes),
        css_for_web_spec(s) == css_for_web_spec(s),
{
}

/// Gravity collapse: centered on both axes, a horizontal element gets the
/// single combined token rather than a pipe-joined pair.
pub proof fn lemma_gravity_center_collapse(m: SpecProps)
    requires
        m_wf(m),
        m_contains(m, "androidOrientation"@),
        m_val(m, "androidOrientation"@) == SpecVal::Str("horizontal"@),
        m_contains(m, "alignItems"@),
        m_val(m, "alignItems"@) == SpecVal::Str("center"@),
        m_contains(m, "justifyContent"@),
        m_val(m, "justifyContent"@) == SpecVal::Str("center"@),
    ensures
        m_get(phase_gravity(m), "androidGravity"@) == Some(SpecVal::Str("center"@)),
{
    reveal_strlit("center_vertical");
    reveal_strlit("center_horizontal");
    assert("center_vertical"@.len() == 15);
    assert("center_horizontal"@.len() == 17);
    let a = crate::android::align_part(m_val(m, "alignItems"@), true);
    let j = crate::android::justify_part(m_val(m, "justifyContent"@), true);
    assert(a == "center_vertical"@);
    assert(j == "center_horizontal"@);
    assert(gravity_join(a, j) == Some("center"@));
    let lg = crate::android::layout_gravity_part(m_val(m, "justifyContent"@));
    assert(lg == "center_horizontal"@);
    let m1 = ins(m, "androidLayoutGravity"@, SpecVal::Str(lg));
    crate::ordmap::lemma_m_insert_wf(m, "androidLayoutGravity"@, SpecVal::Str(lg));
    lemma_insert_get(m1, "androidGravity"@, SpecVal::Str("center"@), "androidGravity"@);
    assert(phase_gravity(m) == ins(m1, "androidGravity"@, SpecVal::Str("center"@)));
}


/// A yielded insert: an existing key leaves the map unchanged.
pub proof fn lemma_or_insert_get<V>(m: Seq<(Seq<char>, V)>, k: Seq<char>, v: V, q: Seq<char>)
    requires
        m_wf(m),
    ensures
        m_get(crate::ordmap::m_or_insert(m, k, v), q) == if m_contains(m, k) {
            m_get(m, q)
        } else if q == k {
            Some(v)
        } else {
            m_get(m, q)
        },
        m_wf(crate::ordmap::m_or_insert(m, k, v)),
{
    if !m_contains(m, k) {
        let out = m.push((k, v));
        assert(out == m_insert(m, k, v));
        lemma_insert_get(m, k, v, q);
        crate::ordmap::lemma_m_insert_wf(m, k, v);
    }
}

/// Filling absent destinations never disturbs other keys.
proof fn lemma_or_insert_all_other(
    m: SpecProps,
    dsts: Seq<Seq<char>>,
    v: SpecVal,
    q: Seq<char>,
)
    requires
        m_wf(m),
        forall|i: int| 0 <= i < dsts.len() ==> dsts[i] != q,
    ensures
        m_wf(crate::units::or_insert_all(m, dsts, v)),
        m_get(crate::units::or_insert_all(m, dsts, v), q) == m_get(m, q),
    decreases dsts.len(),
{
    if dsts.len() > 0 {
        lemma_or_insert_get(m, dsts[0], v, q);
        assert(forall|i: int|
            0 <= i < dsts.drop_first().len() ==> dsts.drop_first()[i] == dsts[i + 1]);
        lemma_or_insert_all_other(
            crate::ordmap::m_or_insert(m, dsts[0], v),
            dsts.drop_first(),
            v,
            q,
        );
    }
}

/// A destination key absent from the map gains the source value.
proof fn lemma_or_insert_all_hits(m: SpecProps, dsts: Seq<Seq<char>>, v: SpecVal, q: Seq<char>)
    requires
        m_wf(m),
        !m_contains(m, q),
        exists|i: int| 0 <= i < dsts.len() && dsts[i] == q,
    ensures
        m_wf(crate::units::or_insert_all(m, dsts, v)),
        m_get(crate::units::or_insert_all(m, dsts, v), q) == Some(v),
    decreases dsts.len(),
{
    let rest = dsts.drop_first();
    assert(forall|i: int| 0 <= i < rest.len() ==> rest[i] == dsts[i + 1]);
    let m1 = crate::ordmap::m_or_insert(m, dsts[0], v);
    lemma_or_insert_get(m, dsts[0], v, q);
    if dsts[0] == q {
        assert(m_get(m1, q) == Some(v));
        lemma_or_insert_all_stable(m1, rest, v, q);
    } else {
        let w = choose|i: int| 0 <= i < dsts.len() && dsts[i] == q;
        assert(rest[w - 1] == q);
        if m_contains(m1, q) {
            let j = crate::ordmap::m_index_of(m1, q);
            crate::ordmap::lemma_m_index_of(m1, q);
            if j < m.len() {
                assert(m_contains(m, q));
            }
            assert(false);
        }
        lemma_or_insert_all_hits(m1, rest, v, q);
    }
}

/// A key already holding the source value keeps it.
proof fn lemma_or_insert_all_stable(m: SpecProps, dsts: Seq<Seq<char>>, v: SpecVal, q: Seq<char>)
    requires
        m_wf(m),
        m_get(m, q) == Some(v),
    ensures
        m_wf(crate::units::or_insert_all(m, dsts, v)),
        m_get(crate::units::or_insert_all(m, dsts, v), q) == Some(v),
    decreases dsts.len(),
{
    if dsts.len() > 0 {
        lemma_or_insert_get(m, dsts[0], v, q);
        lemma_or_insert_all_stable(
            crate::ordmap::m_or_insert(m, dsts[0], v),
            dsts.drop_first(),
            v,
            q,
        );
    }
}

/// What a lookup sees after the dimension pass: the converted value under a
/// dimension key whose value converts, the old value otherwise.
pub proof fn lemma_convert_get(m: SpecProps, density: int, full: bool, q: Seq<char>)
    requires
        m_wf(m),
    ensures
        m_wf(crate::units::convert_dims_spec(m, density, full)),
        m_get(crate::units::convert_dims_spec(m, density, full), q) == match m_get(m, q) {
            Some(v) => {
                if (full && crate::units::is_dim_key_full(q)) || (!full
                    && crate::units::is_dim_key_native(q)) {
                    match crate::units::convert_scalar_spec(v, density) {
                        Some(nv) => Some(nv),
                        None => Some(v),
                    }
                } else {
                    Some(v)
                }
            },
            None => None,
        },
{
    let out = crate::units::convert_dims_spec(m, density, full);
    assert(out.len() == m.len());
    assert(forall|i: int| 0 <= i < m.len() ==> (#[trigger] out[i]).0 == m[i].0);
    assert(m_wf(out));
    if m_contains(m, q) {
        let i = crate::ordmap::m_index_of(m, q);
        crate::ordmap::lemma_m_index_of(m, q);
        assert(out[i].0 == q);
        crate::ordmap::lemma_m_index_unique(out, q, i);
    } else {
        if m_contains(out, q) {
            let i = crate::ordmap::m_index_of(out, q);
            crate::ordmap::lemma_m_index_of(out, q);
            assert(m[i].0 == q);
        }
    }
}

/// Shorthand expansion: a `padding` value flows to all four sides before
/// unit conversion, so each side carries the same converted pixel value.
#[verifier::rlimit(100)]
pub proof fn lemma_padding_expands(m: SpecProps, density: int)
    requires
        m_wf(m),
        m_contains(m, "padding"@),
        !m_contains(m, "paddingTop"@),
        !m_contains(m, "paddingBottom"@),
        !m_contains(m, "paddingLeft"@),
        !m_contains(m, "paddingRight"@),
        !m_contains(m, "paddingHorizontal"@),
        !m_contains(m, "paddingVertical"@),
    ensures
        ({
            let v = m_val(m, "padding"@);
            let e = crate::units::expand_shorthands_spec(m);
            m_get(e, "paddingTop"@) == Some(v) && m_get(e, "paddingBottom"@) == Some(v) && m_get(
                e,
                "paddingLeft"@,
            ) == Some(v) && m_get(e, "paddingRight"@) == Some(v)
        }),
        ({
            let v = m_val(m, "padding"@);
            let converted = match crate::units::convert_scalar_spec(v, density) {
                Some(nv) => nv,
                None => v,
            };
            let p = crate::units::process_styles_spec(m, density);
            m_get(p, "paddingTop"@) == Some(converted) && m_get(p, "paddingBottom"@) == Some(
                converted,
            ) && m_get(p, "paddingLeft"@) == Some(converted) && m_get(p, "paddingRight"@) == Some(
                converted,
            )
        }),
{
    reveal_strlit("padding");
    reveal_strlit("paddingTop");
    reveal_strlit("paddingBottom");
    reveal_strlit("paddingLeft");
    reveal_strlit("paddingRight");
    reveal_strlit("paddingHorizontal");
    reveal_strlit("paddingVertical");
    reveal_strlit("marginHorizontal");
    reveal_strlit("marginVertical");
    reveal_strlit("margin");
    reveal_strlit("marginTop");
    reveal_strlit("marginBottom");
    reveal_strlit("marginLeft");
    reveal_strlit("marginRight");
    reveal_strlit("borderRadius");
    reveal_strlit("borderTopLeftRadius");
    reveal_strlit("borderTopRightRadius");
    reveal_strlit("borderBottomLeftRadius");
    reveal_strlit("borderBottomRightRadius");
    assert("padding"@.len() == 7);
    assert("paddingTop"@.len() == 10);
    assert("paddingBottom"@.len() == 13);
    assert("paddingLeft"@.len() == 11);
    assert("paddingRight"@.len() == 12);
    assert("paddingHorizontal"@.len() == 17);
    assert("paddingVertical"@.len() == 15);
    assert("margin"@.len() == 6);
    assert("marginTop"@.len() == 9);
    assert("marginBottom"@.len() == 12);
    assert("marginLeft"@.len() == 10);
    assert("marginRight"@.len() == 11);
    assert("marginHorizontal"@.len() == 16);
    assert("marginVertical"@.len() == 14);
    assert("borderRadius"@.len() == 12);
    assert("borderTopLeftRadius"@.len() == 19);
    assert("borderTopRightRadius"@.len() == 20);
    assert("borderBottomLeftRadius"@.len() == 22);
    assert("borderBottomRightRadius"@.len() == 23);
    assert("paddingTop"@[0] == 'p');
    assert("paddingBottom"@[0] == 'p');
    assert("paddingLeft"@[0] == 'p');
    assert("paddingRight"@[0] == 'p');
    assert("marginTop"@[0] == 'm');
    assert("marginBottom"@[0] == 'm');
    assert("marginLeft"@[0] == 'm');
    assert("marginRight"@[0] == 'm');
    assert("borderRadius"@[0] == 'b');
    let v = m_val(m, "padding"@);
    let m1 = crate::units::expand_from(
        m,
        "paddingHorizontal"@,
        seq!["paddingLeft"@, "paddingRight"@],
    );
    assert(m1 == m);
    let m2 = crate::units::expand_from(
        m1,
        "paddingVertical"@,
        seq!["paddingTop"@, "paddingBottom"@],
    );
    assert(m2 == m);
    let dsts = seq!["paddingTop"@, "paddingBottom"@, "paddingLeft"@, "paddingRight"@];
    let m3 = crate::units::expand_from(m2, "padding"@, dsts);
    assert(m3 == crate::units::or_insert_all(m, dsts, v));
    assert(dsts[0] == "paddingTop"@);
    lemma_or_insert_all_hits(m, dsts, v, "paddingTop"@);
    lemma_or_insert_all_hits(m, dsts, v, "paddingBottom"@);
    lemma_or_insert_all_hits(m, dsts, v, "paddingLeft"@);
    lemma_or_insert_all_hits(m, dsts, v, "paddingRight"@);
    lemma_or_insert_all_other(m, dsts, v, "marginHorizontal"@);
    lemma_or_insert_all_other(m, dsts, v, "marginVertical"@);
    lemma_or_insert_all_other(m, dsts, v, "margin"@);
    lemma_or_insert_all_other(m, dsts, v, "borderRadius"@);
    let m4 = crate::units::expand_from(
        m3,
        "marginHorizontal"@,
        seq!["marginLeft"@, "marginRight"@],
    );
    let m5 = crate::units::expand_from(m4, "marginVertical"@, seq!["marginTop"@, "marginBottom"@]);
    let m6 = crate::units::expand_from(
        m5,
        "margin"@,
        seq!["marginTop"@, "marginBottom"@, "marginLeft"@, "marginRight"@],
    );
    let rdsts = seq![
        "borderTopLeftRadius"@,
        "borderTopRightRadius"@,
        "borderBottomLeftRadius"@,
        "borderBottomRightRadius"@,
    ];
    let m7 = crate::units::expand_from(m6, "borderRadius"@, rdsts);
    lemma_expand_keeps(m3, "marginHorizontal"@, seq!["marginLeft"@, "marginRight"@], "paddingTop"@);
    lemma_expand_keeps(m3, "marginHorizontal"@, seq!["marginLeft"@, "marginRight"@], "paddingBottom"@);
    lemma_expand_keeps(m3, "marginHorizontal"@, seq!["marginLeft"@, "marginRight"@], "paddingLeft"@);
    lemma_expand_keeps(m3, "marginHorizontal"@, seq!["marginLeft"@, "marginRight"@], "paddingRight"@);
    lemma_expand_keeps(m4, "marginVertical"@, seq!["marginTop"@, "marginBottom"@], "paddingTop"@);
    lemma_expand_keeps(m4, "marginVertical"@, seq!["marginTop"@, "marginBottom"@], "paddingBottom"@);
    lemma_expand_keeps(m4, "marginVertical"@, seq!["marginTop"@, "marginBottom"@], "paddingLeft"@);
    lemma_expand_keeps(m4, "marginVertical"@, seq!["marginTop"@, "marginBottom"@], "paddingRight"@);
    let mdsts = seq!["marginTop"@, "marginBottom"@, "marginLeft"@, "marginRight"@];
    lemma_expand_keeps(m5, "margin"@, mdsts, "paddingTop"@);
    lemma_expand_keeps(m5, "margin"@, mdsts, "paddingBottom"@);
    lemma_expand_keeps(m5, "margin"@, mdsts, "paddingLeft"@);
    lemma_expand_keeps(m5, "margin"@, mdsts, "paddingRight"@);
    lemma_expand_keeps(m6, "borderRadius"@, rdsts, "paddingTop"@);
    lemma_expand_keeps(m6, "borderRadius"@, rdsts, "paddingBottom"@);
    lemma_expand_keeps(m6, "borderRadius"@, rdsts, "paddingLeft"@);
    lemma_expand_keeps(m6, "borderRadius"@, rdsts, "paddingRight"@);
    assert(m7 == crate::units::expand_shorthands_spec(m));
    assert(crate::units::is_dim_key_full("paddingTop"@));
    lemma_convert_get(m7, density, true, "paddingTop"@);
    lemma_convert_get(m7, density, true, "paddingBottom"@);
    lemma_convert_get(m7, density, true, "paddingLeft"@);
    lemma_convert_get(m7, density, true, "paddingRight"@);
}

/// Expanding one shorthand group never disturbs an unrelated key, and
/// keeps the map well-formed.
proof fn lemma_expand_keeps(m: SpecProps, src: Seq<char>, dsts: Seq<Seq<char>>, q: Seq<char>)
    requires
        m_wf(m),
        forall|i: int| 0 <= i < dsts.len() ==> dsts[i] != q,
    ensures
        m_wf(crate::units::expand_from(m, src, dsts)),
        m_get(crate::units::expand_from(m, src, dsts), q) == m_get(m, q),
{
    if m_contains(m, src) {
        lemma_or_insert_all_other(m, dsts, m_val(m, src), q);
    }
}


/// Inserting never moves the first entry's key.
pub broadcast proof fn lemma_insert_first<V>(m: Seq<(Seq<char>, V)>, k: Seq<char>, v: V)
    requires
        m_wf(m),
        m.len() > 0,
    ensures
        (#[trigger] m_insert(m, k, v)).len() > 0,
        m_insert(m, k, v)[0].0 == m[0].0,
{
    if m_contains(m, k) {
        let i = m_index_of(m, k);
        crate::ordmap::lemma_m_index_of(m, k);
        if i == 0 {
            assert(m_insert(m, k, v)[0] == (k, v));
        } else {
            assert(m_insert(m, k, v)[0] == m[0]);
        }
    }
}

proof fn lemma_apply_first(into: SpecProps, k: Seq<char>, val: SpecVal)
    requires
        m_wf(into),
        into.len() > 0,
    ensures
        crate::android::apply_android_prop(into, k, val).len() > 0,
        crate::android::apply_android_prop(into, k, val)[0].0 == into[0].0,
        m_wf(crate::android::apply_android_prop(into, k, val)),
{
    broadcast use lemma_insert_first, crate::ordmap::lemma_m_insert_wf;

}

proof fn lemma_merge_android_first(
    into: SpecProps,
    props: SpecProps,
    vars: crate::theme::SpecVars,
    cur: Option<Seq<char>>,
    i: int,
)
    requires
        m_wf(into),
        into.len() > 0,
    ensures
        crate::android::merge_android_from(into, props, vars, cur, i).len() > 0,
        crate::android::merge_android_from(into, props, vars, cur, i)[0].0 == into[0].0,
        m_wf(crate::android::merge_android_from(into, props, vars, cur, i)),
    decreases props.len() - i,
{
    if 0 <= i < props.len() {
        let val = crate::android::css_value_to_android_spec(props[i].1, vars, cur);
        lemma_apply_first(into, props[i].0, val);
        lemma_merge_android_first(
            crate::android::apply_android_prop(into, props[i].0, val),
            props,
            vars,
            cur,
            i + 1,
        );
    }
}

/// The base map opens with the orientation key.
proof fn lemma_base_first(s: SpecState, selector: Seq<char>, classes: Seq<Seq<char>>)
    ensures
        crate::android::android_base_spec(s, selector, classes).len() > 0,
        crate::android::android_base_spec(s, selector, classes)[0].0 == "androidOrientation"@,
        m_wf(crate::android::android_base_spec(s, selector, classes)),
{
    broadcast use lemma_insert_first, crate::ordmap::lemma_m_insert_wf;

    let out0: SpecProps = seq![("androidOrientation"@, SpecVal::Str("vertical"@))];
    assert(m_wf(out0));
    let effv = crate::theme::effective_theme_spec(s);
    let lower = crate::android::lower_seq(selector);
    let c0 = crate::android::base_defaults_spec(lower);
    let c1 = if m_contains(effv.0, selector) {
        merge_props_spec(c0, m_val(effv.0, selector))
    } else {
        c0
    };
    let c2 = crate::android::classes_fold(c1, effv.0, effv.1, classes, 0);
    lemma_merge_android_first(
        out0,
        c2,
        effv.1,
        crate::android::current_color_spec(out0, c2, effv.1),
        0,
    );
}

proof fn lemma_phase_orient_first(m: SpecProps)
    requires
        m_wf(m),
        m.len() > 0,
        m[0].0 == "androidOrientation"@,
    ensures
        crate::android::phase_orient(m).len() > 0,
        crate::android::phase_orient(m)[0].0 == "androidOrientation"@,
        m_wf(crate::android::phase_orient(m)),
{
    if m_contains(m, "flexDirection"@) {
        assert(m_contains(m, "androidOrientation"@)) by {
            assert(m[0].0 == "androidOrientation"@);
        }
        crate::ordmap::lemma_m_index_unique(m, "androidOrientation"@, 0);
        let out = crate::android::phase_orient(m);
        let rest = m.remove(0);
        assert(forall|j: int| 0 <= j < rest.len() ==> rest[j] == m[j + 1]);
        assert forall|a: int, b: int|
            0 <= a < b < out.len() implies (#[trigger] out[a]).0 != (#[trigger] out[b]).0 by {
            if a == 0 {
                assert(out[b].0 == m[b].0);
                assert(m[0].0 != m[b].0);
            } else {
                assert(out[a].0 == m[a].0 && out[b].0 == m[b].0);
            }
        }
    }
}

proof fn lemma_border_fold_first(
    m: SpecProps,
    parts: Seq<Seq<char>>,
    density: int,
    i: int,
)
    requires
        m_wf(m),
        m.len() > 0,
    ensures
        crate::android::border_parts_fold(m, parts, density, i).len() > 0,
        crate::android::border_parts_fold(m, parts, density, i)[0].0 == m[0].0,
        m_wf(crate::android::border_parts_fold(m, parts, density, i)),
    decreases parts.len() - i,
{
    broadcast use lemma_insert_first, crate::ordmap::lemma_m_insert_wf;

    if 0 <= i < parts.len() {
        let p = parts[i];
        let m1 = if crate::strutil::is_suffix_of("px"@, p) {
            if crate::strutil::parse_milli_spec(crate::units::strip_unit_spec(p, "px"@)) is Some {
                ins(
                    m,
                    "borderWidth"@,
                    SpecVal::Int(
                        crate::units::dp_to_px_spec(
                            crate::units::clamp_dim(
                                crate::strutil::parse_milli_spec(
                                    crate::units::strip_unit_spec(p, "px"@),
                                )->0,
                            ),
                            density,
                        ),
                    ),
                )
            } else {
                m
            }
        } else if p.len() > 0 && p[0] == '#' {
            ins(m, "borderColor"@, SpecVal::Str(p))
        } else {
            m
        };
        lemma_border_fold_first(m1, parts, density, i + 1);
    }
}

/// The font, wrap, alpha and gravity phases keep the opening key.
#[verifier::rlimit(100)]
proof fn lemma_phases_a(m: SpecProps, density: int, scaled: int)
    requires
        m_wf(m),
        m.len() > 0,
    ensures
        ({
            let out = crate::android::phase_gravity(
                crate::android::phase_alpha(
                    crate::android::phase_flexwrap(crate::android::phase_font(m, density, scaled)),
                ),
            );
            out.len() > 0 && out[0].0 == m[0].0 && m_wf(out)
        }),
{
    broadcast use lemma_insert_first, crate::ordmap::lemma_m_insert_wf;

    let t1 = crate::android::phase_font(m, density, scaled);
    assert(t1.len() > 0 && t1[0].0 == m[0].0 && m_wf(t1));
    let t2 = crate::android::phase_flexwrap(t1);
    assert(t2.len() > 0 && t2[0].0 == m[0].0 && m_wf(t2));
    let t3 = crate::android::phase_alpha(t2);
    assert(t3.len() > 0 && t3[0].0 == m[0].0 && m_wf(t3));
    let t4 = crate::android::phase_gravity(t3);
    assert(t4.len() > 0 && t4[0].0 == m[0].0 && m_wf(t4));
}

/// The shadow, overflow, alignment, sizing and weight phases keep the
/// opening key.
#[verifier::rlimit(100)]
proof fn lemma_phases_b(m: SpecProps, density: int)
    requires
        m_wf(m),
        m.len() > 0,
    ensures
        ({
            let out = crate::android::phase_shadow2(
                crate::android::phase_fontweight(
                    crate::android::phase_flexdefaults(
                        crate::android::phase_fullsize(
                            crate::android::phase_objectfit(
                                crate::android::phase_textalign(
                                    crate::android::phase_overflow(
                                        crate::android::phase_shadow(m, density),
                                    ),
                                ),
                            ),
                        ),
                    ),
                ),
                density,
            );
            out.len() > 0 && out[0].0 == m[0].0 && m_wf(out)
        }),
{
    broadcast use lemma_insert_first, crate::ordmap::lemma_m_insert_wf;

    let t1 = crate::android::phase_shadow(m, density);
    assert(t1.len() > 0 && t1[0].0 == m[0].0 && m_wf(t1));
    let t2 = crate::android::phase_overflow(t1);
    assert(t2.len() > 0 && t2[0].0 == m[0].0 && m_wf(t2));
    let t3 = crate::android::phase_textalign(t2);
    assert(t3.len() > 0 && t3[0].0 == m[0].0 && m_wf(t3));
    let t4 = crate::android::phase_objectfit(t3);
    assert(t4.len() > 0 && t4[0].0 == m[0].0 && m_wf(t4));
    let t5 = crate::android::phase_fullsize(t4);
    assert(t5.len() > 0 && t5[0].0 == m[0].0 && m_wf(t5));
    let t6 = crate::android::phase_flexdefaults(t5);
    assert(t6.len() > 0 && t6[0].0 == m[0].0 && m_wf(t6));
    let t7 = crate::android::phase_fontweight(t6);
    assert(t7.len() > 0 && t7[0].0 == m[0].0 && m_wf(t7));
    let t8 = crate::android::phase_shadow2(t7, density);
    assert(t8.len() > 0 && t8[0].0 == m[0].0 && m_wf(t8));
}

/// Orientation before gap: the native map always opens with the
/// orientation key, so every gap-related key sits at a later position.
#[verifier::rlimit(100)]
pub proof fn lemma_orientation_before_gap(
    s: SpecState,
    selector: Seq<char>,
    classes: Seq<Seq<char>>,
)
    ensures
        android_styles_spec(s, selector, classes).len() > 0,
        android_styles_spec(s, selector, classes)[0].0 == "androidOrientation"@,
        forall|i: int|
            0 <= i < android_styles_spec(s, selector, classes).len() && ((
            #[trigger] android_styles_spec(s, selector, classes)[i]).0 == "gap"@
                || android_styles_spec(s, selector, classes)[i].0 == "rowGap"@
                || android_styles_spec(s, selector, classes)[i].0 == "columnGap"@) ==> i > 0,
{
    lemma_base_first(s, selector, classes);
    let m0 = crate::android::android_base_spec(s, selector, classes);
    lemma_phase_orient_first(m0);
    let m1 = crate::android::phase_orient(m0);
    let m2 = crate::units::convert_dims_spec(m1, s.display_density, false);
    assert(m2.len() == m1.len() && m2[0].0 == m1[0].0);
    assert(m_wf(m2)) by {
        assert(forall|i: int| 0 <= i < m2.len() ==> (#[trigger] m2[i]).0 == m1[i].0);
    }
    lemma_phases_a(m2, s.display_density, s.scaled_density);
    let m6 = crate::android::phase_gravity(
        crate::android::phase_alpha(
            crate::android::phase_flexwrap(
                crate::android::phase_font(m2, s.display_density, s.scaled_density),
            ),
        ),
    );
    let m7 = crate::android::phase_border_short(m6, s.display_density);
    if m_contains(m6, "border"@) && (m_val(m6, "border"@) matches SpecVal::Str(_)) {
        match m_val(m6, "border"@) {
            SpecVal::Str(bs) => {
                lemma_border_fold_first(m6, crate::strutil::split_ws_spec(bs), s.display_density, 0);
            },
            _ => {},
        }
    }
    assert(m7.len() > 0 && m7[0].0 == "androidOrientation"@ && m_wf(m7));
    lemma_phases_b(m7, s.display_density);
    let m15 = android_styles_spec(s, selector, classes);
    assert(m15.len() > 0 && m15[0].0 == "androidOrientation"@);
    reveal_strlit("androidOrientation");
    reveal_strlit("gap");
    reveal_strlit("rowGap");
    reveal_strlit("columnGap");
    assert("androidOrientation"@.len() == 18);
    assert("gap"@.len() == 3);
    assert("rowGap"@.len() == 6);
    assert("columnGap"@.len() == 9);
}

/// Inheritance override at the theme level: with a child theme inheriting
/// a parent and both defining rules for one selector, the effective rule
/// set takes the child's value for every property the child defines and
/// keeps the parent's for every property only the parent defines.
#[verifier::rlimit(100)]
pub proof fn lemma_theme_inheritance_override(
    s: SpecState,
    cn: Seq<char>,
    ct: crate::theme::SpecTheme,
    pn: Seq<char>,
    pt: crate::theme::SpecTheme,
    sel: Seq<char>,
    cprops: SpecProps,
    pprops: SpecProps,
    q: Seq<char>,
)
    requires
        s.themes == seq![(cn, ct), (pn, pt)],
        cn != pn,
        ct.inherits == Some(pn),
        pt.inherits == None::<Seq<char>>,
        ct.selectors == seq![(sel, cprops)],
        pt.selectors == seq![(sel, pprops)],
        crate::strutil::first_ix(sel, ',') < 0,
        s.current_theme == cn,
        s.default_theme == cn,
        m_wf(cprops),
        m_wf(pprops),
    ensures
        ({
            let eff = crate::theme::effective_theme_spec(s).0;
            m_contains(eff, sel) && (m_contains(cprops, q) ==> m_get(m_val(eff, sel), q) == m_get(
                cprops,
                q,
            )) && (!m_contains(cprops, q) ==> m_get(m_val(eff, sel), q) == m_get(pprops, q))
        }),
{
    let themes = s.themes;
    assert(m_wf(themes)) by {
        assert(themes[0].0 == cn && themes[1].0 == pn);
    }
    crate::ordmap::lemma_m_index_unique(themes, cn, 0);
    crate::ordmap::lemma_m_index_unique(themes, pn, 1);
    assert(crate::ordmap::m_get(themes, cn) == Some(ct));
    assert(crate::ordmap::m_get(themes, pn) == Some(pt));

    // the chain: the child, then its parent
    let empty_seen = Seq::<Seq<char>>::empty();
    let chain = crate::theme::chain_rec(themes, cn, empty_seen, 3);
    assert(!crate::ordmap::s_contains(empty_seen, cn));
    assert(!crate::ordmap::s_contains(empty_seen.push(cn), pn)) by {
        assert(empty_seen.push(cn)[0] == cn);
    }
    assert(crate::theme::chain_rec(themes, pn, empty_seen.push(cn), 2) =~= seq![pn]);
    assert(chain =~= seq![cn, pn]);
    assert(m_contains(themes, s.default_theme));
    assert(crate::ordmap::s_contains(chain, cn)) by {
        assert(chain[0] == cn);
    }
    assert(crate::theme::theme_chain_spec(s) == chain);
    let crev = chain.reverse();
    assert(crev =~= seq![pn, cn]);

    // the parent's rules merge into the empty set first
    let empty_sels = Seq::<(Seq<char>, SpecProps)>::empty();
    let empty_vars = Seq::<(Seq<char>, Seq<char>)>::empty();
    let empty_props = Seq::<(Seq<char>, SpecVal)>::empty();
    let p1 = merge_props_spec(empty_props, pprops);
    assert(!m_contains(empty_sels, sel));
    let acc1 = crate::theme::add_rule(empty_sels, sel, pprops);
    assert(acc1 == m_insert(empty_sels, sel, p1));
    assert(acc1 =~= seq![(sel, p1)]);
    assert(crate::theme::add_selector(empty_sels, sel, pprops) == acc1);
    assert(crate::theme::merge_theme_selectors_from(empty_sels, pt.selectors, 0) == acc1) by {
        assert(pt.selectors[0] == (sel, pprops));
        assert(crate::theme::merge_theme_selectors_from(acc1, pt.selectors, 1) == acc1);
    }

    // the child's rules merge over the parent's
    assert(m_wf(acc1));
    crate::ordmap::lemma_m_index_unique(acc1, sel, 0);
    assert(m_contains(acc1, sel) && m_val(acc1, sel) == p1);
    let merged = merge_props_spec(p1, cprops);
    let acc2 = crate::theme::add_rule(acc1, sel, cprops);
    assert(acc2 == m_insert(acc1, sel, merged));
    assert(acc2 =~= seq![(sel, merged)]);
    assert(crate::theme::add_selector(acc1, sel, cprops) == acc2);
    assert(crate::theme::merge_theme_selectors_from(acc1, ct.selectors, 0) == acc2) by {
        assert(ct.selectors[0] == (sel, cprops));
        assert(crate::theme::merge_theme_selectors_from(acc2, ct.selectors, 1) == acc2);
    }

    // the fold walks parent then child
    let v1 = crate::theme::merge_vars_spec(empty_vars, pt.variables);
    let v2 = crate::theme::merge_vars_spec(v1, ct.variables);
    let fold1 = crate::theme::effective_fold(themes, crev, empty_sels, empty_vars);
    assert(crev[0] == pn && crev.drop_first() =~= seq![cn]);
    assert(seq![cn][0] == cn && seq![cn].drop_first() =~= Seq::<Seq<char>>::empty());
    assert(fold1 == crate::theme::effective_fold(themes, crev.drop_first(), acc1, v1));
    assert(crate::theme::effective_fold(themes, crev.drop_first(), acc1, v1)
        == crate::theme::effective_fold(themes, seq![cn], acc1, v1));
    assert(crate::theme::effective_fold(themes, seq![cn], acc1, v1)
        == crate::theme::effective_fold(themes, seq![cn].drop_first(), acc2, v2));
    assert(crate::theme::effective_fold(themes, seq![cn].drop_first(), acc2, v2)
        == crate::theme::effective_fold(themes, Seq::<Seq<char>>::empty(), acc2, v2));
    assert(crate::theme::effective_fold(themes, Seq::<Seq<char>>::empty(), acc2, v2) == (
        acc2,
        v2,
    ));
    assert(fold1.0 == acc2);
    assert(crate::theme::effective_theme_spec(s).0 == acc2);

    crate::ordmap::lemma_m_index_unique(acc2, sel, 0);
    assert(m_val(acc2, sel) == merged);

    // the override law on the merged properties
    lemma_child_overrides(Seq::<(Seq<char>, SpecVal)>::empty(), pprops, q);
    assert(m_wf(p1)) by {
        crate::theme::lemma_merge_props_wf(Seq::<(Seq<char>, SpecVal)>::empty(), pprops);
    }
    lemma_child_overrides(p1, cprops, q);
    assert(m_get(p1, q) == m_get(pprops, q)) by {
        if m_contains(pprops, q) {
        } else {
            assert(m_get(Seq::<(Seq<char>, SpecVal)>::empty(), q) is None) by {
                if m_contains(Seq::<(Seq<char>, SpecVal)>::empty(), q) {
                    let w = crate::ordmap::m_index_of(
                        Seq::<(Seq<char>, SpecVal)>::empty(),
                        q,
                    );
                    crate::ordmap::lemma_m_index_of(Seq::<(Seq<char>, SpecVal)>::empty(), q);
                }
            }
            assert(m_get(pprops, q) is None) by {
                if m_contains(pprops, q) {
                }
            }
        }
    }
}


/// Inserting under one key never changes what another key yields.
pub broadcast proof fn lemma_insert_get_other<V>(
    m: Seq<(Seq<char>, V)>,
    k: Seq<char>,
    v: V,
    q: Seq<char>,
)
    requires
        m_wf(m),
        q != k,
    ensures
        #[trigger] m_get(m_insert(m, k, v), q) == m_get(m, q),
{
    lemma_insert_get(m, k, v, q);
}

proof fn lemma_border_fold_keeps(
    m: SpecProps,
    parts: Seq<Seq<char>>,
    density: int,
    i: int,
    q: Seq<char>,
)
    requires
        m_wf(m),
        q != "borderWidth"@,
        q != "borderColor"@,
    ensures
        m_wf(crate::android::border_parts_fold(m, parts, density, i)),
        m_get(crate::android::border_parts_fold(m, parts, density, i), q) == m_get(m, q),
    decreases parts.len() - i,
{
    broadcast use lemma_insert_get_other, crate::ordmap::lemma_m_insert_wf;

    if 0 <= i < parts.len() {
        let p = parts[i];
        let m1 = if crate::strutil::is_suffix_of("px"@, p) {
            if crate::strutil::parse_milli_spec(crate::units::strip_unit_spec(p, "px"@)) is Some {
                ins(
                    m,
                    "borderWidth"@,
                    SpecVal::Int(
                        crate::units::dp_to_px_spec(
                            crate::units::clamp_dim(
                                crate::strutil::parse_milli_spec(
                                    crate::units::strip_unit_spec(p, "px"@),
                                )->0,
                            ),
                            density,
                        ),
                    ),
                )
            } else {
                m
            }
        } else if p.len() > 0 && p[0] == '#' {
            ins(m, "borderColor"@, SpecVal::Str(p))
        } else {
            m
        };
        lemma_border_fold_keeps(m1, parts, density, i + 1, q);
    }
}

/// Gravity collapse, carried to the native output: the combined `center`
/// token set by the gravity translation is what the finished map holds, as
/// no later phase writes the gravity key.
#[verifier::rlimit(100)]
pub proof fn lemma_gravity_center_in_output(m: SpecProps, density: int)
    requires
        m_wf(m),
        m_contains(m, "androidOrientation"@),
        m_val(m, "androidOrientation"@) == SpecVal::Str("horizontal"@),
        m_contains(m, "alignItems"@),
        m_val(m, "alignItems"@) == SpecVal::Str("center"@),
        m_contains(m, "justifyContent"@),
        m_val(m, "justifyContent"@) == SpecVal::Str("center"@),
    ensures
        ({
            let out = crate::android::phase_shadow2(
                crate::android::phase_fontweight(
                    crate::android::phase_flexdefaults(
                        crate::android::phase_fullsize(
                            crate::android::phase_objectfit(
                                crate::android::phase_textalign(
                                    crate::android::phase_overflow(
                                        crate::android::phase_shadow(
                                            crate::android::phase_border_short(
                                                crate::android::phase_gravity(m),
                                                density,
                                            ),
                                            density,
                                        ),
                                    ),
                                ),
                            ),
                        ),
                    ),
                ),
                density,
            );
            m_get(out, "androidGravity"@) == Some(SpecVal::Str("center"@))
        }),
{
    broadcast use lemma_insert_get_other, crate::ordmap::lemma_m_insert_wf;

    lemma_gravity_center_collapse(m);
    let g = "androidGravity"@;
    reveal_strlit("androidGravity");
    reveal_strlit("borderWidth");
    reveal_strlit("borderColor");
    reveal_strlit("elevation");
    reveal_strlit("androidScrollHorizontal");
    reveal_strlit("androidScrollVertical");
    reveal_strlit("androidTextGravity");
    reveal_strlit("androidScaleType");
    reveal_strlit("height");
    reveal_strlit("width");
    reveal_strlit("androidTypefaceStyle");
    assert("androidGravity"@.len() == 14);
    assert("borderWidth"@.len() == 11);
    assert("borderColor"@.len() == 11);
    assert("elevation"@.len() == 9);
    assert("androidScrollHorizontal"@.len() == 23);
    assert("androidScrollVertical"@.len() == 21);
    assert("androidTextGravity"@.len() == 18);
    assert("androidScaleType"@.len() == 16);
    assert("height"@.len() == 6);
    assert("width"@.len() == 5);
    assert("androidTypefaceStyle"@.len() == 20);
    let t0 = crate::android::phase_gravity(m);
    assert(m_wf(t0) && m_get(t0, g) == Some(SpecVal::Str("center"@))) by {
        let lg = crate::android::layout_gravity_part(m_val(m, "justifyContent"@));
        let m1 = ins(m, "androidLayoutGravity"@, SpecVal::Str(lg));
        crate::ordmap::lemma_m_insert_wf(m1, g, SpecVal::Str("center"@));
    }
    let t1 = crate::android::phase_border_short(t0, density);
    assert(m_wf(t1) && m_get(t1, g) == m_get(t0, g)) by {
        if m_contains(t0, "border"@) && (m_val(t0, "border"@) matches SpecVal::Str(_)) {
            match m_val(t0, "border"@) {
                SpecVal::Str(bs) => {
                    lemma_border_fold_keeps(
                        t0,
                        crate::strutil::split_ws_spec(bs),
                        density,
                        0,
                        g,
                    );
                },
                _ => {},
            }
        }
    }
    let t2 = crate::android::phase_shadow(t1, density);
    assert(m_wf(t2) && m_get(t2, g) == m_get(t1, g));
    let t3 = crate::android::phase_overflow(t2);
    assert(m_wf(t3) && m_get(t3, g) == m_get(t2, g));
    let t4 = crate::android::phase_textalign(t3);
    assert(m_wf(t4) && m_get(t4, g) == m_get(t3, g));
    let t5 = crate::android::phase_objectfit(t4);
    assert(m_wf(t5) && m_get(t5, g) == m_get(t4, g));
    let t6 = crate::android::phase_fullsize(t5);
    assert(m_wf(t6) && m_get(t6, g) == m_get(t5, g));
    let t7 = crate::android::phase_flexdefaults(t6);
    assert(m_wf(t7) && m_get(t7, g) == m_get(t6, g));
    let t8 = crate::android::phase_fontweight(t7);
    assert(m_wf(t8) && m_get(t8, g) == m_get(t7, g));
    let t9 = crate::android::phase_shadow2(t8, density);
    assert(m_get(t9, g) == m_get(t8, g));
}

} // verus!
