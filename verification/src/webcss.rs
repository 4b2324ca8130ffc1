//! The web projector: the effective rule set and the observed usage turned
//! into CSS text, with media-query grouping by breakpoint and hover
//! handling.

use vstd::prelude::*;
use crate::classes::{class_props_spec, dynamic_css_properties_for_class};
use crate::ordmap::{m_contains, m_insert, m_val, m_wf, s_add, s_contains, s_wf, OrdMap, OrdSet};
use crate::selector::{
    class_to_selector, class_to_selector_spec, css_escape_class, escape_spec, kebab_case,
    kebab_spec, parse_prefixed_class, parse_prefixed_spec, should_emit_selector, should_emit_spec,
    split2_spec, split_tag_class_key, wrap_media_spec, wrap_with_media,
};
use crate::strutil::{
    chars_to_string, first_ix, int_rep, is_prefix_of, is_suffix_of, milli_rep, push_chars,
    push_str_chars, split_once_char, str_eq, str_to_chars, subvec, trim, trim_spec,
    trim_front_spec,
};
use crate::theme::{
    dup_props, effective_breakpoints_spec, effective_theme_spec, sels_wf, state_wf,
    SpecSelectors, SpecState, SpecVars, State,
};
use crate::units::{PropMap, SpecProps};
use crate::value::{SpecVal, StyleValue};
use crate::varres::{resolve_vars, resolve_vars_spec};

verus! {

broadcast use vstd::string::group_string_axioms, crate::ordmap::lemma_m_insert_wf;

// ===== one declaration block as text =====

/// The text of one value: text resolves its variables; numbers and flags
/// print their value.
pub open spec fn css_value_text(v: SpecVal, vars: SpecVars) -> Seq<char> {
    match v {
        SpecVal::Str(s) => resolve_vars_spec(s, vars),
        SpecVal::Int(i) => int_rep(i),
        SpecVal::Milli(m) => milli_rep(m),
        SpecVal::Bool(b) => if b {
            "true"@
        } else {
            "false"@
        },
    }
}

/// One `key:value;` declaration: the key hyphenated, the value resolved, a
/// terminating semicolon added unless the value already ends in one.
pub open spec fn css_decl_text(k: Seq<char>, v: SpecVal, vars: SpecVars) -> Seq<char> {
    let val = css_value_text(v, vars);
    let term: Seq<char> = if val.len() > 0 && val.last() == ';' {
        Seq::<char>::empty()
    } else {
        seq![';']
    };
    kebab_spec(k) + seq![':'] + val + term
}

/// The declarations of one block, in property order.
pub open spec fn css_props_text(props: SpecProps, vars: SpecVars, i: int) -> Seq<char>
    decreases props.len() - i,
{
    if i < 0 || i >= props.len() {
        Seq::<char>::empty()
    } else {
        css_decl_text(props[i].0, props[i].1, vars) + css_props_text(props, vars, i + 1)
    }
}

fn css_value_text_exec(v: &StyleValue, vars: &OrdMap<String>) -> (r: Vec<char>)
    requires
        m_wf(vars@),
    ensures
        r@ == css_value_text(v@, vars@),
{
    match v {
        StyleValue::Str(s) => {
            let t = resolve_vars(s.as_str(), vars);
            str_to_chars(t.as_str())
        },
        StyleValue::Int(i) => crate::strutil::i64_to_chars(*i),
        StyleValue::Milli(m) => crate::strutil::milli_to_chars(*m),
        StyleValue::Bool(b) => {
            if *b {
                str_to_chars("true")
            } else {
                str_to_chars("false")
            }
        },
    }
}

/// One declaration block as text.
pub fn css_props_string(props: &PropMap, vars: &OrdMap<String>) -> (r: String)
    requires
        m_wf(props@),
        m_wf(vars@),
    ensures
        r@ == css_props_text(props@, vars@, 0),
{
    let n = props.len();
    let mut out: Vec<char> = Vec::new();
    let mut i: usize = 0;
    proof {
        assert(Seq::<char>::empty() + css_props_text(props@, vars@, 0) =~= css_props_text(
            props@,
            vars@,
            0,
        ));
    }
    while i < n
        invariant
            i <= n,
            n == props@.len(),
            m_wf(props@),
            m_wf(vars@),
            css_props_text(props@, vars@, 0) == out@ + css_props_text(props@, vars@, i as int),
        decreases n - i,
    {
        let k = props.key_at(i);
        let kb = kebab_case(k.as_str());
        let ghost pre = out@;
        push_str_chars(&mut out, kb.as_str());
        out.push(':');
        let val = css_value_text_exec(props.value_at(i), vars);
        push_chars(&mut out, &val);
        let needs_semi = val.len() == 0 || {
            let c = val[val.len() - 1];
            c != ';'
        };
        if needs_semi {
            out.push(';');
        }
        proof {
            assert(out@ =~= pre + css_decl_text(props@[i as int].0, props@[i as int].1, vars@));
            assert(out@ + css_props_text(props@, vars@, i + 1) =~= pre + (css_decl_text(
                props@[i as int].0,
                props@[i as int].1,
                vars@,
            ) + css_props_text(props@, vars@, i + 1)));
        }
        i += 1;
    }
    proof {
        assert(out@ + css_props_text(props@, vars@, n as int) =~= out@);
    }
    chars_to_string(&out)
}


// ===== grouping rules into media blocks =====

/// Strip every trailing closing brace.
pub open spec fn strip_closing(s: Seq<char>) -> Seq<char>
    decreases s.len(),
{
    if s.len() > 0 && s.last() == '}' {
        strip_closing(s.drop_last())
    } else {
        s
    }
}

fn strip_closing_exec(s: &Vec<char>) -> (r: Vec<char>)
    ensures
        r@ == strip_closing(s@),
{
    let mut b: usize = s.len();
    while b > 0
        invariant
            b <= s@.len(),
            forall|j: int| b <= j < s@.len() ==> s@[j] == '}',
        decreases b,
    {
        let c = s[b - 1];
        if c != '}' {
            let r = subvec(s, 0, b);
            proof {
                lemma_strip_closing(s@, b as int);
            }
            return r;
        }
        b -= 1;
    }
    let r = subvec(s, 0, 0);
    proof {
        lemma_strip_closing(s@, 0);
        assert(r@ =~= s@.take(0));
    }
    r
}

proof fn lemma_strip_closing(s: Seq<char>, b: int)
    requires
        0 <= b <= s.len(),
        forall|j: int| b <= j < s.len() ==> s[j] == '}',
        b > 0 ==> s[b - 1] != '}',
    ensures
        strip_closing(s) == s.take(b),
    decreases s.len(),
{
    if b == s.len() {
        if s.len() == 0 || s.last() != '}' {
            assert(s.take(b) =~= s);
        }
    } else {
        assert(s.last() == '}');
        let head = s.drop_last();
        assert(head =~= s.take(s.len() - 1));
        lemma_strip_closing(head, b);
        assert(head.take(b) =~= s.take(b));
    }
}

/// Whether a selector carries a media prelude, and its pieces: the text
/// before the first brace must begin (after whitespace) with `@media`, and
/// the rule must end with a closing brace. The pieces are the trimmed
/// prelude and the inner selector without its closing braces.
pub open spec fn media_split(sel: Seq<char>) -> Option<(Seq<char>, Seq<char>)> {
    let e = first_ix(sel, '{');
    if e < 0 {
        None
    } else {
        let media = sel.take(e);
        let inner = sel.subrange(e + 1, sel.len() as int);
        if is_prefix_of("@media "@, trim_front_spec(media)) && inner.len() > 0 && inner.last()
            == '}' {
            Some((trim_spec(media), strip_closing(inner)))
        } else {
            None
        }
    }
}

proof fn lemma_trim_front_at(s: Seq<char>, a: int)
    requires
        0 <= a <= s.len(),
        forall|j: int| 0 <= j < a ==> crate::strutil::is_ws(s[j]),
        a < s.len() ==> !crate::strutil::is_ws(s[a]),
    ensures
        trim_front_spec(s) == s.subrange(a, s.len() as int),
    decreases a,
{
    if a == 0 {
        assert(s.subrange(0, s.len() as int) =~= s);
    } else {
        let rest = s.subrange(1, s.len() as int);
        lemma_trim_front_at(rest, a - 1);
        assert(rest.subrange(a - 1, rest.len() as int) =~= s.subrange(a, s.len() as int));
    }
}

/// The front-trimmed text, for testing a prefix past leading whitespace.
fn skip_ws_front_chars(s: &Vec<char>) -> (r: Vec<char>)
    ensures
        r@ == trim_front_spec(s@),
{
    let mut a: usize = 0;
    while a < s.len()
        invariant
            a <= s@.len(),
            forall|j: int| 0 <= j < a ==> crate::strutil::is_ws(s@[j]),
        decreases s@.len() - a,
    {
        if !crate::strutil::is_ws_exec(s[a]) {
            let r = subvec(s, a, s.len());
            proof {
                lemma_trim_front_at(s@, a as int);
            }
            return r;
        }
        a += 1;
    }
    let r = subvec(s, a, s.len());
    proof {
        lemma_trim_front_at(s@, a as int);
    }
    r
}

fn media_split_exec(sel: &Vec<char>) -> (r: Option<(Vec<char>, Vec<char>)>)
    ensures
        match r {
            Some(p) => media_split(sel@) == Some((p.0@, p.1@)),
            None => media_split(sel@) is None,
        },
{
    proof {
        crate::strutil::lemma_first_ix(sel@, '{');
    }
    match split_once_char(sel, '{') {
        Some(p) => {
            let (media, inner) = p;
            let tf = skip_ws_front_chars(&media);
            if !crate::strutil::starts_with_str(&tf, "@media ") {
                return None;
            }
            if inner.len() == 0 {
                return None;
            }
            let lastc = inner[inner.len() - 1];
            if lastc != '}' {
                return None;
            }
            let mkey = trim(&media);
            let stripped = strip_closing_exec(&inner);
            Some((mkey, stripped))
        },
        None => None,
    }
}

pub type SpecRule = (Seq<char>, SpecProps);

pub open spec fn rules_wf(rules: Seq<SpecRule>) -> bool {
    forall|i: int| 0 <= i < rules.len() ==> m_wf((#[trigger] rules[i]).1)
}

/// The plain rules, in order: those without a media prelude.
pub open spec fn plain_rules(rules: Seq<SpecRule>, i: int, acc: Seq<SpecRule>) -> Seq<SpecRule>
    decreases rules.len() - i,
{
    if i < 0 || i >= rules.len() {
        acc
    } else {
        match media_split(rules[i].0) {
            Some(_) => plain_rules(rules, i + 1, acc),
            None => plain_rules(rules, i + 1, acc.push(rules[i])),
        }
    }
}

/// The distinct media preludes, in first-encounter order.
pub open spec fn media_keys(rules: Seq<SpecRule>, i: int, acc: Seq<Seq<char>>) -> Seq<Seq<char>>
    decreases rules.len() - i,
{
    if i < 0 || i >= rules.len() {
        acc
    } else {
        match media_split(rules[i].0) {
            Some(p) => media_keys(rules, i + 1, s_add(acc, p.0)),
            None => media_keys(rules, i + 1, acc),
        }
    }
}

/// The inner rules of one media group, in encounter order.
pub open spec fn group_members(rules: Seq<SpecRule>, key: Seq<char>, i: int, acc: Seq<SpecRule>) -> Seq<
    SpecRule,
>
    decreases rules.len() - i,
{
    if i < 0 || i >= rules.len() {
        acc
    } else {
        match media_split(rules[i].0) {
            Some(p) => {
                if p.0 == key {
                    group_members(rules, key, i + 1, acc.push((p.1, rules[i].1)))
                } else {
                    group_members(rules, key, i + 1, acc)
                }
            },
            None => group_members(rules, key, i + 1, acc),
        }
    }
}

pub open spec fn render_normal(rules: Seq<SpecRule>, vars: SpecVars, i: int) -> Seq<char>
    decreases rules.len() - i,
{
    if i < 0 || i >= rules.len() {
        Seq::<char>::empty()
    } else {
        rules[i].0 + seq!['{'] + css_props_text(rules[i].1, vars, 0) + seq!['}', '\n']
            + render_normal(rules, vars, i + 1)
    }
}

pub open spec fn render_inner(rules: Seq<SpecRule>, vars: SpecVars, i: int) -> Seq<char>
    decreases rules.len() - i,
{
    if i < 0 || i >= rules.len() {
        Seq::<char>::empty()
    } else {
        rules[i].0 + seq!['{'] + css_props_text(rules[i].1, vars, 0) + seq!['}'] + render_inner(
            rules,
            vars,
            i + 1,
        )
    }
}

pub open spec fn render_groups(
    rules: Seq<SpecRule>,
    keys: Seq<Seq<char>>,
    vars: SpecVars,
    k: int,
) -> Seq<char>
    decreases keys.len() - k,
{
    if k < 0 || k >= keys.len() {
        Seq::<char>::empty()
    } else {
        keys[k] + seq!['{'] + render_inner(
            group_members(rules, keys[k], 0, Seq::<SpecRule>::empty()),
            vars,
            0,
        ) + seq!['}', '\n'] + render_groups(rules, keys, vars, k + 1)
    }
}

/// The whole stylesheet: plain rules in order, then one block per media
/// prelude in first-encounter order, each holding its rules in order.
pub open spec fn post_process_spec(rules: Seq<SpecRule>, vars: SpecVars) -> Seq<char> {
    render_normal(plain_rules(rules, 0, Seq::<SpecRule>::empty()), vars, 0) + render_groups(
        rules,
        media_keys(rules, 0, Seq::<Seq<char>>::empty()),
        vars,
        0,
    )
}

/// An ordered list of rules, each a selector with its properties.
pub struct RuleList {
    items: Vec<(String, PropMap)>,
}

impl View for RuleList {
    type V = Seq<SpecRule>;

    closed spec fn view(&self) -> Seq<SpecRule> {
        Seq::new(self.items@.len(), |i: int| (self.items@[i].0@, self.items@[i].1@))
    }
}

impl RuleList {
    pub fn new() -> (r: RuleList)
        ensures
            r@ == Seq::<SpecRule>::empty(),
    {
        let r = RuleList { items: Vec::new() };
        proof {
            assert(r@ =~= Seq::<SpecRule>::empty());
        }
        r
    }

    pub fn push(&mut self, sel: String, props: PropMap)
        ensures
            final(self)@ == old(self)@.push((sel@, props@)),
    {
        self.items.push((sel, props));
        proof {
            assert(self@ =~= old(self)@.push((sel@, props@)));
        }
    }

    pub fn len(&self) -> (r: usize)
        ensures
            r == self@.len(),
    {
        self.items.len()
    }

    pub fn sel_at(&self, i: usize) -> (r: &String)
        requires
            i < self@.len(),
        ensures
            r@ == self@[i as int].0,
    {
        &self.items[i].0
    }

    pub fn props_at(&self, i: usize) -> (r: &PropMap)
        requires
            i < self@.len(),
        ensures
            r@ == self@[i as int].1,
    {
        &self.items[i].1
    }
}

/// Flatten collected rules into the final stylesheet, grouping same-media
/// rules into one block.
#[verifier::rlimit(100)]
pub fn post_process_css(rules: &RuleList, vars: &OrdMap<String>) -> (r: String)
    requires
        rules_wf(rules@),
        m_wf(vars@),
    ensures
        r@ == post_process_spec(rules@, vars@),
{
    let n = rules.len();
    let mut out: Vec<char> = Vec::new();
    let mut keys = OrdSet::new();
    let mut i: usize = 0;
    proof {
        assert(plain_rules(rules@, 0, Seq::<SpecRule>::empty()).take(0) =~= Seq::<
            SpecRule,
        >::empty());
    }
    let ghost plains = plain_rules(rules@, 0, Seq::<SpecRule>::empty());
    let ghost allkeys = media_keys(rules@, 0, Seq::<Seq<char>>::empty());
    // first pass: render the plain rules and collect the media keys
    let mut nplain: usize = 0;
    while i < n
        invariant
            i <= n,
            n == rules@.len(),
            rules_wf(rules@),
            m_wf(vars@),
            plains == plain_rules(rules@, 0, Seq::<SpecRule>::empty()),
            allkeys == media_keys(rules@, 0, Seq::<Seq<char>>::empty()),
            plains == plain_rules(
                rules@,
                i as int,
                plain_rules(rules@, 0, Seq::<SpecRule>::empty()).take(nplain as int),
            ),
            nplain <= plains.len(),
            nplain <= i,
            out@ == render_normal(plains.take(nplain as int), vars@, 0),
            allkeys == media_keys(rules@, i as int, keys@),
        decreases n - i,
    {
        let sel = rules.sel_at(i);
        let sv = str_to_chars(sel.as_str());
        match media_split_exec(&sv) {
            Some(p) => {
                keys.insert(chars_to_string(&p.0));
                proof {
                    assert(media_split(rules@[i as int].0) == Some((p.0@, p.1@)));
                }
            },
            None => {
                let ghost pre_plains = plains.take(nplain as int);
                proof {
                    assert(media_split(rules@[i as int].0) is None);
                    assert(plains == plain_rules(
                        rules@,
                        i + 1,
                        pre_plains.push(rules@[i as int]),
                    ));
                    lemma_plain_acc(rules@, i as int + 1, pre_plains.push(rules@[i as int]));
                    assert(plains.len() >= nplain + 1);
                    assert(pre_plains.push(rules@[i as int]) =~= plains.take(nplain as int + 1));
                }
                push_str_chars(&mut out, sel.as_str());
                out.push('{');
                let body = css_props_string(rules.props_at(i), vars);
                push_str_chars(&mut out, body.as_str());
                out.push('}');
                out.push('\n');
                proof {
                    lemma_render_normal_snoc(plains.take(nplain as int + 1), vars@);
                    assert(plains.take(nplain as int + 1).drop_last() =~= plains.take(
                        nplain as int,
                    ));
                    assert(plains.take(nplain as int + 1).last() == rules@[i as int]);
                    assert(out@ =~= render_normal(plains.take(nplain as int + 1), vars@, 0));
                }
                nplain += 1;
            },
        }
        i += 1;
    }
    proof {
        assert(plains.take(plains.len() as int) =~= plains);
        assert(nplain == plains.len()) by {
            lemma_plain_prefix_len(rules@, n as int, plains.take(nplain as int));
        }
        assert(keys@ == allkeys);
    }
    // second pass: one block per media key
    let nk = keys.len();
    let mut k: usize = 0;
    while k < nk
        invariant
            k <= nk,
            nk == keys@.len(),
            n == rules@.len(),
            rules_wf(rules@),
            m_wf(vars@),
            keys@ == allkeys,
            plains == plain_rules(rules@, 0, Seq::<SpecRule>::empty()),
            allkeys == media_keys(rules@, 0, Seq::<Seq<char>>::empty()),
            out@ == render_normal(plains, vars@, 0) + render_groups_upto(
                rules@,
                allkeys,
                vars@,
                k as int,
            ),
        decreases nk - k,
    {
        let key = keys.at(k);
        push_str_chars(&mut out, key.as_str());
        out.push('{');
        let ghost members = group_members(rules@, allkeys[k as int], 0, Seq::<SpecRule>::empty());
        let mut j: usize = 0;
        let mut nm: usize = 0;
        proof {
            assert(members.take(0) =~= Seq::<SpecRule>::empty());
        }
        let ghost out_before = out@;
        while j < n
            invariant
                j <= n,
                n == rules@.len(),
                rules_wf(rules@),
                m_wf(vars@),
                k < nk == keys@.len(),
                keys@ == allkeys,
                members == group_members(rules@, allkeys[k as int], 0, Seq::<SpecRule>::empty()),
                members == group_members(
                    rules@,
                    allkeys[k as int],
                    j as int,
                    members.take(nm as int),
                ),
                nm <= members.len(),
                nm <= j,
                out@ == out_before + render_inner(members.take(nm as int), vars@, 0),
                key@ == allkeys[k as int],
            decreases n - j,
        {
            let sel = rules.sel_at(j);
            let sv = str_to_chars(sel.as_str());
            match media_split_exec(&sv) {
                Some(p) => {
                    if str_eq(chars_to_string(&p.0).as_str(), key.as_str()) {
                        let ghost pre = members.take(nm as int);
                        proof {
                            assert(media_split(rules@[j as int].0) == Some((p.0@, p.1@)));
                            assert(p.0@ == allkeys[k as int]);
                            assert(members == group_members(
                                rules@,
                                allkeys[k as int],
                                j + 1,
                                pre.push((p.1@, rules@[j as int].1)),
                            ));
                            lemma_members_acc(
                                rules@,
                                allkeys[k as int],
                                j as int + 1,
                                pre.push((p.1@, rules@[j as int].1)),
                            );
                            assert(members.len() >= nm + 1);
                            assert(pre.push((p.1@, rules@[j as int].1)) =~= members.take(
                                nm as int + 1,
                            ));
                        }
                        let inner_s = chars_to_string(&p.1);
                        push_str_chars(&mut out, inner_s.as_str());
                        out.push('{');
                        let body = css_props_string(rules.props_at(j), vars);
                        push_str_chars(&mut out, body.as_str());
                        out.push('}');
                        proof {
                            lemma_render_inner_snoc(members.take(nm as int + 1), vars@);
                            assert(members.take(nm as int + 1).drop_last() =~= members.take(
                                nm as int,
                            ));
                            assert(members.take(nm as int + 1).last() == (
                                p.1@,
                                rules@[j as int].1,
                            ));
                            assert(out@ =~= out_before + render_inner(
                                members.take(nm as int + 1),
                                vars@,
                                0,
                            ));
                        }
                        nm += 1;
                    }
                },
                None => {},
            }
            j += 1;
        }
        proof {
            assert(members.take(members.len() as int) =~= members);
            assert(nm == members.len()) by {
                lemma_members_prefix_len(
                    rules@,
                    allkeys[k as int],
                    n as int,
                    members.take(nm as int),
                );
            }
        }
        out.push('}');
        out.push('\n');
        proof {
            lemma_render_groups_snoc(rules@, allkeys, vars@, k as int);
            assert(out@ =~= render_normal(plains, vars@, 0) + render_groups_upto(
                rules@,
                allkeys,
                vars@,
                k as int + 1,
            ));
        }
        k += 1;
    }
    proof {
        lemma_render_groups_upto_full(rules@, allkeys, vars@);
    }
    chars_to_string(&out)
}

/// The media blocks rendered for the first `k` keys.
pub open spec fn render_groups_upto(
    rules: Seq<SpecRule>,
    keys: Seq<Seq<char>>,
    vars: SpecVars,
    k: int,
) -> Seq<char>
    decreases k,
{
    if k <= 0 {
        Seq::<char>::empty()
    } else {
        render_groups_upto(rules, keys, vars, k - 1) + (if k - 1 < keys.len() {
            keys[k - 1] + seq!['{'] + render_inner(
                group_members(rules, keys[k - 1], 0, Seq::<SpecRule>::empty()),
                vars,
                0,
            ) + seq!['}', '\n']
        } else {
            Seq::<char>::empty()
        })
    }
}

proof fn lemma_render_groups_snoc(
    rules: Seq<SpecRule>,
    keys: Seq<Seq<char>>,
    vars: SpecVars,
    k: int,
)
    requires
        0 <= k < keys.len(),
    ensures
        render_groups_upto(rules, keys, vars, k + 1) == render_groups_upto(rules, keys, vars, k)
            + (keys[k] + seq!['{'] + render_inner(
            group_members(rules, keys[k], 0, Seq::<SpecRule>::empty()),
            vars,
            0,
        ) + seq!['}', '\n']),
{
}

proof fn lemma_render_groups_upto_full(rules: Seq<SpecRule>, keys: Seq<Seq<char>>, vars: SpecVars)
    ensures
        render_groups_upto(rules, keys, vars, keys.len() as int) == render_groups(
            rules,
            keys,
            vars,
            0,
        ),
{
    lemma_render_groups_upto_rec(rules, keys, vars, 0);
}

proof fn lemma_render_groups_upto_rec(
    rules: Seq<SpecRule>,
    keys: Seq<Seq<char>>,
    vars: SpecVars,
    k: int,
)
    requires
        0 <= k <= keys.len(),
    ensures
        render_groups_upto(rules, keys, vars, keys.len() as int) == render_groups_upto(
            rules,
            keys,
            vars,
            k,
        ) + render_groups(rules, keys, vars, k),
    decreases keys.len() - k,
{
    if k == keys.len() {
        assert(render_groups(rules, keys, vars, k) =~= Seq::<char>::empty());
        assert(render_groups_upto(rules, keys, vars, k) + Seq::<char>::empty()
            =~= render_groups_upto(rules, keys, vars, k));
    } else {
        lemma_render_groups_upto_rec(rules, keys, vars, k + 1);
        lemma_render_groups_snoc(rules, keys, vars, k);
        assert((render_groups_upto(rules, keys, vars, k) + (keys[k] + seq!['{'] + render_inner(
            group_members(rules, keys[k], 0, Seq::<SpecRule>::empty()),
            vars,
            0,
        ) + seq!['}', '\n'])) + render_groups(rules, keys, vars, k + 1)
            =~= render_groups_upto(rules, keys, vars, k) + ((keys[k] + seq!['{'] + render_inner(
            group_members(rules, keys[k], 0, Seq::<SpecRule>::empty()),
            vars,
            0,
        ) + seq!['}', '\n']) + render_groups(rules, keys, vars, k + 1)));
    }
}

proof fn lemma_render_normal_snoc(rules: Seq<SpecRule>, vars: SpecVars)
    requires
        rules.len() > 0,
    ensures
        render_normal(rules, vars, 0) == render_normal(rules.drop_last(), vars, 0) + (
        rules.last().0 + seq!['{'] + css_props_text(rules.last().1, vars, 0) + seq!['}', '\n']),
    decreases rules.len(),
{
    lemma_render_normal_snoc_rec(rules, vars, 0);
}

proof fn lemma_render_normal_snoc_rec(rules: Seq<SpecRule>, vars: SpecVars, i: int)
    requires
        rules.len() > 0,
        0 <= i <= rules.len() - 1,
    ensures
        render_normal(rules, vars, i) == render_normal(rules.drop_last(), vars, i) + (
        rules.last().0 + seq!['{'] + css_props_text(rules.last().1, vars, 0) + seq!['}', '\n']),
    decreases rules.len() - i,
{
    let tail = rules.last().0 + seq!['{'] + css_props_text(rules.last().1, vars, 0) + seq![
        '}',
        '\n',
    ];
    if i == rules.len() - 1 {
        assert(render_normal(rules.drop_last(), vars, i) =~= Seq::<char>::empty());
        assert(render_normal(rules, vars, i + 1) =~= Seq::<char>::empty());
        assert(render_normal(rules, vars, i) =~= tail);
        assert(Seq::<char>::empty() + tail =~= tail);
    } else {
        lemma_render_normal_snoc_rec(rules, vars, i + 1);
        assert(rules.drop_last()[i] == rules[i]);
        let head = rules[i].0 + seq!['{'] + css_props_text(rules[i].1, vars, 0) + seq![
            '}',
            '\n',
        ];
        assert(render_normal(rules, vars, i) == head + render_normal(rules, vars, i + 1));
        assert(render_normal(rules.drop_last(), vars, i) == head + render_normal(
            rules.drop_last(),
            vars,
            i + 1,
        ));
        assert((head + render_normal(rules.drop_last(), vars, i + 1)) + tail =~= head + (
        render_normal(rules.drop_last(), vars, i + 1) + tail));
    }
}

proof fn lemma_render_inner_snoc(rules: Seq<SpecRule>, vars: SpecVars)
    requires
        rules.len() > 0,
    ensures
        render_inner(rules, vars, 0) == render_inner(rules.drop_last(), vars, 0) + (
        rules.last().0 + seq!['{'] + css_props_text(rules.last().1, vars, 0) + seq!['}']),
{
    lemma_render_inner_snoc_rec(rules, vars, 0);
}

proof fn lemma_render_inner_snoc_rec(rules: Seq<SpecRule>, vars: SpecVars, i: int)
    requires
        rules.len() > 0,
        0 <= i <= rules.len() - 1,
    ensures
        render_inner(rules, vars, i) == render_inner(rules.drop_last(), vars, i) + (
        rules.last().0 + seq!['{'] + css_props_text(rules.last().1, vars, 0) + seq!['}']),
    decreases rules.len() - i,
{
    let tail = rules.last().0 + seq!['{'] + css_props_text(rules.last().1, vars, 0) + seq!['}'];
    if i == rules.len() - 1 {
        assert(render_inner(rules.drop_last(), vars, i) =~= Seq::<char>::empty());
        assert(render_inner(rules, vars, i + 1) =~= Seq::<char>::empty());
        assert(render_inner(rules, vars, i) =~= tail);
        assert(Seq::<char>::empty() + tail =~= tail);
    } else {
        lemma_render_inner_snoc_rec(rules, vars, i + 1);
        assert(rules.drop_last()[i] == rules[i]);
        let head = rules[i].0 + seq!['{'] + css_props_text(rules[i].1, vars, 0) + seq!['}'];
        assert((head + render_inner(rules.drop_last(), vars, i + 1)) + tail =~= head + (
        render_inner(rules.drop_last(), vars, i + 1) + tail));
    }
}

/// The accumulator is a prefix of what the fold yields.
proof fn lemma_plain_acc(rules: Seq<SpecRule>, i: int, acc: Seq<SpecRule>)
    ensures
        plain_rules(rules, i, acc).len() >= acc.len(),
        plain_rules(rules, i, acc).take(acc.len() as int) == acc,
    decreases rules.len() - i,
{
    if 0 <= i < rules.len() {
        match media_split(rules[i].0) {
            Some(_) => {
                lemma_plain_acc(rules, i + 1, acc);
            },
            None => {
                let acc2 = acc.push(rules[i]);
                lemma_plain_acc(rules, i + 1, acc2);
                let res = plain_rules(rules, i, acc);
                assert(res.take(acc2.len() as int) == acc2);
                assert(res.take(acc.len() as int) =~= res.take(acc2.len() as int).take(
                    acc.len() as int,
                ));
                assert(acc2.take(acc.len() as int) =~= acc);
            },
        }
    } else {
        assert(plain_rules(rules, i, acc).take(acc.len() as int) =~= acc);
    }
}

proof fn lemma_plain_prefix_len(rules: Seq<SpecRule>, i: int, acc: Seq<SpecRule>)
    requires
        i >= rules.len(),
    ensures
        plain_rules(rules, i, acc) == acc,
{
}

proof fn lemma_members_acc(rules: Seq<SpecRule>, key: Seq<char>, i: int, acc: Seq<SpecRule>)
    ensures
        group_members(rules, key, i, acc).len() >= acc.len(),
        group_members(rules, key, i, acc).take(acc.len() as int) == acc,
    decreases rules.len() - i,
{
    if 0 <= i < rules.len() {
        let next = match media_split(rules[i].0) {
            Some(p) => {
                if p.0 == key {
                    acc.push((p.1, rules[i].1))
                } else {
                    acc
                }
            },
            None => acc,
        };
        lemma_members_acc(rules, key, i + 1, next);
        if next.len() > acc.len() {
            let res = group_members(rules, key, i, acc);
            assert(res.take(next.len() as int) == next);
            assert(res.take(acc.len() as int) =~= res.take(next.len() as int).take(
                acc.len() as int,
            ));
            assert(next.take(acc.len() as int) =~= acc);
        }
    } else {
        assert(group_members(rules, key, i, acc).take(acc.len() as int) =~= acc);
    }
}

proof fn lemma_members_prefix_len(rules: Seq<SpecRule>, key: Seq<char>, i: int, acc: Seq<SpecRule>)
    requires
        i >= rules.len(),
    ensures
        group_members(rules, key, i, acc) == acc,
{
}


// ===== the whole-stylesheet projection =====

/// Observed pairs close over their parts: each `tag|class` pair marks both
/// the tag and the class as used.
pub open spec fn used_closure_fold(
    tcs: Seq<Seq<char>>,
    i: int,
    tags: Seq<Seq<char>>,
    classes: Seq<Seq<char>>,
) -> (Seq<Seq<char>>, Seq<Seq<char>>)
    decreases tcs.len() - i,
{
    if i < 0 || i >= tcs.len() {
        (tags, classes)
    } else {
        match split2_spec(tcs[i], '|') {
            Some(p) => used_closure_fold(tcs, i + 1, s_add(tags, p.0), s_add(classes, p.1)),
            None => used_closure_fold(tcs, i + 1, tags, classes),
        }
    }
}

/// The themed rules that pass the observation test, in rule-set order.
pub open spec fn theme_rules_fold(
    eff: SpecSelectors,
    tags: Seq<Seq<char>>,
    classes: Seq<Seq<char>>,
    tcs: Seq<Seq<char>>,
    i: int,
    acc: Seq<SpecRule>,
) -> Seq<SpecRule>
    decreases eff.len() - i,
{
    if i < 0 || i >= eff.len() {
        acc
    } else {
        let acc1 = if should_emit_spec(eff[i].0, tags, classes, tcs) {
            acc.push((eff[i].0, eff[i].1))
        } else {
            acc
        };
        theme_rules_fold(eff, tags, classes, tcs, i + 1, acc1)
    }
}

/// The rule one observed class contributes: an exact themed selector, else
/// its utility expansion, else a themed rule under the raw class key; the
/// selector is wrapped in its breakpoint's media prelude.
pub open spec fn class_rule(
    eff: SpecSelectors,
    vars: SpecVars,
    bps: SpecVars,
    class: Seq<char>,
) -> Option<SpecRule> {
    let pp = parse_prefixed_spec(class);
    let bp = pp.0;
    let hover = pp.1;
    let base = pp.2;
    let selector: Seq<char> = if hover {
        seq!['.'] + escape_spec(base) + ":hover"@
    } else {
        seq!['.'] + escape_spec(base)
    };
    if m_contains(eff, selector) {
        Some((wrap_media_spec(selector, bp, bps), m_val(eff, selector)))
    } else {
        match class_props_spec(base, vars) {
            Some(p) => Some((wrap_media_spec(selector, bp, bps), p)),
            None => {
                if m_contains(eff, base) {
                    Some((wrap_media_spec(selector, bp, bps), m_val(eff, base)))
                } else {
                    None
                }
            },
        }
    }
}

pub open spec fn class_rules_fold(
    eff: SpecSelectors,
    vars: SpecVars,
    bps: SpecVars,
    classes: Seq<Seq<char>>,
    i: int,
    acc: Seq<SpecRule>,
) -> Seq<SpecRule>
    decreases classes.len() - i,
{
    if i < 0 || i >= classes.len() {
        acc
    } else {
        let acc1 = match class_rule(eff, vars, bps, classes[i]) {
            Some(rule) => acc.push(rule),
            None => acc,
        };
        class_rules_fold(eff, vars, bps, classes, i + 1, acc1)
    }
}

/// The stylesheet for the whole observed usage.
pub open spec fn css_for_web_spec(s: SpecState) -> Seq<char> {
    let effv = effective_theme_spec(s);
    let eff = effv.0;
    let vars = effv.1;
    let bps = effective_breakpoints_spec(s);
    let closure = used_closure_fold(s.used_tag_classes, 0, s.used_tags, s.used_classes);
    let rules1 = theme_rules_fold(
        eff,
        closure.0,
        closure.1,
        s.used_tag_classes,
        0,
        Seq::<SpecRule>::empty(),
    );
    let rules2 = class_rules_fold(eff, vars, bps, closure.1, 0, rules1);
    post_process_spec(rules2, vars)
}

impl State {
    /// The stylesheet: every observed themed rule, then the dynamic rules
    /// of the observed classes, flattened with media grouping.
    #[verifier::rlimit(100)]
    pub fn css_for_web(&self) -> (r: String)
        requires
            state_wf(self@),
        ensures
            r@ == css_for_web_spec(self@),
    {
        let effv = self.effective_theme_all();
        let eff = effv.0;
        let vars = effv.1;
        let bps = self.effective_breakpoints();
        let mut used_tags = self.used_tags.duplicate();
        let mut used_classes = self.used_classes.duplicate();
        let ntc = self.used_tag_classes.len();
        let mut i: usize = 0;
        let ghost closure = used_closure_fold(
            self@.used_tag_classes,
            0,
            self@.used_tags,
            self@.used_classes,
        );
        while i < ntc
            invariant
                i <= ntc,
                ntc == self@.used_tag_classes.len(),
                closure == used_closure_fold(
                    self@.used_tag_classes,
                    0,
                    self@.used_tags,
                    self@.used_classes,
                ),
                closure == used_closure_fold(
                    self@.used_tag_classes,
                    i as int,
                    used_tags@,
                    used_classes@,
                ),
            decreases ntc - i,
        {
            let key = self.used_tag_classes.at(i);
            match split_tag_class_key(key.as_str()) {
                Some(p) => {
                    used_tags.insert(p.0);
                    used_classes.insert(p.1);
                },
                None => {},
            }
            i += 1;
        }
        proof {
            assert(closure == (used_tags@, used_classes@));
        }
        let mut rules = RuleList::new();
        let ne = eff.len();
        let mut j: usize = 0;
        let ghost rules1 = theme_rules_fold(
            eff@,
            closure.0,
            closure.1,
            self@.used_tag_classes,
            0,
            Seq::<SpecRule>::empty(),
        );
        while j < ne
            invariant
                j <= ne,
                ne == eff@.len(),
                sels_wf(eff@),
                rules_wf(rules@),
                closure == (used_tags@, used_classes@),
                rules1 == theme_rules_fold(
                    eff@,
                    closure.0,
                    closure.1,
                    self@.used_tag_classes,
                    0,
                    Seq::<SpecRule>::empty(),
                ),
                rules1 == theme_rules_fold(
                    eff@,
                    closure.0,
                    closure.1,
                    self@.used_tag_classes,
                    j as int,
                    rules@,
                ),
            decreases ne - j,
        {
            let sel = eff.key_at(j).clone();
            if should_emit_selector(
                sel.as_str(),
                &used_tags,
                &used_classes,
                &self.used_tag_classes,
            ) {
                proof {
                    assert(m_wf(eff@[j as int].1));
                }
                let props = dup_props(eff.value_at(j));
                rules.push(sel, props);
            }
            j += 1;
        }
        let nc = used_classes.len();
        let mut c: usize = 0;
        let ghost rules2 = class_rules_fold(eff@, vars@, bps@, closure.1, 0, rules1);
        proof {
            assert(rules@ == rules1);
        }
        while c < nc
            invariant
                c <= nc,
                nc == used_classes@.len(),
                sels_wf(eff@),
                m_wf(vars@),
                m_wf(bps@),
                rules_wf(rules@),
                closure == (used_tags@, used_classes@),
                rules2 == class_rules_fold(eff@, vars@, bps@, closure.1, 0, rules1),
                rules2 == class_rules_fold(eff@, vars@, bps@, closure.1, c as int, rules@),
            decreases nc - c,
        {
            let class = used_classes.at(c);
            let parsed = parse_prefixed_class(class.as_str());
            let (bp, hover, base) = parsed;
            let esc = css_escape_class(base.as_str());
            let mut selv: Vec<char> = Vec::new();
            selv.push('.');
            push_str_chars(&mut selv, esc.as_str());
            if hover {
                push_str_chars(&mut selv, ":hover");
                proof {
                    assert(selv@ =~= seq!['.'] + escape_spec(
                        parse_prefixed_spec(used_classes@[c as int]).2,
                    ) + ":hover"@);
                }
            } else {
                proof {
                    assert(selv@ =~= seq!['.'] + escape_spec(
                        parse_prefixed_spec(used_classes@[c as int]).2,
                    ));
                }
            }
            let selector = chars_to_string(&selv);
            let bp_ref: Option<&str> = match &bp {
                Some(b) => Some(b.as_str()),
                None => None,
            };
            let mut handled = false;
            match eff.get(selector.as_str()) {
                Some(props) => {
                    proof {
                        crate::ordmap::lemma_m_index_of(eff@, selector@);
                    }
                    let final_sel = wrap_with_media(selector.as_str(), bp_ref, &bps);
                    let p = dup_props(props);
                    rules.push(final_sel, p);
                    handled = true;
                },
                None => {},
            }
            if !handled {
                match dynamic_css_properties_for_class(base.as_str(), &vars) {
                    Some(dynamic_props) => {
                        let final_sel = wrap_with_media(selector.as_str(), bp_ref, &bps);
                        rules.push(final_sel, dynamic_props);
                        handled = true;
                    },
                    None => {},
                }
            }
            if !handled {
                match eff.get(base.as_str()) {
                    Some(props) => {
                        proof {
                            crate::ordmap::lemma_m_index_of(eff@, base@);
                        }
                        let final_sel = wrap_with_media(selector.as_str(), bp_ref, &bps);
                        let p = dup_props(props);
                        rules.push(final_sel, p);
                    },
                    None => {},
                }
            }
            c += 1;
        }
        proof {
            assert(rules@ == rules2);
        }
        post_process_css(&rules, &vars)
    }
}

// ===== one element as inline text =====

pub open spec fn elem_props_text(props: SpecProps, vars: SpecVars, i: int) -> Seq<char>
    decreases props.len() - i,
{
    if i < 0 || i >= props.len() {
        Seq::<char>::empty()
    } else {
        props[i].0 + ": "@ + css_value_text(props[i].1, vars) + "; "@ + elem_props_text(
            props,
            vars,
            i + 1,
        )
    }
}

/// One element's resolved properties as inline declaration text.
pub open spec fn css_for_element_spec(
    s: SpecState,
    selector: Seq<char>,
    classes: Seq<Seq<char>>,
) -> Seq<char> {
    let effv = effective_theme_spec(s);
    let eff = effv.0;
    let vars = effv.1;
    let base = if m_contains(eff, selector) {
        crate::theme::merge_props_spec(Seq::<(Seq<char>, crate::value::SpecVal)>::empty(), m_val(
            eff,
            selector,
        ))
    } else {
        Seq::<(Seq<char>, crate::value::SpecVal)>::empty()
    };
    let props = crate::android::classes_fold(base, eff, vars, classes, 0);
    trim_spec(elem_props_text(props, vars, 0))
}

impl State {
    /// One element's resolved properties as inline declaration text.
    pub fn css_for_element(&self, selector: &str, classes: &Vec<String>) -> (r: String)
        requires
            state_wf(self@),
        ensures
            r@ == css_for_element_spec(self@, selector@, classes.deep_view()),
    {
        let effv = self.effective_theme_all();
        let eff = effv.0;
        let vars = effv.1;
        let mut props = PropMap::new();
        match eff.get(selector) {
            Some(p) => {
                proof {
                    crate::ordmap::lemma_m_index_of(eff@, selector@);
                }
                crate::theme::merge_props(&mut props, p);
            },
            None => {},
        }
        let ghost base = props@;
        let n = classes.len();
        let mut i: usize = 0;
        while i < n
            invariant
                i <= n,
                n == classes@.len(),
                m_wf(props@),
                sels_wf(eff@),
                m_wf(vars@),
                crate::android::classes_fold(base, eff@, vars@, classes.deep_view(), 0)
                    == crate::android::classes_fold(
                    props@,
                    eff@,
                    vars@,
                    classes.deep_view(),
                    i as int,
                ),
            decreases n - i,
        {
            proof {
                assert(classes@[i as int].deep_view() =~= classes@[i as int]@);
                assert(classes.deep_view()[i as int] == classes@[i as int]@);
            }
            let class = &classes[i];
            let cv = str_to_chars(class.as_str());
            let normalized: Vec<char> = if cv.len() > 0 && {
                let c0 = cv[0];
                c0 == '.'
            } {
                subvec(&cv, 1, cv.len())
            } else {
                subvec(&cv, 0, cv.len())
            };
            proof {
                let spec_cls = classes.deep_view()[i as int];
                if spec_cls.len() > 0 && spec_cls[0] == '.' {
                    assert(normalized@ =~= spec_cls.skip(1));
                } else {
                    assert(normalized@ =~= spec_cls);
                }
            }
            let norm_s = chars_to_string(&normalized);
            let parsed = parse_prefixed_class(norm_s.as_str());
            let basec = parsed.2;
            let sel = class_to_selector(basec.as_str());
            let mut matched = false;
            match eff.get(sel.as_str()) {
                Some(p) => {
                    proof {
                        crate::ordmap::lemma_m_index_of(eff@, sel@);
                    }
                    crate::theme::merge_props(&mut props, p);
                    matched = true;
                },
                None => {},
            }
            if !matched {
                match dynamic_css_properties_for_class(basec.as_str(), &vars) {
                    Some(dynamic_props) => {
                        crate::theme::merge_props(&mut props, &dynamic_props);
                        matched = true;
                    },
                    None => {},
                }
            }
            if !matched {
                match eff.get(basec.as_str()) {
                    Some(p) => {
                        proof {
                            crate::ordmap::lemma_m_index_of(eff@, basec@);
                        }
                        crate::theme::merge_props(&mut props, p);
                    },
                    None => {},
                }
            }
            i += 1;
        }
        let np = props.len();
        let mut out: Vec<char> = Vec::new();
        let mut k: usize = 0;
        proof {
            assert(Seq::<char>::empty() + elem_props_text(props@, vars@, 0) =~= elem_props_text(
                props@,
                vars@,
                0,
            ));
        }
        while k < np
            invariant
                k <= np,
                np == props@.len(),
                m_wf(props@),
                m_wf(vars@),
                elem_props_text(props@, vars@, 0) == out@ + elem_props_text(
                    props@,
                    vars@,
                    k as int,
                ),
            decreases np - k,
        {
            let ghost pre = out@;
            let key = props.key_at(k);
            push_str_chars(&mut out, key.as_str());
            push_str_chars(&mut out, ": ");
            let val = css_value_text_exec(props.value_at(k), &vars);
            push_chars(&mut out, &val);
            push_str_chars(&mut out, "; ");
            proof {
                assert(out@ =~= pre + (props@[k as int].0 + ": "@ + css_value_text(
                    props@[k as int].1,
                    vars@,
                ) + "; "@));
                assert(out@ + elem_props_text(props@, vars@, k + 1) =~= pre + ((
                props@[k as int].0 + ": "@ + css_value_text(props@[k as int].1, vars@) + "; "@)
                    + elem_props_text(props@, vars@, k + 1)));
            }
            k += 1;
        }
        proof {
            assert(out@ + elem_props_text(props@, vars@, np as int) =~= out@);
        }
        let trimmed = trim(&out);
        chars_to_string(&trimmed)
    }
}

} // verus!
