//! Themes and the session state: named bundles of selector rules, variables
//! and breakpoints, with single inheritance; the resolver walks the
//! inheritance chain and merges ancestor to descendant, child overriding.

use vstd::prelude::*;
use crate::ordmap::{
    m_contains, m_get, m_insert, m_val, m_wf, s_add, s_contains, s_wf, OrdMap, OrdSet,
};
use crate::strutil::{
    chars_to_string, first_ix, push_str_chars, str_to_chars, subvec, trim, trim_spec,
};
use crate::units::{PropMap, SpecProps};
use crate::value::StyleValue;

verus! {

pub type CssProps = PropMap;

pub type SelectorStyles = OrdMap<PropMap>;

pub type SpecSelectors = Seq<(Seq<char>, SpecProps)>;

pub type SpecVars = Seq<(Seq<char>, Seq<char>)>;

/// Mathematical value of a [`ThemeEntry`].
pub struct SpecTheme {
    pub name: Option<Seq<char>>,
    pub inherits: Option<Seq<char>>,
    pub selectors: SpecSelectors,
    pub variables: SpecVars,
    pub breakpoints: SpecVars,
}

#[derive(Debug)]
pub struct ThemeEntry {
    pub name: Option<String>,
    pub inherits: Option<String>,
    pub selectors: SelectorStyles,
    pub variables: OrdMap<String>,
    pub breakpoints: OrdMap<String>,
}

impl View for ThemeEntry {
    type V = SpecTheme;

    open spec fn view(&self) -> SpecTheme {
        SpecTheme {
            name: match &self.name {
                Some(n) => Some(n@),
                None => None,
            },
            inherits: match &self.inherits {
                Some(n) => Some(n@),
                None => None,
            },
            selectors: self.selectors@,
            variables: self.variables@,
            breakpoints: self.breakpoints@,
        }
    }
}

/// Well-formed theme: unique keys throughout.
pub open spec fn theme_wf(t: SpecTheme) -> bool {
    &&& m_wf(t.selectors)
    &&& forall|i: int| 0 <= i < t.selectors.len() ==> m_wf((#[trigger] t.selectors[i]).1)
    &&& m_wf(t.variables)
    &&& m_wf(t.breakpoints)
}

impl ThemeEntry {
    /// An empty theme, as a map entry's default.
    pub fn new_empty() -> (r: ThemeEntry)
        ensures
            r@.name is None,
            r@.inherits is None,
            r@.selectors == Seq::<(Seq<char>, SpecProps)>::empty(),
            r@.variables == Seq::<(Seq<char>, Seq<char>)>::empty(),
            r@.breakpoints == Seq::<(Seq<char>, Seq<char>)>::empty(),
            theme_wf(r@),
    {
        ThemeEntry {
            name: None,
            inherits: None,
            selectors: OrdMap::new(),
            variables: OrdMap::new(),
            breakpoints: OrdMap::new(),
        }
    }
}

/// Mathematical value of a [`State`].
pub struct SpecState {
    pub themes: Seq<(Seq<char>, SpecTheme)>,
    pub default_theme: Seq<char>,
    pub current_theme: Seq<char>,
    pub display_density: int,
    pub scaled_density: int,
    pub used_classes: Seq<Seq<char>>,
    pub used_tags: Seq<Seq<char>>,
    pub used_tag_classes: Seq<Seq<char>>,
}

/// One render session's state: the theme set, the active theme, display
/// metrics (densities in thousandths; `1000` is a density of one), and the
/// observed usage.
#[derive(Debug)]
pub struct State {
    pub themes: OrdMap<ThemeEntry>,
    pub default_theme: String,
    pub current_theme: String,
    pub display_density: u32,
    pub scaled_density: u32,
    pub used_classes: OrdSet,
    pub used_tags: OrdSet,
    pub used_tag_classes: OrdSet,
}

impl View for State {
    type V = SpecState;

    open spec fn view(&self) -> SpecState {
        SpecState {
            themes: self.themes@,
            default_theme: self.default_theme@,
            current_theme: self.current_theme@,
            display_density: self.display_density as int,
            scaled_density: self.scaled_density as int,
            used_classes: self.used_classes@,
            used_tags: self.used_tags@,
            used_tag_classes: self.used_tag_classes@,
        }
    }
}

pub open spec fn state_wf(s: SpecState) -> bool {
    &&& m_wf(s.themes)
    &&& forall|i: int| 0 <= i < s.themes.len() ==> theme_wf((#[trigger] s.themes[i]).1)
    &&& 0 <= s.display_density <= 1_000_000
    &&& 0 <= s.scaled_density <= 1_000_000
    &&& s_wf(s.used_classes)
    &&& s_wf(s.used_tags)
    &&& s_wf(s.used_tag_classes)
}

/// The theme-not-found error, the one failure the library reports.
#[derive(Debug)]
pub enum Error {
    ThemeNotFound(String),
}

pub enum SpecError {
    ThemeNotFound(Seq<char>),
}

impl View for Error {
    type V = SpecError;

    open spec fn view(&self) -> SpecError {
        match self {
            Error::ThemeNotFound(n) => SpecError::ThemeNotFound(n@),
        }
    }
}

impl Error {
    /// The error as readable text.
    pub fn message(&self) -> (r: String)
        ensures
            self@ matches SpecError::ThemeNotFound(n) && r@ == "theme not found: "@ + n,
    {
        match self {
            Error::ThemeNotFound(n) => {
                let mut v: Vec<char> = Vec::new();
                push_str_chars(&mut v, "theme not found: ");
                push_str_chars(&mut v, n.as_str());
                chars_to_string(&v)
            },
        }
    }
}

// ===== merging property maps =====

/// Merging writes every entry of the source over the target, in source
/// order: an existing key keeps its position and takes the source value.
pub open spec fn merge_props_spec(into: SpecProps, from: SpecProps) -> SpecProps
    decreases from.len(),
{
    if from.len() == 0 {
        into
    } else {
        merge_props_spec(m_insert(into, from[0].0, from[0].1), from.drop_first())
    }
}

pub proof fn lemma_merge_props_wf(into: SpecProps, from: SpecProps)
    requires
        m_wf(into),
    ensures
        m_wf(merge_props_spec(into, from)),
    decreases from.len(),
{
    if from.len() > 0 {
        lemma_merge_props_wf(m_insert(into, from[0].0, from[0].1), from.drop_first());
    }
}

pub fn merge_props(into: &mut PropMap, from: &PropMap)
    requires
        m_wf(old(into)@),
    ensures
        final(into)@ == merge_props_spec(old(into)@, from@),
        m_wf(final(into)@),
{
    let n = from.len();
    let mut i: usize = 0;
    proof {
        assert(from@.skip(0) =~= from@);
    }
    while i < n
        invariant
            i <= n,
            n == from@.len(),
            m_wf(into@),
            merge_props_spec(old(into)@, from@) == merge_props_spec(into@, from@.skip(i as int)),
        decreases n - i,
    {
        let k = from.key_at(i).clone();
        let v = from.value_at(i).dup();
        proof {
            let rem = from@.skip(i as int);
            assert(rem[0] == from@[i as int]);
            assert(rem.drop_first() =~= from@.skip(i + 1));
        }
        into.insert(k, v);
        i += 1;
    }
    proof {
        assert(from@.skip(n as int) =~= Seq::<(Seq<char>, crate::value::SpecVal)>::empty());
    }
}

/// A copy of a property map with the same mathematical value.
pub fn dup_props(m: &PropMap) -> (r: PropMap)
    requires
        m_wf(m@),
    ensures
        r@ == m@,
        m_wf(r@),
{
    let mut r = PropMap::new();
    merge_props(&mut r, m);
    proof {
        lemma_merge_empty(m@);
    }
    r
}

proof fn lemma_merge_empty(from: SpecProps)
    requires
        m_wf(from),
    ensures
        merge_props_spec(Seq::<(Seq<char>, crate::value::SpecVal)>::empty(), from) == from,
    decreases from.len(),
{
    lemma_merge_prefix(Seq::<(Seq<char>, crate::value::SpecVal)>::empty(), from);
}

/// Merging into a map that holds none of the source's keys appends the
/// source entries in order.
proof fn lemma_merge_prefix(into: SpecProps, from: SpecProps)
    requires
        m_wf(into),
        m_wf(from),
        forall|i: int| 0 <= i < from.len() ==> !m_contains(into, (#[trigger] from[i]).0),
    ensures
        merge_props_spec(into, from) == into + from,
    decreases from.len(),
{
    if from.len() == 0 {
        assert(into + from =~= into);
    } else {
        let e = from[0];
        assert(!m_contains(into, e.0));
        let into1 = m_insert(into, e.0, e.1);
        assert(into1 == into.push(e));
        assert(m_wf(into1)) by {
            assert forall|i: int, j: int|
                0 <= i < j < into1.len() implies (#[trigger] into1[i]).0 != (
            #[trigger] into1[j]).0 by {
                if j < into1.len() - 1 {
                } else {
                    assert(!m_contains(into, e.0));
                    assert(into1[i] == into[i]);
                }
            }
        }
        let rest = from.drop_first();
        assert(m_wf(rest)) by {
            assert(forall|i: int| 0 <= i < rest.len() ==> rest[i] == from[i + 1]);
        }
        assert(forall|i: int| 0 <= i < rest.len() ==> rest[i] == from[i + 1]);
        assert forall|i: int| 0 <= i < rest.len() implies !m_contains(
            into1,
            (#[trigger] rest[i]).0,
        ) by {
            assert(rest[i] == from[i + 1]);
            assert(from[0].0 != from[i + 1].0);
            if m_contains(into1, rest[i].0) {
                let w = crate::ordmap::m_index_of(into1, rest[i].0);
                crate::ordmap::lemma_m_index_of(into1, rest[i].0);
                if w < into.len() {
                    assert(m_contains(into, rest[i].0));
                }
            }
        }
        lemma_merge_prefix(into1, rest);
        assert(into1 + rest =~= into + from);
    }
}

// ===== the inheritance chain =====

/// The chain from a starting theme through `inherits` links: a name already
/// seen, a missing theme, or a theme without a parent ends the walk. The
/// fuel bounds the walk; one more than the number of themes always
/// suffices.
pub open spec fn chain_rec(
    themes: Seq<(Seq<char>, SpecTheme)>,
    cur: Seq<char>,
    seen: Seq<Seq<char>>,
    fuel: nat,
) -> Seq<Seq<char>>
    decreases fuel,
{
    if fuel == 0 {
        Seq::<Seq<char>>::empty()
    } else if s_contains(seen, cur) {
        Seq::<Seq<char>>::empty()
    } else {
        let rest = match m_get(themes, cur) {
            Some(t) => match t.inherits {
                Some(p) => chain_rec(themes, p, seen.push(cur), (fuel - 1) as nat),
                None => Seq::<Seq<char>>::empty(),
            },
            None => Seq::<Seq<char>>::empty(),
        };
        seq![cur] + rest
    }
}

/// The resolved chain: the current theme (the default, or the first theme,
/// when it is missing) through its ancestors, with the default theme
/// appended when the walk did not reach it.
pub open spec fn theme_chain_spec(s: SpecState) -> Seq<Seq<char>> {
    if s.themes.len() == 0 {
        Seq::<Seq<char>>::empty()
    } else {
        let default_name = if m_contains(s.themes, s.default_theme) {
            s.default_theme
        } else {
            s.themes[0].0
        };
        let cur = if m_contains(s.themes, s.current_theme) {
            s.current_theme
        } else {
            default_name
        };
        let chain = chain_rec(s.themes, cur, Seq::<Seq<char>>::empty(), (s.themes.len() + 1) as nat);
        if s_contains(chain, default_name) {
            chain
        } else {
            chain.push(default_name)
        }
    }
}

/// Distinct names that all key a map are no more numerous than the map.
proof fn lemma_distinct_members_bound(themes: Seq<(Seq<char>, SpecTheme)>, seen: Seq<Seq<char>>)
    requires
        m_wf(themes),
        s_wf(seen),
        forall|i: int| 0 <= i < seen.len() ==> m_contains(themes, #[trigger] seen[i]),
    ensures
        seen.len() <= themes.len(),
{
    broadcast use vstd::seq_lib::group_seq_lib_default, vstd::set_lib::group_set_lib_default,
        vstd::set::group_set_axioms;

    let keys = Seq::new(themes.len(), |i: int| themes[i].0);
    assert(keys.no_duplicates());
    assert(seen.no_duplicates());
    seen.unique_seq_to_set();
    keys.unique_seq_to_set();
    assert forall|x: Seq<char>| seen.to_set().contains(x) implies keys.to_set().contains(x) by {
        let i = choose|i: int| 0 <= i < seen.len() && seen[i] == x;
        assert(m_contains(themes, x));
        let j = crate::ordmap::m_index_of(themes, x);
        crate::ordmap::lemma_m_index_of(themes, x);
        assert(keys[j] == x);
    }
    vstd::set_lib::lemma_len_subset(seen.to_set(), keys.to_set());
}

impl State {
    /// The inheritance chain for the active theme, child first.
    pub fn theme_chain(&self) -> (r: Vec<String>)
        requires
            state_wf(self@),
        ensures
            r.deep_view() == theme_chain_spec(self@),
    {
        let n = self.themes.len();
        let mut chain: Vec<String> = Vec::new();
        if n == 0 {
            proof {
                assert(chain.deep_view() =~= Seq::<Seq<char>>::empty());
            }
            return chain;
        }
        let default_name: String = if self.themes.contains_key(self.default_theme.as_str()) {
            self.default_theme.clone()
        } else {
            self.themes.key_at(0).clone()
        };
        let mut cur: String = if self.themes.contains_key(self.current_theme.as_str()) {
            self.current_theme.clone()
        } else {
            default_name.clone()
        };
        let ghost cur0 = cur@;
        let ghost full = chain_rec(
            self@.themes,
            cur0,
            Seq::<Seq<char>>::empty(),
            (self@.themes.len() + 1) as nat,
        );
        let mut seen = OrdSet::new();
        proof {
            assert(chain.deep_view() =~= Seq::<Seq<char>>::empty());
            assert(Seq::<Seq<char>>::empty() + full =~= full);
        }
        loop
            invariant
                state_wf(self@),
                n == self@.themes.len(),
                n > 0,
                s_wf(seen@),
                seen@ == chain.deep_view(),
                forall|i: int| 0 <= i < seen@.len() ==> m_contains(self@.themes, #[trigger] seen@[i]),
                default_name@ == (if m_contains(self@.themes, self@.default_theme) {
                    self@.default_theme
                } else {
                    self@.themes[0].0
                }),
                full == chain_rec(
                    self@.themes,
                    (if m_contains(self@.themes, self@.current_theme) {
                        self@.current_theme
                    } else {
                        if m_contains(self@.themes, self@.default_theme) {
                            self@.default_theme
                        } else {
                            self@.themes[0].0
                        }
                    }),
                    Seq::<Seq<char>>::empty(),
                    (self@.themes.len() + 1) as nat,
                ),
                full == chain.deep_view() + chain_rec(
                    self@.themes,
                    cur@,
                    seen@,
                    ((n + 1) - seen@.len()) as nat,
                ),
            ensures
                full == chain.deep_view(),
            decreases (n + 1) - seen@.len(),
        {
            proof {
                lemma_distinct_members_bound(self@.themes, seen@);
            }
            if seen.contains(cur.as_str()) {
                proof {
                    assert(chain_rec(
                        self@.themes,
                        cur@,
                        seen@,
                        ((n + 1) - seen@.len()) as nat,
                    ) =~= Seq::<Seq<char>>::empty());
                    assert(chain.deep_view() + Seq::<Seq<char>>::empty() =~= chain.deep_view());
                }
                break;
            }
            let ghost fuel = ((n + 1) - seen@.len()) as nat;
            proof {
                assert(fuel >= 1);
            }
            let inh: Option<String> = match self.themes.get(cur.as_str()) {
                Some(t) => match &t.inherits {
                    Some(p) => Some(p.clone()),
                    None => None,
                },
                None => None,
            };
            let is_member = self.themes.contains_key(cur.as_str());
            let ghost old_dv = chain.deep_view();
            let ghost old_seen = seen@;
            chain.push(cur.clone());
            seen.insert(cur.clone());
            proof {
                assert(chain.deep_view() =~~= old_dv + seq![cur@]);
                assert(seen@ =~= old_seen.push(cur@));
                assert(seen@ =~= chain.deep_view());
            }
            match inh {
                Some(p) => {
                    proof {
                        assert(chain_rec(self@.themes, cur@, old_seen, fuel) == seq![cur@]
                            + chain_rec(self@.themes, p@, old_seen.push(cur@), (fuel - 1) as nat));
                        assert((old_dv + seq![cur@]) + chain_rec(
                            self@.themes,
                            p@,
                            seen@,
                            (fuel - 1) as nat,
                        ) =~= old_dv + (seq![cur@] + chain_rec(
                            self@.themes,
                            p@,
                            seen@,
                            (fuel - 1) as nat,
                        )));
                    }
                    cur = p;
                },
                None => {
                    proof {
                        assert(chain_rec(self@.themes, cur@, old_seen, fuel) =~= seq![cur@]);
                        assert((old_dv + seq![cur@]) =~= old_dv + seq![cur@]);
                        assert(full == chain.deep_view());
                        if !is_member {
                        }
                    }
                    return self.finish_chain(chain, default_name);
                },
            }
        }
        self.finish_chain(chain, default_name)
    }

    /// Append the default theme when the walk did not reach it.
    fn finish_chain(&self, chain: Vec<String>, default_name: String) -> (r: Vec<String>)
        requires
            state_wf(self@),
            self@.themes.len() > 0,
            default_name@ == (if m_contains(self@.themes, self@.default_theme) {
                self@.default_theme
            } else {
                self@.themes[0].0
            }),
            chain.deep_view() == chain_rec(
                self@.themes,
                (if m_contains(self@.themes, self@.current_theme) {
                    self@.current_theme
                } else {
                    if m_contains(self@.themes, self@.default_theme) {
                        self@.default_theme
                    } else {
                        self@.themes[0].0
                    }
                }),
                Seq::<Seq<char>>::empty(),
                (self@.themes.len() + 1) as nat,
            ),
        ensures
            r.deep_view() == theme_chain_spec(self@),
    {
        let mut chain = chain;
        let mut found = false;
        let m = chain.len();
        let mut i: usize = 0;
        while i < m
            invariant
                i <= m,
                m == chain@.len(),
                found == exists|j: int| 0 <= j < i && chain.deep_view()[j] == default_name@,
            decreases m - i,
        {
            proof {
                assert(chain@[i as int].deep_view() =~= chain@[i as int]@);
                assert(chain.deep_view()[i as int] == chain@[i as int].deep_view());
            }
            if crate::strutil::str_eq(chain[i].as_str(), default_name.as_str()) {
                proof {
                    assert(chain.deep_view()[i as int] == default_name@);
                }
                found = true;
            } else {
                proof {
                    assert(chain.deep_view()[i as int] != default_name@);
                }
            }
            i += 1;
        }
        proof {
            assert(found == s_contains(chain.deep_view(), default_name@));
        }
        if !found {
            let ghost old_dv = chain.deep_view();
            chain.push(default_name);
            proof {
                assert(chain.deep_view() =~~= old_dv.push(
                    (if m_contains(self@.themes, self@.default_theme) {
                        self@.default_theme
                    } else {
                        self@.themes[0].0
                    }),
                ));
            }
        }
        chain
    }
}

// ===== merging the chain into one effective rule set =====

pub open spec fn sels_wf(m: SpecSelectors) -> bool {
    m_wf(m) && forall|i: int| 0 <= i < m.len() ==> m_wf((#[trigger] m[i]).1)
}

/// One selector's properties merged into the accumulated rule set.
pub open spec fn add_rule(acc: SpecSelectors, sel: Seq<char>, props: SpecProps) -> SpecSelectors {
    let cur = if m_contains(acc, sel) {
        m_val(acc, sel)
    } else {
        Seq::<(Seq<char>, crate::value::SpecVal)>::empty()
    };
    m_insert(acc, sel, merge_props_spec(cur, props))
}

proof fn lemma_add_rule_wf(acc: SpecSelectors, sel: Seq<char>, props: SpecProps)
    requires
        sels_wf(acc),
        m_wf(props),
    ensures
        sels_wf(add_rule(acc, sel, props)),
{
    let cur = if m_contains(acc, sel) {
        m_val(acc, sel)
    } else {
        Seq::<(Seq<char>, crate::value::SpecVal)>::empty()
    };
    if m_contains(acc, sel) {
        crate::ordmap::lemma_m_index_of(acc, sel);
    }
    assert(m_wf(cur));
    lemma_merge_props_wf(cur, props);
    let merged = merge_props_spec(cur, props);
    let out = add_rule(acc, sel, props);
    if m_contains(acc, sel) {
        crate::ordmap::lemma_m_index_of(acc, sel);
        assert forall|i: int| 0 <= i < out.len() implies m_wf((#[trigger] out[i]).1) by {
            if i != crate::ordmap::m_index_of(acc, sel) {
                assert(out[i] == acc[i]);
            }
        }
        assert forall|i: int, j: int|
            0 <= i < j < out.len() implies (#[trigger] out[i]).0 != (#[trigger] out[j]).0 by {
            assert(out[i].0 == acc[i].0 && out[j].0 == acc[j].0);
        }
    } else {
        assert forall|i: int| 0 <= i < out.len() implies m_wf((#[trigger] out[i]).1) by {
            if i < out.len() - 1 {
                assert(out[i] == acc[i]);
            }
        }
        assert forall|i: int, j: int|
            0 <= i < j < out.len() implies (#[trigger] out[i]).0 != (#[trigger] out[j]).0 by {
            if j < out.len() - 1 {
                assert(out[i] == acc[i] && out[j] == acc[j]);
            } else {
                assert(out[i] == acc[i]);
                assert(!m_contains(acc, sel));
            }
        }
    }
}

/// Comma-separated compound selectors merge each trimmed non-empty piece
/// on its own.
pub open spec fn add_selector_split(
    acc: SpecSelectors,
    pieces: Seq<Seq<char>>,
    props: SpecProps,
) -> SpecSelectors
    decreases pieces.len(),
{
    if pieces.len() == 0 {
        acc
    } else {
        let t = trim_spec(pieces[0]);
        let acc1 = if t.len() > 0 {
            add_rule(acc, t, props)
        } else {
            acc
        };
        add_selector_split(acc1, pieces.drop_first(), props)
    }
}

pub open spec fn add_selector(acc: SpecSelectors, sel: Seq<char>, props: SpecProps) -> SpecSelectors {
    if first_ix(sel, ',') >= 0 {
        add_selector_split(acc, crate::strutil::split_char_spec(sel, ','), props)
    } else {
        add_rule(acc, sel, props)
    }
}

proof fn lemma_add_selector_split_wf(acc: SpecSelectors, pieces: Seq<Seq<char>>, props: SpecProps)
    requires
        sels_wf(acc),
        m_wf(props),
    ensures
        sels_wf(add_selector_split(acc, pieces, props)),
    decreases pieces.len(),
{
    if pieces.len() > 0 {
        let t = trim_spec(pieces[0]);
        if t.len() > 0 {
            lemma_add_rule_wf(acc, t, props);
            lemma_add_selector_split_wf(add_rule(acc, t, props), pieces.drop_first(), props);
        } else {
            lemma_add_selector_split_wf(acc, pieces.drop_first(), props);
        }
    }
}

/// A theme's selectors merged over the accumulated rule set, in order,
/// from a position on.
pub open spec fn merge_theme_selectors_from(
    acc: SpecSelectors,
    sels: SpecSelectors,
    i: int,
) -> SpecSelectors
    decreases sels.len() - i,
{
    if i < 0 || i >= sels.len() {
        acc
    } else {
        merge_theme_selectors_from(add_selector(acc, sels[i].0, sels[i].1), sels, i + 1)
    }
}

pub open spec fn merge_theme_selectors(acc: SpecSelectors, sels: SpecSelectors) -> SpecSelectors {
    merge_theme_selectors_from(acc, sels, 0)
}

proof fn lemma_merge_theme_selectors_wf(acc: SpecSelectors, sels: SpecSelectors, i: int)
    requires
        sels_wf(acc),
        forall|k: int| 0 <= k < sels.len() ==> m_wf((#[trigger] sels[k]).1),
    ensures
        sels_wf(merge_theme_selectors_from(acc, sels, i)),
    decreases sels.len() - i,
{
    if 0 <= i < sels.len() {
        assert(m_wf(sels[i].1));
        let acc1 = add_selector(acc, sels[i].0, sels[i].1);
        if first_ix(sels[i].0, ',') >= 0 {
            lemma_add_selector_split_wf(
                acc,
                crate::strutil::split_char_spec(sels[i].0, ','),
                sels[i].1,
            );
        } else {
            lemma_add_rule_wf(acc, sels[i].0, sels[i].1);
        }
        lemma_merge_theme_selectors_wf(acc1, sels, i + 1);
    }
}

/// A flat table merged over another, later entries overriding.
pub open spec fn merge_vars_spec(acc: SpecVars, vars: SpecVars) -> SpecVars
    decreases vars.len(),
{
    if vars.len() == 0 {
        acc
    } else {
        merge_vars_spec(m_insert(acc, vars[0].0, vars[0].1), vars.drop_first())
    }
}

proof fn lemma_merge_vars_wf(acc: SpecVars, vars: SpecVars)
    requires
        m_wf(acc),
    ensures
        m_wf(merge_vars_spec(acc, vars)),
    decreases vars.len(),
{
    if vars.len() > 0 {
        lemma_merge_vars_wf(m_insert(acc, vars[0].0, vars[0].1), vars.drop_first());
    }
}

/// The chain folded ancestor to descendant: each theme's selectors and
/// variables merge over what the ancestors built, so a child overrides.
pub open spec fn effective_fold(
    themes: Seq<(Seq<char>, SpecTheme)>,
    chain_rev: Seq<Seq<char>>,
    acc_sels: SpecSelectors,
    acc_vars: SpecVars,
) -> (SpecSelectors, SpecVars)
    decreases chain_rev.len(),
{
    if chain_rev.len() == 0 {
        (acc_sels, acc_vars)
    } else {
        let name = chain_rev[0];
        let next = match m_get(themes, name) {
            Some(t) => (merge_theme_selectors(acc_sels, t.selectors), merge_vars_spec(
                acc_vars,
                t.variables,
            )),
            None => (acc_sels, acc_vars),
        };
        effective_fold(themes, chain_rev.drop_first(), next.0, next.1)
    }
}

/// The effective rule set and variable table of the active theme.
pub open spec fn effective_theme_spec(s: SpecState) -> (SpecSelectors, SpecVars) {
    effective_fold(
        s.themes,
        theme_chain_spec(s).reverse(),
        Seq::<(Seq<char>, SpecProps)>::empty(),
        Seq::<(Seq<char>, Seq<char>)>::empty(),
    )
}

pub open spec fn bps_fold(
    themes: Seq<(Seq<char>, SpecTheme)>,
    chain_rev: Seq<Seq<char>>,
    acc: SpecVars,
) -> SpecVars
    decreases chain_rev.len(),
{
    if chain_rev.len() == 0 {
        acc
    } else {
        let next = match m_get(themes, chain_rev[0]) {
            Some(t) => merge_vars_spec(acc, t.breakpoints),
            None => acc,
        };
        bps_fold(themes, chain_rev.drop_first(), next)
    }
}

/// The effective breakpoint table of the active theme.
pub open spec fn effective_breakpoints_spec(s: SpecState) -> SpecVars {
    bps_fold(s.themes, theme_chain_spec(s).reverse(), Seq::<(Seq<char>, Seq<char>)>::empty())
}

fn add_rule_exec(acc: &mut SelectorStyles, sel: String, props: &PropMap)
    requires
        sels_wf(old(acc)@),
        m_wf(props@),
    ensures
        final(acc)@ == add_rule(old(acc)@, sel@, props@),
        sels_wf(final(acc)@),
{
    let mut cur: PropMap = match acc.get(sel.as_str()) {
        Some(pm) => {
            proof {
                crate::ordmap::lemma_m_index_of(acc@, sel@);
            }
            dup_props(pm)
        },
        None => PropMap::new(),
    };
    merge_props(&mut cur, props);
    acc.insert(sel, cur);
    proof {
        lemma_add_rule_wf(old(acc)@, sel@, props@);
    }
}

fn merge_theme_selectors_exec(acc: &mut SelectorStyles, sels: &SelectorStyles)
    requires
        sels_wf(old(acc)@),
        sels_wf(sels@),
    ensures
        final(acc)@ == merge_theme_selectors(old(acc)@, sels@),
        sels_wf(final(acc)@),
{
    let n = sels.len();
    let mut i: usize = 0;
    while i < n
        invariant
            i <= n,
            n == sels@.len(),
            sels_wf(acc@),
            sels_wf(sels@),
            merge_theme_selectors_from(old(acc)@, sels@, 0) == merge_theme_selectors_from(
                acc@,
                sels@,
                i as int,
            ),
        decreases n - i,
    {
        let sel = sels.key_at(i).clone();
        let props = sels.value_at(i);
        proof {
            assert(m_wf(sels@[i as int].1));
            crate::strutil::lemma_first_ix(sel@, ',');
        }
        let ghost acc0 = acc@;
        let sv = str_to_chars(sel.as_str());
        match crate::strutil::find_from(&sv, 0, ',') {
            Some(w) => {
                proof {
                    assert(first_ix(sel@, ',') >= 0) by {
                        let e = first_ix(sel@, ',');
                        if e < 0 {
                            assert(sv@[w as int] == ',');
                        }
                    }
                }
                let pieces = crate::strutil::split_char(&sv, ',');
                let np = pieces.len();
                let ghost pv = pieces.deep_view();
                let mut j: usize = 0;
                proof {
                    assert(pv.skip(0) =~= pv);
                }
                while j < np
                    invariant
                        j <= np,
                        np == pieces@.len(),
                        pv == pieces.deep_view(),
                        sels_wf(acc@),
                        m_wf(sels@[i as int].1),
                        props@ == sels@[i as int].1,
                        add_selector_split(acc0, pv, props@) == add_selector_split(
                            acc@,
                            pv.skip(j as int),
                            props@,
                        ),
                    decreases np - j,
                {
                    proof {
                        assert(pieces@[j as int].deep_view() =~= pieces@[j as int]@);
                        assert(pv[j as int] == pieces@[j as int]@);
                        assert(pv.skip(j as int)[0] == pv[j as int]);
                        assert(pv.skip(j as int).drop_first() =~= pv.skip(j + 1));
                    }
                    let piece = trim(&pieces[j]);
                    if piece.len() > 0 {
                        let piece_s = chars_to_string(&piece);
                        add_rule_exec(acc, piece_s, props);
                    }
                    j += 1;
                }
                proof {
                    assert(pv.skip(np as int) =~= Seq::<Seq<char>>::empty());
                    assert(acc@ == add_selector_split(acc0, pv, props@));
                    assert(acc@ == add_selector(acc0, sel@, props@));
                }
            },
            None => {
                proof {
                    assert(first_ix(sel@, ',') < 0) by {
                        let e = first_ix(sel@, ',');
                        if e >= 0 {
                            assert(sv@[e] == ',');
                        }
                    }
                }
                add_rule_exec(acc, sel, props);
                proof {
                    assert(acc@ == add_selector(acc0, sels@[i as int].0, props@));
                }
            },
        }
        i += 1;
    }
}

fn merge_vars_exec(acc: &mut OrdMap<String>, vars: &OrdMap<String>)
    requires
        m_wf(old(acc)@),
    ensures
        final(acc)@ == merge_vars_spec(old(acc)@, vars@),
        m_wf(final(acc)@),
{
    let n = vars.len();
    let mut i: usize = 0;
    proof {
        assert(vars@.skip(0) =~= vars@);
    }
    while i < n
        invariant
            i <= n,
            n == vars@.len(),
            m_wf(acc@),
            merge_vars_spec(old(acc)@, vars@) == merge_vars_spec(acc@, vars@.skip(i as int)),
        decreases n - i,
    {
        let k = vars.key_at(i).clone();
        let v = vars.value_at(i).clone();
        proof {
            let rem = vars@.skip(i as int);
            assert(rem[0] == vars@[i as int]);
            assert(rem.drop_first() =~= vars@.skip(i + 1));
        }
        acc.insert(k, v);
        i += 1;
    }
    proof {
        assert(vars@.skip(n as int) =~= Seq::<(Seq<char>, Seq<char>)>::empty());
    }
}

impl State {
    /// The effective rule set and variable table: the inheritance chain
    /// merged ancestor to descendant, the child overriding.
    pub fn effective_theme_all(&self) -> (r: (SelectorStyles, OrdMap<String>))
        requires
            state_wf(self@),
        ensures
            (r.0@, r.1@) == effective_theme_spec(self@),
            sels_wf(r.0@),
            m_wf(r.1@),
    {
        let chain = self.theme_chain();
        let ghost crev = chain.deep_view().reverse();
        let mut sels = SelectorStyles::new();
        let mut vars: OrdMap<String> = OrdMap::new();
        let n = chain.len();
        let mut k: usize = 0;
        proof {
            assert(crev.skip(0) =~= crev);
            assert(sels@ =~= Seq::<(Seq<char>, SpecProps)>::empty());
            assert(vars@ =~= Seq::<(Seq<char>, Seq<char>)>::empty());
        }
        while k < n
            invariant
                k <= n,
                n == chain@.len(),
                state_wf(self@),
                crev == chain.deep_view().reverse(),
                sels_wf(sels@),
                m_wf(vars@),
                effective_fold(
                    self@.themes,
                    crev,
                    Seq::<(Seq<char>, SpecProps)>::empty(),
                    Seq::<(Seq<char>, Seq<char>)>::empty(),
                ) == effective_fold(self@.themes, crev.skip(k as int), sels@, vars@),
            decreases n - k,
        {
            let idx = n - 1 - k;
            let name = &chain[idx];
            proof {
                assert(chain@[idx as int].deep_view() =~= chain@[idx as int]@);
                assert(crev[k as int] == chain.deep_view()[n - 1 - k]);
                assert(crev.skip(k as int)[0] == crev[k as int]);
                assert(crev.skip(k as int).drop_first() =~= crev.skip(k + 1));
            }
            match self.themes.get(name.as_str()) {
                Some(t) => {
                    proof {
                        crate::ordmap::lemma_m_index_of(self@.themes, name@);
                        assert(theme_wf(t@));
                    }
                    merge_theme_selectors_exec(&mut sels, &t.selectors);
                    merge_vars_exec(&mut vars, &t.variables);
                },
                None => {},
            }
            k += 1;
        }
        proof {
            assert(crev.skip(n as int) =~= Seq::<Seq<char>>::empty());
        }
        (sels, vars)
    }

    /// The effective breakpoint table, merged along the same chain.
    pub fn effective_breakpoints(&self) -> (r: OrdMap<String>)
        requires
            state_wf(self@),
        ensures
            r@ == effective_breakpoints_spec(self@),
            m_wf(r@),
    {
        let chain = self.theme_chain();
        let ghost crev = chain.deep_view().reverse();
        let mut bps: OrdMap<String> = OrdMap::new();
        let n = chain.len();
        let mut k: usize = 0;
        proof {
            assert(crev.skip(0) =~= crev);
            assert(bps@ =~= Seq::<(Seq<char>, Seq<char>)>::empty());
        }
        while k < n
            invariant
                k <= n,
                n == chain@.len(),
                state_wf(self@),
                crev == chain.deep_view().reverse(),
                m_wf(bps@),
                bps_fold(self@.themes, crev, Seq::<(Seq<char>, Seq<char>)>::empty()) == bps_fold(
                    self@.themes,
                    crev.skip(k as int),
                    bps@,
                ),
            decreases n - k,
        {
            let idx = n - 1 - k;
            let name = &chain[idx];
            proof {
                assert(chain@[idx as int].deep_view() =~= chain@[idx as int]@);
                assert(crev[k as int] == chain.deep_view()[n - 1 - k]);
                assert(crev.skip(k as int)[0] == crev[k as int]);
                assert(crev.skip(k as int).drop_first() =~= crev.skip(k + 1));
            }
            match self.themes.get(name.as_str()) {
                Some(t) => {
                    proof {
                        crate::ordmap::lemma_m_index_of(self@.themes, name@);
                    }
                    merge_vars_exec(&mut bps, &t.breakpoints);
                },
                None => {},
            }
            k += 1;
        }
        proof {
            assert(crev.skip(n as int) =~= Seq::<Seq<char>>::empty());
        }
        bps
    }
}

// ===== copies =====

/// A copy of a selector map with the same mathematical value.
pub fn dup_selectors(m: &SelectorStyles) -> (r: SelectorStyles)
    requires
        sels_wf(m@),
    ensures
        r@ == m@,
        sels_wf(r@),
{
    let mut r = SelectorStyles::new();
    let n = m.len();
    let mut i: usize = 0;
    proof {
        assert(r@ =~= m@.take(0));
    }
    while i < n
        invariant
            i <= n,
            n == m@.len(),
            sels_wf(m@),
            r@ == m@.take(i as int),
        decreases n - i,
    {
        let k = m.key_at(i).clone();
        let v = dup_props(m.value_at(i));
        proof {
            assert(m_wf(r@)) by {
                assert(forall|a: int| 0 <= a < i ==> r@[a] == m@[a]);
            }
            assert(!m_contains(r@, m@[i as int].0)) by {
                if m_contains(r@, m@[i as int].0) {
                    let w = crate::ordmap::m_index_of(r@, m@[i as int].0);
                    crate::ordmap::lemma_m_index_of(r@, m@[i as int].0);
                    assert(m@[w].0 == m@[i as int].0);
                }
            }
        }
        r.insert(k, v);
        proof {
            assert(r@ =~= m@.take((i + 1) as int));
        }
        i += 1;
    }
    proof {
        assert(m@.take(n as int) =~= m@);
    }
    r
}

/// A copy of a string map with the same mathematical value.
pub fn dup_strmap(m: &OrdMap<String>) -> (r: OrdMap<String>)
    requires
        m_wf(m@),
    ensures
        r@ == m@,
        m_wf(r@),
{
    let mut r: OrdMap<String> = OrdMap::new();
    let n = m.len();
    let mut i: usize = 0;
    proof {
        assert(r@ =~= m@.take(0));
    }
    while i < n
        invariant
            i <= n,
            n == m@.len(),
            m_wf(m@),
            r@ == m@.take(i as int),
        decreases n - i,
    {
        let k = m.key_at(i).clone();
        let v = m.value_at(i).clone();
        proof {
            assert(m_wf(r@)) by {
                assert(forall|a: int| 0 <= a < i ==> r@[a] == m@[a]);
            }
            assert(!m_contains(r@, m@[i as int].0)) by {
                if m_contains(r@, m@[i as int].0) {
                    let w = crate::ordmap::m_index_of(r@, m@[i as int].0);
                    crate::ordmap::lemma_m_index_of(r@, m@[i as int].0);
                    assert(m@[w].0 == m@[i as int].0);
                }
            }
        }
        r.insert(k, v);
        proof {
            assert(r@ =~= m@.take((i + 1) as int));
        }
        i += 1;
    }
    proof {
        assert(m@.take(n as int) =~= m@);
    }
    r
}

/// A copy of a theme with the same mathematical value.
pub fn dup_theme(t: &ThemeEntry) -> (r: ThemeEntry)
    requires
        theme_wf(t@),
    ensures
        r@ == t@,
        theme_wf(r@),
{
    let r = ThemeEntry {
        name: match &t.name {
            Some(n) => Some(n.clone()),
            None => None,
        },
        inherits: match &t.inherits {
            Some(n) => Some(n.clone()),
            None => None,
        },
        selectors: dup_selectors(&t.selectors),
        variables: dup_strmap(&t.variables),
        breakpoints: dup_strmap(&t.breakpoints),
    };
    r
}

// ===== state construction and mutation =====

/// The fold of a selector set into a theme's own rules, entry by entry,
/// without compound splitting.
pub open spec fn add_rules_from(acc: SpecSelectors, styles: SpecSelectors, i: int) -> SpecSelectors
    decreases styles.len() - i,
{
    if i < 0 || i >= styles.len() {
        acc
    } else {
        add_rules_from(add_rule(acc, styles[i].0, styles[i].1), styles, i + 1)
    }
}

pub open spec fn empty_theme() -> SpecTheme {
    SpecTheme {
        name: None,
        inherits: None,
        selectors: Seq::<(Seq<char>, SpecProps)>::empty(),
        variables: Seq::<(Seq<char>, Seq<char>)>::empty(),
        breakpoints: Seq::<(Seq<char>, Seq<char>)>::empty(),
    }
}

/// The state after registering a theme's styles: the named theme (an empty
/// one when new) has the styles merged into its selectors.
pub open spec fn add_theme_spec(s: SpecState, name: Seq<char>, styles: SpecSelectors) -> SpecState {
    let t = if m_contains(s.themes, name) {
        m_val(s.themes, name)
    } else {
        empty_theme()
    };
    let t2 = SpecTheme { selectors: add_rules_from(t.selectors, styles, 0), ..t };
    SpecState { themes: m_insert(s.themes, name, t2), ..s }
}

proof fn lemma_add_rules_from_wf(acc: SpecSelectors, styles: SpecSelectors, i: int)
    requires
        sels_wf(acc),
        forall|k: int| 0 <= k < styles.len() ==> m_wf((#[trigger] styles[k]).1),
    ensures
        sels_wf(add_rules_from(acc, styles, i)),
    decreases styles.len() - i,
{
    if 0 <= i < styles.len() {
        lemma_add_rule_wf(acc, styles[i].0, styles[i].1);
        lemma_add_rules_from_wf(add_rule(acc, styles[i].0, styles[i].1), styles, i + 1);
    }
}

/// After inserting a well-formed theme, the theme table is well-formed.
proof fn lemma_themes_insert_wf(
    themes: Seq<(Seq<char>, SpecTheme)>,
    name: Seq<char>,
    t: SpecTheme,
)
    requires
        m_wf(themes),
        forall|i: int| 0 <= i < themes.len() ==> theme_wf((#[trigger] themes[i]).1),
        theme_wf(t),
    ensures
        m_wf(m_insert(themes, name, t)),
        forall|i: int|
            0 <= i < m_insert(themes, name, t).len() ==> theme_wf(
                (#[trigger] m_insert(themes, name, t)[i]).1,
            ),
{
    let out = m_insert(themes, name, t);
    if m_contains(themes, name) {
        crate::ordmap::lemma_m_index_of(themes, name);
        assert forall|i: int| 0 <= i < out.len() implies theme_wf((#[trigger] out[i]).1) by {
            if i != crate::ordmap::m_index_of(themes, name) {
                assert(out[i] == themes[i]);
            }
        }
        assert forall|i: int, j: int|
            0 <= i < j < out.len() implies (#[trigger] out[i]).0 != (#[trigger] out[j]).0 by {
            assert(out[i].0 == themes[i].0 && out[j].0 == themes[j].0);
        }
    } else {
        assert forall|i: int| 0 <= i < out.len() implies theme_wf((#[trigger] out[i]).1) by {
            if i < out.len() - 1 {
                assert(out[i] == themes[i]);
            }
        }
        assert forall|i: int, j: int|
            0 <= i < j < out.len() implies (#[trigger] out[i]).0 != (#[trigger] out[j]).0 by {
            if j < out.len() - 1 {
                assert(out[i] == themes[i] && out[j] == themes[j]);
            } else {
                assert(out[i] == themes[i]);
                assert(!m_contains(themes, name));
            }
        }
    }
}

/// The fold of names into an observed-usage set.
pub open spec fn s_add_all(acc: Seq<Seq<char>>, items: Seq<Seq<char>>, i: int) -> Seq<Seq<char>>
    decreases items.len() - i,
{
    if i < 0 || i >= items.len() {
        acc
    } else {
        s_add_all(s_add(acc, items[i]), items, i + 1)
    }
}

pub proof fn lemma_s_add_all_pub(acc: Seq<Seq<char>>, items: Seq<Seq<char>>, i: int)
    requires
        s_wf(acc),
    ensures
        s_wf(s_add_all(acc, items, i)),
    decreases items.len() - i,
{
    if 0 <= i < items.len() {
        assert(s_wf(s_add(acc, items[i]))) by {
            if !s_contains(acc, items[i]) {
                assert forall|a: int, b: int|
                    0 <= a < b < acc.push(items[i]).len() implies acc.push(items[i])[a]
                    != acc.push(items[i])[b] by {
                    if b < acc.len() {
                    } else {
                        assert(acc.push(items[i])[a] == acc[a]);
                        assert(!s_contains(acc, items[i]));
                    }
                }
            }
        }
        lemma_s_add_all_pub(s_add(acc, items[i]), items, i + 1);
    }
}

impl State {
    /// The bundled default state: no themes, no usage, unit densities.
    pub fn new_default() -> (r: State)
        ensures
            r@.themes == Seq::<(Seq<char>, SpecTheme)>::empty(),
            r@.default_theme == Seq::<char>::empty(),
            r@.current_theme == Seq::<char>::empty(),
            r@.display_density == 1000,
            r@.scaled_density == 1000,
            r@.used_classes == Seq::<Seq<char>>::empty(),
            r@.used_tags == Seq::<Seq<char>>::empty(),
            r@.used_tag_classes == Seq::<Seq<char>>::empty(),
            state_wf(r@),
    {
        State {
            themes: OrdMap::new(),
            default_theme: String::new(),
            current_theme: String::new(),
            display_density: 1000,
            scaled_density: 1000,
            used_classes: OrdSet::new(),
            used_tags: OrdSet::new(),
            used_tag_classes: OrdSet::new(),
        }
    }

    /// The embedded default state.
    pub fn default_state() -> (r: State)
        ensures
            state_wf(r@),
            r@.themes == Seq::<(Seq<char>, SpecTheme)>::empty(),
    {
        State::new_default()
    }

    /// Make a theme current. An unknown name is the one reported error; the
    /// state is then left unchanged.
    pub fn set_theme(&mut self, theme: &str) -> (r: Result<(), Error>)
        requires
            state_wf(old(self)@),
        ensures
            m_contains(old(self)@.themes, theme@) ==> r is Ok && final(self)@ == (SpecState {
                current_theme: theme@,
                ..old(self)@
            }),
            !m_contains(old(self)@.themes, theme@) ==> (r matches Err(e) && e@
                == SpecError::ThemeNotFound(theme@)) && final(self)@ == old(self)@,
            state_wf(final(self)@),
    {
        if !self.themes.contains_key(theme) {
            return Err(Error::ThemeNotFound(String::from_str(theme)));
        }
        self.current_theme = String::from_str(theme);
        Ok(())
    }

    /// Merge a set of selector rules into a named theme, creating it when
    /// absent.
    pub fn add_theme(&mut self, name: &str, styles: SelectorStyles)
        requires
            state_wf(old(self)@),
            sels_wf(styles@),
        ensures
            final(self)@ == add_theme_spec(old(self)@, name@, styles@),
            state_wf(final(self)@),
    {
        let mut entry: ThemeEntry = match self.themes.get(name) {
            Some(t) => {
                proof {
                    crate::ordmap::lemma_m_index_of(self@.themes, name@);
                }
                dup_theme(t)
            },
            None => ThemeEntry::new_empty(),
        };
        let n = styles.len();
        let mut i: usize = 0;
        let ghost base = entry@.selectors;
        while i < n
            invariant
                i <= n,
                n == styles@.len(),
                sels_wf(styles@),
                sels_wf(entry@.selectors),
                entry@.name == (if m_contains(old(self)@.themes, name@) {
                    m_val(old(self)@.themes, name@)
                } else {
                    empty_theme()
                }).name,
                entry@.inherits == (if m_contains(old(self)@.themes, name@) {
                    m_val(old(self)@.themes, name@)
                } else {
                    empty_theme()
                }).inherits,
                entry@.variables == (if m_contains(old(self)@.themes, name@) {
                    m_val(old(self)@.themes, name@)
                } else {
                    empty_theme()
                }).variables,
                entry@.breakpoints == (if m_contains(old(self)@.themes, name@) {
                    m_val(old(self)@.themes, name@)
                } else {
                    empty_theme()
                }).breakpoints,
                add_rules_from(base, styles@, 0) == add_rules_from(
                    entry@.selectors,
                    styles@,
                    i as int,
                ),
                base == (if m_contains(old(self)@.themes, name@) {
                    m_val(old(self)@.themes, name@)
                } else {
                    empty_theme()
                }).selectors,
                self@ == old(self)@,
            decreases n - i,
        {
            let sel = styles.key_at(i).clone();
            let props = styles.value_at(i);
            proof {
                assert(m_wf(styles@[i as int].1));
            }
            add_rule_exec(&mut entry.selectors, sel, props);
            i += 1;
        }
        proof {
            lemma_add_rules_from_wf(base, styles@, 0);
        }
        let ghost t2 = entry@;
        self.themes.insert(String::from_str(name), entry);
        proof {
            lemma_themes_insert_wf(old(self)@.themes, name@, t2);
        }
    }

    /// Replace the active theme's variable table.
    pub fn set_variables(&mut self, vars: OrdMap<String>)
        requires
            state_wf(old(self)@),
            m_wf(vars@),
        ensures
            final(self)@.themes == m_insert(
                old(self)@.themes,
                old(self)@.current_theme,
                SpecTheme {
                    variables: vars@,
                    ..(if m_contains(old(self)@.themes, old(self)@.current_theme) {
                        m_val(old(self)@.themes, old(self)@.current_theme)
                    } else {
                        empty_theme()
                    })
                },
            ),
            final(self)@.default_theme == old(self)@.default_theme,
            final(self)@.current_theme == old(self)@.current_theme,
            final(self)@.display_density == old(self)@.display_density,
            final(self)@.scaled_density == old(self)@.scaled_density,
            final(self)@.used_classes == old(self)@.used_classes,
            final(self)@.used_tags == old(self)@.used_tags,
            final(self)@.used_tag_classes == old(self)@.used_tag_classes,
            state_wf(final(self)@),
    {
        let mut entry: ThemeEntry = match self.themes.get(self.current_theme.as_str()) {
            Some(t) => {
                proof {
                    crate::ordmap::lemma_m_index_of(self@.themes, self@.current_theme);
                }
                dup_theme(t)
            },
            None => ThemeEntry::new_empty(),
        };
        entry.variables = vars;
        let ghost t2 = entry@;
        let cur = self.current_theme.clone();
        self.themes.insert(cur, entry);
        proof {
            lemma_themes_insert_wf(old(self)@.themes, old(self)@.current_theme, t2);
        }
    }

    /// Replace the active theme's breakpoint table.
    pub fn set_breakpoints(&mut self, map: OrdMap<String>)
        requires
            state_wf(old(self)@),
            m_wf(map@),
        ensures
            final(self)@.themes == m_insert(
                old(self)@.themes,
                old(self)@.current_theme,
                SpecTheme {
                    breakpoints: map@,
                    ..(if m_contains(old(self)@.themes, old(self)@.current_theme) {
                        m_val(old(self)@.themes, old(self)@.current_theme)
                    } else {
                        empty_theme()
                    })
                },
            ),
            final(self)@.current_theme == old(self)@.current_theme,
            final(self)@.default_theme == old(self)@.default_theme,
            final(self)@.used_classes == old(self)@.used_classes,
            final(self)@.used_tags == old(self)@.used_tags,
            final(self)@.used_tag_classes == old(self)@.used_tag_classes,
            final(self)@.display_density == old(self)@.display_density,
            final(self)@.scaled_density == old(self)@.scaled_density,
            state_wf(final(self)@),
    {
        let mut entry: ThemeEntry = match self.themes.get(self.current_theme.as_str()) {
            Some(t) => {
                proof {
                    crate::ordmap::lemma_m_index_of(self@.themes, self@.current_theme);
                }
                dup_theme(t)
            },
            None => ThemeEntry::new_empty(),
        };
        entry.breakpoints = map;
        let ghost t2 = entry@;
        let cur = self.current_theme.clone();
        self.themes.insert(cur, entry);
        proof {
            lemma_themes_insert_wf(old(self)@.themes, old(self)@.current_theme, t2);
        }
    }

    /// Name the fallback theme.
    pub fn set_default_theme(&mut self, name: &str)
        requires
            state_wf(old(self)@),
        ensures
            final(self)@ == (SpecState { default_theme: name@, ..old(self)@ }),
            state_wf(final(self)@),
    {
        self.default_theme = String::from_str(name);
    }

    /// Selector registration is superseded: selectors now live on themes.
    pub fn register_selectors(&mut self, _selectors: &Vec<String>)
        ensures
            final(self)@ == old(self)@,
    {
    }

    /// Record observed utility classes.
    pub fn register_tailwind_classes(&mut self, classes: Vec<String>)
        requires
            state_wf(old(self)@),
        ensures
            final(self)@ == (SpecState {
                used_classes: s_add_all(old(self)@.used_classes, classes.deep_view(), 0),
                ..old(self)@
            }),
            state_wf(final(self)@),
    {
        let n = classes.len();
        let mut i: usize = 0;
        while i < n
            invariant
                i <= n,
                n == classes@.len(),
                s_wf(self.used_classes@),
                s_add_all(old(self)@.used_classes, classes.deep_view(), 0) == s_add_all(
                    self.used_classes@,
                    classes.deep_view(),
                    i as int,
                ),
                self.themes == old(self).themes,
                self.default_theme == old(self).default_theme,
                self.current_theme == old(self).current_theme,
                self.display_density == old(self).display_density,
                self.scaled_density == old(self).scaled_density,
                self.used_tags == old(self).used_tags,
                self.used_tag_classes == old(self).used_tag_classes,
                state_wf(old(self)@),
            decreases n - i,
        {
            proof {
                assert(classes@[i as int].deep_view() =~= classes@[i as int]@);
            }
            self.used_classes.insert(classes[i].clone());
            i += 1;
        }
        proof {
            lemma_s_add_all_pub(old(self)@.used_classes, classes.deep_view(), 0);
        }
    }

    /// Record observed tags.
    pub fn register_tags(&mut self, tags: Vec<String>)
        requires
            state_wf(old(self)@),
        ensures
            final(self)@ == (SpecState {
                used_tags: s_add_all(old(self)@.used_tags, tags.deep_view(), 0),
                ..old(self)@
            }),
            state_wf(final(self)@),
    {
        let n = tags.len();
        let mut i: usize = 0;
        while i < n
            invariant
                i <= n,
                n == tags@.len(),
                s_wf(self.used_tags@),
                s_add_all(old(self)@.used_tags, tags.deep_view(), 0) == s_add_all(
                    self.used_tags@,
                    tags.deep_view(),
                    i as int,
                ),
                self.themes == old(self).themes,
                self.default_theme == old(self).default_theme,
                self.current_theme == old(self).current_theme,
                self.display_density == old(self).display_density,
                self.scaled_density == old(self).scaled_density,
                self.used_classes == old(self).used_classes,
                self.used_tag_classes == old(self).used_tag_classes,
                state_wf(old(self)@),
            decreases n - i,
        {
            proof {
                assert(tags@[i as int].deep_view() =~= tags@[i as int]@);
            }
            self.used_tags.insert(tags[i].clone());
            i += 1;
        }
        proof {
            lemma_s_add_all_pub(old(self)@.used_tags, tags.deep_view(), 0);
        }
    }

    /// Record an observed tag and class pair, keyed `tag|class`.
    pub fn register_tag_class(&mut self, tag: &str, class: &str)
        requires
            state_wf(old(self)@),
        ensures
            final(self)@ == (SpecState {
                used_tag_classes: s_add(
                    old(self)@.used_tag_classes,
                    tag@ + seq!['|'] + class@,
                ),
                ..old(self)@
            }),
            state_wf(final(self)@),
    {
        let mut key: Vec<char> = Vec::new();
        push_str_chars(&mut key, tag);
        key.push('|');
        push_str_chars(&mut key, class);
        proof {
            assert(key@ =~= tag@ + seq!['|'] + class@);
        }
        self.used_tag_classes.insert(chars_to_string(&key));
        proof {
            let items = old(self)@.used_tag_classes;
            let x = tag@ + seq!['|'] + class@;
            if !s_contains(items, x) {
                assert forall|a: int, b: int|
                    0 <= a < b < items.push(x).len() implies items.push(x)[a] != items.push(
                    x,
                )[b] by {
                    if b < items.len() {
                    } else {
                        assert(items.push(x)[a] == items[a]);
                        assert(!s_contains(items, x));
                    }
                }
            }
        }
    }

    /// Forget all observed usage.
    pub fn clear_usage(&mut self)
        requires
            state_wf(old(self)@),
        ensures
            final(self)@ == (SpecState {
                used_classes: Seq::<Seq<char>>::empty(),
                used_tags: Seq::<Seq<char>>::empty(),
                used_tag_classes: Seq::<Seq<char>>::empty(),
                ..old(self)@
            }),
            state_wf(final(self)@),
    {
        self.used_classes.clear();
        self.used_tags.clear();
        self.used_tag_classes.clear();
    }

    /// Expand box shorthands and convert every dimension property of one
    /// style map to device pixels at the session's density.
    pub fn process_styles(&self, styles: PropMap) -> (r: PropMap)
        requires
            state_wf(self@),
            m_wf(styles@),
        ensures
            r@ == crate::units::process_styles_spec(styles@, self@.display_density),
            m_wf(r@),
    {
        crate::units::process_styles_map(styles, self.display_density)
    }
}

/// The embedded default state.
pub fn bundled_state() -> (r: State)
    ensures
        state_wf(r@),
        r@.themes == Seq::<(Seq<char>, SpecTheme)>::empty(),
{
    State::new_default()
}

} // verus!