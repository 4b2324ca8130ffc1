//! The host boundary, on the library's side: plain snapshots of parsed
//! input become a session state. The host parses its wire format and hands
//! these plain values in.

use vstd::prelude::*;
use crate::ordmap::{m_contains, m_wf, OrdMap};
use crate::theme::{s_add_all, state_wf, SpecState, State, ThemeEntry};

verus! {

/// A usage snapshot: observed selectors and classes, as the host hands
/// them in.
#[derive(Debug)]
pub struct UsageSnapshot {
    pub selectors: Vec<String>,
    pub classes: Vec<String>,
}

/// A parsed theme set: the themes and an optional active theme name.
#[derive(Debug)]
pub struct ThemesInput {
    pub themes: OrdMap<ThemeEntry>,
    pub current_theme: Option<String>,
}

/// The state a snapshot builds: the given themes (when any); the active
/// theme when named and present; the first theme as the default; and the
/// snapshot's classes as observed usage.
pub open spec fn build_state_spec(
    usage_classes: Seq<Seq<char>>,
    themes: Seq<(Seq<char>, crate::theme::SpecTheme)>,
    current: Option<Seq<char>>,
) -> SpecState {
    let base = SpecState {
        themes: Seq::empty(),
        default_theme: Seq::<char>::empty(),
        current_theme: Seq::<char>::empty(),
        display_density: 1000,
        scaled_density: 1000,
        used_classes: Seq::empty(),
        used_tags: Seq::empty(),
        used_tag_classes: Seq::empty(),
    };
    let with_themes = if themes.len() > 0 {
        let cur: Seq<char> = match current {
            Some(c) => {
                if m_contains(themes, c) {
                    c
                } else {
                    Seq::<char>::empty()
                }
            },
            None => Seq::<char>::empty(),
        };
        SpecState {
            themes: themes,
            current_theme: cur,
            default_theme: themes[0].0,
            ..base
        }
    } else {
        base
    };
    SpecState { used_classes: s_add_all(Seq::empty(), usage_classes, 0), ..with_themes }
}

/// Build a session state from parsed input. The selectors of the snapshot
/// are accepted for compatibility; selectors now live on themes.
pub fn build_state(usage: UsageSnapshot, themes_input: ThemesInput) -> (r: State)
    requires
        m_wf(themes_input.themes@),
        forall|i: int|
            0 <= i < themes_input.themes@.len() ==> crate::theme::theme_wf(
                (#[trigger] themes_input.themes@[i]).1,
            ),
    ensures
        r@ == build_state_spec(
            usage.classes.deep_view(),
            themes_input.themes@,
            match themes_input.current_theme {
                Some(c) => Some(c@),
                None => None,
            },
        ),
        state_wf(r@),
{
    let mut state = State::new_default();
    let ghost current_v: Option<Seq<char>> = match themes_input.current_theme {
        Some(ref c) => Some(c@),
        None => None,
    };
    if themes_input.themes.len() > 0 {
        let first_key = themes_input.themes.key_at(0).clone();
        match &themes_input.current_theme {
            Some(c) => {
                if themes_input.themes.contains_key(c.as_str()) {
                    state.current_theme = c.clone();
                }
            },
            None => {},
        }
        state.themes = themes_input.themes;
        state.default_theme = first_key;
    }
    let classes = usage.classes;
    let n = classes.len();
    let mut i: usize = 0;
    while i < n
        invariant
            i <= n,
            n == classes@.len(),
            crate::ordmap::s_wf(state.used_classes@),
            s_add_all(Seq::empty(), classes.deep_view(), 0) == s_add_all(
                state.used_classes@,
                classes.deep_view(),
                i as int,
            ),
            state.themes@ == build_state_spec(
                classes.deep_view(),
                themes_input.themes@,
                current_v,
            ).themes,
            state.default_theme@ == build_state_spec(
                classes.deep_view(),
                themes_input.themes@,
                current_v,
            ).default_theme,
            state.current_theme@ == build_state_spec(
                classes.deep_view(),
                themes_input.themes@,
                current_v,
            ).current_theme,
            state.display_density == 1000,
            state.scaled_density == 1000,
            state.used_tags@ == Seq::<Seq<char>>::empty(),
            state.used_tag_classes@ == Seq::<Seq<char>>::empty(),
            m_wf(state.themes@),
            forall|k: int|
                0 <= k < state.themes@.len() ==> crate::theme::theme_wf(
                    (#[trigger] state.themes@[k]).1,
                ),
        decreases n - i,
    {
        proof {
            assert(classes@[i as int].deep_view() =~= classes@[i as int]@);
        }
        state.used_classes.insert(classes[i].clone());
        i += 1;
    }
    proof {
        crate::theme::lemma_s_add_all_pub(Seq::empty(), classes.deep_view(), 0);
    }
    state
}

} // verus!
