//! Selector and class-token utilities: case conversion between CSS and
//! native property names, breakpoint/hover prefix parsing, selector forms,
//! and the observation test that decides which selectors are emitted.

use vstd::prelude::*;
use vstd::string::StrSliceExecFns;
use crate::ordmap::{m_contains, m_val, m_wf, OrdMap};
use crate::ordmap::{s_contains, OrdSet};
use crate::strutil::{
    chars_eq, chars_eq_str, chars_to_string, ends_with, ends_with_str, first_ix, is_digit,
    is_digit_exec, is_suffix_of, push_chars, push_str_chars, split_char, split_char_spec,
    split_once_char, str_to_chars, subvec,
};

verus! {

// ===== case conversion =====

pub open spec fn is_ascii_upper(c: char) -> bool {
    65 <= c as u32 && c as u32 <= 90
}

pub open spec fn is_ascii_lower(c: char) -> bool {
    97 <= c as u32 && c as u32 <= 122
}

pub open spec fn ascii_upper(c: char) -> char {
    if is_ascii_lower(c) {
        ((c as u32 - 32) as u8) as char
    } else {
        c
    }
}

pub open spec fn ascii_lower(c: char) -> char {
    if is_ascii_upper(c) {
        ((c as u32 + 32) as u8) as char
    } else {
        c
    }
}

/// Hyphenated text turned camel-case: each hyphen is dropped and the letter
/// after it upper-cased (ASCII letters; any other character passes through).
pub open spec fn camel_spec(s: Seq<char>, up: bool) -> Seq<char>
    decreases s.len(),
{
    if s.len() == 0 {
        Seq::<char>::empty()
    } else if s[0] == '-' {
        camel_spec(s.drop_first(), true)
    } else if up {
        seq![ascii_upper(s[0])] + camel_spec(s.drop_first(), false)
    } else {
        seq![s[0]] + camel_spec(s.drop_first(), false)
    }
}

pub fn camel_case(name: &str) -> (r: String)
    ensures
        r@ == camel_spec(name@, false),
{
    let s = str_to_chars(name);
    let n = s.len();
    let mut out: Vec<char> = Vec::new();
    let mut up = false;
    let mut i: usize = 0;
    proof {
        assert(s@.skip(0) =~= s@);
        assert(out@ + camel_spec(s@, false) =~= camel_spec(s@, false));
    }
    while i < n
        invariant
            i <= n,
            n == s@.len(),
            s@ == name@,
            camel_spec(name@, false) == out@ + camel_spec(s@.skip(i as int), up),
        decreases n - i,
    {
        let c = s[i];
        let ghost rem = s@.skip(i as int);
        proof {
            assert(rem[0] == c);
            assert(rem.drop_first() =~= s@.skip(i + 1));
        }
        if c == '-' {
            up = true;
        } else if up {
            let u = c as u32;
            let uc: char = if 97 <= u && u <= 122 {
                ((u - 32) as u8) as char
            } else {
                c
            };
            let ghost pre = out@;
            out.push(uc);
            proof {
                assert(uc == ascii_upper(c));
                assert(out@ + camel_spec(s@.skip(i + 1), false) =~= pre + (seq![ascii_upper(c)]
                    + camel_spec(s@.skip(i + 1), false)));
            }
            up = false;
        } else {
            let ghost pre = out@;
            out.push(c);
            proof {
                assert(out@ + camel_spec(s@.skip(i + 1), false) =~= pre + (seq![c] + camel_spec(
                    s@.skip(i + 1),
                    false,
                )));
            }
        }
        i += 1;
    }
    proof {
        assert(s@.skip(n as int) =~= Seq::<char>::empty());
        assert(out@ + camel_spec(Seq::<char>::empty(), up) =~= out@);
    }
    chars_to_string(&out)
}

/// Camel-case text turned hyphenated: an ASCII capital becomes a hyphen and
/// its lowercase form.
pub open spec fn kebab_spec(s: Seq<char>) -> Seq<char>
    decreases s.len(),
{
    if s.len() == 0 {
        Seq::<char>::empty()
    } else if is_ascii_upper(s[0]) {
        seq!['-', ascii_lower(s[0])] + kebab_spec(s.drop_first())
    } else {
        seq![s[0]] + kebab_spec(s.drop_first())
    }
}

pub fn kebab_case(name: &str) -> (r: String)
    ensures
        r@ == kebab_spec(name@),
{
    let s = str_to_chars(name);
    let n = s.len();
    let mut out: Vec<char> = Vec::new();
    let mut i: usize = 0;
    proof {
        assert(s@.skip(0) =~= s@);
        assert(out@ + kebab_spec(s@) =~= kebab_spec(s@));
    }
    while i < n
        invariant
            i <= n,
            n == s@.len(),
            s@ == name@,
            kebab_spec(name@) == out@ + kebab_spec(s@.skip(i as int)),
        decreases n - i,
    {
        let c = s[i];
        let ghost rem = s@.skip(i as int);
        proof {
            assert(rem[0] == c);
            assert(rem.drop_first() =~= s@.skip(i + 1));
        }
        let u = c as u32;
        if 65 <= u && u <= 90 {
            out.push('-');
            out.push(((u + 32) as u8) as char);
        } else {
            out.push(c);
        }
        proof {
            assert(out@ + kebab_spec(s@.skip(i + 1)) =~= kebab_spec(name@));
        }
        i += 1;
    }
    proof {
        assert(s@.skip(n as int) =~= Seq::<char>::empty());
        assert(out@ + kebab_spec(Seq::<char>::empty()) =~= out@);
    }
    chars_to_string(&out)
}

// ===== escaping and prefixed class tokens =====

/// A class name made safe for a selector: each colon gains a backslash.
pub open spec fn escape_spec(s: Seq<char>) -> Seq<char>
    decreases s.len(),
{
    if s.len() == 0 {
        Seq::<char>::empty()
    } else if s[0] == ':' {
        seq!['\\', ':'] + escape_spec(s.drop_first())
    } else {
        seq![s[0]] + escape_spec(s.drop_first())
    }
}

fn escape_chars(s: &Vec<char>) -> (r: Vec<char>)
    ensures
        r@ == escape_spec(s@),
{
    let n = s.len();
    let mut out: Vec<char> = Vec::new();
    let mut i: usize = 0;
    proof {
        assert(s@.skip(0) =~= s@);
        assert(out@ + escape_spec(s@) =~= escape_spec(s@));
    }
    while i < n
        invariant
            i <= n,
            n == s@.len(),
            escape_spec(s@) == out@ + escape_spec(s@.skip(i as int)),
        decreases n - i,
    {
        let c = s[i];
        let ghost rem = s@.skip(i as int);
        proof {
            assert(rem[0] == c);
            assert(rem.drop_first() =~= s@.skip(i + 1));
        }
        if c == ':' {
            out.push('\\');
            out.push(':');
        } else {
            out.push(c);
        }
        proof {
            assert(out@ + escape_spec(s@.skip(i + 1)) =~= escape_spec(s@));
        }
        i += 1;
    }
    proof {
        assert(s@.skip(n as int) =~= Seq::<char>::empty());
        assert(out@ + escape_spec(Seq::<char>::empty()) =~= out@);
    }
    out
}

pub fn css_escape_class(class: &str) -> (r: String)
    ensures
        r@ == escape_spec(class@),
{
    let s = str_to_chars(class);
    let out = escape_chars(&s);
    chars_to_string(&out)
}

pub open spec fn is_bp_token(p: Seq<char>) -> bool {
    p == "xs"@ || p == "sm"@ || p == "md"@ || p == "lg"@ || p == "xl"@
}

/// The breakpoint among the prefix tokens, last one winning.
pub open spec fn last_bp(parts: Seq<Seq<char>>) -> Option<Seq<char>>
    decreases parts.len(),
{
    if parts.len() == 0 {
        None
    } else if is_bp_token(parts.last()) {
        Some(parts.last())
    } else {
        last_bp(parts.drop_last())
    }
}

/// A class split at its colons: every token but the last is a prefix; a
/// `hover` prefix marks the hover state and a breakpoint prefix scopes the
/// class; the final token is the base class.
pub open spec fn parse_prefixed_spec(s: Seq<char>) -> (Option<Seq<char>>, bool, Seq<char>) {
    let parts = split_char_spec(s, ':');
    if parts.len() == 1 {
        (None, false, s)
    } else {
        (
            last_bp(parts.drop_last()),
            exists|i: int| 0 <= i < parts.len() - 1 && parts[i] == "hover"@,
            parts.last(),
        )
    }
}

pub fn parse_prefixed_class(class: &str) -> (r: (Option<String>, bool, String))
    ensures
        match r.0 {
            Some(b) => parse_prefixed_spec(class@).0 == Some(b@),
            None => parse_prefixed_spec(class@).0 is None,
        },
        r.1 == parse_prefixed_spec(class@).1,
        r.2@ == parse_prefixed_spec(class@).2,
{
    let s = str_to_chars(class);
    let parts = split_char(&s, ':');
    let np = parts.len();
    proof {
        assert(parts.deep_view().len() == parts@.len());
    }
    if np == 1 {
        return (None, false, String::from_str(class));
    }
    let ghost dv = parts.deep_view();
    let mut bp: Option<String> = None;
    let mut hover = false;
    let mut i: usize = 0;
    proof {
        assert(dv.take(0) =~= Seq::<Seq<char>>::empty());
    }
    while i < np - 1
        invariant
            i <= np - 1,
            np == parts@.len() >= 2,
            dv == parts.deep_view(),
            dv == split_char_spec(class@, ':'),
            hover == exists|t: int| 0 <= t < i && dv[t] == "hover"@,
            match bp {
                Some(b) => last_bp(dv.take(i as int)) == Some(b@),
                None => last_bp(dv.take(i as int)) is None,
            },
        decreases np - 1 - i,
    {
        proof {
            assert(parts@[i as int].deep_view() =~= parts@[i as int]@);
            assert(dv[i as int] == parts@[i as int]@);
            assert(dv.take((i + 1) as int).drop_last() =~= dv.take(i as int));
            assert(dv.take((i + 1) as int).last() == dv[i as int]);
        }
        let p = &parts[i];
        proof {
            reveal_strlit("hover");
            reveal_strlit("xs");
            reveal_strlit("sm");
            reveal_strlit("md");
            reveal_strlit("lg");
            reveal_strlit("xl");
        }
        if chars_eq_str(p, "hover") {
            proof {
                assert(!is_bp_token(dv[i as int]));
            }
            hover = true;
        } else if chars_eq_str(p, "xs") || chars_eq_str(p, "sm") || chars_eq_str(p, "md")
            || chars_eq_str(p, "lg") || chars_eq_str(p, "xl") {
            proof {
                assert(dv[i as int] != "hover"@);
            }
            bp = Some(chars_to_string(p));
        }
        i += 1;
    }
    proof {
        assert(dv.take((np - 1) as int) =~= dv.drop_last());
        assert(dv.last() == parts@[np - 1].deep_view());
        assert(parts@[np - 1].deep_view() =~= parts@[np - 1]@);
    }
    let base = chars_to_string(&parts[np - 1]);
    (bp, hover, base)
}

/// The selector a class token denotes: the escaped base class, with
/// `:hover` kept when the token carried that prefix.
pub open spec fn class_to_selector_spec(s: Seq<char>) -> Seq<char> {
    let p = parse_prefixed_spec(s);
    if p.1 {
        seq!['.'] + escape_spec(p.2) + ":hover"@
    } else {
        seq!['.'] + escape_spec(p.2)
    }
}

pub fn class_to_selector(class: &str) -> (r: String)
    ensures
        r@ == class_to_selector_spec(class@),
{
    let parsed = parse_prefixed_class(class);
    let base = str_to_chars(parsed.2.as_str());
    let esc = escape_chars(&base);
    let mut out: Vec<char> = Vec::new();
    out.push('.');
    push_chars(&mut out, &esc);
    if parsed.1 {
        push_str_chars(&mut out, ":hover");
        proof {
            assert(out@ =~= seq!['.'] + escape_spec(parse_prefixed_spec(class@).2) + ":hover"@);
        }
    } else {
        proof {
            assert(out@ =~= seq!['.'] + escape_spec(parse_prefixed_spec(class@).2));
        }
    }
    chars_to_string(&out)
}

// ===== selector forms =====

/// Two non-empty pieces around the first occurrence of the separator.
pub open spec fn split2_spec(s: Seq<char>, c: char) -> Option<(Seq<char>, Seq<char>)> {
    let e = first_ix(s, c);
    if e < 0 {
        None
    } else {
        let t = s.take(e);
        let u = s.subrange(e + 1, s.len() as int);
        if t.len() == 0 || u.len() == 0 {
            None
        } else {
            Some((t, u))
        }
    }
}

fn split2_exec(s: &Vec<char>, c: char) -> (r: Option<(String, String)>)
    ensures
        match r {
            Some(p) => split2_spec(s@, c) == Some((p.0@, p.1@)),
            None => split2_spec(s@, c) is None,
        },
{
    match split_once_char(s, c) {
        Some(p) => {
            if p.0.len() == 0 || p.1.len() == 0 {
                None
            } else {
                Some((chars_to_string(&p.0), chars_to_string(&p.1)))
            }
        },
        None => None,
    }
}

/// Split an observed `tag|class` pair key.
pub fn split_tag_class_key(key: &str) -> (r: Option<(String, String)>)
    ensures
        match r {
            Some(p) => split2_spec(key@, '|') == Some((p.0@, p.1@)),
            None => split2_spec(key@, '|') is None,
        },
{
    let s = str_to_chars(key);
    split2_exec(&s, '|')
}

/// Split a `tag.class` compound selector.
pub fn split_tag_class_selector(s: &str) -> (r: Option<(String, String)>)
    ensures
        match r {
            Some(p) => split2_spec(s@, '.') == Some((p.0@, p.1@)),
            None => split2_spec(s@, '.') is None,
        },
{
    let v = str_to_chars(s);
    split2_exec(&v, '.')
}

/// A selector without its `:hover` suffix, and whether one was removed.
pub open spec fn strip_hover_spec(s: Seq<char>) -> (Seq<char>, bool) {
    if is_suffix_of(":hover"@, s) {
        (s.take(s.len() - 6), true)
    } else {
        (s, false)
    }
}

pub fn strip_hover_suffix(selector: &str) -> (r: (&str, bool))
    ensures
        r.0@ == strip_hover_spec(selector@).0,
        r.1 == strip_hover_spec(selector@).1,
{
    let v = str_to_chars(selector);
    if ends_with_str(&v, ":hover") {
        proof {
            assert(":hover"@.len() == 6) by {
                reveal_strlit(":hover");
            }
        }
        let n = selector.unicode_len();
        let head = selector.substring_char(0, n - 6);
        proof {
            assert(head@ =~= selector@.take(selector@.len() - 6));
        }
        (head, true)
    } else {
        (selector, false)
    }
}

pub open spec fn is_alpha(c: char) -> bool {
    is_ascii_upper(c) || is_ascii_lower(c)
}

pub open spec fn is_tag_char(c: char) -> bool {
    is_alpha(c) || is_digit(c) || c == '-' || c == '_'
}

/// A bare tag name: a letter, then letters, digits, hyphens or underscores.
pub open spec fn is_simple_tag_spec(s: Seq<char>) -> bool {
    s.len() > 0 && is_alpha(s[0]) && forall|j: int| 1 <= j < s.len() ==> is_tag_char(#[trigger] s[j])
}

pub fn is_simple_tag(s: &str) -> (r: bool)
    ensures
        r == is_simple_tag_spec(s@),
{
    let v = str_to_chars(s);
    if v.len() == 0 {
        return false;
    }
    let c0 = v[0];
    let u0 = c0 as u32;
    if !((65 <= u0 && u0 <= 90) || (97 <= u0 && u0 <= 122)) {
        return false;
    }
    let mut i: usize = 1;
    while i < v.len()
        invariant
            1 <= i <= v@.len(),
            v@ == s@,
            forall|j: int| 1 <= j < i ==> is_tag_char(#[trigger] v@[j]),
        decreases v@.len() - i,
    {
        let c = v[i];
        let u = c as u32;
        if !((65 <= u && u <= 90) || (97 <= u && u <= 122) || is_digit_exec(c) || c == '-' || c
            == '_') {
            return false;
        }
        i += 1;
    }
    true
}

// ===== the observation test =====

/// The piece of a pair key before its first bar.
pub open spec fn before_bar(k: Seq<char>) -> Seq<char> {
    let e = first_ix(k, '|');
    if e < 0 {
        k
    } else {
        k.take(e)
    }
}

fn before_bar_exec(k: &Vec<char>) -> (r: Vec<char>)
    ensures
        r@ == before_bar(k@),
{
    proof {
        crate::strutil::lemma_first_ix(k@, '|');
    }
    match split_once_char(k, '|') {
        Some(p) => p.0,
        None => subvec(k, 0, k.len()),
    }
}

/// Whether a themed selector was observed in use: a bare tag needs the tag
/// observed (alone or in a pair); a class selector needs the class observed
/// (alone or in a pair); a `tag.class` compound needs the pair observed, or
/// both parts independently.
pub open spec fn should_emit_spec(
    sel: Seq<char>,
    tags: Seq<Seq<char>>,
    classes: Seq<Seq<char>>,
    tcs: Seq<Seq<char>>,
) -> bool {
    let base = strip_hover_spec(sel).0;
    if is_simple_tag_spec(base) {
        s_contains(tags, base) || exists|i: int|
            0 <= i < tcs.len() && before_bar(#[trigger] tcs[i]) == base
    } else if base.len() > 0 && base[0] == '.' {
        let cn = base.subrange(1, base.len() as int);
        s_contains(classes, cn) || exists|i: int|
            0 <= i < tcs.len() && is_suffix_of(seq!['|'] + cn, #[trigger] tcs[i])
    } else {
        match split2_spec(base, '.') {
            Some(p) => s_contains(tcs, p.0 + seq!['|'] + p.1) || (s_contains(tags, p.0)
                && s_contains(classes, p.1)),
            None => false,
        }
    }
}

pub fn should_emit_selector(
    sel: &str,
    used_tags: &OrdSet,
    used_classes: &OrdSet,
    used_tag_classes: &OrdSet,
) -> (r: bool)
    ensures
        r == should_emit_spec(sel@, used_tags@, used_classes@, used_tag_classes@),
{
    let stripped = strip_hover_suffix(sel);
    let base = stripped.0;
    let bv = str_to_chars(base);
    if is_simple_tag(base) {
        if used_tags.contains(base) {
            return true;
        }
        let m = used_tag_classes.len();
        let mut i: usize = 0;
        while i < m
            invariant
                i <= m,
                m == used_tag_classes@.len(),
                bv@ == base@,
                base@ == strip_hover_spec(sel@).0,
                is_simple_tag_spec(base@),
                !s_contains(used_tags@, base@),
                forall|j: int| 0 <= j < i ==> before_bar(#[trigger] used_tag_classes@[j]) != base@,
            decreases m - i,
        {
            let item = str_to_chars(used_tag_classes.at(i).as_str());
            let bb = before_bar_exec(&item);
            if chars_eq(&bb, &bv) {
                proof {
                    assert(before_bar(used_tag_classes@[i as int]) == base@);
                }
                return true;
            }
            i += 1;
        }
        return false;
    }
    if bv.len() > 0 {
        let c0 = bv[0];
        if c0 == '.' {
            let cn = subvec(&bv, 1, bv.len());
            let cns = chars_to_string(&cn);
            if used_classes.contains(cns.as_str()) {
                return true;
            }
            let mut pat: Vec<char> = Vec::new();
            pat.push('|');
            push_chars(&mut pat, &cn);
            proof {
                assert(pat@ =~= seq!['|'] + cn@);
            }
            let m = used_tag_classes.len();
            let mut i: usize = 0;
            while i < m
                invariant
                    i <= m,
                    m == used_tag_classes@.len(),
                    bv@ == base@,
                    base@ == strip_hover_spec(sel@).0,
                    !is_simple_tag_spec(base@),
                    base@.len() > 0 && base@[0] == '.',
                    cn@ == base@.subrange(1, base@.len() as int),
                    pat@ == seq!['|'] + cn@,
                    !s_contains(used_classes@, base@.subrange(1, base@.len() as int)),
                    forall|j: int|
                        0 <= j < i ==> !is_suffix_of(
                            seq!['|'] + base@.subrange(1, base@.len() as int),
                            #[trigger] used_tag_classes@[j],
                        ),
                decreases m - i,
            {
                let item = str_to_chars(used_tag_classes.at(i).as_str());
                if ends_with(&item, &pat) {
                    proof {
                        assert(is_suffix_of(
                            seq!['|'] + base@.subrange(1, base@.len() as int),
                            used_tag_classes@[i as int],
                        ));
                    }
                    return true;
                }
                i += 1;
            }
            return false;
        }
    }
    match split2_exec(&bv, '.') {
        Some(p) => {
            let mut key: Vec<char> = Vec::new();
            push_str_chars(&mut key, p.0.as_str());
            key.push('|');
            push_str_chars(&mut key, p.1.as_str());
            proof {
                assert(key@ =~= p.0@ + seq!['|'] + p.1@);
            }
            let key_s = chars_to_string(&key);
            if used_tag_classes.contains(key_s.as_str()) {
                return true;
            }
            used_tags.contains(p.0.as_str()) && used_classes.contains(p.1.as_str())
        },
        None => false,
    }
}

// ===== media wrapping =====

/// A selector scoped to a breakpoint: wrapped in a media prelude when the
/// breakpoint table knows the key, unchanged otherwise.
pub open spec fn wrap_media_spec(
    sel: Seq<char>,
    bp: Option<Seq<char>>,
    bps: Seq<(Seq<char>, Seq<char>)>,
) -> Seq<char> {
    match bp {
        Some(k) => {
            if m_contains(bps, k) {
                "@media (min-width: "@ + m_val(bps, k) + ") {"@ + sel + "}"@
            } else {
                sel
            }
        },
        None => sel,
    }
}

pub fn wrap_with_media(selector: &str, bp_key: Option<&str>, bps: &OrdMap<String>) -> (r: String)
    requires
        m_wf(bps@),
    ensures
        r@ == wrap_media_spec(selector@, crate::color::opt_str_view(bp_key), bps@),
{
    match bp_key {
        Some(k) => {
            match bps.get(k) {
                Some(v) => {
                    let mut out: Vec<char> = Vec::new();
                    push_str_chars(&mut out, "@media (min-width: ");
                    push_str_chars(&mut out, v.as_str());
                    push_str_chars(&mut out, ") {");
                    push_str_chars(&mut out, selector);
                    push_str_chars(&mut out, "}");
                    proof {
                        assert(out@ =~= "@media (min-width: "@ + m_val(bps@, k@) + ") {"@
                            + selector@ + "}"@);
                    }
                    chars_to_string(&out)
                },
                None => String::from_str(selector),
            }
        },
        None => String::from_str(selector),
    }
}

} // verus!
