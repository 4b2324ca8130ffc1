//! Variable references: scanning `var(name)` and `var(--name)` forms out of
//! a value, substituting them from a variable table, and the `$name` direct
//! reference.

use vstd::prelude::*;
use crate::ordmap::{m_contains, m_val, m_wf, OrdMap};
use crate::strutil::{
    chars_to_string, is_digit, is_digit_exec, is_ws, is_ws_exec, matches_at, str_to_chars, subvec,
    push_chars,
};

verus! {

/// The characters a variable name may hold.
pub open spec fn is_name_char(c: char) -> bool {
    is_digit(c) || (97 <= c as u32 && c as u32 <= 122) || (65 <= c as u32 && c as u32 <= 90) || c
        == '_' || c == '.' || c == '-'
}

pub fn is_name_char_exec(c: char) -> (r: bool)
    ensures
        r == is_name_char(c),
{
    let u = c as u32;
    is_digit_exec(c) || (97 <= u && u <= 122) || (65 <= u && u <= 90) || c == '_' || c == '.' || c
        == '-'
}

/// First position at or past `i` holding no whitespace.
pub open spec fn ws_end(s: Seq<char>, i: int) -> int
    decreases s.len() - i,
{
    if 0 <= i < s.len() && is_ws(s[i]) {
        ws_end(s, i + 1)
    } else {
        i
    }
}

/// First position at or past `i` holding no name character.
pub open spec fn name_end(s: Seq<char>, i: int) -> int
    decreases s.len() - i,
{
    if 0 <= i < s.len() && is_name_char(s[i]) {
        name_end(s, i + 1)
    } else {
        i
    }
}

fn ws_end_exec(s: &Vec<char>, i: usize) -> (r: usize)
    requires
        i <= s@.len(),
    ensures
        r as int == ws_end(s@, i as int),
        i <= r <= s@.len(),
{
    let mut cur: usize = i;
    while cur < s.len()
        invariant
            i <= cur <= s@.len(),
            ws_end(s@, i as int) == ws_end(s@, cur as int),
        decreases s@.len() - cur,
    {
        if !is_ws_exec(s[cur]) {
            return cur;
        }
        cur += 1;
    }
    cur
}

fn name_end_exec(s: &Vec<char>, i: usize) -> (r: usize)
    requires
        i <= s@.len(),
    ensures
        r as int == name_end(s@, i as int),
        i <= r <= s@.len(),
{
    let mut cur: usize = i;
    while cur < s.len()
        invariant
            i <= cur <= s@.len(),
            name_end(s@, i as int) == name_end(s@, cur as int),
        decreases s@.len() - cur,
    {
        if !is_name_char_exec(s[cur]) {
            return cur;
        }
        cur += 1;
    }
    cur
}

fn match_at_exec(s: &Vec<char>, i: usize, lit: &str) -> (r: bool)
    ensures
        r == matches_at(s@, lit@, i as int),
{
    let lv = str_to_chars(lit);
    let n = s.len();
    let m = lv.len();
    if i > n || m > n - i {
        return false;
    }
    let mut j: usize = 0;
    while j < m
        invariant
            j <= m,
            m == lv@.len(),
            n == s@.len(),
            lv@ == lit@,
            i + m <= n,
            forall|t: int| 0 <= t < j ==> s@[i + t] == lv@[t],
        decreases m - j,
    {
        if s[i + j] != lv[j] {
            proof {
                if matches_at(s@, lit@, i as int) {
                    assert(s@.subrange(i as int, i + lit@.len())[j as int] == lit@[j as int]);
                }
            }
            return false;
        }
        j += 1;
    }
    proof {
        assert(s@.subrange(i as int, i + lit@.len()) =~= lit@);
    }
    true
}

/// A well-formed reference starting at `i`: `var(`, optional whitespace, an
/// optional `--`, a non-empty name, optional whitespace, `)`. The result is
/// the position after the closing parenthesis and the name.
pub open spec fn try_var_match(s: Seq<char>, i: int) -> Option<(int, Seq<char>)> {
    if matches_at(s, "var("@, i) {
        let j0 = ws_end(s, i + 4);
        let j1 = if matches_at(s, "--"@, j0) {
            j0 + 2
        } else {
            j0
        };
        let j2 = name_end(s, j1);
        if j2 > j1 {
            let j3 = ws_end(s, j2);
            if j3 < s.len() && s[j3] == ')' {
                Some(((j3 + 1) as int, s.subrange(j1, j2)))
            } else {
                None
            }
        } else {
            None
        }
    } else {
        None
    }
}

fn try_var_match_exec(s: &Vec<char>, i: usize) -> (r: Option<(usize, Vec<char>)>)
    requires
        i < s@.len(),
    ensures
        match r {
            Some(m) => try_var_match(s@, i as int) == Some((m.0 as int, m.1@)) && i < m.0
                <= s@.len(),
            None => try_var_match(s@, i as int) is None,
        },
{
    let n = s.len();
    if !match_at_exec(s, i, "var(") {
        return None;
    }
    proof {
        assert("var("@.len() == 4) by {
            reveal_strlit("var(");
        }
        assert(i + 4 <= n);
    }
    let j0 = ws_end_exec(s, i + 4);
    let j1 = if match_at_exec(s, j0, "--") {
        proof {
            assert("--"@.len() == 2) by {
                reveal_strlit("--");
            }
            assert(j0 + 2 <= n);
        }
        j0 + 2
    } else {
        j0
    };
    if j1 > s.len() {
        proof {
            assert(false);
        }
        return None;
    }
    let j2 = name_end_exec(s, j1);
    if j2 > j1 {
        let j3 = ws_end_exec(s, j2);
        if j3 < s.len() {
            let c = s[j3];
            if c == ')' {
                let name = subvec(s, j1, j2);
                return Some((j3 + 1, name));
            }
        }
        None
    } else {
        None
    }
}

/// All references in the input, left to right: at each position a match is
/// taken whole and scanning resumes after it, else scanning moves one
/// character on.
pub open spec fn var_refs_from(s: Seq<char>, i: int) -> Seq<(int, int, Seq<char>)>
    decreases s.len() - i,
{
    if i < 0 || i >= s.len() {
        Seq::empty()
    } else {
        match try_var_match(s, i) {
            Some(m) => seq![(i, m.0, m.1)] + var_refs_from(
                s,
                if m.0 > i {
                    m.0
                } else {
                    i + 1
                },
            ),
            None => var_refs_from(s, i + 1),
        }
    }
}

pub open spec fn var_refs_spec(s: Seq<char>) -> Seq<(int, int, Seq<char>)> {
    var_refs_from(s, 0)
}

pub open spec fn refs_view(v: Seq<(usize, usize, String)>) -> Seq<(int, int, Seq<char>)> {
    Seq::new(v.len(), |k: int| (v[k].0 as int, v[k].1 as int, v[k].2@))
}

/// Scan a value for `var(...)` references: each result triple is the start
/// position, the position after the closing parenthesis, and the name.
pub fn parse_var_references(input: &str) -> (r: Vec<(usize, usize, String)>)
    ensures
        refs_view(r@) == var_refs_spec(input@),
        forall|k: int| 0 <= k < r@.len() ==> (#[trigger] r@[k]).0 <= r@[k].1 <= input@.len(),
        forall|k: int| 0 <= k < r@.len() - 1 ==> (#[trigger] r@[k]).1 <= r@[k + 1].0,
{
    let s = str_to_chars(input);
    let n = s.len();
    let mut out: Vec<(usize, usize, String)> = Vec::new();
    let mut i: usize = 0;
    proof {
        assert(refs_view(out@) =~= Seq::<(int, int, Seq<char>)>::empty());
        assert(Seq::<(int, int, Seq<char>)>::empty() + var_refs_from(s@, 0) =~= var_refs_from(
            s@,
            0,
        ));
    }
    while i < n
        invariant
            i <= n,
            n == s@.len(),
            s@ == input@,
            var_refs_spec(input@) == refs_view(out@) + var_refs_from(s@, i as int),
            forall|k: int| 0 <= k < out@.len() ==> (#[trigger] out@[k]).0 <= out@[k].1 <= n,
            forall|k: int| 0 <= k < out@.len() - 1 ==> (#[trigger] out@[k]).1 <= out@[k + 1].0,
            out@.len() > 0 ==> out@[out@.len() - 1].1 <= i,
        decreases n - i,
    {
        match try_var_match_exec(&s, i) {
            Some(m) => {
                let (end, name) = m;
                let ghost old_out = out@;
                let name_s = chars_to_string(&name);
                out.push((i, end, name_s));
                proof {
                    assert(refs_view(out@) =~= refs_view(old_out) + seq![
                        (i as int, end as int, name@),
                    ]);
                    assert((refs_view(old_out) + seq![(i as int, end as int, name@)])
                        + var_refs_from(s@, end as int) =~= refs_view(old_out) + (seq![
                        (i as int, end as int, name@),
                    ] + var_refs_from(s@, end as int)));
                }
                i = end;
            },
            None => {
                i += 1;
            },
        }
    }
    proof {
        assert(var_refs_from(s@, i as int) =~= Seq::<(int, int, Seq<char>)>::empty());
        assert(refs_view(out@) + Seq::<(int, int, Seq<char>)>::empty() =~= refs_view(out@));
    }
    out
}

/// Substitution, applied rightmost first so that the positions of the
/// references to the left stay valid: a reference whose name the table
/// holds is replaced by its value; an unknown name stays as literal text.
pub open spec fn apply_refs(
    s: Seq<char>,
    refs: Seq<(int, int, Seq<char>)>,
    vars: Seq<(Seq<char>, Seq<char>)>,
) -> Seq<char>
    decreases refs.len(),
{
    if refs.len() == 0 {
        s
    } else {
        let last = refs.last();
        let s1 = if m_contains(vars, last.2) {
            s.take(last.0) + m_val(vars, last.2) + s.skip(last.1)
        } else {
            s
        };
        apply_refs(s1, refs.drop_last(), vars)
    }
}

/// What a value resolves to against a variable table: every `var(...)`
/// reference is substituted; then, when the whole result begins with `$`
/// and the rest names a variable, that variable's value replaces it all.
pub open spec fn resolve_vars_spec(s: Seq<char>, vars: Seq<(Seq<char>, Seq<char>)>) -> Seq<
    char,
> {
    let out = apply_refs(s, var_refs_spec(s), vars);
    if out.len() > 0 && out[0] == '$' && m_contains(vars, out.subrange(1, out.len() as int)) {
        m_val(vars, out.subrange(1, out.len() as int))
    } else {
        out
    }
}

fn splice(cur: &Vec<char>, a: usize, b: usize, val: &str) -> (r: Vec<char>)
    requires
        a <= b <= cur@.len(),
    ensures
        r@ == cur@.take(a as int) + val@ + cur@.skip(b as int),
{
    let mut r = subvec(cur, 0, a);
    crate::strutil::push_str_chars(&mut r, val);
    let tail = subvec(cur, b, cur.len());
    push_chars(&mut r, &tail);
    proof {
        assert(cur@.subrange(0, a as int) =~= cur@.take(a as int));
        assert(cur@.subrange(b as int, cur@.len() as int) =~= cur@.skip(b as int));
    }
    r
}

/// Resolve every variable reference in a value against the table.
pub fn resolve_vars(input: &str, vars: &OrdMap<String>) -> (r: String)
    requires
        m_wf(vars@),
    ensures
        r@ == resolve_vars_spec(input@, vars@),
{
    let refs = parse_var_references(input);
    let mut cur = str_to_chars(input);
    let mut k = refs.len();
    proof {
        assert(refs_view(refs@).take(refs@.len() as int) =~= refs_view(refs@));
    }
    while k > 0
        invariant
            k <= refs@.len(),
            m_wf(vars@),
            refs_view(refs@) == var_refs_spec(input@),
            forall|t: int| 0 <= t < refs@.len() ==> (#[trigger] refs@[t]).0 <= refs@[t].1 <= input@.len(),
            forall|t: int| 0 <= t < refs@.len() - 1 ==> (#[trigger] refs@[t]).1 <= refs@[t + 1].0,
            apply_refs(input@, var_refs_spec(input@), vars@) == apply_refs(
                cur@,
                refs_view(refs@).take(k as int),
                vars@,
            ),
            k > 0 ==> refs@[k - 1].1 <= cur@.len(),
        decreases k,
    {
        k -= 1;
        let (start, end, name) = {
            let t = &refs[k];
            (t.0, t.1, t.2.clone())
        };
        let ghost taken = refs_view(refs@).take((k + 1) as int);
        proof {
            assert(taken.last() == (start as int, end as int, name@));
            assert(taken.drop_last() =~= refs_view(refs@).take(k as int));
        }
        let looked = match vars.get(name.as_str()) {
            Some(v) => Some(v.clone()),
            None => None,
        };
        match looked {
            Some(v) => {
                let next = splice(&cur, start, end, v.as_str());
                proof {
                    assert(m_contains(vars@, name@));
                    assert(next@ == cur@.take(start as int) + m_val(vars@, name@) + cur@.skip(
                        end as int,
                    ));
                    if k > 0 {
                        assert(refs@[k - 1].1 <= refs@[k as int].0);
                        assert(next@.len() >= start);
                    }
                }
                cur = next;
            },
            None => {},
        }
    }
    proof {
        assert(refs_view(refs@).take(0) =~= Seq::<(int, int, Seq<char>)>::empty());
        assert(apply_refs(cur@, Seq::<(int, int, Seq<char>)>::empty(), vars@) == cur@);
    }
    if cur.len() > 0 {
        let c0 = cur[0];
        if c0 == '$' {
            let rest = subvec(&cur, 1, cur.len());
            let rest_s = chars_to_string(&rest);
            match vars.get(rest_s.as_str()) {
                Some(v) => {
                    return v.clone();
                },
                None => {},
            }
        }
    }
    chars_to_string(&cur)
}

} // verus!
