//! Character-sequence utilities: the library works on `Vec<char>` internally,
//! converting from and to `String` at its boundary. Spec functions over
//! `Seq<char>` give every helper an exact meaning.

use vstd::prelude::*;

verus! {

// ===== trusted bridges to std string operations =====

/// Relies on `<str as PartialEq>::eq`: true exactly when the two strings
/// hold the same characters in the same order.
#[verifier::external_body]
pub fn str_eq(a: &str, b: &str) -> (r: bool)
    ensures
        r == (a@ == b@),
{
    a == b
}

/// Relies on `String: FromIterator<char>`: collecting characters yields a
/// string holding exactly those characters in order.
#[verifier::external_body]
pub fn chars_to_string(v: &Vec<char>) -> (r: String)
    ensures
        r@ == v@,
{
    v.iter().collect()
}

/// Relies on `str::chars`: the iterator yields the characters of the string
/// in order.
#[verifier::external_body]
pub fn str_to_chars(s: &str) -> (r: Vec<char>)
    ensures
        r@ == s@,
{
    s.chars().collect()
}

// ===== spec: prefix / suffix / containment =====

pub open spec fn is_prefix_of(p: Seq<char>, s: Seq<char>) -> bool {
    p.len() <= s.len() && s.subrange(0, p.len() as int) == p
}

pub open spec fn is_suffix_of(p: Seq<char>, s: Seq<char>) -> bool {
    p.len() <= s.len() && s.subrange(s.len() - p.len(), s.len() as int) == p
}

pub open spec fn matches_at(s: Seq<char>, sub: Seq<char>, i: int) -> bool {
    0 <= i && i + sub.len() <= s.len() && s.subrange(i, i + sub.len()) == sub
}

pub open spec fn seq_contains(s: Seq<char>, sub: Seq<char>) -> bool {
    exists|i: int| matches_at(s, sub, i)
}

// ===== exec: basic vector-of-chars operations =====

pub fn subvec(s: &Vec<char>, a: usize, b: usize) -> (r: Vec<char>)
    requires
        a <= b <= s@.len(),
    ensures
        r@ == s@.subrange(a as int, b as int),
{
    let mut r: Vec<char> = Vec::new();
    let mut i: usize = a;
    while i < b
        invariant
            a <= i <= b <= s@.len(),
            r@ == s@.subrange(a as int, i as int),
        decreases b - i,
    {
        r.push(s[i]);
        proof {
            assert(r@ =~= s@.subrange(a as int, (i + 1) as int));
        }
        i += 1;
    }
    r
}

pub fn chars_eq(a: &Vec<char>, b: &Vec<char>) -> (r: bool)
    ensures
        r == (a@ == b@),
{
    if a.len() != b.len() {
        return false;
    }
    let mut i: usize = 0;
    while i < a.len()
        invariant
            i <= a@.len() == b@.len(),
            forall|j: int| 0 <= j < i ==> a@[j] == b@[j],
        decreases a@.len() - i,
    {
        if a[i] != b[i] {
            return false;
        }
        i += 1;
    }
    proof {
        assert(a@ =~= b@);
    }
    true
}

pub fn chars_eq_str(a: &Vec<char>, b: &str) -> (r: bool)
    ensures
        r == (a@ == b@),
{
    let bv = str_to_chars(b);
    chars_eq(a, &bv)
}

pub fn starts_with(s: &Vec<char>, p: &Vec<char>) -> (r: bool)
    ensures
        r == is_prefix_of(p@, s@),
{
    if p.len() > s.len() {
        return false;
    }
    let mut i: usize = 0;
    while i < p.len()
        invariant
            i <= p@.len() <= s@.len(),
            forall|j: int| 0 <= j < i ==> s@[j] == p@[j],
        decreases p@.len() - i,
    {
        if s[i] != p[i] {
            proof {
                assert(s@.subrange(0, p@.len() as int)[i as int] != p@[i as int]);
            }
            return false;
        }
        i += 1;
    }
    proof {
        assert(s@.subrange(0, p@.len() as int) =~= p@);
    }
    true
}

pub fn starts_with_str(s: &Vec<char>, p: &str) -> (r: bool)
    ensures
        r == is_prefix_of(p@, s@),
{
    let pv = str_to_chars(p);
    starts_with(s, &pv)
}

pub fn ends_with(s: &Vec<char>, p: &Vec<char>) -> (r: bool)
    ensures
        r == is_suffix_of(p@, s@),
{
    if p.len() > s.len() {
        return false;
    }
    let n: usize = s.len();
    let m: usize = p.len();
    let off: usize = n - m;
    let mut i: usize = 0;
    while i < m
        invariant
            i <= m,
            m == p@.len(),
            n == s@.len(),
            m <= n,
            off == n - m,
            forall|j: int| 0 <= j < i ==> s@[off + j] == p@[j],
        decreases m - i,
    {
        if s[off + i] != p[i] {
            proof {
                assert(s@.subrange(s@.len() - p@.len(), s@.len() as int)[i as int] != p@[
                    i as int
                ]);
            }
            return false;
        }
        i += 1;
    }
    proof {
        assert(s@.subrange(s@.len() - p@.len(), s@.len() as int) =~= p@);
    }
    true
}

pub fn ends_with_str(s: &Vec<char>, p: &str) -> (r: bool)
    ensures
        r == is_suffix_of(p@, s@),
{
    let pv = str_to_chars(p);
    ends_with(s, &pv)
}

/// Strip a known prefix, returning the remainder when the prefix matches.
pub fn strip_prefix_str(s: &Vec<char>, p: &str) -> (r: Option<Vec<char>>)
    ensures
        is_prefix_of(p@, s@) ==> r is Some && r->0@ == s@.subrange(p@.len() as int, s@.len() as int),
        !is_prefix_of(p@, s@) ==> r is None,
{
    let pv = str_to_chars(p);
    if starts_with(s, &pv) {
        Some(subvec(s, pv.len(), s.len()))
    } else {
        None
    }
}

/// Strip a known suffix, returning the front when the suffix matches.
pub fn strip_suffix_str(s: &Vec<char>, p: &str) -> (r: Option<Vec<char>>)
    ensures
        is_suffix_of(p@, s@) ==> r is Some && r->0@ == s@.subrange(0, s@.len() - p@.len()),
        !is_suffix_of(p@, s@) ==> r is None,
{
    let pv = str_to_chars(p);
    if ends_with(s, &pv) {
        Some(subvec(s, 0, s.len() - pv.len()))
    } else {
        None
    }
}

pub fn contains_sub(s: &Vec<char>, sub: &Vec<char>) -> (r: bool)
    ensures
        r == seq_contains(s@, sub@),
{
    if sub.len() > s.len() {
        proof {
            assert(forall|i: int| !matches_at(s@, sub@, i));
        }
        return false;
    }
    if sub.len() == 0 {
        proof {
            assert(s@.subrange(0, 0) =~= sub@);
            assert(matches_at(s@, sub@, 0));
        }
        return true;
    }
    let n: usize = s.len();
    let m: usize = sub.len();
    let mut i: usize = 0;
    while i <= n - m
        invariant
            m == sub@.len(),
            n == s@.len(),
            0 < m <= n,
            i <= n - m + 1,
            forall|k: int| 0 <= k < i ==> !matches_at(s@, sub@, k),
        decreases n - i,
    {
        let mut j: usize = 0;
        let mut ok = true;
        while j < m
            invariant
                m == sub@.len(),
                n == s@.len(),
                i + m <= n,
                j <= m,
                ok ==> forall|t: int| 0 <= t < j ==> s@[i + t] == sub@[t],
                !ok ==> !matches_at(s@, sub@, i as int),
            decreases m - j,
        {
            if s[i + j] != sub[j] {
                proof {
                    if matches_at(s@, sub@, i as int) {
                        assert(s@.subrange(i as int, i + sub@.len())[j as int] == sub@[j as int]);
                    }
                }
                ok = false;
            }
            j += 1;
        }
        if ok {
            proof {
                assert(s@.subrange(i as int, i + sub@.len()) =~= sub@);
                assert(matches_at(s@, sub@, i as int));
            }
            return true;
        }
        i += 1;
    }
    proof {
        assert forall|k: int| !matches_at(s@, sub@, k) by {
            if matches_at(s@, sub@, k) {
                assert(0 <= k < i);
            }
        }
    }
    false
}

pub fn contains_sub_str(s: &Vec<char>, sub: &str) -> (r: bool)
    ensures
        r == seq_contains(s@, sub@),
{
    let sv = str_to_chars(sub);
    contains_sub(s, &sv)
}

/// First occurrence of a character, with the full characterization of
/// "first" in the contract.
pub fn find_char(s: &Vec<char>, c: char) -> (r: Option<usize>)
    ensures
        match r {
            Some(i) => i < s@.len() && s@[i as int] == c && forall|j: int|
                0 <= j < i ==> s@[j] != c,
            None => forall|j: int| 0 <= j < s@.len() ==> s@[j] != c,
        },
{
    let mut i: usize = 0;
    while i < s.len()
        invariant
            i <= s@.len(),
            forall|j: int| 0 <= j < i ==> s@[j] != c,
        decreases s@.len() - i,
    {
        if s[i] == c {
            return Some(i);
        }
        i += 1;
    }
    None
}



// ===== building strings =====

pub fn push_chars(dst: &mut Vec<char>, src: &Vec<char>)
    ensures
        final(dst)@ == old(dst)@ + src@,
{
    let mut i: usize = 0;
    while i < src.len()
        invariant
            i <= src@.len(),
            dst@ == old(dst)@ + src@.take(i as int),
        decreases src@.len() - i,
    {
        dst.push(src[i]);
        proof {
            assert(dst@ =~= old(dst)@ + src@.take((i + 1) as int));
        }
        i += 1;
    }
    proof {
        assert(src@.take(src@.len() as int) =~= src@);
    }
}

pub fn push_str_chars(dst: &mut Vec<char>, src: &str)
    ensures
        final(dst)@ == old(dst)@ + src@,
{
    let sv = str_to_chars(src);
    push_chars(dst, &sv);
}

// ===== splitting =====

/// Split at every occurrence of a separator; an empty input, or adjacent
/// separators, yield empty pieces, as `str::split` does.
pub open spec fn split_char_spec(s: Seq<char>, c: char) -> Seq<Seq<char>>
    decreases s.len(),
{
    if s.len() == 0 {
        seq![Seq::<char>::empty()]
    } else if s[0] == c {
        seq![Seq::<char>::empty()] + split_char_spec(s.subrange(1, s.len() as int), c)
    } else {
        let r = split_char_spec(s.subrange(1, s.len() as int), c);
        seq![seq![s[0]] + r[0]] + r.drop_first()
    }
}

pub proof fn lemma_split_char_len(s: Seq<char>, c: char)
    ensures
        split_char_spec(s, c).len() >= 1,
    decreases s.len(),
{
    if s.len() > 0 {
        lemma_split_char_len(s.subrange(1, s.len() as int), c);
    }
}

/// The usable characterization: the piece before the first separator, then
/// the split of what follows it.
pub proof fn lemma_split_char(s: Seq<char>, c: char)
    ensures
        first_ix(s, c) < 0 ==> split_char_spec(s, c) == seq![s],
        first_ix(s, c) >= 0 ==> split_char_spec(s, c) == seq![s.take(first_ix(s, c))]
            + split_char_spec(s.subrange(first_ix(s, c) + 1, s.len() as int), c),
    decreases s.len(),
{
    lemma_first_ix(s, c);
    let e = first_ix(s, c);
    if s.len() == 0 {
        assert(s =~= Seq::<char>::empty());
        assert(split_char_spec(s, c) == seq![s]);
    } else if s[0] == c {
        assert(e == 0);
        assert(s.take(0) =~= Seq::<char>::empty());
        assert(s.subrange(1, s.len() as int) =~= s.subrange(e + 1, s.len() as int));
    } else {
        let rest = s.subrange(1, s.len() as int);
        lemma_split_char(rest, c);
        lemma_first_ix(rest, c);
        let r = split_char_spec(rest, c);
        lemma_split_char_len(rest, c);
        if e < 0 {
            assert(first_ix(rest, c) < 0);
            assert(r == seq![rest]);
            assert(seq![s[0]] + rest =~= s);
            assert(split_char_spec(s, c) =~= seq![s]);
        } else {
            assert(first_ix(rest, c) == e - 1);
            assert(r == seq![rest.take(e - 1)] + split_char_spec(
                rest.subrange(e, rest.len() as int),
                c,
            ));
            assert(r[0] == rest.take(e - 1));
            assert(seq![s[0]] + rest.take(e - 1) =~= s.take(e));
            assert(rest.subrange(e, rest.len() as int) =~= s.subrange(e + 1, s.len() as int));
            assert(r.drop_first() =~= split_char_spec(s.subrange(e + 1, s.len() as int), c));
            assert(split_char_spec(s, c) =~= seq![s.take(e)] + split_char_spec(
                s.subrange(e + 1, s.len() as int),
                c,
            ));
        }
    }
}

/// First occurrence of a character at or after a position.
pub fn find_from(s: &Vec<char>, from: usize, c: char) -> (r: Option<usize>)
    requires
        from <= s@.len(),
    ensures
        match r {
            Some(i) => from <= i < s@.len() && s@[i as int] == c && forall|j: int|
                from <= j < i ==> s@[j] != c,
            None => forall|j: int| from <= j < s@.len() ==> s@[j] != c,
        },
{
    let mut i: usize = from;
    while i < s.len()
        invariant
            from <= i <= s@.len(),
            forall|j: int| from <= j < i ==> s@[j] != c,
        decreases s@.len() - i,
    {
        if s[i] == c {
            return Some(i);
        }
        i += 1;
    }
    None
}

pub fn split_char(s: &Vec<char>, c: char) -> (r: Vec<Vec<char>>)
    ensures
        r.deep_view() == split_char_spec(s@, c),
        r@.len() >= 1,
{
    let n = s.len();
    let mut out: Vec<Vec<char>> = Vec::new();
    let mut i: usize = 0;
    proof {
        assert(out.deep_view() =~= Seq::<Seq<char>>::empty());
        assert(s@.subrange(0, n as int) =~= s@);
        assert(Seq::<Seq<char>>::empty() + split_char_spec(s@, c) =~= split_char_spec(s@, c));
    }
    loop
        invariant_except_break
            split_char_spec(s@, c) == out.deep_view() + split_char_spec(
                s@.subrange(i as int, n as int),
                c,
            ),
        invariant
            i <= n,
            n == s@.len(),
        ensures
            i <= n == s@.len(),
            out.deep_view().len() >= 1,
            split_char_spec(s@, c) == out.deep_view(),
        decreases n - i,
    {
        let ghost rem = s@.subrange(i as int, n as int);
        proof {
            lemma_split_char(rem, c);
            lemma_first_ix(rem, c);
        }
        match find_from(s, i, c) {
            Some(j) => {
                let tok = subvec(s, i, j);
                proof {
                    assert(first_ix(rem, c) == j - i) by {
                        let e = first_ix(rem, c);
                        assert(rem[j - i] == c);
                        if e < 0 {
                        } else if e < j - i {
                            assert(rem[e] == s@[i + e]);
                        } else if e > j - i {
                        }
                    }
                    assert(rem.take(j - i) =~= tok@);
                    assert(rem.subrange(j - i + 1, rem.len() as int) =~= s@.subrange(
                        j + 1,
                        n as int,
                    ));
                    let ghost old_out = out.deep_view();
                    assert((old_out + seq![tok@]) + split_char_spec(
                        s@.subrange(j + 1, n as int),
                        c,
                    ) =~= old_out + (seq![tok@] + split_char_spec(s@.subrange(j + 1, n as int), c)));
                }
                let ghost old_out_dv = out.deep_view();
                out.push(tok);
                proof {
                    assert(out.deep_view() =~~= old_out_dv + seq![s@.subrange(i as int, j as int)]);
                }
                i = j + 1;
            },
            None => {
                let tok = subvec(s, i, n);
                proof {
                    assert(first_ix(rem, c) < 0) by {
                        let e = first_ix(rem, c);
                        if e >= 0 {
                            assert(rem[e] == s@[i + e]);
                        }
                    }
                    assert(rem =~= tok@);
                }
                let ghost old_out_dv = out.deep_view();
                out.push(tok);
                proof {
                    assert(out.deep_view() =~~= old_out_dv + seq![s@.subrange(i as int, n as int)]);
                    assert(out.deep_view() == split_char_spec(s@, c));
                }
                break;
            },
        }
    }
    proof {
        assert(out@.len() == out.deep_view().len());
    }
    out
}

/// The input split once at the first occurrence of a separator.
pub fn split_once_char(s: &Vec<char>, c: char) -> (r: Option<(Vec<char>, Vec<char>)>)
    ensures
        match r {
            Some(p) => first_ix(s@, c) >= 0 && p.0@ == s@.take(first_ix(s@, c)) && p.1@
                == s@.subrange(first_ix(s@, c) + 1, s@.len() as int),
            None => first_ix(s@, c) < 0,
        },
{
    proof {
        lemma_first_ix(s@, c);
    }
    let n = s.len();
    match find_from(s, 0, c) {
        Some(j) => {
            proof {
                assert(first_ix(s@, c) == j as int) by {
                    let e = first_ix(s@, c);
                }
            }
            let a = subvec(s, 0, j);
            let b = subvec(s, j + 1, n);
            proof {
                assert(a@ =~= s@.take(j as int));
            }
            Some((a, b))
        },
        None => {
            proof {
                let e = first_ix(s@, c);
                if e >= 0 {
                    assert(s@[e] == c);
                }
            }
            None
        },
    }
}

// ===== whitespace splitting =====

/// Index of the first whitespace character, or -1.
pub open spec fn first_ws(s: Seq<char>) -> int
    decreases s.len(),
{
    if s.len() == 0 {
        -1
    } else if is_ws(s[0]) {
        0
    } else {
        let r = first_ws(s.subrange(1, s.len() as int));
        if r < 0 {
            -1
        } else {
            r + 1
        }
    }
}

pub proof fn lemma_first_ws(s: Seq<char>)
    ensures
        first_ws(s) == -1 ==> forall|j: int| 0 <= j < s.len() ==> !is_ws(s[j]),
        first_ws(s) >= 0 ==> first_ws(s) < s.len() && is_ws(s[first_ws(s)]) && forall|j: int|
            0 <= j < first_ws(s) ==> !is_ws(s[j]),
    decreases s.len(),
{
    if s.len() > 0 && !is_ws(s[0]) {
        let rest = s.subrange(1, s.len() as int);
        lemma_first_ws(rest);
        let r = first_ws(rest);
        if r < 0 {
            assert forall|j: int| 0 <= j < s.len() implies !is_ws(s[j]) by {
                if j >= 1 {
                    assert(s[j] == rest[j - 1]);
                }
            }
        } else {
            assert(s[r + 1] == rest[r]);
            assert forall|j: int| 0 <= j < r + 1 implies !is_ws(s[j]) by {
                if j >= 1 {
                    assert(s[j] == rest[j - 1]);
                }
            }
        }
    }
}

/// The whitespace-separated words of the input, in order, without empties.
pub open spec fn split_ws_spec(s: Seq<char>) -> Seq<Seq<char>>
    decreases s.len(),
{
    if s.len() == 0 {
        Seq::<Seq<char>>::empty()
    } else if is_ws(s[0]) {
        split_ws_spec(s.subrange(1, s.len() as int))
    } else {
        let e = first_ws(s);
        if e < 1 || e > s.len() {
            seq![s]
        } else {
            seq![s.take(e)] + split_ws_spec(s.subrange(e, s.len() as int))
        }
    }
}

pub fn scan_to_ws(s: &Vec<char>, from: usize) -> (j: usize)
    requires
        from <= s@.len(),
    ensures
        from <= j <= s@.len(),
        forall|t: int| from <= t < j ==> !is_ws(s@[t]),
        j < s@.len() ==> is_ws(s@[j as int]),
{
    let mut j: usize = from;
    while j < s.len()
        invariant
            from <= j <= s@.len(),
            forall|t: int| from <= t < j ==> !is_ws(s@[t]),
        decreases s@.len() - j,
    {
        if is_ws_exec(s[j]) {
            return j;
        }
        j += 1;
    }
    j
}

pub fn split_ws(s: &Vec<char>) -> (r: Vec<Vec<char>>)
    ensures
        r.deep_view() == split_ws_spec(s@),
{
    let n = s.len();
    let mut out: Vec<Vec<char>> = Vec::new();
    let mut i: usize = 0;
    proof {
        assert(out.deep_view() =~= Seq::<Seq<char>>::empty());
        assert(s@.subrange(0, n as int) =~= s@);
        assert(Seq::<Seq<char>>::empty() + split_ws_spec(s@) =~= split_ws_spec(s@));
    }
    while i < n
        invariant
            i <= n,
            n == s@.len(),
            split_ws_spec(s@) == out.deep_view() + split_ws_spec(s@.subrange(i as int, n as int)),
        decreases n - i,
    {
        let ghost rem = s@.subrange(i as int, n as int);
        if is_ws_exec(s[i]) {
            proof {
                assert(is_ws(rem[0]));
                assert(rem.subrange(1, rem.len() as int) =~= s@.subrange(i + 1, n as int));
            }
            i += 1;
        } else {
            let j = scan_to_ws(s, i + 1);
            let tok = subvec(s, i, j);
            proof {
                assert(!is_ws(rem[0]));
                lemma_first_ws(rem);
                let e = first_ws(rem);
                if j < n {
                    assert(is_ws(s@[j as int]));
                    assert(e == j - i) by {
                        assert(rem[j - i] == s@[j as int]);
                        if e < 0 {
                        } else if e < j - i {
                            assert(rem[e] == s@[i + e]);
                        } else if e > j - i {
                        }
                    }
                    assert(rem.take(j - i) =~= tok@);
                    assert(rem.subrange(j - i, rem.len() as int) =~= s@.subrange(
                        j as int,
                        n as int,
                    ));
                    let old_out = out.deep_view();
                    assert((old_out + seq![tok@]) + split_ws_spec(s@.subrange(j as int, n as int))
                        =~= old_out + (seq![tok@] + split_ws_spec(s@.subrange(j as int, n as int))));
                } else {
                    assert(e < 0) by {
                        if e >= 0 {
                            assert(rem[e] == s@[i + e]);
                        }
                    }
                    assert(rem =~= tok@);
                    assert(s@.subrange(n as int, n as int) =~= Seq::<char>::empty());
                    assert(split_ws_spec(s@.subrange(n as int, n as int)) =~= Seq::<
                        Seq<char>,
                    >::empty());
                    let old_out = out.deep_view();
                    assert((old_out + seq![tok@]) + split_ws_spec(s@.subrange(n as int, n as int))
                        =~= old_out + seq![tok@]);
                }
            }
            let ghost old_out_dv = out.deep_view();
            out.push(tok);
            proof {
                assert(out.deep_view() =~~= old_out_dv + seq![s@.subrange(i as int, j as int)]);
            }
            i = j;
        }
    }
    proof {
        assert(s@.subrange(n as int, n as int) =~= Seq::<char>::empty());
        assert(split_ws_spec(Seq::<char>::empty()) =~= Seq::<Seq<char>>::empty());
        assert(split_ws_spec(s@) =~= out.deep_view());
    }
    out
}

// ===== whitespace trimming =====

pub open spec fn is_ws(c: char) -> bool {
    c == ' ' || c == '\t' || c == '\n' || c == '\r'
}

pub open spec fn trimmed(s: Seq<char>) -> bool {
    (s.len() > 0 ==> !is_ws(s[0])) && (s.len() > 0 ==> !is_ws(s[s.len() - 1]))
}

pub open spec fn trim_front_spec(s: Seq<char>) -> Seq<char>
    decreases s.len(),
{
    if s.len() > 0 && is_ws(s[0]) {
        trim_front_spec(s.subrange(1, s.len() as int))
    } else {
        s
    }
}

pub open spec fn trim_back_spec(s: Seq<char>) -> Seq<char>
    decreases s.len(),
{
    if s.len() > 0 && is_ws(s[s.len() - 1]) {
        trim_back_spec(s.drop_last())
    } else {
        s
    }
}

/// The input without leading and trailing ASCII whitespace.
pub open spec fn trim_spec(s: Seq<char>) -> Seq<char> {
    trim_back_spec(trim_front_spec(s))
}

proof fn lemma_trim_front(s: Seq<char>, a: int)
    requires
        0 <= a <= s.len(),
        forall|j: int| 0 <= j < a ==> is_ws(s[j]),
        a < s.len() ==> !is_ws(s[a]),
    ensures
        trim_front_spec(s) == s.subrange(a, s.len() as int),
    decreases a,
{
    if a == 0 {
        assert(s.subrange(0, s.len() as int) =~= s);
    } else {
        let rest = s.subrange(1, s.len() as int);
        assert(is_ws(s[0]));
        lemma_trim_front(rest, a - 1);
        assert(rest.subrange(a - 1, rest.len() as int) =~= s.subrange(a, s.len() as int));
    }
}

proof fn lemma_trim_back(s: Seq<char>, b: int)
    requires
        0 <= b <= s.len(),
        forall|j: int| b <= j < s.len() ==> is_ws(s[j]),
        b > 0 ==> !is_ws(s[b - 1]),
    ensures
        trim_back_spec(s) == s.subrange(0, b),
    decreases s.len(),
{
    if b == s.len() {
        if s.len() == 0 || !is_ws(s[s.len() - 1]) {
            assert(s.subrange(0, s.len() as int) =~= s);
        }
    } else {
        assert(is_ws(s[s.len() - 1]));
        let head = s.drop_last();
        assert(head =~= s.subrange(0, s.len() - 1));
        lemma_trim_back(head, b);
        assert(head.subrange(0, b) =~= s.subrange(0, b));
    }
}

pub fn is_ws_exec(c: char) -> (r: bool)
    ensures
        r == is_ws(c),
{
    c == ' ' || c == '\t' || c == '\n' || c == '\r'
}

fn skip_ws_front(s: &Vec<char>) -> (a: usize)
    ensures
        a <= s@.len(),
        forall|j: int| 0 <= j < a ==> is_ws(s@[j]),
        a < s@.len() ==> !is_ws(s@[a as int]),
{
    let mut a: usize = 0;
    while a < s.len()
        invariant
            a <= s@.len(),
            forall|j: int| 0 <= j < a ==> is_ws(s@[j]),
        decreases s@.len() - a,
    {
        if !is_ws_exec(s[a]) {
            return a;
        }
        a += 1;
    }
    a
}

fn skip_ws_back(s: &Vec<char>, a: usize) -> (b: usize)
    requires
        a <= s@.len(),
    ensures
        a <= b <= s@.len(),
        forall|j: int| b <= j < s@.len() ==> is_ws(s@[j]),
        b > a ==> !is_ws(s@[b - 1]),
{
    let mut b: usize = s.len();
    while b > a
        invariant
            a <= b <= s@.len(),
            forall|j: int| b <= j < s@.len() ==> is_ws(s@[j]),
        decreases b,
    {
        if !is_ws_exec(s[b - 1]) {
            return b;
        }
        b -= 1;
    }
    b
}

/// Remove leading and trailing ASCII whitespace.
pub fn trim(s: &Vec<char>) -> (r: Vec<char>)
    ensures
        r@ == trim_spec(s@),
        trimmed(r@),
{
    let a = skip_ws_front(s);
    let b = skip_ws_back(s, a);
    let r = subvec(s, a, b);
    proof {
        lemma_trim_front(s@, a as int);
        let f = s@.subrange(a as int, s@.len() as int);
        if b == a {
            lemma_trim_back(f, 0);
        } else {
            lemma_trim_back(f, b - a);
            assert(!is_ws(f[b - a - 1]));
        }
        assert(f.subrange(0, b - a) =~= s@.subrange(a as int, b as int));
    }
    r
}

// ===== decimal digits: spec and exec =====

pub open spec fn is_digit(c: char) -> bool {
    48 <= c as u32 && c as u32 <= 57
}

pub open spec fn digit_of(c: char) -> nat {
    (c as u32 - '0' as u32) as nat
}

pub open spec fn all_digits(s: Seq<char>) -> bool {
    forall|j: int| 0 <= j < s.len() ==> is_digit(#[trigger] s[j])
}

/// Numeric value of a digit string, most significant first.
pub open spec fn digits_val(s: Seq<char>) -> nat
    decreases s.len(),
{
    if s.len() == 0 {
        0
    } else {
        digits_val(s.drop_last()) * 10 + digit_of(s.last())
    }
}

pub fn digit_char_of(d: u64) -> (c: char)
    requires
        d < 10,
    ensures
        c == (((d + 48) as u8) as char),
        is_digit(c),
        digit_of(c) == d,
{
    ((d + 48) as u8) as char
}

// ===== parsing decimal text =====

pub open spec fn pow10(n: nat) -> nat
    decreases n,
{
    if n == 0 {
        1
    } else {
        10 * pow10((n - 1) as nat)
    }
}

pub proof fn lemma_digits_val_upper(s: Seq<char>)
    requires
        all_digits(s),
    ensures
        digits_val(s) < pow10(s.len()),
    decreases s.len(),
{
    if s.len() > 0 {
        assert(all_digits(s.drop_last())) by {
            assert(forall|j: int| 0 <= j < s.len() - 1 ==> s.drop_last()[j] == s[j]);
        }
        lemma_digits_val_upper(s.drop_last());
        assert(is_digit(s[s.len() - 1]));
        assert(digit_of(s.last()) <= 9);
    }
}

pub proof fn lemma_pow10_mono(x: nat, y: nat)
    requires
        x <= y,
    ensures
        pow10(x) <= pow10(y),
    decreases y,
{
    if x < y {
        lemma_pow10_mono(x, (y - 1) as nat);
    }
}

/// Index of the first occurrence of a character, or -1 when there is none.
pub open spec fn first_ix(s: Seq<char>, c: char) -> int
    decreases s.len(),
{
    if s.len() == 0 {
        -1
    } else if s[0] == c {
        0
    } else {
        let r = first_ix(s.subrange(1, s.len() as int), c);
        if r < 0 {
            -1
        } else {
            r + 1
        }
    }
}

pub proof fn lemma_first_ix(s: Seq<char>, c: char)
    ensures
        first_ix(s, c) == -1 ==> forall|j: int| 0 <= j < s.len() ==> s[j] != c,
        first_ix(s, c) >= 0 ==> first_ix(s, c) < s.len() && s[first_ix(s, c)] == c && forall|
            j: int,
        | 0 <= j < first_ix(s, c) ==> s[j] != c,
    decreases s.len(),
{
    if s.len() > 0 && s[0] != c {
        let rest = s.subrange(1, s.len() as int);
        lemma_first_ix(rest, c);
        let r = first_ix(rest, c);
        if r < 0 {
            assert forall|j: int| 0 <= j < s.len() implies s[j] != c by {
                if j >= 1 {
                    assert(s[j] == rest[j - 1]);
                }
            }
        } else {
            assert(first_ix(s, c) == r + 1);
            assert(s[r + 1] == rest[r]);
            assert forall|j: int| 0 <= j < r + 1 implies s[j] != c by {
                if j >= 1 {
                    assert(s[j] == rest[j - 1]);
                }
            }
        }
    }
}

/// Value of the first three fractional digits, scaled to thousandths.
pub open spec fn frac3(f: Seq<char>) -> nat {
    if f.len() >= 3 {
        digits_val(f.take(3))
    } else if f.len() == 2 {
        digits_val(f) * 10
    } else if f.len() == 1 {
        digits_val(f) * 100
    } else {
        0
    }
}

/// Meaning of a decimal numeral, in thousandths: an optional sign, then
/// digits with at most one dot, at least one digit in all, and at most nine
/// integer digits. Fractional digits beyond the third are ignored.
pub open spec fn parse_milli_spec(s: Seq<char>) -> Option<int> {
    let signed = s.len() > 0 && (s[0] == '-' || s[0] == '+');
    let neg = s.len() > 0 && s[0] == '-';
    let body = if signed {
        s.subrange(1, s.len() as int)
    } else {
        s
    };
    let d = first_ix(body, '.');
    let ipart = if d >= 0 {
        body.subrange(0, d)
    } else {
        body
    };
    let fpart = if d >= 0 {
        body.subrange(d + 1, body.len() as int)
    } else {
        Seq::<char>::empty()
    };
    if all_digits(ipart) && all_digits(fpart) && ipart.len() + fpart.len() > 0 && ipart.len()
        <= 9 {
        let mag = digits_val(ipart) * 1000 + frac3(fpart);
        Some(
            if neg {
                -(mag as int)
            } else {
                mag as int
            },
        )
    } else {
        None
    }
}

/// Meaning of an integer numeral: optional sign, one to nine digits.
pub open spec fn parse_int_spec(s: Seq<char>) -> Option<int> {
    let signed = s.len() > 0 && (s[0] == '-' || s[0] == '+');
    let neg = s.len() > 0 && s[0] == '-';
    let body = if signed {
        s.subrange(1, s.len() as int)
    } else {
        s
    };
    if all_digits(body) && 0 < body.len() <= 9 {
        Some(
            if neg {
                -(digits_val(body) as int)
            } else {
                digits_val(body) as int
            },
        )
    } else {
        None
    }
}

pub fn is_digit_exec(c: char) -> (r: bool)
    ensures
        r == is_digit(c),
{
    let u = c as u32;
    48 <= u && u <= 57
}

fn scan_digits(s: &Vec<char>, from: usize) -> (to: usize)
    requires
        from <= s@.len(),
    ensures
        from <= to <= s@.len(),
        forall|j: int| from <= j < to ==> is_digit(s@[j]),
        to < s@.len() ==> !is_digit(s@[to as int]),
{
    let mut i: usize = from;
    while i < s.len()
        invariant
            from <= i <= s@.len(),
            forall|j: int| from <= j < i ==> is_digit(s@[j]),
        decreases s@.len() - i,
    {
        if !is_digit_exec(s[i]) {
            return i;
        }
        i += 1;
    }
    i
}

fn digits_value(s: &Vec<char>, a: usize, b: usize) -> (v: u64)
    requires
        a <= b <= s@.len(),
        b - a <= 9,
        forall|j: int| a <= j < b ==> is_digit(s@[j]),
    ensures
        v == digits_val(s@.subrange(a as int, b as int)),
        v < 1_000_000_000,
{
    let mut v: u64 = 0;
    let mut i: usize = a;
    proof {
        assert(s@.subrange(a as int, a as int) =~= Seq::<char>::empty());
        lemma_digits_val_upper(s@.subrange(a as int, a as int));
    }
    while i < b
        invariant
            a <= i <= b <= s@.len(),
            b - a <= 9,
            forall|j: int| a <= j < b ==> is_digit(s@[j]),
            v == digits_val(s@.subrange(a as int, i as int)),
            v < pow10((i - a) as nat),
        decreases b - i,
    {
        let c = s[i];
        let d: u64 = (c as u32 as u64) - 48;
        proof {
            let pre = s@.subrange(a as int, i as int);
            let post = s@.subrange(a as int, (i + 1) as int);
            assert(post.drop_last() =~= pre);
            assert(post.last() == s@[i as int]);
            assert(pow10(((i + 1) - a) as nat) == 10 * pow10((i - a) as nat));
            lemma_pow10_mono((i - a) as nat, 8);
            assert(pow10(8) == 100000000) by {
                reveal_with_fuel(pow10, 10);
            }
        }
        v = v * 10 + d;
        i += 1;
    }
    proof {
        lemma_pow10_mono((b - a) as nat, 9);
        assert(pow10(9) == 1000000000) by {
            reveal_with_fuel(pow10, 10);
        }
    }
    v
}

pub open spec fn opt_i64_is(r: Option<i64>, m: Option<int>) -> bool {
    (r is Some <==> m is Some) && (r is Some ==> r->0 as int == m->0)
}

/// Parse a decimal numeral into thousandths.
#[verifier::rlimit(100)]
pub fn parse_milli(s: &Vec<char>) -> (r: Option<i64>)
    ensures
        opt_i64_is(r, parse_milli_spec(s@)),
        r is Some ==> -1_000_000_000_000 < r->0 < 1_000_000_000_000,
{
    let n = s.len();
    let mut neg = false;
    let mut start: usize = 0;
    if n > 0 && (s[0] == '-' || s[0] == '+') {
        neg = s[0] == '-';
        start = 1;
    }
    let ghost body: Seq<char> = s@.subrange(start as int, n as int);
    proof {
        if start == 0 {
            assert(body =~= s@);
        }
        lemma_first_ix(body, '.');
    }
    let it = scan_digits(s, start);
    let icount = it - start;
    if it < n && s[it] == '.' {
        proof {
            assert(body[it - start] == '.');
            assert(forall|j: int| 0 <= j < it - start ==> is_digit(body[j]) && body[j] != '.');
            assert(first_ix(body, '.') == it - start) by {
                let d = first_ix(body, '.');
                if d < 0 {
                } else if d < it - start {
                    assert(body[d] == '.');
                } else if d > it - start {
                    assert(body[it - start] != '.');
                }
            }
        }
        let ghost ipart = body.subrange(0, it - start);
        let ghost fpart = body.subrange(it - start + 1, body.len() as int);
        proof {
            assert(ipart =~= s@.subrange(start as int, it as int));
            assert(fpart =~= s@.subrange(it + 1, n as int));
            assert(all_digits(ipart));
        }
        let ft = scan_digits(s, it + 1);
        if ft < n {
            // a character after the fractional digits is neither the end nor a digit
            proof {
                assert(fpart[ft - (it + 1)] == s@[ft as int]);
                assert(!all_digits(fpart));
            }
            return None;
        }
        proof {
            assert(all_digits(fpart));
        }
        let fcount = n - (it + 1);
        if icount + fcount == 0 || icount > 9 {
            return None;
        }
        let ival = digits_value(s, start, it);
        let take3: usize = if fcount >= 3 {
            3
        } else {
            fcount
        };
        let fval = digits_value(s, it + 1, it + 1 + take3);
        proof {
            if fcount >= 3 {
                assert(s@.subrange(it + 1, it + 1 + 3) =~= fpart.take(3));
            } else {
                assert(s@.subrange(it + 1, (it + 1 + take3) as int) =~= fpart);
            }
        }
        proof {
            if fcount >= 3 {
                assert(all_digits(fpart.take(3))) by {
                    assert(forall|j: int| 0 <= j < 3 ==> fpart.take(3)[j] == fpart[j]);
                }
                lemma_digits_val_upper(fpart.take(3));
            } else {
                lemma_digits_val_upper(fpart);
            }
            assert(pow10(3) == 1000 && pow10(2) == 100 && pow10(1) == 10 && pow10(0) == 1) by {
                reveal_with_fuel(pow10, 4);
            }
        }
        let f3: u64 = if fcount >= 3 {
            fval
        } else if fcount == 2 {
            fval * 10
        } else if fcount == 1 {
            fval * 100
        } else {
            0
        };
        proof {
            assert(f3 < 1000);
            assert(f3 == frac3(fpart));
        }
        let mag: u64 = ival * 1000 + f3;
        if neg {
            Some(-(mag as i64))
        } else {
            Some(mag as i64)
        }
    } else if it == n {
        proof {
            assert(first_ix(body, '.') == -1) by {
                let d = first_ix(body, '.');
                if d >= 0 {
                    assert(is_digit(body[d]));
                    assert(body[d] == '.');
                }
            }
            assert(all_digits(body));
        }
        if icount == 0 || icount > 9 {
            return None;
        }
        let ival = digits_value(s, start, it);
        proof {
            assert(body =~= s@.subrange(start as int, it as int));
        }
        let mag: u64 = ival * 1000;
        if neg {
            Some(-(mag as i64))
        } else {
            Some(mag as i64)
        }
    } else {
        // a character that is neither a digit nor a dot stops the parse
        proof {
            let d = first_ix(body, '.');
            assert(s@[it as int] != '.' && !is_digit(s@[it as int]));
            assert(body[it - start] == s@[it as int]);
            if d < 0 {
                assert(!all_digits(body));
            } else {
                if d < it - start {
                    assert(is_digit(body[d]));
                    assert(body[d] == '.');
                }
                assert(d > it - start);
                let ipart = body.subrange(0, d);
                assert(ipart[it - start] == body[it - start]);
                assert(!all_digits(ipart));
            }
        }
        None
    }
}

/// Parse a decimal integer numeral.
pub fn parse_int(s: &Vec<char>) -> (r: Option<i64>)
    ensures
        opt_i64_is(r, parse_int_spec(s@)),
        r is Some ==> -1_000_000_000 < r->0 < 1_000_000_000,
{
    let n = s.len();
    let mut neg = false;
    let mut start: usize = 0;
    if n > 0 && (s[0] == '-' || s[0] == '+') {
        neg = s[0] == '-';
        start = 1;
    }
    let ghost body: Seq<char> = s@.subrange(start as int, n as int);
    proof {
        if start == 0 {
            assert(body =~= s@);
        }
    }
    let it = scan_digits(s, start);
    if it < n {
        proof {
            assert(body[it - start] == s@[it as int]);
            assert(!all_digits(body));
        }
        return None;
    }
    proof {
        assert(all_digits(body));
    }
    let icount = it - start;
    if icount == 0 || icount > 9 {
        return None;
    }
    let ival = digits_value(s, start, it);
    proof {
        assert(body =~= s@.subrange(start as int, it as int));
    }
    if neg {
        Some(-(ival as i64))
    } else {
        Some(ival as i64)
    }
}

// ===== formatting integers as decimal text =====

/// Decimal representation of a non-negative number, without sign.
pub open spec fn dec_rep(n: nat) -> Seq<char>
    decreases n,
{
    if n < 10 {
        seq![(((n + 48) as u8) as char)]
    } else {
        dec_rep(n / 10).push((((n % 10 + 48) as u8) as char))
    }
}

pub open spec fn int_rep(i: int) -> Seq<char> {
    if i < 0 {
        seq!['-'] + dec_rep((-i) as nat)
    } else {
        dec_rep(i as nat)
    }
}

pub fn u64_to_chars(n: u64) -> (r: Vec<char>)
    ensures
        r@ == dec_rep(n as nat),
{
    let mut rev: Vec<char> = Vec::new();
    let mut cur: u64 = n;
    loop
        invariant_except_break
            rev@.len() > 0 ==> cur > 0,
        invariant
            rev@.len() == 0 ==> cur == n,
            rev@.len() > 0 ==> dec_rep(n as nat) == (if cur > 0 {
                dec_rep(cur as nat)
            } else {
                Seq::<char>::empty()
            }) + rev@.reverse(),
        ensures
            rev@.len() > 0,
            cur == 0,
        decreases cur, (if rev@.len() == 0 { 1int } else { 0int }),
    {
        let d = cur % 10;
        let next = cur / 10;
        let c = digit_char_of(d);
        proof {
            let old_rev = rev@;
            assert(old_rev.push(c).reverse() =~= seq![c] + old_rev.reverse());
            if old_rev.len() == 0 {
                if next > 0 {
                    assert(dec_rep(cur as nat) == dec_rep((cur / 10) as nat).push(c));
                    assert(dec_rep((cur / 10) as nat).push(c) =~= dec_rep((cur / 10) as nat)
                        + seq![c]);
                    assert(dec_rep(n as nat) =~= dec_rep((cur / 10) as nat) + (seq![c]
                        + old_rev.reverse()));
                } else {
                    assert(dec_rep(cur as nat) == seq![c]);
                    assert(dec_rep(n as nat) =~= Seq::<char>::empty() + (seq![c]
                        + old_rev.reverse()));
                }
            } else {
                assert(cur > 0);
                assert(dec_rep(n as nat) == dec_rep(cur as nat) + old_rev.reverse());
                if next > 0 {
                    assert(dec_rep(cur as nat) == dec_rep((cur / 10) as nat).push(c));
                    assert(dec_rep((cur / 10) as nat).push(c) + old_rev.reverse() =~= dec_rep(
                        (cur / 10) as nat) + (seq![c] + old_rev.reverse()));
                } else {
                    assert(cur < 10);
                    assert(dec_rep(cur as nat) == seq![c]);
                    assert(dec_rep(cur as nat) + old_rev.reverse() =~= Seq::<char>::empty() + (
                    seq![c] + old_rev.reverse()));
                }
            }
        }
        rev.push(c);
        cur = next;
        if cur == 0 {
            break;
        }
    }
    proof {
        assert(dec_rep(n as nat) == Seq::<char>::empty() + rev@.reverse());
        assert(Seq::<char>::empty() + rev@.reverse() =~= rev@.reverse());
    }
    let mut r: Vec<char> = Vec::new();
    let mut i: usize = rev.len();
    proof {
        assert(r@ =~= rev@.reverse().take(0));
    }
    while i > 0
        invariant
            i <= rev@.len(),
            r@ == rev@.reverse().take(rev@.len() - i),
        decreases i,
    {
        i -= 1;
        r.push(rev[i]);
        proof {
            assert(rev@.reverse()[rev@.len() - i - 1] == rev@[i as int]);
            assert(r@ =~= rev@.reverse().take(rev@.len() - i));
        }
    }
    proof {
        assert(rev@.reverse().take(rev@.len() as int) =~= rev@.reverse());
    }
    r
}

pub fn i64_to_chars(n: i64) -> (r: Vec<char>)
    ensures
        r@ == int_rep(n as int),
{
    if n < 0 {
        let mut r: Vec<char> = Vec::new();
        r.push('-');
        let mag_val: u64 = if n == i64::MIN {
            9_223_372_036_854_775_808u64
        } else {
            (-n) as u64
        };
        let mag = u64_to_chars(mag_val);
        let mut i: usize = 0;
        while i < mag.len()
            invariant
                i <= mag@.len(),
                r@ == seq!['-'] + mag@.take(i as int),
            decreases mag@.len() - i,
        {
            r.push(mag[i]);
            proof {
                assert(r@ =~= seq!['-'] + mag@.take((i + 1) as int));
            }
            i += 1;
        }
        proof {
            assert(mag@.take(mag@.len() as int) =~= mag@);
        }
        r
    } else {
        u64_to_chars(n as u64)
    }
}

// ===== fixed-point thousandths ("milli") values =====

/// Decimal text of a milli value: integer part, then a fractional part of up
/// to three digits with trailing zeros removed; no fractional part when the
/// value is whole.
pub open spec fn milli_rep(m: int) -> Seq<char> {
    let mag = if m < 0 {
        (-m) as nat
    } else {
        m as nat
    };
    let sign: Seq<char> = if m < 0 {
        seq!['-']
    } else {
        Seq::empty()
    };
    let whole = dec_rep(mag / 1000);
    let f = mag % 1000;
    if f == 0 {
        sign + whole
    } else {
        let d1 = ((f / 100 + 48) as u8) as char;
        let d2 = ((f / 10 % 10 + 48) as u8) as char;
        let d3 = ((f % 10 + 48) as u8) as char;
        if f % 10 != 0 {
            sign + whole + seq!['.', d1, d2, d3]
        } else if f / 10 % 10 != 0 {
            sign + whole + seq!['.', d1, d2]
        } else {
            sign + whole + seq!['.', d1]
        }
    }
}

pub fn milli_to_chars(m: i64) -> (r: Vec<char>)
    ensures
        r@ == milli_rep(m as int),
{
    let mag: u64 = if m == i64::MIN {
        9_223_372_036_854_775_808u64
    } else if m < 0 {
        (-m) as u64
    } else {
        m as u64
    };
    let mut r: Vec<char> = Vec::new();
    if m < 0 {
        r.push('-');
    }
    let whole = u64_to_chars(mag / 1000);
    let mut i: usize = 0;
    let ghost sign: Seq<char> = if m < 0 {
        seq!['-']
    } else {
        Seq::empty()
    };
    proof {
        assert(r@ =~= sign + whole@.take(0));
    }
    while i < whole.len()
        invariant
            i <= whole@.len(),
            r@ == sign + whole@.take(i as int),
        decreases whole@.len() - i,
    {
        r.push(whole[i]);
        proof {
            assert(r@ =~= sign + whole@.take((i + 1) as int));
        }
        i += 1;
    }
    proof {
        assert(whole@.take(whole@.len() as int) =~= whole@);
    }
    let f = mag % 1000;
    if f == 0 {
        return r;
    }
    let d1 = digit_char_of(f / 100);
    let d2 = digit_char_of(f / 10 % 10);
    let d3 = digit_char_of(f % 10);
    r.push('.');
    r.push(d1);
    if f % 10 != 0 {
        r.push(d2);
        r.push(d3);
        proof {
            assert(r@ =~= milli_rep(m as int));
        }
    } else if f / 10 % 10 != 0 {
        r.push(d2);
        proof {
            assert(r@ =~= milli_rep(m as int));
        }
    } else {
        proof {
            assert(r@ =~= milli_rep(m as int));
        }
    }
    r
}

} // verus!
