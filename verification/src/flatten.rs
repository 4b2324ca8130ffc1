//! Flattening nested variable structures: objects and arrays become dotted
//! and indexed keys, scalar leaves keep their text, nulls are discarded.

use vstd::prelude::*;
use crate::ordmap::{m_insert, m_wf, OrdMap};
use crate::strutil::{chars_to_string, dec_rep, push_str_chars, u64_to_chars};

verus! {

broadcast use crate::ordmap::lemma_m_insert_wf, vstd::std_specs::vec::group_vec_axioms,
    vstd::seq::group_seq_axioms;

/// A nested variable structure: scalar leaves carry their final text
/// (numbers and flags already printed); lists and field maps nest.
#[derive(Debug)]
pub enum VarTree {
    Null,
    Scalar(String),
    List(Vec<VarTree>),
    Fields(Vec<(String, VarTree)>),
}

/// A child key: the parent key, a dot, and the field name or index.
pub open spec fn child_key(prefix: Option<Seq<char>>, k: Seq<char>) -> Seq<char> {
    match prefix {
        Some(p) => p + seq!['.'] + k,
        None => k,
    }
}

/// The flattening fold: nulls vanish; a scalar lands under its prefix (a
/// bare scalar with no prefix contributes nothing); lists and field maps
/// recurse with extended keys.
pub open spec fn flatten_spec(
    prefix: Option<Seq<char>>,
    t: VarTree,
    out: Seq<(Seq<char>, Seq<char>)>,
) -> Seq<(Seq<char>, Seq<char>)>
    decreases t, 1int, 0int,
{
    match t {
        VarTree::Null => out,
        VarTree::Scalar(s) => match prefix {
            Some(p) => m_insert(out, p, s@),
            None => out,
        },
        VarTree::List(items) => flatten_list(prefix, items, 0, out),
        VarTree::Fields(entries) => flatten_fields(prefix, entries, 0, out),
    }
}

pub open spec fn flatten_list(
    prefix: Option<Seq<char>>,
    items: Vec<VarTree>,
    i: int,
    out: Seq<(Seq<char>, Seq<char>)>,
) -> Seq<(Seq<char>, Seq<char>)>
    decreases items, 0int, items@.len() - i,
{
    if i < 0 || i >= items@.len() {
        out
    } else {
        let key = child_key(prefix, dec_rep(i as nat));
        let out1 = flatten_spec(Some(key), items[i], out);
        flatten_list(prefix, items, i + 1, out1)
    }
}

pub open spec fn flatten_fields(
    prefix: Option<Seq<char>>,
    entries: Vec<(String, VarTree)>,
    i: int,
    out: Seq<(Seq<char>, Seq<char>)>,
) -> Seq<(Seq<char>, Seq<char>)>
    decreases entries, 0int, entries@.len() - i,
{
    if i < 0 || i >= entries@.len() {
        out
    } else {
        let key = child_key(prefix, entries[i].0@);
        let out1 = flatten_spec(Some(key), entries[i].1, out);
        flatten_fields(prefix, entries, i + 1, out1)
    }
}

pub proof fn lemma_flatten_wf(
    prefix: Option<Seq<char>>,
    t: VarTree,
    out: Seq<(Seq<char>, Seq<char>)>,
)
    requires
        m_wf(out),
    ensures
        m_wf(flatten_spec(prefix, t, out)),
    decreases t, 1int, 0int,
{
    match t {
        VarTree::Null => {},
        VarTree::Scalar(s) => {},
        VarTree::List(items) => {
            lemma_flatten_list_wf(prefix, items, 0, out);
        },
        VarTree::Fields(entries) => {
            lemma_flatten_fields_wf(prefix, entries, 0, out);
        },
    }
}

proof fn lemma_flatten_list_wf(
    prefix: Option<Seq<char>>,
    items: Vec<VarTree>,
    i: int,
    out: Seq<(Seq<char>, Seq<char>)>,
)
    requires
        m_wf(out),
    ensures
        m_wf(flatten_list(prefix, items, i, out)),
    decreases items, 0int, items@.len() - i,
{
    if 0 <= i < items@.len() {
        let key = child_key(prefix, dec_rep(i as nat));
        lemma_flatten_wf(Some(key), items[i], out);
        lemma_flatten_list_wf(prefix, items, i + 1, flatten_spec(Some(key), items[i], out));
    }
}

proof fn lemma_flatten_fields_wf(
    prefix: Option<Seq<char>>,
    entries: Vec<(String, VarTree)>,
    i: int,
    out: Seq<(Seq<char>, Seq<char>)>,
)
    requires
        m_wf(out),
    ensures
        m_wf(flatten_fields(prefix, entries, i, out)),
    decreases entries, 0int, entries@.len() - i,
{
    if 0 <= i < entries@.len() {
        let key = child_key(prefix, entries[i].0@);
        lemma_flatten_wf(Some(key), entries[i].1, out);
        lemma_flatten_fields_wf(
            prefix,
            entries,
            i + 1,
            flatten_spec(Some(key), entries[i].1, out),
        );
    }
}

fn child_key_exec(prefix: Option<&str>, k: &str) -> (r: String)
    ensures
        r@ == child_key(crate::color::opt_str_view(prefix), k@),
{
    match prefix {
        Some(p) => {
            let mut v: Vec<char> = Vec::new();
            push_str_chars(&mut v, p);
            v.push('.');
            push_str_chars(&mut v, k);
            proof {
                assert(v@ =~= p@ + seq!['.'] + k@);
            }
            chars_to_string(&v)
        },
        None => String::from_str(k),
    }
}

/// Flatten a nested variable structure into the dotted-key table.
pub fn flatten_variables(prefix: Option<&str>, value: &VarTree, out: &mut OrdMap<String>)
    requires
        m_wf(old(out)@),
    ensures
        final(out)@ == flatten_spec(crate::color::opt_str_view(prefix), *value, old(out)@),
        m_wf(final(out)@),
    decreases *value,
{
    match value {
        VarTree::Null => {},
        VarTree::Scalar(s) => {
            match prefix {
                Some(p) => {
                    out.insert(String::from_str(p), s.clone());
                },
                None => {},
            }
        },
        VarTree::List(items) => {
            let n = items.len();
            let mut i: usize = 0;
            let ghost pv = crate::color::opt_str_view(prefix);
            while i < n
                invariant
                    i <= n,
                    n == items@.len(),
                    m_wf(out@),
                    *value == VarTree::List(*items),
                    pv == crate::color::opt_str_view(prefix),
                    flatten_list(pv, *items, 0, old(out)@) == flatten_list(
                        pv,
                        *items,
                        i as int,
                        out@,
                    ),
                decreases n - i,
            {
                let idx_chars = u64_to_chars(i as u64);
                let idx_s = chars_to_string(&idx_chars);
                let key = child_key_exec(prefix, idx_s.as_str());
                proof {
                    assert(key@ == child_key(pv, dec_rep(i as nat)));
                    vstd::std_specs::vec::axiom_vec_decreases_to_view(*items);
                    vstd::seq::axiom_seq_index_decreases(items@, i as int);
                    assert(decreases_to!(*items => items@));
                    assert(decreases_to!(items@ => items@[i as int]));
                    assert(decreases_to!(*value => value->List_0));
                    assert(value->List_0 == *items);
                    assert(decreases_to!(*value => items@[i as int]));
                }
                flatten_variables(Some(key.as_str()), &items[i], out);
                i += 1;
            }
        },
        VarTree::Fields(entries) => {
            let n = entries.len();
            let mut i: usize = 0;
            let ghost pv = crate::color::opt_str_view(prefix);
            while i < n
                invariant
                    i <= n,
                    n == entries@.len(),
                    m_wf(out@),
                    *value == VarTree::Fields(*entries),
                    pv == crate::color::opt_str_view(prefix),
                    flatten_fields(pv, *entries, 0, old(out)@) == flatten_fields(
                        pv,
                        *entries,
                        i as int,
                        out@,
                    ),
                decreases n - i,
            {
                let e = &entries[i];
                let key = child_key_exec(prefix, e.0.as_str());
                proof {
                    assert(key@ == child_key(pv, entries@[i as int].0@));
                    vstd::std_specs::vec::axiom_vec_decreases_to_view(*entries);
                    vstd::seq::axiom_seq_index_decreases(entries@, i as int);
                    assert(decreases_to!(*value => value->Fields_0));
                    assert(value->Fields_0 == *entries);
                }
                flatten_variables(Some(key.as_str()), &e.1, out);
                i += 1;
            }
        },
    }
}

} // verus!
