//! Reading a hashtree: its keys, in some order.
use vstd::prelude::*;
use std::collections::HashMap;

use crate::language_api::{decl_of, import_of, Parsed, ParsedDeclarationsData, ParsedImportsData};
use vstd::std_specs::iter::IteratorSpec;

verus! {

broadcast use vstd::std_specs::hash::group_hash_axioms;

/// The keys of the hashtree, each once, in the order the map hands them out.
pub fn hashtree_keys(hashtree: &HashMap<usize, Parsed>) -> (r: Vec<usize>)
    ensures
        r@.to_set() == hashtree@.dom(),
        r@.no_duplicates(),
{
    let mut out: Vec<usize> = Vec::new();
    let ghost keys = vstd::std_specs::hash::spec_keys_iter(hashtree).remaining();
    for k in it: hashtree.keys()
        invariant
            it.seq() == keys,
            out@ == it.seq().take(it.index() as int).map_values(|x: &usize| *x),
    {
        out.push(*k);
    }
    assert(out@ =~= keys.unref());
    out
}

/// The entry at `k`, if there is one.
pub fn entry(hashtree: &HashMap<usize, Parsed>, k: usize) -> (r: Option<&Parsed>)
    ensures
        match r {
            Some(v) => hashtree@.contains_key(k) && *v == hashtree@[k],
            None => !hashtree@.contains_key(k),
        },
{
    hashtree.get(&k)
}

/// The declaration at `k`, if the entry there is one.
pub fn declaration_at(hashtree: &HashMap<usize, Parsed>, k: usize) -> (r: Option<&ParsedDeclarationsData>)
    ensures
        match r {
            Some(d) => decl_at(hashtree@, k) == Some(*d),
            None => decl_at(hashtree@, k) is None,
        },
{
    match entry(hashtree, k) {
        Some(p) => p.as_declarations(),
        None => None,
    }
}

/// The import at `k`, if the entry there is one.
pub fn import_at(hashtree: &HashMap<usize, Parsed>, k: usize) -> (r: Option<&ParsedImportsData>)
    ensures
        match r {
            Some(d) => imp_at(hashtree@, k) == Some(*d),
            None => imp_at(hashtree@, k) is None,
        },
{
    match entry(hashtree, k) {
        Some(p) => p.as_imports(),
        None => None,
    }
}

/// The declaration at `k` of a hashtree, if the entry there is one.
pub open spec fn decl_at(h: Map<usize, Parsed>, k: usize) -> Option<ParsedDeclarationsData> {
    if h.contains_key(k) {
        decl_of(h[k])
    } else {
        None
    }
}

/// The import at `k` of a hashtree, if the entry there is one.
pub open spec fn imp_at(h: Map<usize, Parsed>, k: usize) -> Option<ParsedImportsData> {
    if h.contains_key(k) {
        import_of(h[k])
    } else {
        None
    }
}

} // verus!
