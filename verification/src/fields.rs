//! The insertion-ordered mapping of a note, and its model: a sequence of
//! `(key, value)` entries in insertion order.

use indexmap::IndexMap;
use vstd::prelude::*;

use crate::types::{ValueView, YamlValue};

verus! {

/// `indexmap::IndexMap`, taken as it is: nothing of what is inside it is
/// known but through `entries`.
#[verifier::external_type_specification]
#[verifier::external_body]
#[verifier::reject_recursive_types(K)]
#[verifier::reject_recursive_types(V)]
#[verifier::reject_recursive_types(S)]
pub struct ExIndexMap<K, V, S>(IndexMap<K, V, S>);

/// The mapping of a note: keys in insertion order, each with its value.
pub type Fields = IndexMap<String, YamlValue>;

/// The model of a mapping: its entries, in insertion order.
pub type Entries = Seq<(Seq<char>, ValueView)>;

/// The entries of an `IndexMap`, in the order in which it iterates.
pub uninterp spec fn entries(m: IndexMap<String, YamlValue>) -> Seq<(Seq<char>, ValueView)>;

/// The least index at which `k` is a key of `e`, or `e.len()` if it is none.
pub open spec fn find_key(e: Entries, k: Seq<char>) -> int
    decreases e.len(),
{
    if e.len() == 0 {
        0
    } else if e[0].0 == k {
        0
    } else {
        1 + find_key(e.drop_first(), k)
    }
}

/// Whether `k` is a key of `e`.
pub open spec fn has_key(e: Entries, k: Seq<char>) -> bool {
    find_key(e, k) < e.len()
}

/// The value under the first entry with key `k`.
pub open spec fn lookup(e: Entries, k: Seq<char>) -> Option<ValueView> {
    if has_key(e, k) {
        Some(e[find_key(e, k)].1)
    } else {
        None
    }
}

/// `e` with `v` under `k`: in place where `k` is a key, else as a new last entry.
pub open spec fn put(e: Entries, k: Seq<char>, v: ValueView) -> Entries {
    if has_key(e, k) {
        e.update(find_key(e, k), (k, v))
    } else {
        e.push((k, v))
    }
}

/// `e` without its entries under `k`; the others keep their order.
pub open spec fn without(e: Entries, k: Seq<char>) -> Entries
    decreases e.len(),
{
    if e.len() == 0 {
        e
    } else if e.last().0 == k {
        without(e.drop_last(), k)
    } else {
        without(e.drop_last(), k).push(e.last())
    }
}

/// `IndexMap::new` makes a mapping without entries.
#[verifier::external_body]
pub(crate) fn fields_new() -> (m: Fields)
    ensures
        entries(m) == Seq::<(Seq<char>, ValueView)>::empty(),
{
    IndexMap::new()
}

/// `IndexMap::get` hands out the value under `key`, where `key` is in the
/// mapping.
#[verifier::external_body]
pub(crate) fn fields_get<'a>(m: &'a Fields, key: &str) -> (r: Option<&'a YamlValue>)
    ensures
        match r {
            Some(v) => lookup(entries(*m), key@) == Some(v@),
            None => lookup(entries(*m), key@) is None,
        },
{
    m.get(key)
}

/// `IndexMap::contains_key` says whether `key` is in the mapping.
#[verifier::external_body]
pub(crate) fn fields_contains_key(m: &Fields, key: &str) -> (r: bool)
    ensures
        r == has_key(entries(*m), key@),
{
    m.contains_key(key)
}

/// `IndexMap::insert` replaces the value of an entry that has the key, which
/// keeps its place, and otherwise adds the pair as the last entry.
#[verifier::external_body]
pub(crate) fn fields_insert(m: &mut Fields, key: String, value: YamlValue)
    ensures
        entries(*final(m)) == put(entries(*old(m)), key@, value@),
{
    m.insert(key, value);
}

/// `IndexMap::shift_remove` takes the entry under `key` out, hands its value
/// back, and leaves the other entries in their order.
#[verifier::external_body]
pub(crate) fn fields_remove(m: &mut Fields, key: &str) -> (r: Option<YamlValue>)
    ensures
        entries(*final(m)) == without(entries(*old(m)), key@),
        match r {
            Some(v) => lookup(entries(*old(m)), key@) == Some(v@),
            None => lookup(entries(*old(m)), key@) is None,
        },
{
    m.shift_remove(key)
}

/// `IndexMap::len` is the number of entries.
#[verifier::external_body]
pub(crate) fn fields_len(m: &Fields) -> (r: usize)
    ensures
        r == entries(*m).len(),
{
    m.len()
}

/// `IndexMap::get_index` hands out the entry at position `i` of the
/// insertion order, and nothing where `i` is not a position.
#[verifier::external_body]
pub(crate) fn fields_get_index<'a>(m: &'a Fields, i: usize) -> (r: Option<(&'a String, &'a YamlValue)>)
    ensures
        match r {
            Some((k, v)) => i < entries(*m).len() && entries(*m)[i as int] == (k@, v@),
            None => i >= entries(*m).len(),
        },
{
    m.get_index(i)
}

/// `IndexMap::clone` makes a mapping with the same entries in the same
/// order.
#[verifier::external_body]
pub(crate) fn fields_clone(m: &Fields) -> (r: Fields)
    ensures
        entries(r) == entries(*m),
{
    m.clone()
}

/// `find_key` is the least index under which the key stands.
pub proof fn lemma_find_key(e: Entries, k: Seq<char>)
    ensures
        0 <= find_key(e, k) <= e.len(),
        forall|j: int| 0 <= j < find_key(e, k) ==> e[j].0 != k,
        find_key(e, k) < e.len() ==> e[find_key(e, k)].0 == k,
    decreases e.len(),
{
    if e.len() > 0 && e[0].0 != k {
        lemma_find_key(e.drop_first(), k);
        assert forall|j: int| 0 <= j < find_key(e, k) implies e[j].0 != k by {
            if j > 0 {
                assert(e[j] == e.drop_first()[j - 1]);
            }
        }
    }
}

/// An index that has the key, with no index before it that has it, is what
/// `find_key` gives.
pub proof fn lemma_find_key_at(e: Entries, k: Seq<char>, i: int)
    requires
        0 <= i <= e.len(),
        forall|j: int| 0 <= j < i ==> e[j].0 != k,
        i < e.len() ==> e[i].0 == k,
    ensures
        find_key(e, k) == i,
{
    lemma_find_key(e, k);
}

/// What `put` does to the keys and to the values found under them.
pub proof fn lemma_put(e: Entries, k: Seq<char>, v: ValueView, k2: Seq<char>)
    ensures
        has_key(put(e, k, v), k2) == (has_key(e, k2) || k2 == k),
        lookup(put(e, k, v), k2) == if k2 == k {
            Some(v)
        } else {
            lookup(e, k2)
        },
{
    lemma_find_key(e, k);
    lemma_find_key(e, k2);
    let p = put(e, k, v);
    lemma_find_key(p, k2);
    if has_key(e, k) {
        let i = find_key(e, k);
        if k2 == k {
            lemma_find_key_at(p, k2, i);
        } else {
            lemma_find_key_at(p, k2, find_key(e, k2));
        }
    } else {
        if k2 == k {
            lemma_find_key_at(p, k2, e.len() as int);
        } else {
            lemma_find_key_at(p, k2, if has_key(e, k2) { find_key(e, k2) } else { p.len() as int });
        }
    }
}

/// Putting the value that is there changes nothing.
pub proof fn lemma_put_same(e: Entries, k: Seq<char>, v: ValueView)
    requires
        lookup(e, k) == Some(v),
    ensures
        put(e, k, v) == e,
{
    lemma_find_key(e, k);
    assert(e.update(find_key(e, k), (k, v)) =~= e);
}

/// A key that is looked up in a sequence with one more entry at the end.
pub proof fn lemma_lookup_push(e: Entries, last: (Seq<char>, ValueView), k: Seq<char>)
    ensures
        has_key(e.push(last), k) == (has_key(e, k) || last.0 == k),
        lookup(e.push(last), k) == if has_key(e, k) {
            lookup(e, k)
        } else if last.0 == k {
            Some(last.1)
        } else {
            None
        },
{
    lemma_find_key(e, k);
    let p = e.push(last);
    if has_key(e, k) {
        lemma_find_key_at(p, k, find_key(e, k));
    } else if last.0 == k {
        lemma_find_key_at(p, k, e.len() as int);
    } else {
        lemma_find_key_at(p, k, p.len() as int);
    }
}

/// What `without` does to the keys and to the values found under them.
pub proof fn lemma_without(e: Entries, k: Seq<char>, k2: Seq<char>)
    ensures
        has_key(without(e, k), k2) == (has_key(e, k2) && k2 != k),
        lookup(without(e, k), k2) == if k2 == k {
            None
        } else {
            lookup(e, k2)
        },
        without(e, k).len() <= e.len(),
    decreases e.len(),
{
    if e.len() == 0 {
    } else {
        let init = e.drop_last();
        lemma_without(init, k, k2);
        assert(e == init.push(e.last()));
        lemma_lookup_push(init, e.last(), k2);
        if e.last().0 != k {
            lemma_lookup_push(without(init, k), e.last(), k2);
        }
    }
}

/// Taking out a key that is not there changes nothing.
pub proof fn lemma_without_absent(e: Entries, k: Seq<char>)
    requires
        !has_key(e, k),
    ensures
        without(e, k) == e,
    decreases e.len(),
{
    if e.len() > 0 {
        let init = e.drop_last();
        assert(e == init.push(e.last()));
        lemma_lookup_push(init, e.last(), k);
        lemma_without_absent(init, k);
    }
}

} // verus!
