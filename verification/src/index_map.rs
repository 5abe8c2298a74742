//! Trusted interface to `indexmap::IndexMap`, the insertion-ordered map that
//! holds both the type table and each struct's field list.
//!
//! The contents of a map are named by the uninterpreted functions
//! `table_entries` and `field_entries`: the sequence of key/value pairs in
//! insertion order, each taken by its view. Every wrapper below states, over
//! those names, what the corresponding `indexmap` method does.

use vstd::prelude::*;

use indexmap::IndexMap;

use crate::ast::{entries_have_key, CompositeType, CompositeTypeV};

verus! {

#[verifier::external_type_specification]
#[verifier::external_body]
#[verifier::reject_recursive_types(K)]
#[verifier::reject_recursive_types(V)]
#[verifier::reject_recursive_types(S)]
pub struct ExIndexMap<K, V, S>(IndexMap<K, V, S>);

/// Relies on `IndexMap`'s `Clone`; nothing is claimed of the copy. It is here
/// only so that the derived `Clone` of types holding a map is accepted.
pub assume_specification<K, V, S>[ <IndexMap<K, V, S> as Clone>::clone ](
    m: &IndexMap<K, V, S>,
) -> IndexMap<K, V, S>
    where
        K: Clone,
        V: Clone,
        S: Clone,
;

/// The entries of a type table, in insertion order, by their views.
pub uninterp spec fn table_entries(m: IndexMap<String, CompositeType>) -> Seq<
    (Seq<char>, CompositeTypeV),
>;

/// The entries of one struct's field map, in insertion order, by their views.
pub uninterp spec fn field_entries(m: IndexMap<String, String>) -> Seq<(Seq<char>, Seq<char>)>;

/// Relies on `IndexMap::new`: a new map is empty.
#[verifier::external_body]
pub(crate) fn table_new() -> (r: IndexMap<String, CompositeType>)
    ensures
        table_entries(r) == Seq::<(Seq<char>, CompositeTypeV)>::empty(),
{
    IndexMap::new()
}

/// Relies on `IndexMap::contains_key`: true exactly when an equivalent key is
/// present; `&str` and `String` keys are equivalent when their characters are.
#[verifier::external_body]
pub(crate) fn table_contains_key(m: &IndexMap<String, CompositeType>, key: &str) -> (r: bool)
    ensures
        r == entries_have_key(table_entries(*m), key@),
{
    m.contains_key(key)
}

/// Relies on `IndexMap::insert`: when no equivalent key exists, the pair is
/// inserted last in order.
#[verifier::external_body]
pub(crate) fn table_insert_new(
    m: &mut IndexMap<String, CompositeType>,
    key: String,
    value: CompositeType,
)
    requires
        forall|i: int|
            0 <= i < table_entries(*old(m)).len() ==> table_entries(*old(m))[i].0 != key@,
    ensures
        table_entries(*final(m)) == table_entries(*old(m)).push((key@, value@)),
{
    let _ = m.insert(key, value);
}

/// Relies on `IndexMap::len`: the number of entries.
#[verifier::external_body]
pub(crate) fn table_len(m: &IndexMap<String, CompositeType>) -> (r: usize)
    ensures
        r == table_entries(*m).len(),
{
    m.len()
}

/// Relies on `IndexMap::get_index`: the pair at a position, in insertion
/// order, or `None` past the end. The returned pair is cloned.
#[verifier::external_body]
pub(crate) fn table_get_index(m: &IndexMap<String, CompositeType>, i: usize) -> (r: Option<
    (String, CompositeType),
>)
    ensures
        match r {
            Some(p) => i < table_entries(*m).len() && p.0@ == table_entries(*m)[i as int].0
                && p.1@ == table_entries(*m)[i as int].1,
            None => i >= table_entries(*m).len(),
        },
{
    m.get_index(i).map(|p| (p.0.clone(), p.1.clone()))
}

/// Relies on `IndexMap::new`: a new map is empty.
#[verifier::external_body]
pub(crate) fn field_new() -> (r: IndexMap<String, String>)
    ensures
        field_entries(r) == Seq::<(Seq<char>, Seq<char>)>::empty(),
{
    IndexMap::new()
}

/// Relies on `IndexMap::contains_key`: true exactly when an equivalent key is
/// present.
#[verifier::external_body]
pub(crate) fn field_contains_key(m: &IndexMap<String, String>, key: &str) -> (r: bool)
    ensures
        r == entries_have_key(field_entries(*m), key@),
{
    m.contains_key(key)
}

/// Relies on `IndexMap::insert`: when no equivalent key exists, the pair is
/// inserted last in order.
#[verifier::external_body]
pub(crate) fn field_insert_new(m: &mut IndexMap<String, String>, key: String, value: String)
    requires
        forall|i: int|
            0 <= i < field_entries(*old(m)).len() ==> field_entries(*old(m))[i].0 != key@,
    ensures
        field_entries(*final(m)) == field_entries(*old(m)).push((key@, value@)),
{
    let _ = m.insert(key, value);
}

/// Relies on `IndexMap::len`: the number of entries.
#[verifier::external_body]
pub(crate) fn field_len(m: &IndexMap<String, String>) -> (r: usize)
    ensures
        r == field_entries(*m).len(),
{
    m.len()
}

/// Relies on `IndexMap::get_index`: the pair at a position, in insertion
/// order, or `None` past the end. The returned pair is cloned.
#[verifier::external_body]
pub(crate) fn field_get_index(m: &IndexMap<String, String>, i: usize) -> (r: Option<
    (String, String),
>)
    ensures
        match r {
            Some(p) => i < field_entries(*m).len() && p.0@ == field_entries(*m)[i as int].0
                && p.1@ == field_entries(*m)[i as int].1,
            None => i >= field_entries(*m).len(),
        },
{
    m.get_index(i).map(|p| (p.0.clone(), p.1.clone()))
}

} // verus!
