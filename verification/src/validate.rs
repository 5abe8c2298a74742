//! The reference validator: every reference must resolve, and every declared
//! type must be grounded — transitively reachable to a primitive through at
//! least one reference path, so that recursive types are allowed but purely
//! cyclic definitions with no primitive escape are rejected.

use vstd::prelude::*;

use indexmap::IndexMap;

use crate::ast::{entries_have_key, spec_direct_references, CompositeType};
use crate::index_map::{table_entries, table_get_index, table_len};
use crate::{spec_type_name_is_primitive, table_keys_unique, ParseErrorV, TableV};

verus! {

/// A reference is valid when it names a primitive or a declared composite.
pub open spec fn spec_ref_resolves(t: TableV, name: Seq<char>) -> bool {
    spec_type_name_is_primitive(name) || entries_have_key(t, name)
}

/// The first reference among `refs` (scanning from `j`) that resolves to
/// neither a primitive nor a table key.
pub open spec fn first_undef_in_refs(t: TableV, refs: Seq<Seq<char>>, j: int) -> Option<Seq<char>>
    decreases refs.len() - j
        when 0 <= j <= refs.len()
{
    if j >= refs.len() {
        None
    } else if !spec_ref_resolves(t, refs[j]) {
        Some(refs[j])
    } else {
        first_undef_in_refs(t, refs, j + 1)
    }
}

/// The first undefined reference of the table, scanning declarations from `i`
/// in table order and each declaration's references in their order: the
/// enclosing type's name and the unresolved reference.
pub open spec fn first_undef_ref_from(t: TableV, i: int) -> Option<(Seq<char>, Seq<char>)>
    decreases t.len() - i
        when 0 <= i <= t.len()
{
    if i >= t.len() {
        None
    } else {
        match first_undef_in_refs(t, spec_direct_references(t[i].1), 0) {
            Some(r) => Some((t[i].0, r)),
            None => first_undef_ref_from(t, i + 1),
        }
    }
}

/// Groundedness bounded by a path length: the named type has an entry whose
/// references include a primitive, or a type grounded within `fuel - 1` hops.
pub open spec fn grounded_fuel(t: TableV, name: Seq<char>, fuel: nat) -> bool
    decreases fuel,
{
    &&& fuel > 0
    &&& exists|i: int|
        0 <= i < t.len() && t[i].0 == name && (exists|j: int|
            0 <= j < spec_direct_references(t[i].1).len() && (spec_type_name_is_primitive(
                spec_direct_references(t[i].1)[j],
            ) || grounded_fuel(t, spec_direct_references(t[i].1)[j], (fuel - 1) as nat)))
}

/// A declared type is grounded when some reference path of any length reaches
/// a primitive.
pub open spec fn grounded(t: TableV, name: Seq<char>) -> bool {
    exists|fuel: nat| grounded_fuel(t, name, fuel)
}

pub open spec fn all_grounded(t: TableV) -> bool {
    forall|i: int| 0 <= i < t.len() ==> grounded(t, t[i].0)
}

/// The keys of the table's ungrounded types, in table order, from position `i`.
pub open spec fn ungrounded_keys_from(t: TableV, i: int) -> Seq<Seq<char>>
    decreases t.len() - i
        when 0 <= i <= t.len()
{
    if i >= t.len() {
        Seq::empty()
    } else if !grounded(t, t[i].0) {
        seq![t[i].0] + ungrounded_keys_from(t, i + 1)
    } else {
        ungrounded_keys_from(t, i + 1)
    }
}

pub open spec fn ungrounded_keys(t: TableV) -> Seq<Seq<char>> {
    ungrounded_keys_from(t, 0)
}

/// What validation reports for a table: the first undefined reference takes
/// priority; otherwise the full set of ungrounded types, if any; otherwise
/// nothing.
pub open spec fn spec_validate(t: TableV) -> Option<ParseErrorV> {
    match first_undef_ref_from(t, 0) {
        Some(p) => Some(ParseErrorV::ReferenceNotDefined {
            composite_type_name: p.0,
            reference_name: p.1,
        }),
        None => if all_grounded(t) {
            None
        } else {
            Some(ParseErrorV::TypesHaveNoBase { type_names: ungrounded_keys(t) })
        },
    }
}

/// Some table entry bearing this name is marked.
pub open spec fn ref_marked(t: TableV, mk: Seq<bool>, name: Seq<char>) -> bool {
    exists|k: int| 0 <= k < t.len() && t[k].0 == name && mk[k]
}

/// A reference keeps a type alive in one marking pass: it is primitive, or
/// its entry is already marked.
pub open spec fn ref_live(t: TableV, mk: Seq<bool>, name: Seq<char>) -> bool {
    spec_type_name_is_primitive(name) || ref_marked(t, mk, name)
}

pub open spec fn any_ref_live(t: TableV, mk: Seq<bool>, refs: Seq<Seq<char>>) -> bool {
    exists|j: int| 0 <= j < refs.len() && ref_live(t, mk, refs[j])
}

/// Marking is sound: a type marked because one of its references is primitive
/// or already marked (itself soundly) is grounded.
proof fn lemma_live_implies_grounded(t: TableV, mk: Seq<bool>, i: int)
    requires
        0 <= i < t.len(),
        mk.len() == t.len(),
        forall|x: int| 0 <= x < t.len() && mk[x] ==> grounded(t, t[x].0),
        any_ref_live(t, mk, spec_direct_references(t[i].1)),
    ensures
        grounded(t, t[i].0),
{
    let refs = spec_direct_references(t[i].1);
    let j = choose|j: int| 0 <= j < refs.len() && ref_live(t, mk, refs[j]);
    if spec_type_name_is_primitive(refs[j]) {
        assert(spec_type_name_is_primitive(spec_direct_references(t[i].1)[j]));
        assert(grounded_fuel(t, t[i].0, 1));
    } else {
        let k = choose|k: int| 0 <= k < t.len() && t[k].0 == refs[j] && mk[k];
        assert(grounded(t, t[k].0));
        let f = choose|f: nat| grounded_fuel(t, t[k].0, f);
        assert(grounded_fuel(t, spec_direct_references(t[i].1)[j], f));
        assert(grounded_fuel(t, t[i].0, f + 1));
    }
}

/// At a fixpoint — no unmarked type has a live reference — no unmarked type
/// is grounded within any bounded path length.
proof fn lemma_no_progress_fuel(t: TableV, mk: Seq<bool>, fuel: nat)
    requires
        mk.len() == t.len(),
        table_keys_unique(t),
        forall|x: int|
            0 <= x < t.len() && !mk[x] ==> !any_ref_live(t, mk, spec_direct_references(t[x].1)),
    ensures
        forall|x: int| 0 <= x < t.len() && !mk[x] ==> !grounded_fuel(t, t[x].0, fuel),
    decreases fuel,
{
    if fuel > 0 {
        lemma_no_progress_fuel(t, mk, (fuel - 1) as nat);
        assert forall|x: int| 0 <= x < t.len() && !mk[x] implies !grounded_fuel(
            t,
            t[x].0,
            fuel,
        ) by {
            if grounded_fuel(t, t[x].0, fuel) {
                let i = choose|i: int|
                    0 <= i < t.len() && t[i].0 == t[x].0 && (exists|j: int|
                        0 <= j < spec_direct_references(t[i].1).len() && (
                        spec_type_name_is_primitive(spec_direct_references(t[i].1)[j])
                            || grounded_fuel(
                            t,
                            spec_direct_references(t[i].1)[j],
                            (fuel - 1) as nat,
                        )));
                assert(i == x);
                let refs = spec_direct_references(t[x].1);
                let j = choose|j: int|
                    0 <= j < refs.len() && (spec_type_name_is_primitive(refs[j])
                        || grounded_fuel(t, refs[j], (fuel - 1) as nat));
                if spec_type_name_is_primitive(refs[j]) {
                    assert(ref_live(t, mk, refs[j]));
                    assert(any_ref_live(t, mk, refs));
                } else {
                    assert(grounded_fuel(t, refs[j], (fuel - 1) as nat));
                    let k = choose|k: int|
                        0 <= k < t.len() && t[k].0 == refs[j] && (exists|jj: int|
                            0 <= jj < spec_direct_references(t[k].1).len() && (
                            spec_type_name_is_primitive(spec_direct_references(t[k].1)[jj])
                                || grounded_fuel(
                                t,
                                spec_direct_references(t[k].1)[jj],
                                (fuel - 2) as nat,
                            )));
                    if mk[k] {
                        assert(ref_marked(t, mk, refs[j]));
                        assert(ref_live(t, mk, refs[j]));
                        assert(any_ref_live(t, mk, refs));
                    } else {
                        assert(!grounded_fuel(t, t[k].0, (fuel - 1) as nat));
                    }
                }
            }
        }
    }
}

/// At a fixpoint, no unmarked type is grounded at all.
proof fn lemma_no_progress(t: TableV, mk: Seq<bool>)
    requires
        mk.len() == t.len(),
        table_keys_unique(t),
        forall|x: int|
            0 <= x < t.len() && !mk[x] ==> !any_ref_live(t, mk, spec_direct_references(t[x].1)),
    ensures
        forall|x: int| 0 <= x < t.len() && !mk[x] ==> !grounded(t, t[x].0),
{
    assert forall|x: int| 0 <= x < t.len() && !mk[x] implies !grounded(t, t[x].0) by {
        if grounded(t, t[x].0) {
            let f = choose|f: nat| grounded_fuel(t, t[x].0, f);
            lemma_no_progress_fuel(t, mk, f);
        }
    }
}

/// A declared type one of whose direct references is primitive is grounded:
/// a single reference step reaches the primitive base.
pub proof fn lemma_direct_primitive_grounded(t: TableV, i: int, j: int)
    requires
        0 <= i < t.len(),
        0 <= j < spec_direct_references(t[i].1).len(),
        spec_type_name_is_primitive(spec_direct_references(t[i].1)[j]),
    ensures
        grounded(t, t[i].0),
{
    assert(grounded_fuel(t, t[i].0, 1));
}

proof fn lemma_no_primitive_refs_fuel(t: TableV, fuel: nat)
    requires
        forall|i: int, j: int|
            0 <= i < t.len() && 0 <= j < spec_direct_references(t[i].1).len()
                ==> !spec_type_name_is_primitive(spec_direct_references(t[i].1)[j]),
    ensures
        forall|name: Seq<char>| !grounded_fuel(t, name, fuel),
    decreases fuel,
{
    if fuel > 0 {
        lemma_no_primitive_refs_fuel(t, (fuel - 1) as nat);
        assert forall|name: Seq<char>| !grounded_fuel(t, name, fuel) by {
            if grounded_fuel(t, name, fuel) {
                let i = choose|i: int|
                    0 <= i < t.len() && t[i].0 == name && (exists|j: int|
                        0 <= j < spec_direct_references(t[i].1).len() && (
                        spec_type_name_is_primitive(spec_direct_references(t[i].1)[j])
                            || grounded_fuel(
                            t,
                            spec_direct_references(t[i].1)[j],
                            (fuel - 1) as nat,
                        )));
                let j = choose|j: int|
                    0 <= j < spec_direct_references(t[i].1).len() && (spec_type_name_is_primitive(
                        spec_direct_references(t[i].1)[j],
                    ) || grounded_fuel(t, spec_direct_references(t[i].1)[j], (fuel - 1) as nat));
                assert(!spec_type_name_is_primitive(spec_direct_references(t[i].1)[j]));
                assert(!grounded_fuel(t, spec_direct_references(t[i].1)[j], (fuel - 1) as nat));
            }
        }
    }
}

/// In a table where no type has any primitive direct reference — for one, a
/// type that only references itself — no type is grounded at all, so
/// validation cannot accept the table unless it is empty.
pub proof fn lemma_no_primitive_refs_ungrounded(t: TableV)
    requires
        forall|i: int, j: int|
            0 <= i < t.len() && 0 <= j < spec_direct_references(t[i].1).len()
                ==> !spec_type_name_is_primitive(spec_direct_references(t[i].1)[j]),
    ensures
        forall|name: Seq<char>| !grounded(t, name),
{
    assert forall|name: Seq<char>| !grounded(t, name) by {
        if grounded(t, name) {
            let f = choose|f: nat| grounded_fuel(t, name, f);
            lemma_no_primitive_refs_fuel(t, f);
        }
    }
}

/// How many entries of a boolean sequence are set.
pub open spec fn count_true(s: Seq<bool>) -> int
    decreases s.len(),
{
    if s.len() == 0 {
        0
    } else {
        count_true(s.drop_last()) + (if s.last() {
            1int
        } else {
            0int
        })
    }
}

proof fn lemma_count_true_bounds(s: Seq<bool>)
    ensures
        0 <= count_true(s) <= s.len(),
    decreases s.len(),
{
    if s.len() > 0 {
        lemma_count_true_bounds(s.drop_last());
    }
}

proof fn lemma_count_true_ones(s: Seq<bool>)
    requires
        forall|i: int| 0 <= i < s.len() ==> s[i],
    ensures
        count_true(s) == s.len(),
    decreases s.len(),
{
    if s.len() > 0 {
        assert(forall|i: int| 0 <= i < s.len() - 1 ==> s.drop_last()[i] == s[i]);
        lemma_count_true_ones(s.drop_last());
    }
}

proof fn lemma_count_true_zero(s: Seq<bool>)
    requires
        forall|i: int| 0 <= i < s.len() ==> !s[i],
    ensures
        count_true(s) == 0,
    decreases s.len(),
{
    if s.len() > 0 {
        assert(forall|i: int| 0 <= i < s.len() - 1 ==> s.drop_last()[i] == s[i]);
        lemma_count_true_zero(s.drop_last());
    }
}

proof fn lemma_count_true_update(s: Seq<bool>, i: int)
    requires
        0 <= i < s.len(),
        !s[i],
    ensures
        count_true(s.update(i, true)) == count_true(s) + 1,
    decreases s.len(),
{
    if i == s.len() - 1 {
        assert(s.update(i, true).drop_last() =~= s.drop_last());
        assert(s.update(i, true).last());
    } else {
        assert(s.update(i, true).drop_last() =~= s.drop_last().update(i, true));
        assert(s.update(i, true).last() == s.last());
        lemma_count_true_update(s.drop_last(), i);
    }
}

proof fn lemma_count_true_full(s: Seq<bool>)
    requires
        count_true(s) == s.len(),
    ensures
        forall|i: int| 0 <= i < s.len() ==> s[i],
    decreases s.len(),
{
    if s.len() > 0 {
        lemma_count_true_bounds(s.drop_last());
        lemma_count_true_full(s.drop_last());
        assert forall|i: int| 0 <= i < s.len() implies s[i] by {
            if i < s.len() - 1 {
                assert(s.drop_last()[i] == s[i]);
            }
        }
    }
}

/// The position of the entry bearing this key, by a scan in table order.
fn key_index(m: &IndexMap<String, CompositeType>, key: &String) -> (r: Option<usize>)
    ensures
        match r {
            Some(k) => k < table_entries(*m).len() && table_entries(*m)[k as int].0 == key@,
            None => !entries_have_key(table_entries(*m), key@),
        },
{
    let ghost t = table_entries(*m);
    let n = table_len(m);
    let mut i: usize = 0;
    while i < n
        invariant
            t == table_entries(*m),
            n == t.len(),
            0 <= i <= n,
            forall|k: int| 0 <= k < i ==> t[k].0 != key@,
        decreases n - i,
    {
        match table_get_index(m, i) {
            None => {
                proof {
                    assert(false);
                }
            },
            Some(p) => {
                if p.0 == *key {
                    return Some(i);
                }
            },
        }
        i = i + 1;
    }
    proof {
        assert(!entries_have_key(t, key@)) by {
            if entries_have_key(t, key@) {
                let k = choose|k: int| 0 <= k < t.len() && t[k].0 == key@;
                assert(t[k].0 != key@);
            }
        }
    }
    None
}

/// Whether this composite type has a reference that is primitive or already
/// marked: the condition under which one marking pass marks it.
fn has_live_ref(m: &IndexMap<String, CompositeType>, marked: &Vec<bool>, ct: &CompositeType) -> (r:
    bool)
    requires
        marked@.len() == table_entries(*m).len(),
        table_keys_unique(table_entries(*m)),
    ensures
        r == any_ref_live(table_entries(*m), marked@, spec_direct_references(ct@)),
{
    let ghost t = table_entries(*m);
    let refs = ct.direct_references();
    let ghost refsv = spec_direct_references(ct@);
    let mut j: usize = 0;
    while j < refs.len()
        invariant
            t == table_entries(*m),
            marked@.len() == t.len(),
            table_keys_unique(t),
            refs.deep_view() == refsv,
            refsv == spec_direct_references(ct@),
            0 <= j <= refs.len(),
            forall|jj: int| 0 <= jj < j ==> !ref_live(t, marked@, refsv[jj]),
        decreases refs.len() - j,
    {
        let rf = &refs[j];
        proof {
            assert(rf@ == refsv[j as int]);
        }
        if crate::type_name_is_primitive(rf.as_str()) {
            proof {
                assert(ref_live(t, marked@, refsv[j as int]));
            }
            return true;
        }
        match key_index(m, rf) {
            Some(k) => {
                if marked[k] {
                    proof {
                        assert(ref_marked(t, marked@, refsv[j as int]));
                        assert(ref_live(t, marked@, refsv[j as int]));
                    }
                    return true;
                }
                proof {
                    assert(!ref_marked(t, marked@, refsv[j as int])) by {
                        if ref_marked(t, marked@, refsv[j as int]) {
                            let k2 = choose|k2: int|
                                0 <= k2 < t.len() && t[k2].0 == refsv[j as int] && marked@[k2];
                            assert(k2 == k);
                        }
                    }
                }
            },
            None => {
                proof {
                    assert(!ref_marked(t, marked@, refsv[j as int])) by {
                        if ref_marked(t, marked@, refsv[j as int]) {
                            let k2 = choose|k2: int|
                                0 <= k2 < t.len() && t[k2].0 == refsv[j as int] && marked@[k2];
                            assert(entries_have_key(t, refsv[j as int]));
                        }
                    }
                }
            },
        }
        j = j + 1;
    }
    proof {
        assert(!any_ref_live(t, marked@, refsv)) by {
            if any_ref_live(t, marked@, refsv) {
                let jj = choose|jj: int| 0 <= jj < refsv.len() && ref_live(t, marked@, refsv[jj]);
                assert(!ref_live(t, marked@, refsv[jj]));
            }
        }
    }
    false
}

impl crate::CrossCompiler {
    /// Confirms that the table is semantically sound. The first undefined
    /// reference, in table order, is reported before any groundedness
    /// failure; a table that passes both phases validates. Never mutates the
    /// table.
    pub fn validate_references(&self) -> (r: Result<(), crate::CrossCompilerParseError>)
        requires
            self.wf(),
        ensures
            match r {
                Ok(_) => spec_validate(self@) is None,
                Err(e) => spec_validate(self@) == Some(e@),
            },
    {
        let m = &self.composite_types;
        let ghost t = table_entries(*m);
        let n = table_len(m);

        // Phase A: every direct reference resolves to a primitive or a key.
        let mut i: usize = 0;
        while i < n
            invariant
                t == table_entries(*m),
                t == self@,
                n == t.len(),
                0 <= i <= n,
                first_undef_ref_from(t, 0) == first_undef_ref_from(t, i as int),
            decreases n - i,
        {
            match table_get_index(m, i) {
                None => {
                    proof {
                        assert(false);
                    }
                },
                Some(p) => {
                    let name = p.0;
                    let ct = p.1;
                    let refs = ct.direct_references();
                    let ghost refsv = spec_direct_references(t[i as int].1);
                    let mut j: usize = 0;
                    while j < refs.len()
                        invariant
                            t == table_entries(*m),
                            t == self@,
                            n == t.len(),
                            0 <= i < n,
                            name@ == t[i as int].0,
                            refs.deep_view() == refsv,
                            refsv == spec_direct_references(t[i as int].1),
                            0 <= j <= refs.len(),
                            first_undef_ref_from(t, 0) == first_undef_ref_from(t, i as int),
                            first_undef_in_refs(t, refsv, 0) == first_undef_in_refs(
                                t,
                                refsv,
                                j as int,
                            ),
                        decreases refs.len() - j,
                    {
                        let rf = &refs[j];
                        proof {
                            assert(rf@ == refsv[j as int]);
                        }
                        let prim = crate::type_name_is_primitive(rf.as_str());
                        let known = crate::index_map::table_contains_key(m, rf.as_str());
                        if !prim && !known {
                            proof {
                                assert(!spec_ref_resolves(t, refsv[j as int]));
                                assert(first_undef_in_refs(t, refsv, j as int) == Some(
                                    refsv[j as int],
                                ));
                            }
                            return Err(crate::CrossCompilerParseError::ReferenceNotDefined {
                                composite_type_name: name,
                                reference_name: rf.clone(),
                            });
                        }
                        j = j + 1;
                    }
                    i = i + 1;
                },
            }
        }

        // Phase B: the monotone marking passes of the groundedness check.
        let mut marked: Vec<bool> = Vec::new();
        let mut k: usize = 0;
        while k < n
            invariant
                0 <= k <= n,
                marked@.len() == k,
                forall|x: int| 0 <= x < k ==> !marked@[x],
            decreases n - k,
        {
            marked.push(false);
            k = k + 1;
        }
        proof {
            lemma_count_true_zero(marked@);
        }
        let mut marked_count: usize = 0;
        loop
            invariant
                t == table_entries(*m),
                t == self@,
                n == t.len(),
                table_keys_unique(t),
                first_undef_ref_from(t, 0) == None::<(Seq<char>, Seq<char>)>,
                marked@.len() == n,
                forall|x: int| 0 <= x < n && marked@[x] ==> grounded(t, t[x].0),
                marked_count == count_true(marked@),
                0 <= marked_count <= n,
            decreases n - marked_count,
        {
            let ghost start = marked@;
            let ghost start_count = marked_count as int;
            let mut changed = false;
            let mut i2: usize = 0;
            while i2 < n
                invariant
                    t == table_entries(*m),
                    n == t.len(),
                    table_keys_unique(t),
                    marked@.len() == n,
                    0 <= i2 <= n,
                    forall|x: int| 0 <= x < n && marked@[x] ==> grounded(t, t[x].0),
                    marked_count == count_true(marked@),
                    0 <= marked_count <= n,
                    !changed ==> marked@ == start,
                    !changed ==> marked_count == start_count,
                    changed ==> count_true(marked@) > start_count,
                    !changed ==> forall|x: int|
                        0 <= x < i2 && !start[x] ==> !any_ref_live(
                            t,
                            start,
                            spec_direct_references(t[x].1),
                        ),
                decreases n - i2,
            {
                if !marked[i2] {
                    match table_get_index(m, i2) {
                        None => {
                            proof {
                                assert(false);
                            }
                        },
                        Some(p) => {
                            let ct = p.1;
                            let live = has_live_ref(m, &marked, &ct);
                            if live {
                                proof {
                                    lemma_live_implies_grounded(t, marked@, i2 as int);
                                    lemma_count_true_update(marked@, i2 as int);
                                    lemma_count_true_bounds(marked@.update(i2 as int, true));
                                }
                                marked.set(i2, true);
                                marked_count = marked_count + 1;
                                changed = true;
                            }
                        },
                    }
                }
                i2 = i2 + 1;
            }
            if marked_count == n {
                proof {
                    lemma_count_true_full(marked@);
                    assert forall|y: int| 0 <= y < t.len() implies grounded(t, t[y].0) by {
                        assert(marked@[y]);
                    }
                    assert(all_grounded(t));
                }
                return Ok(());
            }
            if !changed {
                proof {
                    lemma_no_progress(t, marked@);
                }
                let mut missing: Vec<String> = Vec::new();
                let mut x: usize = 0;
                while x < n
                    invariant
                        t == table_entries(*m),
                        n == t.len(),
                        marked@.len() == n,
                        0 <= x <= n,
                        forall|y: int| 0 <= y < n ==> marked@[y] == grounded(t, t[y].0),
                        ungrounded_keys(t) == missing.deep_view() + ungrounded_keys_from(
                            t,
                            x as int,
                        ),
                    decreases n - x,
                {
                    if !marked[x] {
                        match table_get_index(m, x) {
                            None => {
                                proof {
                                    assert(false);
                                }
                            },
                            Some(p) => {
                                let ghost prevk = missing.deep_view();
                                missing.push(p.0);
                                proof {
                                    assert(missing.deep_view() =~= prevk.push(t[x as int].0));
                                    assert(forall|rest: Seq<Seq<char>>|
                                        prevk + (seq![t[x as int].0] + rest) =~= #[trigger] (
                                        prevk.push(t[x as int].0) + rest));
                                }
                            },
                        }
                    }
                    x = x + 1;
                }
                proof {
                    assert(ungrounded_keys_from(t, n as int) =~= Seq::<Seq<char>>::empty());
                    assert(missing.deep_view() + Seq::<Seq<char>>::empty() =~= missing.deep_view());
                    assert(!all_grounded(t)) by {
                        if all_grounded(t) {
                            assert forall|y: int| 0 <= y < n implies marked@[y] by {
                                assert(grounded(t, t[y].0));
                            }
                            lemma_count_true_ones(marked@);
                        }
                    }
                }
                return Err(crate::CrossCompilerParseError::TypesHaveNoBase {
                    type_names: missing,
                });
            }
            proof {
                lemma_count_true_bounds(marked@);
            }
        }
    }
}

} // verus!
