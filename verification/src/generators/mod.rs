//! The generator framework: a target-language backend is a capability bound
//! to one validated type table, able to emit the text of one composite type
//! or of the whole table, the latter being the concatenation of the former
//! over the table's keys in declaration order.

use vstd::prelude::*;

use crate::ast::entries_have_key;
use crate::{CrossCompiler, TableV};

pub mod java;

verus! {

/// The concatenation of a per-type rendering over the table entries from
/// position `i` on, in table order.
pub open spec fn spec_concat_rendered(
    render: spec_fn(Seq<char>) -> Seq<char>,
    t: TableV,
    i: int,
) -> Seq<char>
    decreases t.len() - i
        when 0 <= i <= t.len()
{
    if i >= t.len() {
        Seq::empty()
    } else {
        render(t[i].0) + spec_concat_rendered(render, t, i + 1)
    }
}

/// A target-language backend. It borrows one validated table for its
/// lifetime and never mutates it; what it emits for a type is a function of
/// the backend, the per-invocation options and the type's name, given by the
/// backend's `rendered`.
pub trait Generator<'a, InitOptions, GenerateOptions>: Sized {
    /// The entries of the table this backend is bound to.
    spec fn table(&self) -> TableV;

    /// The target-language text this backend emits for one composite type.
    spec fn rendered(&self, options: GenerateOptions, name: Seq<char>) -> Seq<char>;

    /// Binds a backend to a validated table.
    fn new(cross_compiler: &'a CrossCompiler, options: InitOptions) -> (r: Self)
        ensures
            r.table() == cross_compiler@,
    ;

    /// Emits the representation of exactly one composite type; callers must
    /// pass a key of the bound table.
    fn generate_type(&self, options: GenerateOptions, composite_type_name: &str) -> (r: String)
        requires
            entries_have_key(self.table(), composite_type_name@),
        ensures
            r@ == self.rendered(options, composite_type_name@),
    ;

    /// Emits the representations of every composite type, concatenated in
    /// the table's declaration order: exactly the concatenation of
    /// `generate_type` over the table's keys.
    fn generate_types(&self, options: GenerateOptions) -> (r: String)
        ensures
            r@ == spec_concat_rendered(
                (|name: Seq<char>| self.rendered(options, name)),
                self.table(),
                0,
            ),
    ;
}

} // verus!
