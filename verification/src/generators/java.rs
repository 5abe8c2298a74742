//! The Java backend: renders each composite type as an empty-bodied named
//! interface block. Member emission is an open extension point.

use vstd::prelude::*;
use vstd::string::StringExecFns;

use super::{spec_concat_rendered, Generator};
use crate::ast::entries_have_key;
use crate::index_map::{table_entries, table_get_index, table_len};
use crate::{CrossCompiler, TableV};

verus! {

/// The Java text for one composite type: an empty interface named after it.
pub open spec fn java_rendered(name: Seq<char>) -> Seq<char> {
    "interface "@ + name + " {\n"@ + "}\n"@
}

/// The concatenated Java text for the table entries from position `i` on.
pub open spec fn java_generated_from(t: TableV, i: int) -> Seq<char>
    decreases t.len() - i
        when 0 <= i <= t.len()
{
    if i >= t.len() {
        Seq::empty()
    } else {
        java_rendered(t[i].0) + java_generated_from(t, i + 1)
    }
}

/// Any per-type rendering that agrees with `java_rendered` pointwise
/// concatenates to the Java whole-table text.
proof fn lemma_java_concat(render: spec_fn(Seq<char>) -> Seq<char>, t: TableV, i: int)
    requires
        0 <= i <= t.len(),
        forall|name: Seq<char>| #[trigger] render(name) == java_rendered(name),
    ensures
        java_generated_from(t, i) == spec_concat_rendered(render, t, i),
    decreases t.len() - i,
{
    if i < t.len() {
        lemma_java_concat(render, t, i + 1);
    }
}

/// A Java backend bound to one validated table.
pub struct Java<'a> {
    pub cross_compiler: &'a CrossCompiler,
}

impl<'a> Generator<'a, (), ()> for Java<'a> {
    open spec fn table(&self) -> TableV {
        (*self.cross_compiler)@
    }

    open spec fn rendered(&self, options: (), name: Seq<char>) -> Seq<char> {
        java_rendered(name)
    }

    fn new(cross_compiler: &'a CrossCompiler, _options: ()) -> (r: Self) {
        Java { cross_compiler }
    }

    fn generate_type(&self, _options: (), composite_type_name: &str) -> (r: String) {
        let mut output = String::new();
        output.append("interface ");
        output.append(composite_type_name);
        output.append(" {\n");
        output.append("}\n");
        proof {
            assert(output@ =~= java_rendered(composite_type_name@));
        }
        output
    }

    fn generate_types(&self, options: ()) -> (r: String) {
        let m = &self.cross_compiler.composite_types;
        let ghost t = table_entries(*m);
        let n = table_len(m);
        let mut output = String::new();
        let mut i: usize = 0;
        while i < n
            invariant
                t == table_entries(*m),
                t == self.table(),
                n == t.len(),
                0 <= i <= n,
                java_generated_from(t, 0) == output@ + java_generated_from(t, i as int),
            decreases n - i,
        {
            match table_get_index(m, i) {
                None => {
                    proof {
                        assert(false);
                    }
                },
                Some(p) => {
                    proof {
                        assert(p.0@ == t[i as int].0);
                        assert(entries_have_key(t, p.0@));
                    }
                    let piece = self.generate_type(options, p.0.as_str());
                    let ghost prev = output@;
                    output.append(piece.as_str());
                    proof {
                        assert(prev + (java_rendered(t[i as int].0) + java_generated_from(
                            t,
                            i + 1,
                        )) =~= (prev + java_rendered(t[i as int].0)) + java_generated_from(
                            t,
                            i + 1,
                        ));
                    }
                },
            }
            i = i + 1;
        }
        proof {
            assert(output@ + Seq::<char>::empty() =~= output@);
            lemma_java_concat((|name: Seq<char>| self.rendered(options, name)), t, 0);
        }
        output
    }
}

} // verus!
