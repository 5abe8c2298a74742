use vstd::prelude::*;

pub mod ast;
pub mod index_map;
pub mod generators;
pub mod syntax;
pub mod validate;

use crate::ast::CompositeType;

verus! {

/// Whether a character has the Unicode lowercase property: what
/// `char::is_lowercase` returns for it.
pub uninterp spec fn is_unicode_lowercase(c: char) -> bool;

/// Relies on `char::is_lowercase`: whether the character is lowercase under
/// Unicode. The result depends on the character alone.
#[verifier::external_body]
fn char_is_lowercase(c: char) -> (r: bool)
    ensures
        r == is_unicode_lowercase(c),
{
    c.is_lowercase()
}

/// A type name refers to a primitive exactly when it is non-empty and its
/// first character is lowercase; otherwise it must name a declared composite
/// type.
pub open spec fn spec_type_name_is_primitive(name: Seq<char>) -> bool {
    name.len() > 0 && is_unicode_lowercase(name[0])
}

/// The mathematical model of a compiled type table: the declared composite
/// types in declaration order, each by its name and shape.
pub type TableV = Seq<(Seq<char>, ast::CompositeTypeV)>;

/// The mathematical model of a compilation failure.
pub enum ParseErrorV {
    /// The text does not match the grammar.
    Syntax,
    /// Two fields of one struct share a name.
    NonUniqueStructField { field_name: Seq<char>, struct_name: Seq<char> },
    /// Two declarations share a composite type name.
    NonUniqueCompositeTypeName { name: Seq<char> },
    /// A reference is neither primitive nor a declared composite type.
    ReferenceNotDefined { composite_type_name: Seq<char>, reference_name: Seq<char> },
    /// Declared types with no reference path to a primitive, in table order.
    TypesHaveNoBase { type_names: Seq<Seq<char>> },
}

/// A compilation failure: the compilation aborts with exactly one of these.
#[derive(Debug, PartialEq, Eq)]
pub enum CrossCompilerParseError {
    PestParse(syntax::SyntaxDiagnostic),
    NonUniqueStructField { field_name: String, struct_name: String },
    NonUniqueCompositeTypeName { name: String },
    ReferenceNotDefined { composite_type_name: String, reference_name: String },
    TypesHaveNoBase { type_names: Vec<String> },
}

impl View for CrossCompilerParseError {
    type V = ParseErrorV;

    open spec fn view(&self) -> ParseErrorV {
        match self {
            CrossCompilerParseError::PestParse(_) => ParseErrorV::Syntax,
            CrossCompilerParseError::NonUniqueStructField { field_name, struct_name } => (
            ParseErrorV::NonUniqueStructField {
                field_name: field_name@,
                struct_name: struct_name@,
            }),
            CrossCompilerParseError::NonUniqueCompositeTypeName { name } => (
            ParseErrorV::NonUniqueCompositeTypeName { name: name@ }),
            CrossCompilerParseError::ReferenceNotDefined {
                composite_type_name,
                reference_name,
            } => (ParseErrorV::ReferenceNotDefined {
                composite_type_name: composite_type_name@,
                reference_name: reference_name@,
            }),
            CrossCompilerParseError::TypesHaveNoBase { type_names } => (
            ParseErrorV::TypesHaveNoBase { type_names: type_names.deep_view() }),
        }
    }
}

/// Decides whether a type name refers to a primitive (lowercase-initial) type.
pub fn type_name_is_primitive(name: &str) -> (r: bool)
    ensures
        r == spec_type_name_is_primitive(name@),
{
    let n = name.unicode_len();
    if n == 0 {
        false
    } else {
        char_is_lowercase(name.get_char(0))
    }
}

/// No two table entries share a key: the table's structural invariant, put
/// in place by the extractor's duplicate check.
pub open spec fn table_keys_unique(t: TableV) -> bool {
    forall|i: int, j: int| 0 <= i < j < t.len() ==> t[i].0 != t[j].0
}

/// The table that extraction builds from the raw declarations starting at
/// position `i`, on top of the already-extracted prefix `acc`: each
/// declaration's body is checked for duplicate fields, then its name for a
/// clash with an earlier declaration, in that order; the first violation
/// aborts the whole extraction.
pub open spec fn spec_extract_from(decls: TableV, i: int, acc: TableV) -> Result<
    TableV,
    ParseErrorV,
>
    decreases decls.len() - i
        when 0 <= i <= decls.len()
{
    if i >= decls.len() {
        Ok(acc)
    } else {
        match ast::spec_parse_composite(decls[i].0, decls[i].1) {
            Err(e) => Err(e),
            Ok(c) => if ast::entries_have_key(acc, decls[i].0) {
                Err(ParseErrorV::NonUniqueCompositeTypeName { name: decls[i].0 })
            } else {
                spec_extract_from(decls, i + 1, acc.push((decls[i].0, decls[i].1)))
            },
        }
    }
}

pub open spec fn spec_extract(decls: TableV) -> Result<TableV, ParseErrorV> {
    spec_extract_from(decls, 0, Seq::empty())
}

/// What extraction alone yields for a document: a syntax failure, a
/// duplicate-field or duplicate-name failure, or the table in declaration
/// order.
pub open spec fn spec_parse_table(input: Seq<char>) -> Result<TableV, ParseErrorV> {
    match syntax::spec_parse_file(input) {
        None => Err(ParseErrorV::Syntax),
        Some(decls) => spec_extract(decls),
    }
}

/// What the whole pipeline yields for a document: extraction, then
/// validation, each failure aborting the compilation.
pub open spec fn spec_parse_and_validate(input: Seq<char>) -> Result<TableV, ParseErrorV> {
    match spec_parse_table(input) {
        Err(e) => Err(e),
        Ok(t) => match validate::spec_validate(t) {
            Some(e) => Err(e),
            None => Ok(t),
        },
    }
}

proof fn lemma_extract_ok_from(decls: TableV, i: int)
    requires
        0 <= i <= decls.len(),
        table_keys_unique(decls),
        forall|k: int|
            0 <= k < decls.len() ==> ast::spec_parse_composite(decls[k].0, decls[k].1) is Ok,
    ensures
        spec_extract_from(decls, i, decls.subrange(0, i)) == Ok::<TableV, ParseErrorV>(decls),
    decreases decls.len() - i,
{
    let acc = decls.subrange(0, i);
    if i < decls.len() {
        assert(!ast::entries_have_key(acc, decls[i].0)) by {
            if ast::entries_have_key(acc, decls[i].0) {
                let k = choose|k: int| 0 <= k < acc.len() && acc[k].0 == decls[i].0;
                assert(decls[k].0 == decls[i].0);
            }
        }
        assert(acc.push((decls[i].0, decls[i].1)) =~= decls.subrange(0, i + 1));
        lemma_extract_ok_from(decls, i + 1);
    } else {
        assert(acc =~= decls);
    }
}

/// Every well-formed document compiles to exactly its declarations: when the
/// text parses to declarations whose composite names are unique, whose
/// structs each have unique field names, and which validation accepts, the
/// whole pipeline succeeds and yields precisely those declarations, one table
/// entry each, in declaration order.
pub proof fn lemma_valid_input_compiles(input: Seq<char>, decls: TableV)
    requires
        syntax::spec_parse_file(input) == Some(decls),
        table_keys_unique(decls),
        forall|k: int|
            0 <= k < decls.len() ==> ast::spec_parse_composite(decls[k].0, decls[k].1) is Ok,
        validate::spec_validate(decls) is None,
    ensures
        spec_parse_and_validate(input) == Ok::<TableV, ParseErrorV>(decls),
{
    assert(decls.subrange(0, 0) =~= Seq::<(Seq<char>, ast::CompositeTypeV)>::empty());
    lemma_extract_ok_from(decls, 0);
}

/// Compilation has no hidden state: its outcome is a function of the input
/// text alone, so two runs over the same text yield structurally equal
/// tables.
pub proof fn lemma_compilation_deterministic(input: Seq<char>, t1: TableV, t2: TableV)
    requires
        spec_parse_and_validate(input) == Ok::<TableV, ParseErrorV>(t1),
        spec_parse_and_validate(input) == Ok::<TableV, ParseErrorV>(t2),
    ensures
        t1 == t2,
{
}

/// The compiled unit: an ordered table from composite type name to composite
/// type, keys unique, insertion order equal to declaration order.
#[derive(Debug, PartialEq, Eq)]
pub struct CrossCompiler {
    pub composite_types: indexmap::IndexMap<String, CompositeType>,
}

impl View for CrossCompiler {
    type V = TableV;

    open spec fn view(&self) -> TableV {
        index_map::table_entries(self.composite_types)
    }
}

impl CrossCompiler {
    /// The table's structural invariant: no two entries share a key.
    pub open spec fn wf(&self) -> bool {
        table_keys_unique(self@)
    }

    /// Runs extraction only: syntax, then the duplicate checks, building the
    /// table in declaration order.
    pub fn parse(input: &str) -> (r: Result<CrossCompiler, CrossCompilerParseError>)
        ensures
            match r {
                Ok(c) => spec_parse_table(input@) == Ok::<TableV, ParseErrorV>(c@) && c.wf(),
                Err(e) => spec_parse_table(input@) == Err::<TableV, ParseErrorV>(e@),
            },
    {
        let decls = match syntax::PestParser::parse(input) {
            Ok(ds) => ds,
            Err(d) => {
                return Err(CrossCompilerParseError::PestParse(d));
            },
        };
        let ghost dv = decls.deep_view();
        let mut m = index_map::table_new();
        let mut i: usize = 0;
        while i < decls.len()
            invariant
                dv == decls.deep_view(),
                syntax::spec_parse_file(input@) == Some(dv),
                0 <= i <= dv.len(),
                spec_extract_from(dv, i as int, index_map::table_entries(m)) == spec_extract(dv),
                table_keys_unique(index_map::table_entries(m)),
            decreases dv.len() - i,
        {
            let d = &decls[i];
            proof {
                assert(dv[i as int] == (d.name@, d.body@));
            }
            let c = match CompositeType::parse(d.name.as_str(), &d.body) {
                Ok(c) => c,
                Err(e) => {
                    return Err(e);
                },
            };
            if index_map::table_contains_key(&m, d.name.as_str()) {
                return Err(CrossCompilerParseError::NonUniqueCompositeTypeName {
                    name: d.name.clone(),
                });
            }
            let ghost prev = index_map::table_entries(m);
            index_map::table_insert_new(&mut m, d.name.clone(), c);
            proof {
                assert(index_map::table_entries(m) == prev.push((dv[i as int].0, dv[i as int].1)));
                let cur = index_map::table_entries(m);
                assert(table_keys_unique(cur)) by {
                    assert(forall|a: int| 0 <= a < prev.len() ==> cur[a] == prev[a]);
                    assert forall|a: int, b: int|
                        0 <= a < b < cur.len() implies cur[a].0 != cur[b].0 by {
                        if b == prev.len() {
                            if cur[a].0 == cur[b].0 {
                                assert(ast::entries_have_key(prev, dv[i as int].0));
                            }
                        }
                    }
                }
            }
            i = i + 1;
        }
        proof {
            assert(spec_extract(dv) == Ok::<TableV, ParseErrorV>(index_map::table_entries(m)));
        }
        Ok(CrossCompiler { composite_types: m })
    }

    /// Runs extraction, then full validation: the entry point external
    /// callers should use. The result is exactly what
    /// `spec_parse_and_validate` says for the input text.
    pub fn parse_and_validate(input: &str) -> (r: Result<CrossCompiler, CrossCompilerParseError>)
        ensures
            match r {
                Ok(c) => spec_parse_and_validate(input@) == Ok::<TableV, ParseErrorV>(c@)
                    && c.wf(),
                Err(e) => spec_parse_and_validate(input@) == Err::<TableV, ParseErrorV>(e@),
            },
    {
        let parsed = match Self::parse(input) {
            Ok(c) => c,
            Err(e) => {
                return Err(e);
            },
        };
        match parsed.validate_references() {
            Ok(_) => Ok(parsed),
            Err(e) => Err(e),
        }
    }
}

} // verus!

