//! The data model of the language: composite types (aliases and structs) and
//! the raw declarations that the syntax provider hands to the extractor.

use vstd::prelude::*;

use indexmap::IndexMap;

use crate::index_map::field_entries;

verus! {

/// The mathematical model of a composite type: an alias names exactly one
/// other type; a struct is an ordered sequence of `(field name, type name)`
/// pairs.
pub enum CompositeTypeV {
    Alias { references: Seq<char> },
    Struct { fields: Seq<(Seq<char>, Seq<char>)> },
}

/// A declared composite type: an alias of one named type, or a struct with an
/// ordered, duplicate-free field map.
#[derive(Debug, Clone, PartialEq, Eq)]
pub enum CompositeType {
    Alias { references: String },
    Struct { fields: IndexMap<String, String> },
}

impl View for CompositeType {
    type V = CompositeTypeV;

    open spec fn view(&self) -> CompositeTypeV {
        match self {
            CompositeType::Alias { references } => CompositeTypeV::Alias {
                references: references@,
            },
            CompositeType::Struct { fields } => CompositeTypeV::Struct {
                fields: field_entries(*fields),
            },
        }
    }
}

/// True when some entry of an ordered key/value sequence bears the given key.
pub open spec fn entries_have_key<T>(es: Seq<(Seq<char>, T)>, key: Seq<char>) -> bool {
    exists|i: int| 0 <= i < es.len() && es[i].0 == key
}

/// The type names a composite type immediately points to: one for an alias,
/// one per field (in field order) for a struct.
pub open spec fn spec_direct_references(c: CompositeTypeV) -> Seq<Seq<char>> {
    match c {
        CompositeTypeV::Alias { references } => seq![references],
        CompositeTypeV::Struct { fields } => fields.map_values(
            (|p: (Seq<char>, Seq<char>)| p.1),
        ),
    }
}

impl CompositeType {
    /// The direct references of this composite type, in declaration order.
    pub fn direct_references(&self) -> (r: Vec<String>)
        ensures
            r.deep_view() == spec_direct_references(self@),
    {
        match self {
            CompositeType::Alias { references } => {
                let r = vec![references.clone()];
                proof {
                    assert(r.deep_view() =~= spec_direct_references(self@));
                }
                r
            },
            CompositeType::Struct { fields } => {
                let n = crate::index_map::field_len(fields);
                let mut r: Vec<String> = Vec::new();
                let mut i: usize = 0;
                while i < n
                    invariant
                        n == field_entries(*fields).len(),
                        0 <= i <= n,
                        r.deep_view() =~= field_entries(*fields).map_values(
                            (|p: (Seq<char>, Seq<char>)| p.1),
                        ).take(i as int),
                    decreases n - i,
                {
                    let p = crate::index_map::field_get_index(fields, i);
                    match p {
                        Some(p) => {
                            let ghost prev = r.deep_view();
                            r.push(p.1);
                            proof {
                                let es = field_entries(*fields);
                                let refs = es.map_values((|q: (Seq<char>, Seq<char>)| q.1));
                                assert(r.deep_view() =~= prev.push(es[i as int].1));
                                assert(refs.take(i + 1) =~= refs.take(i as int).push(
                                    refs[i as int],
                                ));
                            }
                        },
                        None => {
                            proof {
                                assert(false);
                            }
                        },
                    }
                    i = i + 1;
                }
                proof {
                    assert(r.deep_view() =~= spec_direct_references(self@));
                }
                r
            },
        }
    }
}

/// The name of the first field (in document order) whose name already
/// appeared among the fields before it, scanning from position `j`.
pub open spec fn find_dup_field_from(fields: Seq<(Seq<char>, Seq<char>)>, j: int) -> Option<
    Seq<char>,
>
    decreases fields.len() - j
        when 0 <= j <= fields.len()
{
    if j >= fields.len() {
        None
    } else if exists|k: int| 0 <= k < j && fields[k].0 == fields[j].0 {
        Some(fields[j].0)
    } else {
        find_dup_field_from(fields, j + 1)
    }
}

/// The first duplicated field name of a raw struct body, if any.
pub open spec fn find_dup_field(fields: Seq<(Seq<char>, Seq<char>)>) -> Option<Seq<char>> {
    find_dup_field_from(fields, 0)
}

/// The raw body of one declaration as the syntax provider hands it out:
/// duplicate field names are still possible here and are rejected by the
/// extractor, not by the parser.
#[derive(Debug, Clone, PartialEq, Eq)]
pub enum RawBody {
    Alias { references: String },
    Struct { fields: Vec<(String, String)> },
}

impl View for RawBody {
    type V = CompositeTypeV;

    open spec fn view(&self) -> CompositeTypeV {
        match self {
            RawBody::Alias { references } => CompositeTypeV::Alias { references: references@ },
            RawBody::Struct { fields } => CompositeTypeV::Struct { fields: fields.deep_view() },
        }
    }
}

/// The shape a raw declaration body compiles to: the body itself, or the
/// duplicate-field failure that the extractor reports for it.
pub open spec fn spec_parse_composite(name: Seq<char>, body: CompositeTypeV) -> Result<
    CompositeTypeV,
    crate::ParseErrorV,
> {
    match body {
        CompositeTypeV::Alias { references } => Ok(body),
        CompositeTypeV::Struct { fields } => match find_dup_field(fields) {
            Some(f) => Err(crate::ParseErrorV::NonUniqueStructField {
                field_name: f,
                struct_name: name,
            }),
            None => Ok(body),
        },
    }
}

impl CompositeType {
    /// Builds one composite type from a raw declaration body, rejecting a
    /// struct whose field names are not unique: the first duplicated field
    /// (in document order) is reported with the enclosing struct's name.
    pub fn parse(composite_type_name: &str, body: &RawBody) -> (r: Result<
        CompositeType,
        crate::CrossCompilerParseError,
    >)
        ensures
            match r {
                Ok(c) => spec_parse_composite(composite_type_name@, body@) == Ok::<
                    CompositeTypeV,
                    crate::ParseErrorV,
                >(c@),
                Err(e) => spec_parse_composite(composite_type_name@, body@) == Err::<
                    CompositeTypeV,
                    crate::ParseErrorV,
                >(e@),
            },
    {
        match body {
            RawBody::Alias { references } => Ok(CompositeType::Alias {
                references: references.clone(),
            }),
            RawBody::Struct { fields } => {
                let ghost fv = fields.deep_view();
                let mut m = crate::index_map::field_new();
                let mut j: usize = 0;
                while j < fields.len()
                    invariant
                        fv == fields.deep_view(),
                        body@ == (CompositeTypeV::Struct { fields: fv }),
                        0 <= j <= fv.len(),
                        field_entries(m) =~= fv.take(j as int),
                        find_dup_field(fv) == find_dup_field_from(fv, j as int),
                    decreases fv.len() - j,
                {
                    let field_name = &fields[j].0;
                    proof {
                        assert(forall|k: int|
                            0 <= k < j ==> fv.take(j as int)[k] == fv[k]);
                        assert(fv[j as int] == fields@[j as int].deep_view());
                        assert(fv[j as int].0 == field_name@);
                    }
                    if crate::index_map::field_contains_key(&m, field_name.as_str()) {
                        proof {
                            assert(entries_have_key(fv.take(j as int), fv[j as int].0));
                            let k = choose|k: int|
                                0 <= k < j && fv.take(j as int)[k].0 == fv[j as int].0;
                            assert(fv[k].0 == fv[j as int].0);
                            assert(find_dup_field_from(fv, j as int) == Some(fv[j as int].0));
                        }
                        return Err(crate::CrossCompilerParseError::NonUniqueStructField {
                            field_name: field_name.clone(),
                            struct_name: composite_type_name.to_owned(),
                        });
                    }
                    let ghost prev = field_entries(m);
                    crate::index_map::field_insert_new(
                        &mut m,
                        fields[j].0.clone(),
                        fields[j].1.clone(),
                    );
                    proof {
                        assert(field_entries(m) =~= fv.take(j + 1));
                        assert(!(exists|k: int| 0 <= k < j && fv[k].0 == fv[j as int].0)) by {
                            if exists|k: int| 0 <= k < j && fv[k].0 == fv[j as int].0 {
                                let k = choose|k: int| 0 <= k < j && fv[k].0 == fv[j as int].0;
                                assert(prev[k].0 == fv[j as int].0);
                                assert(entries_have_key(prev, fv[j as int].0));
                            }
                        }
                        assert(find_dup_field_from(fv, j as int) == find_dup_field_from(
                            fv,
                            j + 1,
                        ));
                    }
                    j = j + 1;
                }
                proof {
                    assert(fv.take(fv.len() as int) =~= fv);
                }
                Ok(CompositeType::Struct { fields: m })
            },
        }
    }
}

/// One raw top-level declaration: its declared name and its body.
#[derive(Debug, Clone, PartialEq, Eq)]
pub struct RawDecl {
    pub name: String,
    pub body: RawBody,
}

impl View for RawDecl {
    type V = (Seq<char>, CompositeTypeV);

    open spec fn view(&self) -> (Seq<char>, CompositeTypeV) {
        (self.name@, self.body@)
    }
}

impl DeepView for RawDecl {
    type V = (Seq<char>, CompositeTypeV);

    open spec fn deep_view(&self) -> (Seq<char>, CompositeTypeV) {
        self.view()
    }
}

} // verus!
