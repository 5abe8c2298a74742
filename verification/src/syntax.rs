//! The syntax provider: turns source text into the ordered sequence of raw
//! declarations that the extractor consumes.
//!
//! The surface grammar, stated over the character sequence of the input:
//!
//! ```text
//! file   := ws decl* end-of-input
//! decl   := "type" ws ident ws "=" ws body ws ";"
//! body   := "alias" ws ident | "struct" ws "{" field* ws "}"
//! field  := ws ident ws ":" ws ident ws ","
//! ident  := alpha (alpha | digit | "_")*
//! ```
//!
//! where `alpha` is an ASCII letter and `ws` is any run (possibly empty) of
//! spaces, tabs, carriage returns and newlines. The spec functions below are
//! the grammar's definition: a deterministic recursive descent over
//! `Seq<char>`. The executable parser is proved to return exactly what they
//! say.

use vstd::prelude::*;
use vstd::string::StrSliceExecFns;

use crate::ast::{CompositeTypeV, RawBody, RawDecl};

verus! {

pub open spec fn is_ws_char(c: char) -> bool {
    c == ' ' || c == '\n' || c == '\t' || c == '\r'
}

pub open spec fn is_alpha_char(c: char) -> bool {
    (97 <= c as u32 && c as u32 <= 122) || (65 <= c as u32 && c as u32 <= 90)
}

pub open spec fn is_ident_char(c: char) -> bool {
    is_alpha_char(c) || (48 <= c as u32 && c as u32 <= 57) || c == '_'
}

/// The first position at or after `i` that does not hold whitespace.
pub open spec fn spec_skip_ws(s: Seq<char>, i: int) -> int
    decreases s.len() - i
        when 0 <= i <= s.len()
{
    if i < s.len() && is_ws_char(s[i]) {
        spec_skip_ws(s, i + 1)
    } else {
        i
    }
}

/// The end of the identifier-character run that starts at `i`.
pub open spec fn spec_ident_end(s: Seq<char>, i: int) -> int
    decreases s.len() - i
        when 0 <= i <= s.len()
{
    if i < s.len() && is_ident_char(s[i]) {
        spec_ident_end(s, i + 1)
    } else {
        i
    }
}

pub proof fn lemma_skip_ws_bounds(s: Seq<char>, i: int)
    requires
        0 <= i <= s.len(),
    ensures
        i <= spec_skip_ws(s, i) <= s.len(),
    decreases s.len() - i,
{
    if i < s.len() && is_ws_char(s[i]) {
        lemma_skip_ws_bounds(s, i + 1);
    }
}

pub proof fn lemma_ident_end_bounds(s: Seq<char>, i: int)
    requires
        0 <= i <= s.len(),
    ensures
        i <= spec_ident_end(s, i) <= s.len(),
    decreases s.len() - i,
{
    if i < s.len() && is_ident_char(s[i]) {
        lemma_ident_end_bounds(s, i + 1);
    }
}

/// Parses the field list of a struct body, starting just after the opening
/// brace, through the closing brace. Yields the fields in document order
/// (duplicates included) and the position just past the brace.
pub open spec fn spec_parse_fields(s: Seq<char>, i: int) -> Option<
    (Seq<(Seq<char>, Seq<char>)>, int),
>
    decreases s.len() - i
        when 0 <= i <= s.len()
        via spec_parse_fields_decreases
{
    let i0 = spec_skip_ws(s, i);
    if i0 < s.len() && s[i0] == '}' {
        Some((Seq::empty(), i0 + 1))
    } else if i0 < s.len() && is_alpha_char(s[i0]) {
        let e0 = spec_ident_end(s, i0);
        let field_name = s.subrange(i0, e0);
        let i1 = spec_skip_ws(s, e0);
        if i1 < s.len() && s[i1] == ':' {
            let i2 = spec_skip_ws(s, i1 + 1);
            if i2 < s.len() && is_alpha_char(s[i2]) {
                let e2 = spec_ident_end(s, i2);
                let tyname = s.subrange(i2, e2);
                let i3 = spec_skip_ws(s, e2);
                if i3 < s.len() && s[i3] == ',' {
                    match spec_parse_fields(s, i3 + 1) {
                        Some((rest, j)) => Some((seq![(field_name, tyname)] + rest, j)),
                        None => None,
                    }
                } else {
                    None
                }
            } else {
                None
            }
        } else {
            None
        }
    } else {
        None
    }
}

#[via_fn]
proof fn spec_parse_fields_decreases(s: Seq<char>, i: int) {
    let i0 = spec_skip_ws(s, i);
    lemma_skip_ws_bounds(s, i);
    if i0 < s.len() && !(s[i0] == '}') && is_alpha_char(s[i0]) {
        let e0 = spec_ident_end(s, i0);
        lemma_ident_end_bounds(s, i0);
        let i1 = spec_skip_ws(s, e0);
        lemma_skip_ws_bounds(s, e0);
        if i1 < s.len() && s[i1] == ':' {
            let i2 = spec_skip_ws(s, i1 + 1);
            lemma_skip_ws_bounds(s, i1 + 1);
            if i2 < s.len() && is_alpha_char(s[i2]) {
                let e2 = spec_ident_end(s, i2);
                lemma_ident_end_bounds(s, i2);
                let i3 = spec_skip_ws(s, e2);
                lemma_skip_ws_bounds(s, e2);
            }
        }
    }
}

/// Parses one declaration starting exactly at `i` (no leading whitespace).
/// Yields the declared name, the composite shape, and the position just past
/// the terminating semicolon.
pub open spec fn spec_parse_decl(s: Seq<char>, i: int) -> Option<
    ((Seq<char>, CompositeTypeV), int),
> {
    if 0 <= i < s.len() && is_alpha_char(s[i]) {
        let e0 = spec_ident_end(s, i);
        if s.subrange(i, e0) == "type"@ {
            let i1 = spec_skip_ws(s, e0);
            if i1 < s.len() && is_alpha_char(s[i1]) {
                let e1 = spec_ident_end(s, i1);
                let name = s.subrange(i1, e1);
                let i2 = spec_skip_ws(s, e1);
                if i2 < s.len() && s[i2] == '=' {
                    let i3 = spec_skip_ws(s, i2 + 1);
                    if i3 < s.len() && is_alpha_char(s[i3]) {
                        let e3 = spec_ident_end(s, i3);
                        let keyword = s.subrange(i3, e3);
                        if keyword == "alias"@ {
                            spec_parse_alias_tail(s, name, e3)
                        } else if keyword == "struct"@ {
                            spec_parse_struct_tail(s, name, e3)
                        } else {
                            None
                        }
                    } else {
                        None
                    }
                } else {
                    None
                }
            } else {
                None
            }
        } else {
            None
        }
    } else {
        None
    }
}

/// The rest of an alias declaration, after the `alias` keyword.
pub open spec fn spec_parse_alias_tail(s: Seq<char>, name: Seq<char>, e3: int) -> Option<
    ((Seq<char>, CompositeTypeV), int),
> {
    let i4 = spec_skip_ws(s, e3);
    if i4 < s.len() && is_alpha_char(s[i4]) {
        let e4 = spec_ident_end(s, i4);
        let references = s.subrange(i4, e4);
        let i5 = spec_skip_ws(s, e4);
        if i5 < s.len() && s[i5] == ';' {
            Some(((name, CompositeTypeV::Alias { references }), i5 + 1))
        } else {
            None
        }
    } else {
        None
    }
}

/// The rest of a struct declaration, after the `struct` keyword.
pub open spec fn spec_parse_struct_tail(s: Seq<char>, name: Seq<char>, e3: int) -> Option<
    ((Seq<char>, CompositeTypeV), int),
> {
    let i4 = spec_skip_ws(s, e3);
    if i4 < s.len() && s[i4] == '{' {
        match spec_parse_fields(s, i4 + 1) {
            Some((fields, j)) => {
                let j1 = spec_skip_ws(s, j);
                if j1 < s.len() && s[j1] == ';' {
                    Some(((name, CompositeTypeV::Struct { fields }), j1 + 1))
                } else {
                    None
                }
            },
            None => None,
        }
    } else {
        None
    }
}

/// Parses the whole document from position `i`: a whitespace-separated run of
/// declarations through the end of the input.
pub open spec fn spec_parse_file_from(s: Seq<char>, i: int) -> Option<
    Seq<(Seq<char>, CompositeTypeV)>,
>
    decreases s.len() - i
        when 0 <= i <= s.len()
        via spec_parse_file_from_decreases
{
    let i0 = spec_skip_ws(s, i);
    if i0 >= s.len() {
        Some(Seq::empty())
    } else {
        match spec_parse_decl(s, i0) {
            Some((d, j)) => match spec_parse_file_from(s, j) {
                Some(rest) => Some(seq![d] + rest),
                None => None,
            },
            None => None,
        }
    }
}

#[via_fn]
proof fn spec_parse_file_from_decreases(s: Seq<char>, i: int) {
    let i0 = spec_skip_ws(s, i);
    lemma_skip_ws_bounds(s, i);
    if i0 < s.len() {
        lemma_parse_decl_progress(s, i0);
    }
}

/// The syntactic reading of a whole document: the ordered raw declarations,
/// or nothing when the text does not match the grammar.
pub open spec fn spec_parse_file(s: Seq<char>) -> Option<Seq<(Seq<char>, CompositeTypeV)>> {
    spec_parse_file_from(s, 0)
}

pub proof fn lemma_parse_fields_progress(s: Seq<char>, i: int)
    requires
        0 <= i <= s.len(),
    ensures
        match spec_parse_fields(s, i) {
            Some((fields, j)) => i < j <= s.len(),
            None => true,
        },
    decreases s.len() - i,
{
    let i0 = spec_skip_ws(s, i);
    lemma_skip_ws_bounds(s, i);
    if i0 < s.len() && !(s[i0] == '}') && is_alpha_char(s[i0]) {
        let e0 = spec_ident_end(s, i0);
        lemma_ident_end_bounds(s, i0);
        let i1 = spec_skip_ws(s, e0);
        lemma_skip_ws_bounds(s, e0);
        if i1 < s.len() && s[i1] == ':' {
            let i2 = spec_skip_ws(s, i1 + 1);
            lemma_skip_ws_bounds(s, i1 + 1);
            if i2 < s.len() && is_alpha_char(s[i2]) {
                let e2 = spec_ident_end(s, i2);
                lemma_ident_end_bounds(s, i2);
                let i3 = spec_skip_ws(s, e2);
                lemma_skip_ws_bounds(s, e2);
                if i3 < s.len() && s[i3] == ',' {
                    lemma_parse_fields_progress(s, i3 + 1);
                }
            }
        }
    }
}

pub proof fn lemma_parse_decl_progress(s: Seq<char>, i: int)
    requires
        0 <= i <= s.len(),
    ensures
        match spec_parse_decl(s, i) {
            Some((d, j)) => i < j <= s.len(),
            None => true,
        },
{
    if i < s.len() && is_alpha_char(s[i]) {
        let e0 = spec_ident_end(s, i);
        lemma_ident_end_bounds(s, i);
        let i1 = spec_skip_ws(s, e0);
        lemma_skip_ws_bounds(s, e0);
        if i1 < s.len() && is_alpha_char(s[i1]) {
            let e1 = spec_ident_end(s, i1);
            lemma_ident_end_bounds(s, i1);
            let i2 = spec_skip_ws(s, e1);
            lemma_skip_ws_bounds(s, e1);
            if i2 < s.len() && s[i2] == '=' {
                let i3 = spec_skip_ws(s, i2 + 1);
                lemma_skip_ws_bounds(s, i2 + 1);
                if i3 < s.len() && is_alpha_char(s[i3]) {
                    let e3 = spec_ident_end(s, i3);
                    lemma_ident_end_bounds(s, i3);
                    let i4 = spec_skip_ws(s, e3);
                    lemma_skip_ws_bounds(s, e3);
                    if i4 < s.len() && is_alpha_char(s[i4]) {
                        let e4 = spec_ident_end(s, i4);
                        lemma_ident_end_bounds(s, i4);
                        let i5 = spec_skip_ws(s, e4);
                        lemma_skip_ws_bounds(s, e4);
                    }
                    if i4 < s.len() && s[i4] == '{' {
                        lemma_parse_fields_progress(s, i4 + 1);
                        match spec_parse_fields(s, i4 + 1) {
                            Some((fields, j)) => {
                                lemma_skip_ws_bounds(s, j);
                            },
                            None => {},
                        }
                    }
                }
            }
        }
    }
}

/// An opaque syntax diagnostic: the character position at which the text
/// stopped matching the grammar. Nothing is promised of it.
#[derive(Debug, Clone, PartialEq, Eq)]
pub struct SyntaxDiagnostic {
    pub offset: usize,
}

/// The syntax provider. Its `parse` turns a whole document into raw
/// declarations, exactly as `spec_parse_file` reads it.
pub struct PestParser;

fn is_ws(c: char) -> (r: bool)
    ensures
        r == is_ws_char(c),
{
    c == ' ' || c == '\n' || c == '\t' || c == '\r'
}

fn is_alpha(c: char) -> (r: bool)
    ensures
        r == is_alpha_char(c),
{
    let u = c as u32;
    (97 <= u && u <= 122) || (65 <= u && u <= 90)
}

fn is_ident(c: char) -> (r: bool)
    ensures
        r == is_ident_char(c),
{
    let u = c as u32;
    is_alpha(c) || (48 <= u && u <= 57) || c == '_'
}

/// The characters of the input, for random access while scanning.
fn chars_of(s: &str) -> (r: Vec<char>)
    ensures
        r@ == s@,
{
    let n = s.unicode_len();
    let mut r: Vec<char> = Vec::new();
    let mut i: usize = 0;
    while i < n
        invariant
            n == s@.len(),
            0 <= i <= n,
            r@ =~= s@.take(i as int),
        decreases n - i,
    {
        r.push(s.get_char(i));
        proof {
            assert(r@ =~= s@.take(i + 1));
        }
        i = i + 1;
    }
    proof {
        assert(r@ =~= s@);
    }
    r
}

fn skip_ws(cs: &Vec<char>, i: usize) -> (r: usize)
    requires
        i <= cs@.len(),
    ensures
        r == spec_skip_ws(cs@, i as int),
        i <= r <= cs@.len(),
{
    let mut j = i;
    while j < cs.len() && is_ws(cs[j])
        invariant
            i <= j <= cs@.len(),
            spec_skip_ws(cs@, i as int) == spec_skip_ws(cs@, j as int),
        decreases cs@.len() - j,
    {
        j = j + 1;
    }
    j
}

fn ident_end(cs: &Vec<char>, i: usize) -> (r: usize)
    requires
        i <= cs@.len(),
    ensures
        r == spec_ident_end(cs@, i as int),
        i <= r <= cs@.len(),
{
    let mut j = i;
    while j < cs.len() && is_ident(cs[j])
        invariant
            i <= j <= cs@.len(),
            spec_ident_end(cs@, i as int) == spec_ident_end(cs@, j as int),
        decreases cs@.len() - j,
    {
        j = j + 1;
    }
    j
}

/// The text between two character positions, as an owned string.
fn substring(input: &str, lo: usize, hi: usize) -> (r: String)
    requires
        lo <= hi <= input@.len(),
    ensures
        r@ == input@.subrange(lo as int, hi as int),
{
    input.substring_char(lo, hi).to_owned()
}

fn is_kw_type(cs: &Vec<char>, lo: usize, hi: usize) -> (r: bool)
    requires
        lo <= hi <= cs@.len(),
    ensures
        r == (cs@.subrange(lo as int, hi as int) == "type"@),
{
    proof {
        reveal_strlit("type");
    }
    if hi - lo == 4 {
        let r = cs[lo] == 't' && cs[lo + 1] == 'y' && cs[lo + 2] == 'p' && cs[lo + 3] == 'e';
        proof {
            let sub = cs@.subrange(lo as int, hi as int);
            if r {
                assert(sub =~= "type"@);
            } else {
                assert(sub != "type"@) by {
                    if sub == "type"@ {
                        assert(sub[0] == cs@[lo as int]);
                        assert(sub[1] == cs@[lo as int + 1]);
                        assert(sub[2] == cs@[lo as int + 2]);
                        assert(sub[3] == cs@[lo as int + 3]);
                        assert(false);
                    }
                }
            }
        }
        r
    } else {
        proof {
            assert(cs@.subrange(lo as int, hi as int).len() == hi - lo);
        }
        false
    }
}

fn is_kw_alias(cs: &Vec<char>, lo: usize, hi: usize) -> (r: bool)
    requires
        lo <= hi <= cs@.len(),
    ensures
        r == (cs@.subrange(lo as int, hi as int) == "alias"@),
{
    proof {
        reveal_strlit("alias");
    }
    if hi - lo == 5 {
        let r = cs[lo] == 'a' && cs[lo + 1] == 'l' && cs[lo + 2] == 'i' && cs[lo + 3] == 'a'
            && cs[lo + 4] == 's';
        proof {
            let sub = cs@.subrange(lo as int, hi as int);
            if r {
                assert(sub =~= "alias"@);
            } else {
                assert(sub != "alias"@) by {
                    if sub == "alias"@ {
                        assert(sub[0] == cs@[lo as int]);
                        assert(sub[1] == cs@[lo as int + 1]);
                        assert(sub[2] == cs@[lo as int + 2]);
                        assert(sub[3] == cs@[lo as int + 3]);
                        assert(sub[4] == cs@[lo as int + 4]);
                        assert(false);
                    }
                }
            }
        }
        r
    } else {
        proof {
            assert(cs@.subrange(lo as int, hi as int).len() == hi - lo);
        }
        false
    }
}

fn is_kw_struct(cs: &Vec<char>, lo: usize, hi: usize) -> (r: bool)
    requires
        lo <= hi <= cs@.len(),
    ensures
        r == (cs@.subrange(lo as int, hi as int) == "struct"@),
{
    proof {
        reveal_strlit("struct");
    }
    if hi - lo == 6 {
        let r = cs[lo] == 's' && cs[lo + 1] == 't' && cs[lo + 2] == 'r' && cs[lo + 3] == 'u'
            && cs[lo + 4] == 'c' && cs[lo + 5] == 't';
        proof {
            let sub = cs@.subrange(lo as int, hi as int);
            if r {
                assert(sub =~= "struct"@);
            } else {
                assert(sub != "struct"@) by {
                    if sub == "struct"@ {
                        assert(sub[0] == cs@[lo as int]);
                        assert(sub[1] == cs@[lo as int + 1]);
                        assert(sub[2] == cs@[lo as int + 2]);
                        assert(sub[3] == cs@[lo as int + 3]);
                        assert(sub[4] == cs@[lo as int + 4]);
                        assert(sub[5] == cs@[lo as int + 5]);
                        assert(false);
                    }
                }
            }
        }
        r
    } else {
        proof {
            assert(cs@.subrange(lo as int, hi as int).len() == hi - lo);
        }
        false
    }
}

/// Parses the field list of a struct body, starting just after the opening
/// brace.
fn parse_fields_at(input: &str, cs: &Vec<char>, i: usize) -> (r: Result<
    (Vec<(String, String)>, usize),
    usize,
>)
    requires
        cs@ == input@,
        i <= cs@.len(),
    ensures
        match r {
            Ok((fields, j)) => spec_parse_fields(cs@, i as int) == Some(
                (fields.deep_view(), j as int),
            ) && i < j <= cs@.len(),
            Err(_) => spec_parse_fields(cs@, i as int) is None,
        },
{
    let mut fields: Vec<(String, String)> = Vec::new();
    let mut cur = i;
    loop
        invariant
            cs@ == input@,
            i <= cur <= cs@.len(),
            (match spec_parse_fields(cs@, cur as int) {
                Some((rest, j)) => spec_parse_fields(cs@, i as int) == Some(
                    (fields.deep_view() + rest, j),
                ),
                None => spec_parse_fields(cs@, i as int) is None,
            }),
        decreases cs@.len() - cur,
    {
        let j0 = skip_ws(cs, cur);
        if j0 < cs.len() && cs[j0] == '}' {
            proof {
                lemma_parse_fields_progress(cs@, i as int);
                assert(fields.deep_view() + Seq::<(Seq<char>, Seq<char>)>::empty()
                    =~= fields.deep_view());
            }
            return Ok((fields, j0 + 1));
        }
        if j0 >= cs.len() || !is_alpha(cs[j0]) {
            return Err(j0);
        }
        let e0 = ident_end(cs, j0);
        let i1 = skip_ws(cs, e0);
        if i1 >= cs.len() || cs[i1] != ':' {
            return Err(i1);
        }
        let i2 = skip_ws(cs, i1 + 1);
        if i2 >= cs.len() || !is_alpha(cs[i2]) {
            return Err(i2);
        }
        let e2 = ident_end(cs, i2);
        let i3 = skip_ws(cs, e2);
        if i3 >= cs.len() || cs[i3] != ',' {
            return Err(i3);
        }
        let field_name = substring(input, j0, e0);
        let tyname = substring(input, i2, e2);
        let ghost prev = fields.deep_view();
        fields.push((field_name, tyname));
        proof {
            assert(fields.deep_view() =~= prev.push(
                (cs@.subrange(j0 as int, e0 as int), cs@.subrange(i2 as int, e2 as int)),
            ));
            assert(forall|rest: Seq<(Seq<char>, Seq<char>)>|
                prev + (seq![
                    (cs@.subrange(j0 as int, e0 as int), cs@.subrange(i2 as int, e2 as int)),
                ] + rest) =~= #[trigger] (prev.push(
                    (cs@.subrange(j0 as int, e0 as int), cs@.subrange(i2 as int, e2 as int)),
                ) + rest));
        }
        cur = i3 + 1;
    }
}

impl PestParser {
    /// Parses a whole document into its raw declarations, in document order,
    /// exactly as the grammar reads it; a text outside the grammar yields an
    /// opaque diagnostic.
    pub fn parse(input: &str) -> (r: Result<Vec<RawDecl>, SyntaxDiagnostic>)
        ensures
            match r {
                Ok(decls) => spec_parse_file(input@) == Some(decls.deep_view()),
                Err(_) => spec_parse_file(input@) is None,
            },
    {
        let cs = chars_of(input);
        let mut decls: Vec<RawDecl> = Vec::new();
        let mut cur: usize = 0;
        loop
            invariant
                cs@ == input@,
                cur <= cs@.len(),
                (match spec_parse_file_from(cs@, cur as int) {
                    Some(rest) => spec_parse_file(cs@) == Some(decls.deep_view() + rest),
                    None => spec_parse_file(cs@) is None,
                }),
            decreases cs@.len() - cur,
        {
            let j0 = skip_ws(&cs, cur);
            if j0 >= cs.len() {
                proof {
                    assert(decls.deep_view() + Seq::<(Seq<char>, CompositeTypeV)>::empty()
                        =~= decls.deep_view());
                }
                return Ok(decls);
            }
            match Self::parse_decl_at(input, &cs, j0) {
                Ok((d, j)) => {
                    proof {
                        lemma_parse_decl_progress(cs@, j0 as int);
                        let ghost rest0 = spec_parse_file_from(cs@, cur as int);
                    }
                    let ghost prev = decls.deep_view();
                    decls.push(d);
                    proof {
                        assert(decls.deep_view() =~= prev.push(d@));
                        assert(forall|rest: Seq<(Seq<char>, CompositeTypeV)>|
                            prev + (seq![d@] + rest) =~= #[trigger] (prev.push(d@) + rest));
                    }
                    cur = j;
                },
                Err(off) => {
                    return Err(SyntaxDiagnostic { offset: off });
                },
            }
        }
    }

    /// Parses one declaration starting exactly at `i`.
    fn parse_decl_at(input: &str, cs: &Vec<char>, i: usize) -> (r: Result<(RawDecl, usize), usize>)
        requires
            cs@ == input@,
            i <= cs@.len(),
        ensures
            match r {
                Ok((d, j)) => spec_parse_decl(cs@, i as int) == Some((d@, j as int)) && i < j
                    <= cs@.len(),
                Err(_) => spec_parse_decl(cs@, i as int) is None,
            },
    {
        if i >= cs.len() || !is_alpha(cs[i]) {
            return Err(i);
        }
        let e0 = ident_end(cs, i);
        if !is_kw_type(cs, i, e0) {
            return Err(i);
        }
        let i1 = skip_ws(cs, e0);
        if i1 >= cs.len() || !is_alpha(cs[i1]) {
            return Err(i1);
        }
        let e1 = ident_end(cs, i1);
        let name = substring(input, i1, e1);
        let i2 = skip_ws(cs, e1);
        if i2 >= cs.len() || cs[i2] != '=' {
            return Err(i2);
        }
        let i3 = skip_ws(cs, i2 + 1);
        if i3 >= cs.len() || !is_alpha(cs[i3]) {
            return Err(i3);
        }
        let e3 = ident_end(cs, i3);
        if is_kw_alias(cs, i3, e3) {
            let i4 = skip_ws(cs, e3);
            if i4 >= cs.len() || !is_alpha(cs[i4]) {
                return Err(i4);
            }
            let e4 = ident_end(cs, i4);
            let references = substring(input, i4, e4);
            let i5 = skip_ws(cs, e4);
            if i5 >= cs.len() || cs[i5] != ';' {
                return Err(i5);
            }
            Ok((RawDecl { name, body: RawBody::Alias { references } }, i5 + 1))
        } else if is_kw_struct(cs, i3, e3) {
            let i4 = skip_ws(cs, e3);
            if i4 >= cs.len() || cs[i4] != '{' {
                return Err(i4);
            }
            match parse_fields_at(input, cs, i4 + 1) {
                Ok((fields, j)) => {
                    let j1 = skip_ws(cs, j);
                    if j1 >= cs.len() || cs[j1] != ';' {
                        return Err(j1);
                    }
                    Ok((RawDecl { name, body: RawBody::Struct { fields } }, j1 + 1))
                },
                Err(off) => Err(off),
            }
        } else {
            Err(i3)
        }
    }
}

} // verus!
