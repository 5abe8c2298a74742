use indexmap::IndexMap;

use cross_language_prop_types::ast::CompositeType;
use cross_language_prop_types::{type_name_is_primitive, CrossCompiler, CrossCompilerParseError};

#[test]
fn it_errors_with_bad_syntax() {
    let input = "struct Person { birthYear: u32, name: string, };";
    let c = CrossCompiler::parse_and_validate(input);
    assert!(matches!(c, Err(CrossCompilerParseError::PestParse(_))));
}

#[test]
fn it_errors_with_duplicated_field() {
    let input = "type Person = struct  { birthYear: u32, birthYear: string, };";
    let c = CrossCompiler::parse_and_validate(input);
    assert_eq!(
        c,
        Err(CrossCompilerParseError::NonUniqueStructField {
            field_name: "birthYear".to_string(),
            struct_name: "Person".to_string()
        })
    );
}

#[test]
fn it_errors_with_duplicated_composite_type_name() {
    let input = "type Person = struct { birthYear: u32, } ; type Person =  alias u32;";
    let c = CrossCompiler::parse_and_validate(input);
    assert_eq!(
        c,
        Err(CrossCompilerParseError::NonUniqueCompositeTypeName {
            name: "Person".to_string()
        })
    );
}

#[test]
fn it_errors_with_undefined_reference() {
    let input = "type Person = struct { birthYear: Year, } ;";
    let c = CrossCompiler::parse_and_validate(input);
    assert_eq!(
        c,
        Err(CrossCompilerParseError::ReferenceNotDefined {
            composite_type_name: "Person".to_string(),
            reference_name: "Year".to_string()
        })
    );
}

#[test]
fn it_errors_with_references_with_no_indirect_primitives() {
    let input = "type Person = struct { birthYear: Year, } ; type Year = alias Year;";
    let c = CrossCompiler::parse_and_validate(input);
    assert_eq!(
        c,
        Err(CrossCompilerParseError::TypesHaveNoBase {
            type_names: vec!["Person".to_string(), "Year".to_string()]
        })
    );
}

#[test]
fn it_parses_structs_and_aliases() {
    let input = "type Year = alias u32; type Person = struct { birthYear: Year, name: string, };";
    let c = CrossCompiler::parse_and_validate(input);
    assert_eq!(
        c,
        Ok(CrossCompiler {
            composite_types: [
                (
                    "Year".to_string(),
                    CompositeType::Alias {
                        references: "u32".to_string()
                    }
                ),
                (
                    "Person".to_string(),
                    CompositeType::Struct {
                        fields: [
                            ("birthYear".to_string(), "Year".to_string()),
                            ("name".to_string(), "string".to_string())
                        ]
                        .into_iter()
                        .collect()
                    }
                )
            ]
            .into_iter()
            .collect()
        })
    )
}

#[test]
fn valid_input_has_one_entry_per_declaration_in_order() {
    let input = "type Year = alias u32; type Name = alias string; type Person = struct { birthYear: Year, name: Name, };";
    let c = CrossCompiler::parse_and_validate(input).unwrap();
    assert_eq!(c.composite_types.len(), 3);
    let keys: Vec<&String> = c.composite_types.keys().collect();
    assert_eq!(keys, vec!["Year", "Name", "Person"]);
}

#[test]
fn empty_input_compiles_to_an_empty_table() {
    let c = CrossCompiler::parse_and_validate("").unwrap();
    assert_eq!(c.composite_types.len(), 0);
}

#[test]
fn direct_self_reference_alone_is_rejected() {
    let input = "type Node = struct { next: Node, };";
    let c = CrossCompiler::parse_and_validate(input);
    assert_eq!(
        c,
        Err(CrossCompilerParseError::TypesHaveNoBase {
            type_names: vec!["Node".to_string()]
        })
    );
}

#[test]
fn recursion_with_a_primitive_branch_is_accepted() {
    let input = "type Node = struct { value: u32, next: Node, };";
    let c = CrossCompiler::parse_and_validate(input);
    assert!(c.is_ok());
}

#[test]
fn grounding_through_another_composite_is_accepted() {
    let input = "type Year = alias u32; type Person = struct { birthYear: Year, name: string, };";
    let c = CrossCompiler::parse_and_validate(input).unwrap();
    assert!(c.composite_types.contains_key("Year"));
    assert!(c.composite_types.contains_key("Person"));
}

#[test]
fn reparsing_the_same_text_yields_equal_tables() {
    let input = "type Year = alias u32; type Person = struct { birthYear: Year, name: string, };";
    let first = CrossCompiler::parse_and_validate(input);
    let second = CrossCompiler::parse_and_validate(input);
    assert_eq!(first, second);
}

#[test]
fn duplicate_field_wins_over_duplicate_name_within_one_declaration() {
    let input = "type A = alias u32; type A = struct { x: u32, x: u32, };";
    let c = CrossCompiler::parse_and_validate(input);
    assert_eq!(
        c,
        Err(CrossCompilerParseError::NonUniqueStructField {
            field_name: "x".to_string(),
            struct_name: "A".to_string()
        })
    );
}

#[test]
fn syntax_errors_take_priority_over_later_checks() {
    let input = "type A = alias u32; type A = alias u32; %%%";
    let c = CrossCompiler::parse_and_validate(input);
    assert!(matches!(c, Err(CrossCompilerParseError::PestParse(_))));
}

#[test]
fn primitive_names_start_with_a_lowercase_letter() {
    assert!(type_name_is_primitive("u32"));
    assert!(type_name_is_primitive("string"));
    assert!(!type_name_is_primitive("Year"));
    assert!(!type_name_is_primitive(""));
    assert!(!type_name_is_primitive("_hidden"));
    assert!(type_name_is_primitive("\u{e9}type"));
    assert!(!type_name_is_primitive("\u{c9}type"));
}
