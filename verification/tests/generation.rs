use cross_language_prop_types::generators::java::Java;
use cross_language_prop_types::generators::Generator;
use cross_language_prop_types::CrossCompiler;

#[test]
fn java_renders_an_empty_interface_per_type() {
    let input = "type Year = alias u32; type Person = struct { birthYear: Year, name: string, };";
    let c = CrossCompiler::parse_and_validate(input).unwrap();
    let backend = Java::new(&c, ());
    assert_eq!(backend.generate_type((), "Person"), "interface Person {\n}\n");
    assert_eq!(backend.generate_type((), "Year"), "interface Year {\n}\n");
}

#[test]
fn generate_types_concatenates_generate_type_over_the_keys_in_order() {
    let input = "type Year = alias u32; type Person = struct { birthYear: Year, name: string, };";
    let c = CrossCompiler::parse_and_validate(input).unwrap();
    let backend = Java::new(&c, ());
    let mut concatenated = String::new();
    for name in c.composite_types.keys() {
        concatenated.push_str(&backend.generate_type((), name));
    }
    assert_eq!(backend.generate_types(()), concatenated);
    assert_eq!(
        backend.generate_types(()),
        "interface Year {\n}\ninterface Person {\n}\n"
    );
}

#[test]
fn generating_an_empty_table_yields_empty_text() {
    let c = CrossCompiler::parse_and_validate("").unwrap();
    let backend = Java::new(&c, ());
    assert_eq!(backend.generate_types(()), "");
}
