use ts2rs::TsAttribute;
use ts2rs::TsInterface;

const INTERFACE_TEST_STRING: &str = r#"
        interface Person {
            name: string;
            age: number;
            target: boolean;
            weight: number?; //-skip;
            friends?: string[];
        } //-derive: PartialEq;
    "#;

#[test]
fn parse_interface() {
    let ts_interface = ts2rs::parse_interface(INTERFACE_TEST_STRING);
    assert!(ts_interface.is_ok());
    let interface = TsInterface {
        name: "Person".to_string(),
        attributes: vec![
            TsAttribute {
                name: "name".to_string(),
                ts_type: "String".to_string(),
            },
            TsAttribute {
                name: "age".to_string(),
                ts_type: "f64".to_string(),
            },
            TsAttribute {
                name: "target".to_string(),
                ts_type: "bool".to_string(),
            },
            TsAttribute {
                name: "friends".to_string(),
                ts_type: "Option<Vec<String>>".to_string(),
            },
        ],
        derives: vec!["Debug".to_string(), "PartialEq".to_string()],
        skip_serde: false,
    };
    assert_eq!(ts_interface.unwrap()[0], interface);
}

#[test]
fn person_example_descriptor() {
    let input = "interface Person {\n  name: string;\n  age: number;\n  friends?: string[];\n}\n";
    let out = ts2rs::parse_interface(input).unwrap();
    assert_eq!(out.len(), 1);
    let person = &out[0];
    assert_eq!(person.name, "Person");
    assert_eq!(person.attributes.len(), 3);
    assert_eq!(person.attributes[0].name, "name");
    assert_eq!(person.attributes[0].ts_type, "String");
    assert_eq!(person.attributes[1].name, "age");
    assert_eq!(person.attributes[1].ts_type, "f64");
    assert_eq!(person.attributes[2].name, "friends");
    assert_eq!(person.attributes[2].ts_type, "Option<Vec<String>>");
    assert_eq!(person.derives, vec!["Debug".to_string()]);
    assert!(!person.skip_serde);
}

#[test]
fn optional_marker_wraps_type_and_strips_name() {
    let out = ts2rs::parse_interface("interface T { x?: number; }").unwrap();
    assert_eq!(out[0].attributes[0].name, "x");
    assert_eq!(out[0].attributes[0].ts_type, "Option<f64>");
}

#[test]
fn skip_attribute_is_absent() {
    let out =
        ts2rs::parse_interface("interface T { a: number; b: string; /** skip; **/ c: boolean; }")
            .unwrap();
    let names: Vec<&str> = out[0].attributes.iter().map(|a| a.name.as_str()).collect();
    assert_eq!(names, vec!["a", "c"]);
}

#[test]
fn skip_interface_leaves_others_in_order() {
    let input = "interface A { x: number; }\n\
                 interface B { y: number; } /** skip; **/\n\
                 interface C { z: number; }";
    let out = ts2rs::parse_interface(input).unwrap();
    assert_eq!(out.len(), 2);
    assert_eq!(out[0].name, "A");
    assert_eq!(out[1].name, "C");
}

#[test]
fn rename_interface_and_repeat_is_pure() {
    let input = "interface X { x: number; } /** rename: Y; **/";
    let first = ts2rs::parse_interface(input).unwrap();
    assert_eq!(first[0].name, "Y");
    let second = ts2rs::parse_interface(input).unwrap();
    assert_eq!(first, second);
}

#[test]
fn derive_accumulation_in_order() {
    let out =
        ts2rs::parse_interface("interface U { id: number; } /** derive: PartialEq; derive: Eq; **/")
            .unwrap();
    assert_eq!(
        out[0].derives,
        vec!["Debug".to_string(), "PartialEq".to_string(), "Eq".to_string()]
    );
}

#[test]
fn retype_and_rename_attribute() {
    let out = ts2rs::parse_interface(
        "interface S { price: number; /** retype: i32; rename: cost; **/ }",
    )
    .unwrap();
    assert_eq!(out[0].attributes[0].name, "cost");
    assert_eq!(out[0].attributes[0].ts_type, "i32");
}

#[test]
fn noise_between_interfaces_is_ignored() {
    let input = "interface A { x: number; }\n\
                 class Helper { private count = 0; }\n\
                 const limit = 10;\n\
                 interface B { y: string; }";
    let out = ts2rs::parse_interface(input).unwrap();
    assert_eq!(out.len(), 2);
    assert_eq!(out[0].name, "A");
    assert_eq!(out[1].name, "B");
}

#[test]
fn comments_inside_body_are_whitespace() {
    let input = "interface A {\n  // plain comment\n  x: number;\n  /* block */\n  y: string;\n}";
    let out = ts2rs::parse_interface(input).unwrap();
    assert_eq!(out[0].attributes.len(), 2);
}

#[test]
fn directives_accumulate_across_blocks() {
    let out = ts2rs::parse_interface(
        "interface S { price: number; /** rename: cost; **/ /** retype: i32; **/ }",
    )
    .unwrap();
    assert_eq!(out[0].attributes[0].name, "cost");
    assert_eq!(out[0].attributes[0].ts_type, "i32");
}

#[test]
fn skip_derive_serde_flag() {
    let out =
        ts2rs::parse_interface("interface U { id: number; } /** skip_derive_serde; **/").unwrap();
    assert!(out[0].skip_serde);
    assert_eq!(out[0].derives, vec!["Debug".to_string()]);
}

#[test]
fn nested_arrays_and_named_references() {
    let out = ts2rs::parse_interface(
        "interface F { grid: number[][]; child: file; friends: person[]; }",
    )
    .unwrap();
    assert_eq!(out[0].attributes[0].ts_type, "Vec<Vec<f64>>");
    assert_eq!(out[0].attributes[1].ts_type, "File");
    assert_eq!(out[0].attributes[2].ts_type, "Vec<Person>");
}

#[test]
fn empty_document_and_pure_noise() {
    assert_eq!(ts2rs::parse_interface("").unwrap().len(), 0);
    assert_eq!(
        ts2rs::parse_interface("let a = 1; class B { } // nothing here")
            .unwrap()
            .len(),
        0
    );
}

#[test]
fn parse_type_resolves_expressions() {
    assert_eq!(ts2rs::parse_type("string").unwrap(), "String");
    assert_eq!(ts2rs::parse_type("number").unwrap(), "f64");
    assert_eq!(ts2rs::parse_type("boolean").unwrap(), "bool");
    assert_eq!(ts2rs::parse_type("string[]").unwrap(), "Vec<String>");
    assert_eq!(ts2rs::parse_type("number?").unwrap(), "Option<f64>");
    assert_eq!(ts2rs::parse_type("boolean[][]").unwrap(), "Vec<Vec<bool>>");
    assert_eq!(ts2rs::parse_type("file[]?").unwrap(), "Option<Vec<File>>");
    assert_eq!(ts2rs::parse_type(" person ").unwrap(), "Person");
}

#[test]
fn capitalize_first_letter_only() {
    assert_eq!(ts2rs::capitalize("hello"), "Hello");
    assert_eq!(ts2rs::capitalize("Hello"), "Hello");
    assert_eq!(ts2rs::capitalize(""), "");
    assert_eq!(ts2rs::capitalize("1abc"), "1abc");
    assert_eq!(ts2rs::capitalize("_x"), "_x");
}

#[test]
fn capitalize_handles_unicode_first_letter() {
    assert_eq!(ts2rs::capitalize("\u{e9}clair"), "\u{c9}clair");
    assert_eq!(ts2rs::capitalize("\u{df}eta"), "SSeta");
    assert_eq!(ts2rs::capitalize("\u{3c9}mega"), "\u{3a9}mega");
}

#[test]
fn tokenizer_yields_raw_tree() {
    let raws = ts2rs::TsInterfaceParser::parse("interface A { x: number; /** skip; **/ }").unwrap();
    assert_eq!(raws.len(), 1);
    let name: String = raws[0].name.iter().collect();
    assert_eq!(name, "A");
    assert_eq!(raws[0].attributes.len(), 1);
    assert_eq!(raws[0].attributes[0].options.len(), 1);
}

#[test]
fn rename_field_and_interface_together() {
    let input = "interface Fries {\n  favorite: boolean; /** rename: favourite; **/\n  price: number;\n} /** rename: Chips; **/";
    let out = ts2rs::parse_interface(input).unwrap();
    assert_eq!(out[0].name, "Chips");
    assert_eq!(out[0].attributes[0].name, "favourite");
    assert_eq!(out[0].attributes[0].ts_type, "bool");
    assert_eq!(out[0].attributes[1].name, "price");
}

#[test]
fn ordinary_comment_after_option_block() {
    let input = "interface User {\n  id: number;\n  theme: string; /** skip; **/ // backend does not use this\n}";
    let out = ts2rs::parse_interface(input).unwrap();
    assert_eq!(out[0].attributes.len(), 1);
    assert_eq!(out[0].attributes[0].name, "id");
}

#[test]
fn empty_interface_body() {
    let out = ts2rs::parse_interface("interface Empty { }").unwrap();
    assert_eq!(out[0].name, "Empty");
    assert_eq!(out[0].attributes.len(), 0);
}

#[test]
fn crlf_line_endings() {
    let input = "interface A {\r\n  x: number; //-rename: y;\r\n}\r\n";
    let out = ts2rs::parse_interface(input).unwrap();
    assert_eq!(out[0].attributes[0].name, "y");
}
