use ts2rs::ImportError;
use ts2rs::TsAttribute;
use ts2rs::TsInterface;

fn chocolate() -> TsInterface {
    TsInterface {
        name: "chocolate".to_string(),
        attributes: vec![TsAttribute {
            name: "price".to_string(),
            ts_type: "f64".to_string(),
        }],
        derives: vec!["Debug".to_string()],
        skip_serde: false,
    }
}

#[test]
fn struct_def_source_exact_text() {
    let text = ts2rs::struct_def_source(&chocolate(), false);
    assert_eq!(text, "#[derive(Debug)]\npub struct Chocolate {\n    price: f64,\n}\n");
}

#[test]
fn struct_def_source_with_serde_enabled() {
    let text = ts2rs::struct_def_source(&chocolate(), true);
    assert_eq!(
        text,
        "#[derive(Debug, serde::Serialize, serde::Deserialize)]\npub struct Chocolate {\n    price: f64,\n}\n"
    );
}

#[test]
fn struct_def_source_honors_skip_serde() {
    let mut iface = chocolate();
    iface.skip_serde = true;
    let text = ts2rs::struct_def_source(&iface, true);
    assert_eq!(text, "#[derive(Debug)]\npub struct Chocolate {\n    price: f64,\n}\n");
}

#[test]
fn derive_struct_def_yields_tokens() {
    let tokens = ts2rs::derive_struct_def(chocolate(), false).unwrap();
    let rendered = tokens.to_string();
    assert!(rendered.contains("struct Chocolate"));
    assert!(rendered.contains("price"));
}

#[test]
fn derive_struct_def_rejects_unlexable_name() {
    let mut iface = chocolate();
    iface.name = "Bad{".to_string();
    let err = ts2rs::derive_struct_def(iface, false).unwrap_err();
    assert_eq!(err, ImportError::InvalidTokens);
}

#[test]
fn parse_input_translates_whole_document() {
    let tokens = ts2rs::parse_input(
        "interface A { x: number; }\ninterface B { y: string; }",
        false,
    )
    .unwrap();
    let rendered = tokens.to_string();
    assert!(rendered.contains("struct A"));
    assert!(rendered.contains("struct B"));
}

#[test]
fn parse_input_reports_syntax_error() {
    let err = ts2rs::parse_input("interface A { x }", false).unwrap_err();
    assert!(matches!(err, ImportError::Syntax(_)));
}
