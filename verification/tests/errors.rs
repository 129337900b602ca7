use ts2rs::ErrorKind;

fn kind_of(input: &str) -> ErrorKind {
    ts2rs::parse_interface(input).unwrap_err().kind
}

#[test]
fn missing_interface_name() {
    assert_eq!(kind_of("interface { x: number; }"), ErrorKind::ExpectedIdentifier);
}

#[test]
fn missing_colon() {
    assert_eq!(kind_of("interface A { x number; }"), ErrorKind::ExpectedColon);
}

#[test]
fn missing_field_semicolon() {
    assert_eq!(kind_of("interface A { x: number }"), ErrorKind::ExpectedSemicolon);
}

#[test]
fn missing_open_brace() {
    assert_eq!(kind_of("interface A x: number;"), ErrorKind::ExpectedOpenBrace);
}

#[test]
fn unbalanced_braces() {
    assert_eq!(kind_of("interface A { x: number;"), ErrorKind::ExpectedCloseBrace);
}

#[test]
fn junk_in_body() {
    assert_eq!(kind_of("interface A { 1x: number; }"), ErrorKind::ExpectedAttribute);
}

#[test]
fn unknown_type_syntax() {
    assert_eq!(kind_of("interface A { x: []; }"), ErrorKind::ExpectedType);
}

#[test]
fn junk_in_option_block() {
    assert_eq!(kind_of("interface A { x: number; /** 1 **/ }"), ErrorKind::ExpectedDirective);
}

#[test]
fn empty_directive_argument() {
    assert_eq!(
        kind_of("interface A { x: number; /** rename: ; **/ }"),
        ErrorKind::ExpectedArgument
    );
}

#[test]
fn unknown_directive_word() {
    assert_eq!(kind_of("interface A { x: number; /** bogus; **/ }"), ErrorKind::UnknownDirective);
}

#[test]
fn directive_with_wrong_clause_shape() {
    assert_eq!(kind_of("interface A { x: number; /** skip: yes; **/ }"), ErrorKind::UnknownDirective);
}

#[test]
fn derive_on_attribute_is_misplaced() {
    assert_eq!(
        kind_of("interface A { x: number; /** derive: Eq; **/ }"),
        ErrorKind::MisplacedDirective
    );
}

#[test]
fn retype_on_interface_is_misplaced() {
    assert_eq!(
        kind_of("interface A { x: number; } /** retype: i32; **/"),
        ErrorKind::MisplacedDirective
    );
}

#[test]
fn skip_masks_later_misplaced_directive() {
    let out =
        ts2rs::parse_interface("interface A { x: number; /** skip; derive: Eq; **/ y: string; }")
            .unwrap();
    assert_eq!(out[0].attributes.len(), 1);
    assert_eq!(out[0].attributes[0].name, "y");
}

#[test]
fn unclosed_option_block() {
    assert_eq!(kind_of("interface A { x: number; /** skip;"), ErrorKind::UnclosedOptionBlock);
}

#[test]
fn missing_clause_semicolon() {
    assert_eq!(kind_of("interface A { x: number; /** rename: y **/ }"), ErrorKind::ExpectedSemicolon);
}

#[test]
fn error_position_is_reported() {
    let err = ts2rs::parse_interface("interface A { x number; }").unwrap_err();
    assert_eq!(err.pos, 16);
}

#[test]
fn trailing_input_after_type() {
    let err = ts2rs::parse_type("number x").unwrap_err();
    assert_eq!(err.kind, ErrorKind::TrailingInput);
    let err = ts2rs::parse_type("").unwrap_err();
    assert_eq!(err.kind, ErrorKind::ExpectedType);
}

#[test]
fn no_partial_output_on_failure() {
    let input = "interface A { x: number; }\ninterface B { y }";
    assert!(ts2rs::parse_interface(input).is_err());
}
