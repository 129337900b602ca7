//! The public face of the translator: the grammar driver, the whole-document
//! translation, the standalone type resolver, and the capitalization
//! transform used for named type references.
use crate::ast::ErrorKind;
use crate::ast::ParseError;
use crate::ast::RawInterface;
use crate::ast::TsInterface;
use crate::chars::chars_of;
use crate::chars::string_from_chars;
use crate::grammar::capitalize_seq;
use crate::grammar::parse_doc;
use crate::grammar::type_expr;
use crate::grammar::ws_end;
use crate::parser::capitalize_chars;
use crate::parser::parse_document;
use crate::parser::parse_type_expr;
use crate::parser::scan_ws;
use crate::semantics::build_interfaces;
use crate::semantics::parse_spec;
use vstd::prelude::*;

verus! {

/// The grammar driver: recognizes a declaration document as interface
/// declarations mixed with arbitrary noise, and yields the raw parse tree.
pub struct TsInterfaceParser;

impl TsInterfaceParser {
    /// Tokenizes a whole document into its raw parse tree: every interface
    /// declaration in source order with its attributes and option
    /// directives, every other construct silently stepped over.
    pub fn parse(input: &str) -> (r: Result<Vec<RawInterface>, ParseError>)
        ensures
            match parse_doc(input@) {
                Ok(raws) => r matches Ok(v) && v.deep_view() == raws,
                Err(e) => r matches Err(x) && x@ == e,
            },
    {
        let cs = chars_of(input);
        parse_document(&cs)
    }
}

/// Translates a document of interface declarations into descriptors: one per
/// non-skipped interface, in source order, with types resolved and all
/// option directives applied. A document that does not conform to the
/// grammar yields the first failure, with its position, and no output.
pub fn parse_interface(input: &str) -> (r: Result<Vec<TsInterface>, ParseError>)
    ensures
        match parse_spec(input@) {
            Ok(v) => r matches Ok(x) && x.deep_view() == v,
            Err(e) => r matches Err(x) && x@ == e,
        },
{
    match TsInterfaceParser::parse(input) {
        Ok(raws) => build_interfaces(raws),
        Err(e) => Err(e),
    }
}

/// What resolving a complete type expression yields: its rendered target
/// text, or a failure if the text is not exactly one type expression.
pub open spec fn resolve_type(s: Seq<char>) -> Result<Seq<char>, crate::ast::SpecError> {
    match type_expr(s, 0) {
        Ok((t, p)) => {
            if ws_end(s, p) >= s.len() {
                Ok(t)
            } else {
                Err(
                    crate::ast::SpecError {
                        pos: ws_end(s, p) as int,
                        kind: ErrorKind::TrailingInput,
                    },
                )
            }
        },
        Err(e) => Err(e),
    }
}

/// Resolves one complete type expression to its target representation:
/// `string` to `String`, `number` to `f64`, `boolean` to `bool`, `[]`
/// suffixes to sequence wrappers, a trailing `?` to an optional wrapper, and
/// any other identifier to its capitalized form as a named reference.
pub fn parse_type(input: &str) -> (r: Result<String, ParseError>)
    ensures
        match resolve_type(input@) {
            Ok(t) => r matches Ok(x) && x@ == t,
            Err(e) => r matches Err(x) && x@ == e,
        },
{
    let cs = chars_of(input);
    match parse_type_expr(&cs, 0) {
        Ok((t, p)) => {
            let w = scan_ws(&cs, p);
            if w >= cs.len() {
                Ok(string_from_chars(&t))
            } else {
                Err(ParseError { pos: w, kind: ErrorKind::TrailingInput })
            }
        },
        Err(e) => Err(e),
    }
}

/// A copy of a name with its first character capitalized: the transform
/// applied to identifiers used as named type references. An empty name stays
/// empty; a leading character with no cased mapping stays as it is; a leading
/// cased letter is replaced by its uppercase mapping, which beyond ASCII may
/// be more than one character.
pub fn capitalize(input: &str) -> (r: String)
    ensures
        r@ == capitalize_seq(input@),
{
    let cs = chars_of(input);
    let caps = capitalize_chars(cs);
    string_from_chars(&caps)
}

} // verus!
