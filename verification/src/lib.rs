//! Translation of TypeScript-style interface declarations into structured
//! descriptors for native data-structure generation: a tolerant grammar over
//! the source text, type-expression resolution, an option sub-language in
//! trailing comment blocks (rename, retype, skip, derive,
//! skip_derive_serde), and a mapper from descriptors to struct-definition
//! token streams.
pub mod ast;
pub mod chars;
pub mod emit;
pub mod grammar;
pub mod interface;
pub mod laws;
pub mod parser;
pub mod semantics;

pub use ast::ErrorKind;
pub use ast::ImportError;
pub use emit::derive_struct_def;
pub use emit::parse_input;
pub use emit::struct_def_source;
pub use interface::TsInterfaceParser;
pub use interface::capitalize;
pub use interface::parse_interface;
pub use interface::parse_type;
pub use ast::ParseError;
pub use ast::TsAttribute;
pub use ast::TsInterface;
