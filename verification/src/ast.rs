use vstd::prelude::*;

verus! {

/// A single named, typed member of a translated interface: the field name and
/// the already-resolved target type text (for example `Option<Vec<String>>`).
#[derive(Debug, PartialEq, Eq)]
pub struct TsAttribute {
    pub name: String,
    pub ts_type: String,
}

/// The descriptor produced for one surviving interface declaration: its
/// (possibly renamed) name, its fields in declaration order, the list of
/// derived capability names, and whether the default serialization derives
/// are suppressed for it.
#[derive(Debug, PartialEq, Eq)]
pub struct TsInterface {
    pub name: String,
    pub attributes: Vec<TsAttribute>,
    pub derives: Vec<String>,
    pub skip_serde: bool,
}

/// Mathematical model of a field descriptor.
#[verifier::ext_equal]
pub struct SpecAttribute {
    pub name: Seq<char>,
    pub ts_type: Seq<char>,
}

/// Mathematical model of an interface descriptor.
#[verifier::ext_equal]
pub struct SpecInterface {
    pub name: Seq<char>,
    pub attributes: Seq<SpecAttribute>,
    pub derives: Seq<Seq<char>>,
    pub skip_serde: bool,
}

impl View for TsAttribute {
    type V = SpecAttribute;

    open spec fn view(&self) -> SpecAttribute {
        SpecAttribute { name: self.name@, ts_type: self.ts_type@ }
    }
}

impl DeepView for TsAttribute {
    type V = SpecAttribute;

    open spec fn deep_view(&self) -> SpecAttribute {
        self.view()
    }
}

impl View for TsInterface {
    type V = SpecInterface;

    open spec fn view(&self) -> SpecInterface {
        SpecInterface {
            name: self.name@,
            attributes: self.attributes.deep_view(),
            derives: self.derives.deep_view(),
            skip_serde: self.skip_serde,
        }
    }
}

impl DeepView for TsInterface {
    type V = SpecInterface;

    open spec fn deep_view(&self) -> SpecInterface {
        self.view()
    }
}

/// What a parse failure expected or found at its position.
#[derive(Debug, Clone, Copy, PartialEq, Eq, Structural)]
pub enum ErrorKind {
    /// An interface declaration has no name, or a directive argument position
    /// holds no identifier.
    ExpectedIdentifier,
    /// A field name is not followed by `:`.
    ExpectedColon,
    /// A field declaration or an option clause is not closed by `;`.
    ExpectedSemicolon,
    /// The interface name is not followed by `{`.
    ExpectedOpenBrace,
    /// The input ends inside an interface body: unbalanced braces.
    ExpectedCloseBrace,
    /// The interface body holds something that is neither a field declaration
    /// nor `}`.
    ExpectedAttribute,
    /// A type expression does not start with a type keyword or an identifier.
    ExpectedType,
    /// An option comment block holds something that is not a directive clause.
    ExpectedDirective,
    /// A directive that needs an argument has an empty one.
    ExpectedArgument,
    /// A directive keyword is not one of `rename`, `retype`, `skip`, `derive`,
    /// `skip_derive_serde`, or its clause has the wrong shape for it.
    UnknownDirective,
    /// A known directive appears in a context where it cannot apply, such as
    /// `retype` on an interface.
    MisplacedDirective,
    /// An option comment opened with `/**` is never closed by `**/`.
    UnclosedOptionBlock,
    /// A complete type expression was parsed but input remains after it.
    TrailingInput,
}

/// A structured parse failure: the character position at which the document
/// stops conforming to the grammar, and what was expected there.
#[derive(Debug, Clone, Copy, PartialEq, Eq, Structural)]
pub struct ParseError {
    pub pos: usize,
    pub kind: ErrorKind,
}

/// Mathematical model of a parse failure.
#[verifier::ext_equal]
pub struct SpecError {
    pub pos: int,
    pub kind: ErrorKind,
}

impl View for ParseError {
    type V = SpecError;

    open spec fn view(&self) -> SpecError {
        SpecError { pos: self.pos as int, kind: self.kind }
    }
}

/// Why a whole-document translation into a token stream failed: the document
/// does not conform to the grammar, or the generated definition text does
/// not lex into tokens.
#[derive(Debug, Clone, Copy, PartialEq, Eq, Structural)]
pub enum ImportError {
    Syntax(ParseError),
    InvalidTokens,
}

/// One option directive as written in a trailing comment block.
pub enum DirectiveKind {
    Rename(Vec<char>),
    Retype(Vec<char>),
    Skip,
    Derive(Vec<char>),
    SkipDefaultDerives,
}

/// A directive together with the position of its keyword, kept so that a
/// directive rejected later (in a context where it cannot apply) is reported
/// at its own position.
pub struct ParsedDirective {
    pub pos: usize,
    pub kind: DirectiveKind,
}

/// Mathematical model of one option directive.
#[verifier::ext_equal]
pub enum SpecDirectiveKind {
    Rename(Seq<char>),
    Retype(Seq<char>),
    Skip,
    Derive(Seq<char>),
    SkipDefaultDerives,
}

#[verifier::ext_equal]
pub struct SpecDirective {
    pub pos: int,
    pub kind: SpecDirectiveKind,
}

impl View for ParsedDirective {
    type V = SpecDirective;

    open spec fn view(&self) -> SpecDirective {
        SpecDirective {
            pos: self.pos as int,
            kind: match self.kind {
                DirectiveKind::Rename(n) => SpecDirectiveKind::Rename(n@),
                DirectiveKind::Retype(t) => SpecDirectiveKind::Retype(t@),
                DirectiveKind::Skip => SpecDirectiveKind::Skip,
                DirectiveKind::Derive(d) => SpecDirectiveKind::Derive(d@),
                DirectiveKind::SkipDefaultDerives => SpecDirectiveKind::SkipDefaultDerives,
            },
        }
    }
}

impl DeepView for ParsedDirective {
    type V = SpecDirective;

    open spec fn deep_view(&self) -> SpecDirective {
        self.view()
    }
}

/// One field declaration as parsed, before its option directives are applied:
/// the name (without any trailing `?`), the resolved type text (with optional
/// wrapping already applied), and the trailing directives in source order.
pub struct RawAttribute {
    pub name: Vec<char>,
    pub ts_type: Vec<char>,
    pub options: Vec<ParsedDirective>,
}

/// One interface declaration as parsed, before its option directives are
/// applied.
pub struct RawInterface {
    pub name: Vec<char>,
    pub attributes: Vec<RawAttribute>,
    pub options: Vec<ParsedDirective>,
}

/// Mathematical model of a parsed field declaration.
#[verifier::ext_equal]
pub struct SpecRawAttribute {
    pub name: Seq<char>,
    pub ts_type: Seq<char>,
    pub options: Seq<SpecDirective>,
}

/// Mathematical model of a parsed interface declaration.
#[verifier::ext_equal]
pub struct SpecRawInterface {
    pub name: Seq<char>,
    pub attributes: Seq<SpecRawAttribute>,
    pub options: Seq<SpecDirective>,
}

impl View for RawAttribute {
    type V = SpecRawAttribute;

    open spec fn view(&self) -> SpecRawAttribute {
        SpecRawAttribute {
            name: self.name@,
            ts_type: self.ts_type@,
            options: self.options.deep_view(),
        }
    }
}

impl DeepView for RawAttribute {
    type V = SpecRawAttribute;

    open spec fn deep_view(&self) -> SpecRawAttribute {
        self.view()
    }
}

impl View for RawInterface {
    type V = SpecRawInterface;

    open spec fn view(&self) -> SpecRawInterface {
        SpecRawInterface {
            name: self.name@,
            attributes: self.attributes.deep_view(),
            options: self.options.deep_view(),
        }
    }
}

impl DeepView for RawInterface {
    type V = SpecRawInterface;

    open spec fn deep_view(&self) -> SpecRawInterface {
        self.view()
    }
}

} // verus!
