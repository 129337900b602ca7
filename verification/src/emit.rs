//! The descriptor-to-definition mapper: renders an interface descriptor as
//! the text of a native struct definition, and hands that text to the token
//! lexer of the hosting macro machinery. The text is built and pinned down
//! by verified code; only the final lexing call is trusted.
use crate::ast::ImportError;
use crate::ast::SpecAttribute;
use crate::ast::SpecInterface;
use crate::ast::TsInterface;
use crate::chars::chars_of;
use crate::chars::string_from_chars;
use crate::grammar::capitalize_seq;
use crate::interface::parse_interface;
use crate::parser::capitalize_chars;
use crate::semantics::parse_spec;
use vstd::prelude::*;

verus! {

/// The serialization capability appended when the hosting configuration
/// enables it.
pub open spec fn serde_serialize() -> Seq<char> {
    seq!['s', 'e', 'r', 'd', 'e', ':', ':', 'S', 'e', 'r', 'i', 'a', 'l', 'i', 'z', 'e']
}

/// The deserialization capability appended when the hosting configuration
/// enables it.
pub open spec fn serde_deserialize() -> Seq<char> {
    seq!['s', 'e', 'r', 'd', 'e', ':', ':', 'D', 'e', 's', 'e', 'r', 'i', 'a', 'l', 'i', 'z', 'e']
}

/// The derive list actually emitted for a descriptor: its own list, plus the
/// two serialization capabilities when the hosting configuration enables
/// serialization and the descriptor does not suppress it.
pub open spec fn effective_derives(i: SpecInterface, serde: bool) -> Seq<Seq<char>> {
    if serde && !i.skip_serde {
        i.derives + seq![serde_serialize(), serde_deserialize()]
    } else {
        i.derives
    }
}

/// Derive names joined with a comma and a space.
pub open spec fn join_derives(ds: Seq<Seq<char>>) -> Seq<char>
    decreases ds.len(),
{
    if ds.len() == 0 {
        Seq::empty()
    } else if ds.len() == 1 {
        ds[0]
    } else {
        ds[0] + seq![',', ' '] + join_derives(ds.drop_first())
    }
}

/// One emitted field line: four spaces, the name, a colon, the type, a
/// trailing comma and line break.
pub open spec fn field_text(a: SpecAttribute) -> Seq<char> {
    seq![' ', ' ', ' ', ' '] + a.name + seq![':', ' '] + a.ts_type + seq![',', '\n']
}

/// The emitted field lines of a descriptor, in order.
pub open spec fn fields_text(attrs: Seq<SpecAttribute>) -> Seq<char>
    decreases attrs.len(),
{
    if attrs.len() == 0 {
        Seq::empty()
    } else {
        field_text(attrs[0]) + fields_text(attrs.drop_first())
    }
}

/// The text before the derive list.
pub open spec fn derive_open() -> Seq<char> {
    seq!['#', '[', 'd', 'e', 'r', 'i', 'v', 'e', '(']
}

/// The text between the derive list and the struct name.
pub open spec fn derive_close() -> Seq<char> {
    seq![')', ']', '\n', 'p', 'u', 'b', ' ', 's', 't', 'r', 'u', 'c', 't', ' ']
}

/// The text between the struct name and its fields.
pub open spec fn body_open() -> Seq<char> {
    seq![' ', '{', '\n']
}

/// The text after the fields.
pub open spec fn body_close() -> Seq<char> {
    seq!['}', '\n']
}

/// The complete definition text emitted for one descriptor: a derive
/// attribute, then a public struct named by the capitalized descriptor name,
/// holding the descriptor's fields in order.
pub open spec fn struct_def_text(i: SpecInterface, serde: bool) -> Seq<char> {
    derive_open() + join_derives(effective_derives(i, serde)) + derive_close() + capitalize_seq(
        i.name,
    ) + body_open() + fields_text(i.attributes) + body_close()
}

/// The definition text of a whole descriptor list, in order.
pub open spec fn document_text(v: Seq<SpecInterface>, serde: bool) -> Seq<char>
    decreases v.len(),
{
    if v.len() == 0 {
        Seq::empty()
    } else {
        struct_def_text(v[0], serde) + document_text(v.drop_first(), serde)
    }
}

/// Appending one derive name extends the joined text by a separator and the
/// name — with no separator when it is the first.
pub proof fn lemma_join_push(ds: Seq<Seq<char>>, x: Seq<char>)
    ensures
        join_derives(ds.push(x)) == if ds.len() == 0 {
            x
        } else {
            join_derives(ds) + seq![',', ' '] + x
        },
    decreases ds.len(),
{
    if ds.len() == 0 {
        assert(ds.push(x)[0] == x);
        assert(join_derives(ds.push(x)) == x);
    } else {
        assert(ds.push(x).drop_first() =~= ds.drop_first().push(x));
        lemma_join_push(ds.drop_first(), x);
        if ds.len() == 1 {
            assert(join_derives(ds) == ds[0]);
        }
    }
}

/// Appending one field extends the emitted field lines by that field's line.
pub proof fn lemma_fields_push(attrs: Seq<SpecAttribute>, a: SpecAttribute)
    ensures
        fields_text(attrs.push(a)) == fields_text(attrs) + field_text(a),
    decreases attrs.len(),
{
    if attrs.len() == 0 {
        assert(attrs.push(a)[0] == a);
        assert(attrs.push(a).drop_first() =~= Seq::<SpecAttribute>::empty());
        assert(field_text(a) + fields_text(Seq::<SpecAttribute>::empty()) =~= field_text(a));
        assert(fields_text(attrs) + field_text(a) =~= field_text(a));
    } else {
        assert(attrs.push(a).drop_first() =~= attrs.drop_first().push(a));
        lemma_fields_push(attrs.drop_first(), a);
        assert((field_text(attrs[0]) + fields_text(attrs.drop_first())) + field_text(a)
            =~= field_text(attrs[0]) + (fields_text(attrs.drop_first()) + field_text(a)));
    }
}

/// The exact text of the struct definition emitted for one descriptor.
pub fn struct_def_source(interface: &TsInterface, serde: bool) -> (r: String)
    ensures
        r@ == struct_def_text(interface@, serde),
{
    let mut names: Vec<Vec<char>> = Vec::new();
    let mut k: usize = 0;
    while k < interface.derives.len()
        invariant
            k <= interface.derives.len(),
            names.deep_view() =~~= interface@.derives.take(k as int),
        decreases interface.derives.len() - k,
    {
        let ghost pre = names.deep_view();
        names.push(chars_of(interface.derives[k].as_str()));
        proof {
            assert(names.deep_view() =~~= pre.push(interface@.derives[k as int]));
            assert(interface@.derives.take((k + 1) as int) =~= interface@.derives.take(
                k as int,
            ).push(interface@.derives[k as int]));
        }
        k = k + 1;
    }
    proof {
        assert(interface@.derives.take(interface.derives.len() as int) =~= interface@.derives);
    }
    if serde && !interface.skip_serde {
        let ghost pre = names.deep_view();
        let ser = vec!['s', 'e', 'r', 'd', 'e', ':', ':', 'S', 'e', 'r', 'i', 'a', 'l', 'i', 'z', 'e'];
        let de = vec!['s', 'e', 'r', 'd', 'e', ':', ':', 'D', 'e', 's', 'e', 'r', 'i', 'a', 'l', 'i', 'z', 'e'];
        proof {
            assert(ser@ =~= serde_serialize());
            assert(de@ =~= serde_deserialize());
        }
        names.push(ser);
        names.push(de);
        proof {
            assert(names.deep_view() =~~= pre.push(serde_serialize()).push(serde_deserialize()));
            assert(pre.push(serde_serialize()).push(serde_deserialize()) =~= pre + seq![
                serde_serialize(),
                serde_deserialize(),
            ]);
        }
    }
    proof {
        assert(names.deep_view() =~~= effective_derives(interface@, serde));
    }
    let mut out: Vec<char> = vec!['#', '[', 'd', 'e', 'r', 'i', 'v', 'e', '('];
    proof {
        assert(out@ =~= derive_open());
    }
    let ghost all_names = names.deep_view();
    let ghost mut done: Seq<Seq<char>> = Seq::empty();
    let mut names = names;
    let mut first: bool = true;
    while names.len() > 0
        invariant
            out@ == derive_open() + join_derives(done),
            first <==> done.len() == 0,
            done + names.deep_view() =~~= all_names,
        decreases names.len(),
    {
        let ghost prenames = names.deep_view();
        let mut piece = names.remove(0);
        let ghost p0 = piece@;
        proof {
            assert(prenames[0] == p0);
            assert(prenames.drop_first() =~~= names.deep_view());
        }
        if first {
            let ghost preout = out@;
            out.append(&mut piece);
            proof {
                lemma_join_push(done, p0);
                assert(done.push(p0) =~= seq![p0]);
                assert(out@ =~= derive_open() + join_derives(done.push(p0)));
                done = done.push(p0);
                assert(done + names.deep_view() =~~= all_names);
            }
            first = false;
        } else {
            out.push(',');
            out.push(' ');
            let ghost preout = out@;
            out.append(&mut piece);
            proof {
                lemma_join_push(done, p0);
                assert(out@ =~= derive_open() + (join_derives(done) + seq![',', ' '] + p0));
                done = done.push(p0);
                assert(out@ =~= derive_open() + join_derives(done));
                assert(done + names.deep_view() =~~= all_names);
            }
        }
    }
    proof {
        assert(names.deep_view().len() == 0);
        assert(done =~~= all_names);
        assert(join_derives(done) == join_derives(effective_derives(interface@, serde)));
    }
    let mut close = vec![')', ']', '\n', 'p', 'u', 'b', ' ', 's', 't', 'r', 'u', 'c', 't', ' '];
    proof {
        assert(close@ =~= derive_close());
    }
    out.append(&mut close);
    let mut cap = capitalize_chars(chars_of(interface.name.as_str()));
    out.append(&mut cap);
    let mut open_body = vec![' ', '{', '\n'];
    proof {
        assert(open_body@ =~= body_open());
    }
    out.append(&mut open_body);
    let ghost prefix = out@;
    let mut k: usize = 0;
    while k < interface.attributes.len()
        invariant
            k <= interface.attributes.len(),
            out@ == prefix + fields_text(interface@.attributes.take(k as int)),
            prefix == derive_open() + join_derives(effective_derives(interface@, serde))
                + derive_close() + capitalize_seq(interface@.name) + body_open(),
        decreases interface.attributes.len() - k,
    {
        let a = &interface.attributes[k];
        let mut indent = vec![' ', ' ', ' ', ' '];
        out.append(&mut indent);
        let mut nm = chars_of(a.name.as_str());
        out.append(&mut nm);
        out.push(':');
        out.push(' ');
        let mut ty = chars_of(a.ts_type.as_str());
        out.append(&mut ty);
        out.push(',');
        out.push('\n');
        proof {
            let attrs = interface@.attributes;
            lemma_fields_push(attrs.take(k as int), attrs[k as int]);
            assert(attrs.take((k + 1) as int) =~= attrs.take(k as int).push(attrs[k as int]));
            assert(out@ =~= prefix + (fields_text(attrs.take(k as int)) + field_text(
                attrs[k as int],
            )));
        }
        k = k + 1;
    }
    proof {
        assert(interface@.attributes.take(interface.attributes.len() as int)
            =~= interface@.attributes);
    }
    out.push('}');
    out.push('\n');
    proof {
        assert(out@ =~= struct_def_text(interface@, serde));
    }
    string_from_chars(&out)
}

/// proc-macro2's token stream, held opaquely: the mapper's output value.
#[verifier::external_type_specification]
#[verifier::external_body]
pub struct ExTokenStream(proc_macro2::TokenStream);

/// proc-macro2's lexing failure, held opaquely.
#[verifier::external_type_specification]
#[verifier::external_body]
pub struct ExLexError(proc_macro2::LexError);

/// The token stream that a given text lexes to, when it lexes. With the
/// fallback lexer (this crate builds proc-macro2 without its `proc-macro`
/// feature) the tokens are a function of the text alone.
pub uninterp spec fn tokens_of(s: Seq<char>) -> proc_macro2::TokenStream;

/// Whether a given text lexes into tokens at all; under the fallback lexer
/// this too is a function of the text alone.
pub uninterp spec fn lex_ok(s: Seq<char>) -> bool;

/// Relies on `proc_macro2::TokenStream`'s `FromStr`: breaking a string into
/// tokens, a pure function of the string under the fallback lexer, failing
/// exactly on text that is not lexically valid.
#[verifier::external_body]
fn lex_tokens(s: &str) -> (r: Result<proc_macro2::TokenStream, proc_macro2::LexError>)
    ensures
        r is Ok <==> lex_ok(s@),
        r matches Ok(t) ==> t == tokens_of(s@),
{
    s.parse()
}

/// Turns one descriptor into the token stream of its struct definition; it
/// succeeds exactly when the definition text lexes — which a descriptor
/// built by the parser provides for, but one assembled by hand may not.
pub fn derive_struct_def(interface: TsInterface, serde: bool) -> (r: Result<
    proc_macro2::TokenStream,
    ImportError,
>)
    ensures
        r is Ok <==> lex_ok(struct_def_text(interface@, serde)),
        r matches Ok(t) ==> t == tokens_of(struct_def_text(interface@, serde)),
        r matches Err(e) ==> e is InvalidTokens,
{
    let source = struct_def_source(&interface, serde);
    match lex_tokens(source.as_str()) {
        Ok(t) => Ok(t),
        Err(_) => Err(ImportError::InvalidTokens),
    }
}

/// Translates a whole document into the token stream of every emitted struct
/// definition, in order: the core of the import machinery, from source text
/// to tokens.
pub fn parse_input(input: &str, serde: bool) -> (r: Result<proc_macro2::TokenStream, ImportError>)
    ensures
        match parse_spec(input@) {
            Ok(m) => (r is Ok <==> lex_ok(document_text(m, serde))) && (r matches Ok(t) ==> t
                == tokens_of(document_text(m, serde))) && (r matches Err(e) ==> e
                is InvalidTokens),
            Err(pe) => r matches Err(e) && e matches ImportError::Syntax(x) && x@ == pe,
        },
{
    match parse_interface(input) {
        Ok(ifaces) => {
            let ghost m = ifaces.deep_view();
            let mut rest = ifaces;
            let mut out: Vec<char> = Vec::new();
            while rest.len() > 0
                invariant
                    document_text(m, serde) == out@ + document_text(rest.deep_view(), serde),
                decreases rest.len(),
            {
                let ghost prerest = rest.deep_view();
                let one = rest.remove(0);
                proof {
                    assert(prerest[0] == one@);
                    assert(prerest.drop_first() =~~= rest.deep_view());
                }
                let piece = struct_def_source(&one, serde);
                let mut pc = chars_of(piece.as_str());
                let ghost preout = out@;
                out.append(&mut pc);
                proof {
                    assert((preout + struct_def_text(one@, serde)) + document_text(
                        rest.deep_view(),
                        serde,
                    ) =~= preout + (struct_def_text(one@, serde) + document_text(
                        rest.deep_view(),
                        serde,
                    )));
                }
            }
            proof {
                assert(rest.deep_view().len() == 0);
                assert(out@ + document_text(rest.deep_view(), serde) =~= out@);
            }
            let source = string_from_chars(&out);
            match lex_tokens(source.as_str()) {
                Ok(t) => Ok(t),
                Err(_) => Err(ImportError::InvalidTokens),
            }
        },
        Err(e) => Err(ImportError::Syntax(e)),
    }
}

} // verus!
