//! Laws of the translation: properties that relate the assembler's results
//! across inputs, stated over the same model functions that the public
//! contracts use, and proved once for all inputs.
use crate::ast::SpecAttribute;
use crate::ast::SpecDirective;
use crate::ast::SpecDirectiveKind;
use crate::ast::SpecError;
use crate::ast::SpecInterface;
use crate::ast::SpecRawAttribute;
use crate::ast::SpecRawInterface;
use crate::semantics::apply_attr_directives;
use crate::semantics::apply_iface_directives;
use crate::semantics::assemble;
use crate::semantics::assemble_attrs;
use crate::semantics::assemble_interface;
use crate::semantics::derive_debug;
use vstd::prelude::*;

verus! {

/// How many interface declarations of a raw parse tree survive assembly:
/// those whose directives do not drop them.
pub open spec fn surviving_count(raws: Seq<SpecRawInterface>) -> nat
    decreases raws.len(),
{
    if raws.len() == 0 {
        0
    } else {
        (if assemble_interface(raws[0]) matches Ok(Some(_)) {
            1nat
        } else {
            0nat
        }) + surviving_count(raws.drop_first())
    }
}

/// For every document that assembles successfully, the number of produced
/// descriptors equals the number of interface declarations that are not
/// dropped by a skip directive, in source order.
pub proof fn lemma_descriptor_count(raws: Seq<SpecRawInterface>)
    requires
        assemble(raws) is Ok,
    ensures
        assemble(raws)->Ok_0.len() == surviving_count(raws),
    decreases raws.len(),
{
    if raws.len() > 0 {
        match assemble_interface(raws[0]) {
            Ok(Some(d)) => {
                lemma_descriptor_count(raws.drop_first());
            },
            Ok(None) => {
                lemma_descriptor_count(raws.drop_first());
            },
            Err(_) => {
            },
        }
    }
}

/// The same count law at the document level: for every document that
/// translates successfully, the number of produced descriptors equals the
/// number of its interface declarations not dropped by a skip directive.
pub proof fn lemma_translation_count(s: Seq<char>)
    requires
        crate::semantics::parse_spec(s) is Ok,
    ensures
        crate::grammar::parse_doc(s) is Ok,
        crate::semantics::parse_spec(s)->Ok_0.len() == surviving_count(
            crate::grammar::parse_doc(s)->Ok_0,
        ),
{
    lemma_descriptor_count(crate::grammar::parse_doc(s)->Ok_0);
}

/// Directives that neither drop an attribute nor rename it.
pub open spec fn keeps_name(dirs: Seq<SpecDirective>) -> bool {
    forall|k: int|
        0 <= k < dirs.len() ==> !(dirs[k].kind is Skip) && !(dirs[k].kind is Rename)
}

/// An attribute whose directives neither skip nor rename it keeps its
/// declared name through assembly.
pub proof fn lemma_attr_keeps_name(name: Seq<char>, ty: Seq<char>, dirs: Seq<SpecDirective>)
    requires
        keeps_name(dirs),
        apply_attr_directives(name, ty, dirs) is Ok,
    ensures
        apply_attr_directives(name, ty, dirs)->Ok_0 matches Some(a) && a.name == name,
    decreases dirs.len(),
{
    if dirs.len() > 0 {
        match dirs[0].kind {
            SpecDirectiveKind::Retype(t) => {
                assert(keeps_name(dirs.drop_first()));
                lemma_attr_keeps_name(name, t, dirs.drop_first());
            },
            _ => {
            },
        }
    }
}

/// Field order round-trip: in an interface whose attributes carry no skip
/// and no rename directives, the descriptor's fields are exactly the
/// declared attributes — same count, same names, same order.
pub proof fn lemma_field_order(attrs: Seq<SpecRawAttribute>)
    requires
        forall|k: int| 0 <= k < attrs.len() ==> keeps_name(#[trigger] attrs[k].options),
        assemble_attrs(attrs) is Ok,
    ensures
        assemble_attrs(attrs)->Ok_0.len() == attrs.len(),
        forall|k: int|
            0 <= k < attrs.len() ==> (#[trigger] assemble_attrs(attrs)->Ok_0[k]).name
                == attrs[k].name,
    decreases attrs.len(),
{
    if attrs.len() > 0 {
        lemma_attr_keeps_name(attrs[0].name, attrs[0].ts_type, attrs[0].options);
        assert(forall|k: int|
            0 <= k < attrs.drop_first().len() ==> keeps_name(
                #[trigger] attrs.drop_first()[k].options,
            ));
        lemma_field_order(attrs.drop_first());
        let a = apply_attr_directives(attrs[0].name, attrs[0].ts_type, attrs[0].options)->Ok_0->Some_0;
        let rest = assemble_attrs(attrs.drop_first())->Ok_0;
        assert(assemble_attrs(attrs)->Ok_0 == seq![a] + rest);
        assert(forall|k: int|
            1 <= k < attrs.len() ==> (seq![a] + rest)[k] == rest[k - 1] && attrs.drop_first()[k
                - 1] == attrs[k]);
    }
}

/// A skipped attribute is wholly absent: assembling a list with it equals
/// assembling the list without it.
pub proof fn lemma_skip_attribute(attrs: Seq<SpecRawAttribute>, j: int)
    requires
        0 <= j < attrs.len(),
        apply_attr_directives(attrs[j].name, attrs[j].ts_type, attrs[j].options) == Ok::<
            Option<SpecAttribute>,
            SpecError,
        >(None),
    ensures
        assemble_attrs(attrs) == assemble_attrs(attrs.remove(j)),
    decreases j,
{
    if j == 0 {
        assert(attrs.remove(0) =~= attrs.drop_first());
    } else {
        assert(attrs.remove(j)[0] == attrs[0]);
        assert(attrs.remove(j).drop_first() =~= attrs.drop_first().remove(j - 1));
        assert(attrs.drop_first()[j - 1] == attrs[j]);
        lemma_skip_attribute(attrs.drop_first(), j - 1);
    }
}

/// A skipped interface produces no descriptor, and its absence leaves the
/// order and presence of every other interface unchanged: assembling a
/// document with it equals assembling the document without it.
pub proof fn lemma_skip_interface(raws: Seq<SpecRawInterface>, j: int)
    requires
        0 <= j < raws.len(),
        assemble_interface(raws[j]) == Ok::<Option<SpecInterface>, SpecError>(None),
    ensures
        assemble(raws) == assemble(raws.remove(j)),
    decreases j,
{
    if j == 0 {
        assert(raws.remove(0) =~= raws.drop_first());
    } else {
        assert(raws.remove(j)[0] == raws[0]);
        assert(raws.remove(j).drop_first() =~= raws.drop_first().remove(j - 1));
        assert(raws.drop_first()[j - 1] == raws[j]);
        lemma_skip_interface(raws.drop_first(), j - 1);
    }
}

/// The derive arguments of a directive sequence, in source order.
pub open spec fn derive_args(dirs: Seq<SpecDirective>) -> Seq<Seq<char>>
    decreases dirs.len(),
{
    if dirs.len() == 0 {
        Seq::empty()
    } else {
        match dirs[0].kind {
            SpecDirectiveKind::Derive(d) => seq![d] + derive_args(dirs.drop_first()),
            _ => derive_args(dirs.drop_first()),
        }
    }
}

/// Derive accumulation at the directive level: a surviving interface's
/// derive list is the incoming list extended by every `derive` argument, in
/// source order.
pub proof fn lemma_apply_derives(
    name: Seq<char>,
    derives: Seq<Seq<char>>,
    skip_serde: bool,
    dirs: Seq<SpecDirective>,
)
    requires
        apply_iface_directives(name, derives, skip_serde, dirs) matches Ok(o) && o is Some,
    ensures
        apply_iface_directives(name, derives, skip_serde, dirs)->Ok_0->Some_0.1 == derives
            + derive_args(dirs),
    decreases dirs.len(),
{
    if dirs.len() == 0 {
        assert(derives + derive_args(dirs) =~= derives);
    } else {
        match dirs[0].kind {
            SpecDirectiveKind::Rename(n) => {
                lemma_apply_derives(n, derives, skip_serde, dirs.drop_first());
            },
            SpecDirectiveKind::Derive(d) => {
                lemma_apply_derives(name, derives.push(d), skip_serde, dirs.drop_first());
                assert(derives.push(d) + derive_args(dirs.drop_first()) =~= derives + (seq![d]
                    + derive_args(dirs.drop_first())));
            },
            SpecDirectiveKind::SkipDefaultDerives => {
                lemma_apply_derives(name, derives, true, dirs.drop_first());
            },
            _ => {
            },
        }
    }
}

/// Derive accumulation: every surviving interface's derive list is the
/// baseline capability followed by its `derive` directives' arguments, in
/// declaration order.
pub proof fn lemma_derive_accumulation(r: SpecRawInterface)
    requires
        assemble_interface(r) matches Ok(o) && o is Some,
    ensures
        assemble_interface(r)->Ok_0->Some_0.derives == seq![derive_debug()] + derive_args(
            r.options,
        ),
{
    lemma_apply_derives(r.name, seq![derive_debug()], false, r.options);
}

/// Renaming an interface replaces exactly its name: the fields, derives and
/// serialization flag come out as they would without the rename.
pub proof fn lemma_rename_interface(
    name: Seq<char>,
    fresh: Seq<char>,
    derives: Seq<Seq<char>>,
    skip_serde: bool,
    pos: int,
)
    ensures
        apply_iface_directives(
            name,
            derives,
            skip_serde,
            seq![SpecDirective { pos, kind: SpecDirectiveKind::Rename(fresh) }],
        ) == Ok::<Option<(Seq<char>, Seq<Seq<char>>, bool)>, SpecError>(
            Some((fresh, derives, skip_serde)),
        ),
{
    let dirs = seq![SpecDirective { pos, kind: SpecDirectiveKind::Rename(fresh) }];
    assert(dirs.drop_first() =~= Seq::<SpecDirective>::empty());
    assert(dirs[0].kind == SpecDirectiveKind::Rename(fresh));
    assert(apply_iface_directives(fresh, derives, skip_serde, dirs.drop_first()) == Ok::<
        Option<(Seq<char>, Seq<Seq<char>>, bool)>,
        SpecError,
    >(Some((fresh, derives, skip_serde))));
}

} // verus!
