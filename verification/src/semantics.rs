//! The option processor and the interface assembler: how the directives
//! trailing an attribute or an interface transform the raw parse tree into
//! the final descriptors, and the executable functions that carry the
//! transformation out.
use crate::ast::DirectiveKind;
use crate::ast::ErrorKind;
use crate::ast::ParseError;
use crate::ast::ParsedDirective;
use crate::ast::RawAttribute;
use crate::ast::RawInterface;
use crate::ast::SpecAttribute;
use crate::ast::SpecError;
use crate::ast::SpecInterface;
use crate::ast::SpecRawAttribute;
use crate::ast::SpecRawInterface;
use crate::ast::SpecDirectiveKind;
use crate::ast::TsAttribute;
use crate::ast::TsInterface;
use crate::chars::string_from_chars;
use crate::grammar::parse_doc;
use vstd::prelude::*;

verus! {

/// The baseline capability every surviving interface derives.
pub open spec fn derive_debug() -> Seq<char> {
    seq!['D', 'e', 'b', 'u', 'g']
}

/// The effect of an attribute's directives, applied in source order to its
/// name and rendered type. `skip` drops the attribute and short-circuits:
/// directives after it are not looked at. A directive that cannot apply to an
/// attribute (`derive`, `skip_derive_serde`) is an error at its position.
pub open spec fn apply_attr_directives(
    name: Seq<char>,
    ty: Seq<char>,
    dirs: Seq<crate::ast::SpecDirective>,
) -> Result<Option<SpecAttribute>, SpecError>
    decreases dirs.len(),
{
    if dirs.len() == 0 {
        Ok(Some(SpecAttribute { name, ts_type: ty }))
    } else {
        match dirs[0].kind {
            SpecDirectiveKind::Rename(n) => apply_attr_directives(n, ty, dirs.drop_first()),
            SpecDirectiveKind::Retype(t) => apply_attr_directives(name, t, dirs.drop_first()),
            SpecDirectiveKind::Skip => Ok(None),
            _ => Err(SpecError { pos: dirs[0].pos, kind: ErrorKind::MisplacedDirective }),
        }
    }
}

/// The effect of an interface's directives on its name, derive list and
/// serialization suppression flag. `skip` drops the whole interface and
/// short-circuits; `retype` cannot apply to an interface.
pub open spec fn apply_iface_directives(
    name: Seq<char>,
    derives: Seq<Seq<char>>,
    skip_serde: bool,
    dirs: Seq<crate::ast::SpecDirective>,
) -> Result<Option<(Seq<char>, Seq<Seq<char>>, bool)>, SpecError>
    decreases dirs.len(),
{
    if dirs.len() == 0 {
        Ok(Some((name, derives, skip_serde)))
    } else {
        match dirs[0].kind {
            SpecDirectiveKind::Rename(n) => apply_iface_directives(
                n,
                derives,
                skip_serde,
                dirs.drop_first(),
            ),
            SpecDirectiveKind::Derive(d) => apply_iface_directives(
                name,
                derives.push(d),
                skip_serde,
                dirs.drop_first(),
            ),
            SpecDirectiveKind::SkipDefaultDerives => apply_iface_directives(
                name,
                derives,
                true,
                dirs.drop_first(),
            ),
            SpecDirectiveKind::Skip => Ok(None),
            SpecDirectiveKind::Retype(_) => Err(
                SpecError { pos: dirs[0].pos, kind: ErrorKind::MisplacedDirective },
            ),
        }
    }
}

/// The fields of a descriptor: each raw attribute with its directives
/// applied, skipped attributes absent, in declaration order.
pub open spec fn assemble_attrs(attrs: Seq<SpecRawAttribute>) -> Result<
    Seq<SpecAttribute>,
    SpecError,
>
    decreases attrs.len(),
{
    if attrs.len() == 0 {
        Ok(Seq::empty())
    } else {
        match apply_attr_directives(attrs[0].name, attrs[0].ts_type, attrs[0].options) {
            Err(e) => Err(e),
            Ok(None) => assemble_attrs(attrs.drop_first()),
            Ok(Some(a)) => match assemble_attrs(attrs.drop_first()) {
                Ok(rest) => Ok(seq![a] + rest),
                Err(e) => Err(e),
            },
        }
    }
}

/// The descriptor of one raw interface, or nothing if a `skip` directive
/// drops it. The derive list starts from the baseline capability.
pub open spec fn assemble_interface(r: SpecRawInterface) -> Result<
    Option<SpecInterface>,
    SpecError,
> {
    match assemble_attrs(r.attributes) {
        Err(e) => Err(e),
        Ok(fields) => match apply_iface_directives(r.name, seq![derive_debug()], false, r.options) {
            Err(e) => Err(e),
            Ok(None) => Ok(None),
            Ok(Some((n, ds, ss))) => Ok(
                Some(SpecInterface { name: n, attributes: fields, derives: ds, skip_serde: ss }),
            ),
        },
    }
}

/// The descriptors of all surviving interfaces, in source order.
pub open spec fn assemble(raws: Seq<SpecRawInterface>) -> Result<Seq<SpecInterface>, SpecError>
    decreases raws.len(),
{
    if raws.len() == 0 {
        Ok(Seq::empty())
    } else {
        match assemble_interface(raws[0]) {
            Err(e) => Err(e),
            Ok(None) => assemble(raws.drop_first()),
            Ok(Some(d)) => match assemble(raws.drop_first()) {
                Ok(rest) => Ok(seq![d] + rest),
                Err(e) => Err(e),
            },
        }
    }
}

/// What translating a whole document yields: the descriptor list of its
/// non-skipped interfaces in source order, or the first failure — and
/// nothing else: the result is a function of the input text alone.
pub open spec fn parse_spec(s: Seq<char>) -> Result<Seq<SpecInterface>, SpecError> {
    match parse_doc(s) {
        Ok(raws) => assemble(raws),
        Err(e) => Err(e),
    }
}

/// The view of an optional field descriptor.
pub open spec fn opt_attr_view(r: Option<TsAttribute>) -> Option<SpecAttribute> {
    match r {
        Some(a) => Some(a@),
        None => None,
    }
}

/// The view of an optional interface descriptor.
pub open spec fn opt_iface_view(r: Option<TsInterface>) -> Option<SpecInterface> {
    match r {
        Some(d) => Some(d@),
        None => None,
    }
}

/// Builds the field descriptor of one raw attribute by applying its
/// directives in order, or drops it on `skip`.
pub fn build_attribute(a: RawAttribute) -> (r: Result<Option<TsAttribute>, ParseError>)
    ensures
        match apply_attr_directives(a@.name, a@.ts_type, a@.options) {
            Ok(o) => r matches Ok(x) && opt_attr_view(x) == o,
            Err(e) => r matches Err(x) && x@ == e,
        },
{
    let RawAttribute { name, ts_type, options } = a;
    let mut name = name;
    let mut ts_type = ts_type;
    let mut dirs = options;
    let ghost orig = apply_attr_directives(a@.name, a@.ts_type, a@.options);
    while dirs.len() > 0
        invariant
            orig == apply_attr_directives(a@.name, a@.ts_type, a@.options),
            orig == apply_attr_directives(name@, ts_type@, dirs.deep_view()),
        decreases dirs.len(),
    {
        let ghost pre = dirs.deep_view();
        let d = dirs.remove(0);
        proof {
            assert(pre[0] == d@);
            assert(pre.drop_first() =~= dirs.deep_view());
        }
        match d.kind {
            DirectiveKind::Rename(n) => {
                name = n;
            },
            DirectiveKind::Retype(t) => {
                ts_type = t;
            },
            DirectiveKind::Skip => {
                return Ok(None);
            },
            DirectiveKind::Derive(_) => {
                return Err(ParseError { pos: d.pos, kind: ErrorKind::MisplacedDirective });
            },
            DirectiveKind::SkipDefaultDerives => {
                return Err(ParseError { pos: d.pos, kind: ErrorKind::MisplacedDirective });
            },
        }
    }
    let out = TsAttribute { name: string_from_chars(&name), ts_type: string_from_chars(&ts_type) };
    proof {
        assert(dirs.deep_view().len() == 0);
        assert(opt_attr_view(Some(out)) == orig->Ok_0);
    }
    Ok(Some(out))
}

/// Applies one interface's directives to its name, derive list and
/// serialization flag, or signals that the interface is skipped.
pub fn build_interface_header(
    name: Vec<char>,
    derives: Vec<Vec<char>>,
    options: Vec<ParsedDirective>,
) -> (r: Result<Option<(Vec<char>, Vec<Vec<char>>, bool)>, ParseError>)
    ensures
        match apply_iface_directives(name@, derives.deep_view(), false, options.deep_view()) {
            Ok(o) => r matches Ok(x) && match (x, o) {
                (Some(h), Some(g)) => h.0@ == g.0 && h.1.deep_view() == g.1 && h.2 == g.2,
                (None, None) => true,
                _ => false,
            },
            Err(e) => r matches Err(x) && x@ == e,
        },
{
    let ghost orig = apply_iface_directives(name@, derives.deep_view(), false, options.deep_view());
    let mut cur_name = name;
    let mut cur_derives = derives;
    let mut skip_serde = false;
    let mut dirs = options;
    while dirs.len() > 0
        invariant
            orig == apply_iface_directives(name@, derives.deep_view(), false, options.deep_view()),
            orig == apply_iface_directives(
                cur_name@,
                cur_derives.deep_view(),
                skip_serde,
                dirs.deep_view(),
            ),
        decreases dirs.len(),
    {
        let ghost pre = dirs.deep_view();
        let d = dirs.remove(0);
        proof {
            assert(pre[0] == d@);
            assert(pre.drop_first() =~= dirs.deep_view());
        }
        match d.kind {
            DirectiveKind::Rename(n) => {
                cur_name = n;
            },
            DirectiveKind::Derive(dv) => {
                let ghost pds = cur_derives.deep_view();
                cur_derives.push(dv);
                proof {
                    assert(cur_derives.deep_view() =~~= pds.push(dv@));
                }
            },
            DirectiveKind::SkipDefaultDerives => {
                skip_serde = true;
            },
            DirectiveKind::Skip => {
                return Ok(None);
            },
            DirectiveKind::Retype(_) => {
                return Err(ParseError { pos: d.pos, kind: ErrorKind::MisplacedDirective });
            },
        }
    }
    proof {
        assert(dirs.deep_view().len() == 0);
    }
    Ok(Some((cur_name, cur_derives, skip_serde)))
}

/// Builds the descriptor of one raw interface, or drops it on `skip`.
pub fn build_interface(r: RawInterface) -> (res: Result<Option<TsInterface>, ParseError>)
    ensures
        match assemble_interface(r@) {
            Ok(o) => res matches Ok(x) && opt_iface_view(x) == o,
            Err(e) => res matches Err(x) && x@ == e,
        },
{
    let RawInterface { name, attributes, options } = r;
    let mut attrs = attributes;
    let mut fields: Vec<TsAttribute> = Vec::new();
    let ghost all = assemble_attrs(r@.attributes);
    while attrs.len() > 0
        invariant
            all == assemble_attrs(r@.attributes),
            all == (match assemble_attrs(attrs.deep_view()) {
                Ok(rest) => Ok::<Seq<SpecAttribute>, SpecError>(fields.deep_view() + rest),
                Err(e) => Err(e),
            }),
        decreases attrs.len(),
    {
        let ghost pre = attrs.deep_view();
        let a = attrs.remove(0);
        proof {
            assert(pre[0] == a@);
            assert(pre.drop_first() =~= attrs.deep_view());
        }
        match build_attribute(a) {
            Ok(Some(f)) => {
                let ghost pf = fields.deep_view();
                fields.push(f);
                proof {
                    assert(fields.deep_view() =~= pf.push(f@));
                    let rest0 = assemble_attrs(attrs.deep_view());
                    if rest0 is Ok {
                        assert(pf + (seq![f@] + rest0->Ok_0) =~= pf.push(f@) + rest0->Ok_0);
                    }
                }
            },
            Ok(None) => {
            },
            Err(e) => {
                return Err(e);
            },
        }
    }
    proof {
        assert(attrs.deep_view().len() == 0);
        assert(fields.deep_view() + Seq::<SpecAttribute>::empty() =~= fields.deep_view());
    }
    let baseline = vec!['D', 'e', 'b', 'u', 'g'];
    proof {
        assert(baseline@ =~= derive_debug());
    }
    let mut derives: Vec<Vec<char>> = Vec::new();
    derives.push(baseline);
    proof {
        assert(derives.deep_view() =~~= seq![derive_debug()]);
    }
    match build_interface_header(name, derives, options) {
        Ok(Some((n, ds, ss))) => {
            let mut names: Vec<String> = Vec::new();
            let mut ds = ds;
            let ghost target = ds.deep_view();
            while ds.len() > 0
                invariant
                    names.deep_view() + ds.deep_view() =~~= target,
                decreases ds.len(),
            {
                let ghost pds = ds.deep_view();
                let first = ds.remove(0);
                let ghost pn = names.deep_view();
                names.push(string_from_chars(&first));
                proof {
                    assert(pds[0] == first@);
                    assert(pds.drop_first() =~~= ds.deep_view());
                    assert(names.deep_view() =~~= pn.push(first@));
                    assert(pn.push(first@) + ds.deep_view() =~~= pn + pds);
                }
            }
            proof {
                assert(ds.deep_view().len() == 0);
                assert(names.deep_view() + ds.deep_view() =~~= names.deep_view());
            }
            let out = TsInterface {
                name: string_from_chars(&n),
                attributes: fields,
                derives: names,
                skip_serde: ss,
            };
            proof {
                assert(opt_iface_view(Some(out)) == assemble_interface(r@)->Ok_0);
            }
            Ok(Some(out))
        },
        Ok(None) => Ok(None),
        Err(e) => Err(e),
    }
}

/// Builds the descriptors of all surviving interfaces of a raw parse tree,
/// in source order.
pub fn build_interfaces(raws: Vec<RawInterface>) -> (res: Result<Vec<TsInterface>, ParseError>)
    ensures
        match assemble(raws.deep_view()) {
            Ok(v) => res matches Ok(x) && x.deep_view() == v,
            Err(e) => res matches Err(x) && x@ == e,
        },
{
    let ghost all = assemble(raws.deep_view());
    let mut rest = raws;
    let mut out: Vec<TsInterface> = Vec::new();
    while rest.len() > 0
        invariant
            all == assemble(raws.deep_view()),
            all == (match assemble(rest.deep_view()) {
                Ok(rest) => Ok::<Seq<SpecInterface>, SpecError>(out.deep_view() + rest),
                Err(e) => Err(e),
            }),
        decreases rest.len(),
    {
        let ghost pre = rest.deep_view();
        let r = rest.remove(0);
        proof {
            assert(pre[0] == r@);
            assert(pre.drop_first() =~= rest.deep_view());
        }
        match build_interface(r) {
            Ok(Some(d)) => {
                let ghost po = out.deep_view();
                out.push(d);
                proof {
                    assert(out.deep_view() =~= po.push(d@));
                    let rest0 = assemble(rest.deep_view());
                    if rest0 is Ok {
                        assert(po + (seq![d@] + rest0->Ok_0) =~= po.push(d@) + rest0->Ok_0);
                    }
                }
            },
            Ok(None) => {
            },
            Err(e) => {
                return Err(e);
            },
        }
    }
    proof {
        assert(rest.deep_view().len() == 0);
        assert(out.deep_view() + Seq::<SpecInterface>::empty() =~= out.deep_view());
    }
    Ok(out)
}

} // verus!
