//! Token-level halves of the mangle/parse round trip: each token the
//! mangler writes — a number, a back-reference, a numeric disambiguator —
//! is read back as the value it was written from, wherever it stands in a
//! larger input. The productions above the tokens are not composed here.
use vstd::prelude::*;

use crate::ast::{
    AbsolutePathV, IdentTag, IdentV, NumericDisambiguator, PathPrefixV, Subst, SymbolV, TypeV,
    NUMBER_RADIX,
};
use crate::int_radix::{
    lemma_radix_digits_value, spec_digit_value, spec_digits_value, spec_radix_digits,
};
use crate::mangle::{
    spec_mangle_args, spec_mangle_basic, spec_mangle_dis, spec_mangle_ident, spec_mangle_path,
    spec_mangle_prefix, spec_mangle_subst, spec_mangle_symbol, spec_mangle_tag,
    spec_mangle_text, spec_mangle_type, spec_mangle_type_list,
};
use crate::charset::spec_last_index_of;
use crate::parse::{
    lemma_digit_run_end, sp_abs_path, sp_basic_type, sp_crate_id, sp_digit_run_end, sp_fn_params,
    sp_ident, sp_number, sp_opt_dis, sp_path_prefix, sp_peek, sp_prefix_tail, sp_subst,
    sp_symbol, sp_type, sp_type_seq, sp_uident, ParseErrorKind, EOT_CHAR,
};
use crate::text::ascii_chars;

verus! {

broadcast use vstd::seq::group_seq_axioms;

/// The run of digits starting at `pos` ends exactly at the first position
/// that holds no digit.
proof fn lemma_digit_run_end_exact(s: Seq<char>, pos: int, end: int, radix: nat)
    requires
        0 <= pos <= end <= s.len(),
        forall|i: int| pos <= i < end ==> spec_digit_value(#[trigger] s[i], radix) is Some,
        spec_digit_value(sp_peek(s, end), radix) is None,
    ensures
        sp_digit_run_end(s, pos, radix) == end,
    decreases end - pos,
{
    if pos == end {
        if pos < s.len() {
            assert(sp_peek(s, pos) == s[pos]);
        }
    } else {
        lemma_digit_run_end_exact(s, pos + 1, end, radix);
    }
}

/// Reading a number where the mangler wrote one yields the written value,
/// provided no digit follows the written digits.
pub proof fn lemma_parse_number_inverts(s: Seq<char>, pos: int, v: u64, radix: nat)
    requires
        2 <= radix <= 62,
        0 <= pos,
        pos + spec_radix_digits(v as nat, radix).len() <= s.len(),
        s.subrange(pos, pos + spec_radix_digits(v as nat, radix).len() as int)
            == spec_radix_digits(v as nat, radix),
        spec_digit_value(
            sp_peek(s, pos + spec_radix_digits(v as nat, radix).len() as int),
            radix,
        ) is None,
    ensures
        sp_number(s, pos, radix) == Ok::<(u64, int), (ParseErrorKind, int)>(
            (v, pos + spec_radix_digits(v as nat, radix).len() as int),
        ),
{
    let ds = spec_radix_digits(v as nat, radix);
    let end = pos + ds.len() as int;
    lemma_radix_digits_value(v as nat, radix);
    assert forall|i: int| pos <= i < end implies spec_digit_value(
        #[trigger] s[i],
        radix,
    ) is Some by {
        assert(s[i] == s.subrange(pos, end)[i - pos]);
    }
    lemma_digit_run_end_exact(s, pos, end, radix);
    assert(spec_digits_value(s.subrange(pos, end), radix) == v);
}

/// A digit of any radix up to 62 is never an underscore.
proof fn lemma_digit_not_underscore(c: char, radix: nat)
    requires
        spec_digit_value(c, radix) is Some,
    ensures
        c != '_',
{
    assert(spec_digit_value('_', radix) is None);
}

/// Reading a back-reference where the mangler wrote one yields the
/// written index.
pub proof fn lemma_parse_subst_inverts(s: Seq<char>, pos: int, sub: Subst)
    requires
        0 <= pos,
        pos + spec_mangle_subst(sub).len() <= s.len(),
        s.subrange(pos, pos + spec_mangle_subst(sub).len() as int) == spec_mangle_subst(sub),
    ensures
        sp_subst(s, pos) == Ok::<(Subst, int), (ParseErrorKind, int)>(
            (sub, pos + spec_mangle_subst(sub).len() as int),
        ),
{
    let m = spec_mangle_subst(sub);
    let end = pos + m.len() as int;
    assert(s[pos] == s.subrange(pos, end)[0]);
    if sub.0 == 0 {
        assert(s[pos + 1] == s.subrange(pos, end)[1]);
        assert(sp_peek(s, pos + 1) == '_');
    } else {
        let ds = spec_radix_digits((sub.0 - 1) as nat, NUMBER_RADIX as nat);
        lemma_radix_digits_value((sub.0 - 1) as nat, NUMBER_RADIX as nat);
        assert(m == seq!['S'] + ds + seq!['_']);
        assert(s[pos + 1] == s.subrange(pos, end)[1]);
        assert(s.subrange(pos, end)[1] == ds[0]);
        lemma_digit_not_underscore(ds[0], NUMBER_RADIX as nat);
        assert(sp_peek(s, pos + 1) != '_');
        let dend = pos + 1 + ds.len() as int;
        assert(s.subrange(pos + 1, dend) =~= ds) by {
            assert forall|i: int| 0 <= i < ds.len() implies s.subrange(pos + 1, dend)[i] == ds[i] by {
                assert(s.subrange(pos + 1, dend)[i] == s.subrange(pos, end)[i + 1]);
            }
        }
        assert(s[dend] == s.subrange(pos, end)[m.len() - 1]);
        assert(sp_peek(s, dend) == '_');
        lemma_digit_not_underscore(ds[0], NUMBER_RADIX as nat);
        assert(spec_digit_value(sp_peek(s, dend), NUMBER_RADIX as nat) is None) by {
            assert(spec_digit_value('_', NUMBER_RADIX as nat) is None);
        }
        lemma_parse_number_inverts(s, pos + 1, (sub.0 - 1) as u64, NUMBER_RADIX as nat);
    }
}

/// Reading an optional disambiguator where the mangler wrote one yields
/// the written value, provided the character after it does not begin a
/// new disambiguator clause where none was written.
pub proof fn lemma_parse_dis_inverts(s: Seq<char>, pos: int, d: NumericDisambiguator)
    requires
        0 <= pos,
        pos + spec_mangle_dis(d).len() <= s.len(),
        s.subrange(pos, pos + spec_mangle_dis(d).len() as int) == spec_mangle_dis(d),
        d.0 == 0 ==> sp_peek(s, pos) != 's',
    ensures
        sp_opt_dis(s, pos) == Ok::<(NumericDisambiguator, int), (ParseErrorKind, int)>(
            (d, pos + spec_mangle_dis(d).len() as int),
        ),
{
    let m = spec_mangle_dis(d);
    let end = pos + m.len() as int;
    if d.0 == 0 {
    } else if d.0 == 1 {
        assert(s[pos] == s.subrange(pos, end)[0]);
        assert(s[pos + 1] == s.subrange(pos, end)[1]);
        assert(sp_peek(s, pos) == 's');
        assert(sp_peek(s, pos + 1) == '_');
    } else {
        let ds = spec_radix_digits((d.0 - 2) as nat, NUMBER_RADIX as nat);
        lemma_radix_digits_value((d.0 - 2) as nat, NUMBER_RADIX as nat);
        assert(m == seq!['s'] + ds + seq!['_']);
        assert(s[pos] == s.subrange(pos, end)[0]);
        assert(sp_peek(s, pos) == 's');
        assert(s[pos + 1] == s.subrange(pos, end)[1]);
        assert(s.subrange(pos, end)[1] == ds[0]);
        lemma_digit_not_underscore(ds[0], NUMBER_RADIX as nat);
        assert(sp_peek(s, pos + 1) != '_');
        let dend = pos + 1 + ds.len() as int;
        assert(s.subrange(pos + 1, dend) =~= ds) by {
            assert forall|i: int| 0 <= i < ds.len() implies s.subrange(pos + 1, dend)[i] == ds[i] by {
                assert(s.subrange(pos + 1, dend)[i] == s.subrange(pos, end)[i + 1]);
            }
        }
        assert(s[dend] == s.subrange(pos, end)[m.len() - 1]);
        assert(sp_peek(s, dend) == '_');
        assert(spec_digit_value(sp_peek(s, dend), NUMBER_RADIX as nat) is None) by {
            assert(spec_digit_value('_', NUMBER_RADIX as nat) is None);
        }
        lemma_parse_number_inverts(s, pos + 1, (d.0 - 2) as u64, NUMBER_RADIX as nat);
    }
}

/// Reading length-prefixed text where the mangler wrote ASCII text yields
/// the written text, provided no digit follows the length digits beyond
/// the text itself and no `u` marker seems to follow the text.
pub proof fn lemma_parse_uident_inverts_ascii(s: Seq<char>, pos: int, text: Seq<char>)
    requires
        0 <= pos,
        ascii_chars(text),
        text.len() <= u64::MAX,
        pos + spec_mangle_text(text).len() <= s.len(),
        s.subrange(pos, pos + spec_mangle_text(text).len() as int) == spec_mangle_text(text),
        text.len() > 0 ==> spec_digit_value(text[0], 10) is None,
        text.len() == 0 ==> spec_digit_value(
            sp_peek(s, pos + spec_mangle_text(text).len() as int),
            10,
        ) is None,
        sp_peek(s, pos + spec_mangle_text(text).len() as int) != 'u',
    ensures
        sp_uident(s, pos) == Ok::<(Seq<char>, int), (ParseErrorKind, int)>(
            (text, pos + spec_mangle_text(text).len() as int),
        ),
{
    let m = spec_mangle_text(text);
    let end = pos + m.len() as int;
    let lds = spec_radix_digits(text.len(), 10);
    lemma_radix_digits_value(text.len(), 10);
    assert(m == lds + text);
    let p1 = pos + lds.len() as int;
    assert(s.subrange(pos, p1) =~= lds) by {
        assert forall|i: int| 0 <= i < lds.len() implies s.subrange(pos, p1)[i] == lds[i] by {
            assert(s.subrange(pos, p1)[i] == s.subrange(pos, end)[i]);
        }
    }
    if text.len() > 0 {
        assert(s[p1] == s.subrange(pos, end)[lds.len() as int]);
        assert(sp_peek(s, p1) == text[0]);
    }
    lemma_parse_number_inverts(s, pos, text.len() as u64, 10);
    assert(s.subrange(p1, p1 + text.len() as int) =~= text) by {
        assert forall|i: int| 0 <= i < text.len() implies s.subrange(
            p1,
            p1 + text.len() as int,
        )[i] == text[i] by {
            assert(s.subrange(p1, p1 + text.len() as int)[i] == s.subrange(pos, end)[lds.len()
                + i]);
        }
    }
}

/// Reading an identifier where the mangler wrote one with ASCII text
/// yields the written identifier. The character after it must not extend
/// it: no disambiguator clause where none was written, no tag or marker
/// letter where the bare text ends the identifier, and no digit where the
/// whole identifier is the bare length `0`.
pub proof fn lemma_parse_ident_inverts_ascii(s: Seq<char>, pos: int, id: IdentV)
    requires
        0 <= pos,
        ascii_chars(id.ident),
        id.ident.len() <= u64::MAX,
        pos + spec_mangle_ident(id).len() <= s.len(),
        s.subrange(pos, pos + spec_mangle_ident(id).len() as int) == spec_mangle_ident(id),
        id.ident.len() > 0 ==> spec_digit_value(id.ident[0], 10) is None,
        id.dis.0 == 0 ==> sp_peek(s, pos + spec_mangle_ident(id).len() as int) != 's',
        id.tag == IdentTag::TypeNs && id.dis.0 == 0 ==> {
            let b = sp_peek(s, pos + spec_mangle_ident(id).len() as int);
            b != 'C' && b != 'V' && b != 'u'
        },
        id.ident.len() == 0 && id.tag == IdentTag::TypeNs && id.dis.0 == 0
            ==> spec_digit_value(
            sp_peek(s, pos + spec_mangle_ident(id).len() as int),
            10,
        ) is None,
    ensures
        sp_ident(s, pos) == Ok::<(IdentV, int), (ParseErrorKind, int)>(
            (id, pos + spec_mangle_ident(id).len() as int),
        ),
{
    let m = spec_mangle_ident(id);
    let end = pos + m.len() as int;
    let mt = spec_mangle_text(id.ident);
    let mtag = spec_mangle_tag(id.tag);
    let mdis = spec_mangle_dis(id.dis);
    assert(m == mt + mtag + mdis);
    let p1 = pos + mt.len() as int;
    let p2 = p1 + mtag.len() as int;
    let b = sp_peek(s, end);
    assert(s.subrange(pos, p1) =~= mt) by {
        assert forall|i: int| 0 <= i < mt.len() implies s.subrange(pos, p1)[i] == mt[i] by {
            assert(s.subrange(pos, p1)[i] == s.subrange(pos, end)[i]);
        }
    }
    // the character right after the text: the tag, the disambiguator
    // clause, or the character after the whole identifier
    if mtag.len() > 0 {
        assert(s[p1] == s.subrange(pos, end)[mt.len() as int]);
        assert(sp_peek(s, p1) == mtag[0]);
    } else if mdis.len() > 0 {
        assert(s[p1] == s.subrange(pos, end)[mt.len() as int]);
        assert(sp_peek(s, p1) == mdis[0]);
        assert(mdis[0] == 's');
    } else {
        assert(p1 == end);
    }
    lemma_parse_uident_inverts_ascii(s, pos, id.ident);
    // the tag
    if mtag.len() > 0 {
        assert(mtag.len() == 1);
        match id.tag {
            IdentTag::Closure => {
                assert(sp_peek(s, p1) == 'C');
            },
            IdentTag::ValueNs => {
                assert(sp_peek(s, p1) == 'V');
            },
            IdentTag::TypeNs => {},
        }
    } else {
        assert(id.tag == IdentTag::TypeNs);
        if mdis.len() > 0 {
            assert(sp_peek(s, p1) == 's');
        }
    }
    // the disambiguator
    assert(s.subrange(p2, end) =~= mdis) by {
        assert forall|i: int| 0 <= i < mdis.len() implies s.subrange(p2, end)[i] == mdis[i] by {
            assert(s.subrange(p2, end)[i] == s.subrange(pos, end)[mt.len() + mtag.len() + i]);
        }
    }
    if id.dis.0 == 0 {
        assert(p2 == end);
    }
    lemma_parse_dis_inverts(s, p2, id.dis);
}

/// In "name_disambiguator" whose disambiguator holds no underscore, the
/// last underscore is the separator.
proof fn lemma_last_underscore_of_crate_id(name: Seq<char>, dis: Seq<char>)
    requires
        forall|i: int| 0 <= i < dis.len() ==> dis[i] != '_',
    ensures
        spec_last_index_of(name + seq!['_'] + dis, '_') == name.len(),
    decreases dis.len(),
{
    let combined = name + seq!['_'] + dis;
    if dis.len() == 0 {
        assert(combined.last() == '_');
    } else {
        assert(combined.last() == dis.last());
        assert(combined.drop_last() =~= name + seq!['_'] + dis.drop_last());
        lemma_last_underscore_of_crate_id(name, dis.drop_last());
    }
}

/// Reading a crate-id root where the mangler wrote one with ASCII text
/// yields the written crate name and disambiguator, provided the
/// disambiguator holds no underscore of its own and no marker letter or
/// digit run follows confusingly.
pub proof fn lemma_parse_crate_id_inverts_ascii(
    s: Seq<char>,
    pos: int,
    name: Seq<char>,
    dis: Seq<char>,
)
    requires
        0 <= pos,
        ascii_chars(name + seq!['_'] + dis),
        (name + seq!['_'] + dis).len() <= u64::MAX,
        name.len() > 0 ==> spec_digit_value(name[0], 10) is None,
        forall|i: int| 0 <= i < dis.len() ==> dis[i] != '_',
        pos + spec_mangle_text(name + seq!['_'] + dis).len() <= s.len(),
        s.subrange(pos, pos + spec_mangle_text(name + seq!['_'] + dis).len() as int)
            == spec_mangle_text(name + seq!['_'] + dis),
        sp_peek(s, pos + spec_mangle_text(name + seq!['_'] + dis).len() as int) != 'u',
    ensures
        sp_crate_id(s, pos) == Ok::<(PathPrefixV, int), (ParseErrorKind, int)>(
            (
                PathPrefixV::CrateId { name, dis },
                pos + spec_mangle_text(name + seq!['_'] + dis).len() as int,
            ),
        ),
{
    let combined = name + seq!['_'] + dis;
    assert(combined.len() > 0);
    if name.len() > 0 {
        assert(combined[0] == name[0]);
    } else {
        assert(combined[0] == '_');
        assert(spec_digit_value('_', 10) is None);
    }
    lemma_parse_uident_inverts_ascii(s, pos, combined);
    lemma_last_underscore_of_crate_id(name, dis);
    assert(combined.subrange(0, name.len() as int) =~= name);
    assert(combined.subrange(name.len() as int + 1, combined.len() as int) =~= dis);
}

/// An identifier the parser reads back exactly: ASCII text that does not
/// begin with a digit, and — where the text is empty — a closure tag or a
/// disambiguator to separate it from what follows.
pub open spec fn wf_parse_ident(id: IdentV) -> bool {
    &&& ascii_chars(id.ident)
    &&& id.ident.len() <= u64::MAX
    &&& (id.ident.len() > 0 ==> spec_digit_value(id.ident[0], 10) is None)
    &&& (id.ident.len() == 0 ==> id.tag == IdentTag::Closure || id.dis.0 > 0)
}

/// A path prefix the parser reads back exactly.
pub open spec fn wf_parse_prefix(p: PathPrefixV) -> bool
    decreases p, 0int,
{
    match p {
        PathPrefixV::CrateId { name, dis } => {
            &&& ascii_chars(name + seq!['_'] + dis)
            &&& (name + seq!['_'] + dis).len() <= u64::MAX
            &&& (name.len() > 0 ==> spec_digit_value(name[0], 10) is None)
            &&& (forall|i: int| 0 <= i < dis.len() ==> dis[i] != '_')
        },
        PathPrefixV::TraitImpl { self_type, impled_trait, dis } => wf_parse_type(*self_type)
            && (match impled_trait {
            Some(t) => wf_parse_path(*t),
            None => true,
        }),
        PathPrefixV::InherentImpl { self_type } => wf_parse_type(*self_type),
        PathPrefixV::Node { prefix, ident } => wf_parse_prefix(*prefix) && wf_parse_ident(ident),
        PathPrefixV::Subst(_) => true,
    }
}

/// An absolute path the parser reads back exactly.
pub open spec fn wf_parse_path(ap: AbsolutePathV) -> bool
    decreases ap, 2int,
{
    match ap {
        AbsolutePathV::Path { name, args } => wf_parse_prefix(*name) && wf_parse_type_list(args),
        AbsolutePathV::Subst(_) => true,
    }
}

/// A list of types the parser reads back exactly, element by element.
pub open spec fn wf_parse_type_list(ts: Seq<TypeV>) -> bool
    decreases ts, 1int,
{
    if ts.len() == 0 {
        true
    } else {
        wf_parse_type_list(ts.drop_last()) && wf_parse_type(ts.last())
    }
}

/// A type the parser reads back exactly. A back-reference in type
/// position is the canonical `Subst` node, never wrapped in `Named`.
pub open spec fn wf_parse_type(t: TypeV) -> bool
    decreases t, 3int,
{
    match t {
        TypeV::BasicType(_) => true,
        TypeV::Ref(inner) => wf_parse_type(*inner),
        TypeV::RefMut(inner) => wf_parse_type(*inner),
        TypeV::RawPtrConst(inner) => wf_parse_type(*inner),
        TypeV::RawPtrMut(inner) => wf_parse_type(*inner),
        TypeV::Array(_opt_size, inner) => wf_parse_type(*inner),
        TypeV::Tuple(components) => wf_parse_type_list(components),
        TypeV::Named(ap) => wf_parse_path(*ap) && !(*ap matches AbsolutePathV::Subst(_)),
        TypeV::GenericParam(id) => wf_parse_ident(id),
        TypeV::Fn { is_unsafe, abi, params, return_type } => wf_parse_type_list(params) && (
        match return_type {
            Some(rt) => wf_parse_type(*rt),
            None => true,
        }),
        TypeV::Subst(_) => true,
    }
}

/// A symbol the parser reads back exactly.
pub open spec fn wf_parse_symbol(sym: SymbolV) -> bool {
    wf_parse_path(sym.name) && (match sym.instantiating_crate {
        Some(p) => wf_parse_prefix(p),
        None => true,
    })
}

/// A well-formed list has well-formed elements.
proof fn lemma_wf_parse_list_index(ts: Seq<TypeV>)
    requires
        wf_parse_type_list(ts),
    ensures
        forall|i: int| 0 <= i < ts.len() ==> wf_parse_type(#[trigger] ts[i]),
    decreases ts.len(),
{
    if ts.len() > 0 {
        lemma_wf_parse_list_index(ts.drop_last());
        assert forall|i: int| 0 <= i < ts.len() implies wf_parse_type(#[trigger] ts[i]) by {
            if i < ts.len() - 1 {
                assert(ts.drop_last()[i] == ts[i]);
            } else {
                assert(ts[i] == ts.last());
            }
        }
    }
}

/// A well-formed identifier's mangled form starts with a decimal digit.
proof fn lemma_mangle_ident_starts_digit(id: IdentV)
    requires
        wf_parse_ident(id),
    ensures
        spec_mangle_ident(id).len() >= 1,
        spec_digit_value(spec_mangle_ident(id)[0], 10) is Some,
    decreases 0int,
{
    let lds = spec_radix_digits(id.ident.len(), 10);
    lemma_radix_digits_value(id.ident.len(), 10);
    assert(spec_mangle_text(id.ident) == lds + id.ident);
    assert(spec_mangle_ident(id)[0] == lds[0]);
}

/// The first character of a type's mangled form: never `E`, `J`, `N`
/// (except for named types), the end sentinel, or a decimal digit.
proof fn lemma_mangle_type_first(t: TypeV)
    ensures
        spec_mangle_type(t).len() >= 1,
        spec_mangle_type(t)[0] != 'E',
        spec_mangle_type(t)[0] != 'J',
        spec_mangle_type(t)[0] != EOT_CHAR,
        spec_mangle_type(t)[0] != 'I',
        spec_mangle_type(t)[0] != 'U',
        spec_mangle_type(t)[0] != 'K',
        spec_digit_value(spec_mangle_type(t)[0], 10) is None,
{
    match t {
        TypeV::BasicType(b) => {
            assert(spec_mangle_type(t)[0] == spec_mangle_basic(b));
        },
        TypeV::Named(ap) => {
            assert(spec_mangle_type(t) == spec_mangle_path(*ap));
            match *ap {
                AbsolutePathV::Path { name, args } => {
                    assert(spec_mangle_path(*ap) == seq!['N'] + spec_mangle_prefix(*name)
                        + spec_mangle_args(args) + seq!['E']);
                    assert(spec_mangle_path(*ap)[0] == 'N');
                },
                AbsolutePathV::Subst(sub) => {
                    assert(spec_mangle_path(*ap) == spec_mangle_subst(sub));
                    if sub.0 == 0 {
                        assert(spec_mangle_subst(sub)[0] == 'S');
                    } else {
                        assert(spec_mangle_subst(sub)[0] == 'S');
                    }
                },
            }
        },
        TypeV::Subst(sub) => {
            if sub.0 == 0 {
                assert(spec_mangle_type(t)[0] == 'S');
            } else {
                assert(spec_mangle_type(t)[0] == 'S');
            }
        },
        _ => {},
    }
}

/// The concatenated mangled forms of a chain of identifiers.
pub open spec fn mangle_idents(ids: Seq<IdentV>) -> Seq<char>
    decreases ids.len(),
{
    if ids.len() == 0 {
        Seq::empty()
    } else {
        spec_mangle_ident(ids.first()) + mangle_idents(ids.drop_first())
    }
}

/// Appends each identifier of a chain to a prefix as a node.
pub open spec fn wrap_nodes(acc: PathPrefixV, ids: Seq<IdentV>) -> PathPrefixV
    decreases ids.len(),
{
    if ids.len() == 0 {
        acc
    } else {
        wrap_nodes(
            PathPrefixV::Node { prefix: Box::new(acc), ident: ids.first() },
            ids.drop_first(),
        )
    }
}

/// The innermost non-node prefix under a chain of nodes.
pub open spec fn spine_root(p: PathPrefixV) -> PathPrefixV
    decreases p,
{
    match p {
        PathPrefixV::Node { prefix, ident } => spine_root(*prefix),
        _ => p,
    }
}

/// The identifiers of a chain of nodes, outermost last.
pub open spec fn spine_ids(p: PathPrefixV) -> Seq<IdentV>
    decreases p,
{
    match p {
        PathPrefixV::Node { prefix, ident } => spine_ids(*prefix).push(ident),
        _ => Seq::empty(),
    }
}

proof fn lemma_mangle_idents_push(ids: Seq<IdentV>, id: IdentV)
    ensures
        mangle_idents(ids.push(id)) == mangle_idents(ids) + spec_mangle_ident(id),
    decreases ids.len(),
{
    if ids.len() == 0 {
        assert(ids.push(id).first() == id);
        assert(ids.push(id).drop_first() =~= Seq::<IdentV>::empty());
        assert(mangle_idents(Seq::<IdentV>::empty()) == Seq::<char>::empty());
        assert(mangle_idents(ids.push(id)) == spec_mangle_ident(id) + Seq::<char>::empty());
        assert(mangle_idents(ids) == Seq::<char>::empty());
        assert(spec_mangle_ident(id) + Seq::<char>::empty() =~= Seq::<char>::empty()
            + spec_mangle_ident(id));
    } else {
        assert(ids.push(id).first() == ids.first());
        assert(ids.push(id).drop_first() =~= ids.drop_first().push(id));
        lemma_mangle_idents_push(ids.drop_first(), id);
        assert(mangle_idents(ids.push(id)) == spec_mangle_ident(ids.first()) + mangle_idents(
            ids.drop_first().push(id),
        ));
        assert(mangle_idents(ids) == spec_mangle_ident(ids.first()) + mangle_idents(
            ids.drop_first(),
        ));
        assert(spec_mangle_ident(ids.first()) + (mangle_idents(ids.drop_first())
            + spec_mangle_ident(id)) =~= (spec_mangle_ident(ids.first()) + mangle_idents(
            ids.drop_first(),
        )) + spec_mangle_ident(id));
    }
}

proof fn lemma_wrap_nodes_push(acc: PathPrefixV, ids: Seq<IdentV>, id: IdentV)
    ensures
        wrap_nodes(acc, ids.push(id)) == (PathPrefixV::Node {
            prefix: Box::new(wrap_nodes(acc, ids)),
            ident: id,
        }),
    decreases ids.len(),
{
    if ids.len() == 0 {
        assert(ids.push(id).first() == id);
        assert(ids.push(id).drop_first() =~= Seq::<IdentV>::empty());
        let acc2 = PathPrefixV::Node { prefix: Box::new(acc), ident: id };
        assert(wrap_nodes(acc2, Seq::<IdentV>::empty()) == acc2);
        assert(wrap_nodes(acc, ids.push(id)) == wrap_nodes(acc2, ids.push(id).drop_first()));
    } else {
        assert(ids.push(id).first() == ids.first());
        assert(ids.push(id).drop_first() =~= ids.drop_first().push(id));
        let acc2 = PathPrefixV::Node { prefix: Box::new(acc), ident: ids.first() };
        lemma_wrap_nodes_push(acc2, ids.drop_first(), id);
        assert(wrap_nodes(acc, ids.push(id)) == wrap_nodes(acc2, ids.drop_first().push(id)));
        assert(wrap_nodes(acc, ids) == wrap_nodes(acc2, ids.drop_first()));
    }
}

/// A prefix is its spine root with its spine identifiers appended, and
/// mangles as the root followed by the identifiers.
proof fn lemma_spine(p: PathPrefixV)
    ensures
        spec_mangle_prefix(p) == spec_mangle_prefix(spine_root(p)) + mangle_idents(spine_ids(p)),
        wrap_nodes(spine_root(p), spine_ids(p)) == p,
        !(spine_root(p) matches PathPrefixV::Node { .. }),
        wf_parse_prefix(p) ==> wf_parse_prefix(spine_root(p)),
        wf_parse_prefix(p) ==> forall|i: int|
            0 <= i < spine_ids(p).len() ==> wf_parse_ident(#[trigger] spine_ids(p)[i]),
    decreases p,
{
    match p {
        PathPrefixV::Node { prefix, ident } => {
            lemma_spine(*prefix);
            lemma_mangle_idents_push(spine_ids(*prefix), ident);
            assert(spec_mangle_prefix(p) =~= spec_mangle_prefix(spine_root(p)) + mangle_idents(
                spine_ids(p),
            ));
            lemma_wrap_nodes_push(spine_root(*prefix), spine_ids(*prefix), ident);
            if wf_parse_prefix(p) {
                assert forall|i: int|
                    0 <= i < spine_ids(p).len() implies wf_parse_ident(
                    #[trigger] spine_ids(p)[i],
                ) by {
                    if i < spine_ids(*prefix).len() {
                        assert(spine_ids(p)[i] == spine_ids(*prefix)[i]);
                    } else {
                        assert(spine_ids(p)[i] == ident);
                    }
                }
            }
        },
        _ => {
            assert(spec_mangle_prefix(p) =~= spec_mangle_prefix(spine_root(p)) + mangle_idents(
                spine_ids(p),
            ));
        },
    }
}

/// Reading the identifier chain the mangler wrote appends each identifier
/// as a node, stopping exactly at the character after the chain.
proof fn lemma_parse_prefix_tail_inverts(
    s: Seq<char>,
    pos: int,
    acc: PathPrefixV,
    ids: Seq<IdentV>,
)
    requires
        0 <= pos,
        pos + mangle_idents(ids).len() <= s.len(),
        s.subrange(pos, pos + mangle_idents(ids).len() as int) == mangle_idents(ids),
        forall|i: int| 0 <= i < ids.len() ==> wf_parse_ident(#[trigger] ids[i]),
        ({
            let b = sp_peek(s, pos + mangle_idents(ids).len() as int);
            b == EOT_CHAR || b == 'E' || b == 'I'
        }),
    ensures
        sp_prefix_tail(s, pos, acc) == Ok::<(PathPrefixV, int), (ParseErrorKind, int)>(
            (wrap_nodes(acc, ids), pos + mangle_idents(ids).len() as int),
        ),
    decreases ids.len(),
{
    let m = mangle_idents(ids);
    let end = pos + m.len() as int;
    let b = sp_peek(s, end);
    if ids.len() == 0 {
    } else {
        let first = ids.first();
        let m0 = spec_mangle_ident(first);
        let rest = ids.drop_first();
        assert(m == m0 + mangle_idents(rest));
        lemma_mangle_ident_starts_digit(first);
        assert(s[pos] == s.subrange(pos, end)[0]);
        assert(sp_peek(s, pos) == m0[0]);
        assert(spec_digit_value(EOT_CHAR, 10) is None);
        assert(spec_digit_value('E', 10) is None);
        assert(spec_digit_value('I', 10) is None);
        let p1 = pos + m0.len() as int;
        assert(s.subrange(pos, p1) =~= m0) by {
            assert forall|i: int| 0 <= i < m0.len() implies s.subrange(pos, p1)[i] == m0[i] by {
                assert(s.subrange(pos, p1)[i] == s.subrange(pos, end)[i]);
            }
        }
        // the character after the first identifier: the next identifier's
        // leading digit, or the chain's stop character
        if rest.len() > 0 {
            lemma_mangle_ident_starts_digit(rest.first());
            assert(mangle_idents(rest) == spec_mangle_ident(rest.first()) + mangle_idents(
                rest.drop_first(),
            ));
            assert(s[p1] == s.subrange(pos, end)[m0.len() as int]);
            assert(sp_peek(s, p1) == spec_mangle_ident(rest.first())[0]);
            assert(spec_digit_value(sp_peek(s, p1), 10) is Some);
        } else {
            assert(p1 == end);
        }
        assert(spec_digit_value('s', 10) is None);
        assert(spec_digit_value('C', 10) is None);
        assert(spec_digit_value('V', 10) is None);
        assert(spec_digit_value('u', 10) is None);
        assert(wf_parse_ident(first)) by {
            assert(ids[0] == first);
        }
        lemma_parse_ident_inverts_ascii(s, pos, first);
        assert(s.subrange(p1, end) =~= mangle_idents(rest)) by {
            assert forall|i: int| 0 <= i < mangle_idents(rest).len() implies s.subrange(
                p1,
                end,
            )[i] == mangle_idents(rest)[i] by {
                assert(s.subrange(p1, end)[i] == s.subrange(pos, end)[m0.len() + i]);
            }
        }
        assert forall|i: int| 0 <= i < rest.len() implies wf_parse_ident(
            #[trigger] rest[i],
        ) by {
            assert(rest[i] == ids[i + 1]);
        }
        lemma_parse_prefix_tail_inverts(
            s,
            p1,
            PathPrefixV::Node { prefix: Box::new(acc), ident: first },
            rest,
        );
    }
}

/// Splits knowledge of a concatenated stretch into its two halves.
proof fn lemma_subrange_split(s: Seq<char>, pos: int, end: int, a: Seq<char>, b: Seq<char>)
    requires
        0 <= pos,
        pos + a.len() + b.len() == end,
        end <= s.len(),
        s.subrange(pos, end) == a + b,
    ensures
        s.subrange(pos, pos + a.len() as int) == a,
        s.subrange(pos + a.len() as int, end) == b,
{
    assert(s.subrange(pos, pos + a.len() as int) =~= a) by {
        assert forall|i: int| 0 <= i < a.len() implies s.subrange(pos, pos + a.len() as int)[i]
            == a[i] by {
            assert(s.subrange(pos, pos + a.len() as int)[i] == s.subrange(pos, end)[i]);
        }
    }
    assert(s.subrange(pos + a.len() as int, end) =~= b) by {
        assert forall|i: int| 0 <= i < b.len() implies s.subrange(pos + a.len() as int, end)[i]
            == b[i] by {
            assert(s.subrange(pos + a.len() as int, end)[i] == s.subrange(pos, end)[a.len()
                + i]);
        }
    }
}

/// The character under the cursor at the start of a known stretch.
proof fn lemma_peek_at(s: Seq<char>, pos: int, end: int, m: Seq<char>)
    requires
        0 <= pos,
        pos + m.len() == end,
        end <= s.len(),
        s.subrange(pos, end) == m,
        m.len() > 0,
    ensures
        sp_peek(s, pos) == m[0],
{
    assert(s[pos] == s.subrange(pos, end)[0]);
}

/// Elementwise well-formedness rebuilds list well-formedness.
proof fn lemma_wf_parse_list_build(ts: Seq<TypeV>)
    requires
        forall|i: int| 0 <= i < ts.len() ==> wf_parse_type(#[trigger] ts[i]),
    ensures
        wf_parse_type_list(ts),
    decreases ts.len(),
{
    if ts.len() > 0 {
        assert forall|i: int| 0 <= i < ts.drop_last().len() implies wf_parse_type(
            #[trigger] ts.drop_last()[i],
        ) by {
            assert(ts.drop_last()[i] == ts[i]);
        }
        lemma_wf_parse_list_build(ts.drop_last());
        assert(ts.last() == ts[ts.len() - 1]);
    }
}

/// A list's concatenated form is its first element's form followed by the
/// rest's.
proof fn lemma_type_list_first(ts: Seq<TypeV>)
    requires
        ts.len() > 0,
    ensures
        spec_mangle_type_list(ts) == spec_mangle_type(ts.first()) + spec_mangle_type_list(
            ts.drop_first(),
        ),
    decreases ts.len(),
{
    if ts.len() == 1 {
        assert(ts.drop_last() =~= Seq::<TypeV>::empty());
        assert(spec_mangle_type_list(Seq::<TypeV>::empty()) == Seq::<char>::empty());
        assert(ts.drop_first() =~= Seq::<TypeV>::empty());
        assert(ts.first() == ts.last());
        assert(Seq::<char>::empty() + spec_mangle_type(ts.last()) =~= spec_mangle_type(
            ts.last(),
        ) + Seq::<char>::empty());
    } else {
        let dl = ts.drop_last();
        lemma_type_list_first(dl);
        assert(dl.first() == ts.first());
        assert(ts.drop_first().drop_last() =~= dl.drop_first());
        assert(ts.drop_first().last() == ts.last());
        assert(spec_mangle_type_list(ts.drop_first()) == spec_mangle_type_list(dl.drop_first())
            + spec_mangle_type(ts.last()));
        assert((spec_mangle_type(ts.first()) + spec_mangle_type_list(dl.drop_first()))
            + spec_mangle_type(ts.last()) =~= spec_mangle_type(ts.first()) + (
        spec_mangle_type_list(dl.drop_first()) + spec_mangle_type(ts.last())));
    }
}

/// A path prefix's mangled form is never empty.
proof fn lemma_mangle_prefix_len(p: PathPrefixV)
    ensures
        spec_mangle_prefix(p).len() >= 1,
    decreases p,
{
    match p {
        PathPrefixV::CrateId { name, dis } => {
            lemma_radix_digits_value((name + seq!['_'] + dis).len(), 10);
        },
        PathPrefixV::Node { prefix, ident } => {
            lemma_mangle_prefix_len(*prefix);
        },
        _ => {},
    }
}

/// Reading a type where the mangler wrote one yields the written type.
#[verifier::rlimit(100)]
#[verifier::spinoff_prover]
proof fn lemma_parse_type_inverts(s: Seq<char>, pos: int, t: TypeV)
    requires
        0 <= pos,
        wf_parse_type(t),
        pos + spec_mangle_type(t).len() <= s.len(),
        s.subrange(pos, pos + spec_mangle_type(t).len() as int) == spec_mangle_type(t),
    ensures
        sp_type(s, pos) == Ok::<(TypeV, int), (ParseErrorKind, int)>(
            (t, pos + spec_mangle_type(t).len() as int),
        ),
    decreases t, 4int,
{
    let m = spec_mangle_type(t);
    let end = pos + m.len() as int;
    lemma_mangle_type_first(t);
    lemma_peek_at(s, pos, end, m);
    let c = sp_peek(s, pos);
    match t {
        TypeV::BasicType(b) => {
            assert(c == spec_mangle_basic(b));
            assert(sp_basic_type(spec_mangle_basic(b)) == Some(b));
        },
        TypeV::Ref(inner) => {
            assert(m == seq!['R'] + spec_mangle_type(*inner));
            lemma_subrange_split(s, pos, end, seq!['R'], spec_mangle_type(*inner));
            lemma_parse_type_inverts(s, pos + 1, *inner);
        },
        TypeV::RefMut(inner) => {
            assert(m == seq!['Q'] + spec_mangle_type(*inner));
            lemma_subrange_split(s, pos, end, seq!['Q'], spec_mangle_type(*inner));
            lemma_parse_type_inverts(s, pos + 1, *inner);
        },
        TypeV::RawPtrConst(inner) => {
            assert(m == seq!['P'] + spec_mangle_type(*inner));
            lemma_subrange_split(s, pos, end, seq!['P'], spec_mangle_type(*inner));
            lemma_parse_type_inverts(s, pos + 1, *inner);
        },
        TypeV::RawPtrMut(inner) => {
            assert(m == seq!['O'] + spec_mangle_type(*inner));
            lemma_subrange_split(s, pos, end, seq!['O'], spec_mangle_type(*inner));
            lemma_parse_type_inverts(s, pos + 1, *inner);
        },
        TypeV::Array(opt_size, inner) => {
            lemma_mangle_type_first(*inner);
            match opt_size {
                Some(n) => {
                    let nds = spec_radix_digits(n as nat, 10);
                    lemma_radix_digits_value(n as nat, 10);
                    assert(m == seq!['A'] + (nds + spec_mangle_type(*inner))) by {
                        assert(seq!['A'] + nds + spec_mangle_type(*inner) =~= seq!['A'] + (nds
                            + spec_mangle_type(*inner)));
                    }
                    lemma_subrange_split(s, pos, end, seq!['A'], nds + spec_mangle_type(*inner));
                    lemma_subrange_split(s, pos + 1, end, nds, spec_mangle_type(*inner));
                    lemma_peek_at(s, pos + 1, pos + 1 + nds.len() as int, nds);
                    let p1 = pos + 1 + nds.len() as int;
                    lemma_peek_at(s, p1, end, spec_mangle_type(*inner));
                    lemma_parse_number_inverts(s, pos + 1, n, 10);
                    lemma_parse_type_inverts(s, p1, *inner);
                },
                None => {
                    assert(m == seq!['A'] + (Seq::<char>::empty() + spec_mangle_type(*inner)));
                    assert(m == seq!['A'] + spec_mangle_type(*inner)) by {
                        assert(seq!['A'] + (Seq::<char>::empty() + spec_mangle_type(*inner))
                            =~= seq!['A'] + spec_mangle_type(*inner));
                    }
                    lemma_subrange_split(s, pos, end, seq!['A'], spec_mangle_type(*inner));
                    lemma_peek_at(s, pos + 1, end, spec_mangle_type(*inner));
                    lemma_parse_type_inverts(s, pos + 1, *inner);
                },
            }
        },
        TypeV::Tuple(components) => {
            assert(m == seq!['T'] + (spec_mangle_type_list(components) + seq!['E'])) by {
                assert(seq!['T'] + spec_mangle_type_list(components) + seq!['E'] =~= seq!['T']
                    + (spec_mangle_type_list(components) + seq!['E']));
            }
            lemma_subrange_split(
                s,
                pos,
                end,
                seq!['T'],
                spec_mangle_type_list(components) + seq!['E'],
            );
            lemma_parse_type_seq_inverts(s, pos + 1, components);
        },
        TypeV::Named(ap) => {
            lemma_parse_abs_path_inverts(s, pos, *ap);
        },
        TypeV::GenericParam(id) => {
            assert(m == seq!['G'] + (spec_mangle_ident(id) + seq!['E'])) by {
                assert(seq!['G'] + spec_mangle_ident(id) + seq!['E'] =~= seq!['G'] + (
                spec_mangle_ident(id) + seq!['E']));
            }
            lemma_subrange_split(s, pos, end, seq!['G'], spec_mangle_ident(id) + seq!['E']);
            lemma_subrange_split(s, pos + 1, end, spec_mangle_ident(id), seq!['E']);
            let p1 = pos + 1 + spec_mangle_ident(id).len() as int;
            lemma_peek_at(s, p1, end, seq!['E']);
            assert(spec_digit_value('E', 10) is None);
            lemma_parse_ident_inverts_ascii(s, pos + 1, id);
        },
        TypeV::Subst(sub) => {
            lemma_parse_subst_inverts(s, pos, sub);
        },
        TypeV::Fn { is_unsafe, abi, params, return_type } => {
            lemma_parse_fn_type_inverts(s, pos, t);
        },
    }
}

/// Reading a function type where the mangler wrote one yields the
/// written type.
#[verifier::rlimit(100)]
#[verifier::spinoff_prover]
proof fn lemma_parse_fn_type_inverts(s: Seq<char>, pos: int, t: TypeV)
    requires
        0 <= pos,
        t matches TypeV::Fn { .. },
        wf_parse_type(t),
        pos + spec_mangle_type(t).len() <= s.len(),
        s.subrange(pos, pos + spec_mangle_type(t).len() as int) == spec_mangle_type(t),
    ensures
        sp_type(s, pos) == Ok::<(TypeV, int), (ParseErrorKind, int)>(
            (t, pos + spec_mangle_type(t).len() as int),
        ),
    decreases t, 3int,
{
    let m = spec_mangle_type(t);
    let end = pos + m.len() as int;
    lemma_mangle_type_first(t);
    lemma_peek_at(s, pos, end, m);
    let c = sp_peek(s, pos);
    match t {
        TypeV::Fn { is_unsafe, abi, params, return_type } => {
            let useq: Seq<char> = if is_unsafe {
                seq!['U']
            } else {
                Seq::empty()
            };
            let aseq = crate::mangle::spec_mangle_abi(abi);
            let pseq = spec_mangle_type_list(params);
            let rseq: Seq<char> = match return_type {
                Some(rt) => seq!['J'] + spec_mangle_type(*rt),
                None => Seq::empty(),
            };
            assert(m == seq!['F'] + (useq + (aseq + (pseq + (rseq + seq!['E']))))) by {
                assert(seq!['F'] + useq + aseq + pseq + rseq + seq!['E'] =~= seq!['F'] + (useq
                    + (aseq + (pseq + (rseq + seq!['E'])))));
            }
            lemma_subrange_split(s, pos, end, seq!['F'], useq + (aseq + (pseq + (rseq
                + seq!['E']))));
            let pu = pos + 1 + useq.len() as int;
            lemma_subrange_split(s, pos + 1, end, useq, aseq + (pseq + (rseq + seq!['E'])));
            let pa = pu + aseq.len() as int;
            lemma_subrange_split(s, pu, end, aseq, pseq + (rseq + seq!['E']));
            let pp = pa + pseq.len() as int;
            lemma_subrange_split(s, pa, end, pseq, rseq + seq!['E']);
            lemma_subrange_split(s, pp, end, rseq, seq!['E']);
            let pe = pp + rseq.len() as int;
            lemma_peek_at(s, pe, end, seq!['E']);
            // the flag and the tag letters are told apart from what follows
            if is_unsafe {
                lemma_peek_at(s, pos + 1, pu, useq);
            } else {
                assert(pu == pos + 1);
            }
            match abi {
                crate::ast::Abi::C => {
                    lemma_peek_at(s, pu, pa, aseq);
                    assert(s[pu + 1] == s.subrange(pu, pa)[1]);
                    assert(sp_peek(s, pu + 1) == 'c');
                },
                crate::ast::Abi::Rust => {
                    assert(pa == pu);
                },
            }
            if params.len() > 0 {
                lemma_type_list_first(params);
                lemma_wf_parse_list_index(params);
                lemma_mangle_type_first(params.first());
                lemma_peek_at(s, pa, pp, pseq);
            } else {
                assert(pp == pa);
            }
            match return_type {
                Some(rt) => {
                    lemma_peek_at(s, pp, pe, rseq);
                    lemma_mangle_type_first(*rt);
                },
                None => {
                    assert(pe == pp);
                },
            }
            // where the flag or tag is absent, the next character cannot
            // stand for it
            assert(sp_peek(s, pu) != 'U' && sp_peek(s, pa) != 'K') by {
                if params.len() > 0 {
                    lemma_wf_parse_list_index(params);
                    lemma_mangle_type_first(params.first());
                }
                match abi {
                    crate::ast::Abi::C => {
                        lemma_peek_at(s, pu, pa, aseq);
                    },
                    crate::ast::Abi::Rust => {},
                }
                match return_type {
                    Some(rt) => {
                        if params.len() == 0 {
                            lemma_peek_at(s, pp, pe, rseq);
                        }
                    },
                    None => {},
                }
            }
            lemma_parse_fn_params_inverts(s, pa, params);
            match return_type {
                Some(rt) => {
                    lemma_subrange_split(s, pp, pe, seq!['J'], spec_mangle_type(*rt));
                    lemma_parse_type_inverts(s, pp + 1, *rt);
                },
                None => {},
            }
        },
        _ => {},
    }
}

/// Reading types through a closing `E` where the mangler wrote a list
/// yields the written list.
proof fn lemma_parse_type_seq_inverts(s: Seq<char>, pos: int, ts: Seq<TypeV>)
    requires
        0 <= pos,
        wf_parse_type_list(ts),
        pos + spec_mangle_type_list(ts).len() + 1 <= s.len(),
        s.subrange(pos, pos + spec_mangle_type_list(ts).len() as int + 1)
            == spec_mangle_type_list(ts) + seq!['E'],
    ensures
        sp_type_seq(s, pos) == Ok::<(Seq<TypeV>, int), (ParseErrorKind, int)>(
            (ts, pos + spec_mangle_type_list(ts).len() as int + 1),
        ),
    decreases ts, 5int,
{
    let m = spec_mangle_type_list(ts) + seq!['E'];
    let end = pos + m.len() as int;
    if ts.len() == 0 {
        assert(spec_mangle_type_list(ts) == Seq::<char>::empty());
        lemma_peek_at(s, pos, end, m);
        assert(m[0] == 'E');
        assert(Seq::<TypeV>::empty() =~= ts);
    } else {
        lemma_type_list_first(ts);
        lemma_wf_parse_list_index(ts);
        let t0 = ts.first();
        let m0 = spec_mangle_type(t0);
        let rest = ts.drop_first();
        lemma_mangle_type_first(t0);
        assert(m == m0 + (spec_mangle_type_list(rest) + seq!['E'])) by {
            assert((m0 + spec_mangle_type_list(rest)) + seq!['E'] =~= m0 + (
            spec_mangle_type_list(rest) + seq!['E']));
        }
        lemma_subrange_split(s, pos, end, m0, spec_mangle_type_list(rest) + seq!['E']);
        lemma_peek_at(s, pos, pos + m0.len() as int, m0);
        assert(wf_parse_type(t0)) by {
            assert(ts[0] == t0);
        }
        lemma_parse_type_inverts(s, pos, t0);
        assert forall|i: int| 0 <= i < rest.len() implies wf_parse_type(#[trigger] rest[i]) by {
            assert(rest[i] == ts[i + 1]);
        }
        lemma_wf_parse_list_build(rest);
        lemma_parse_type_seq_inverts(s, pos + m0.len() as int, rest);
        assert(seq![t0] + rest =~= ts);
    }
}

/// Reading function parameters where the mangler wrote them yields the
/// written list, stopping before the return clause or terminator.
proof fn lemma_parse_fn_params_inverts(s: Seq<char>, pos: int, ts: Seq<TypeV>)
    requires
        0 <= pos,
        wf_parse_type_list(ts),
        pos + spec_mangle_type_list(ts).len() <= s.len(),
        s.subrange(pos, pos + spec_mangle_type_list(ts).len() as int)
            == spec_mangle_type_list(ts),
        ({
            let b = sp_peek(s, pos + spec_mangle_type_list(ts).len() as int);
            b == 'E' || b == 'J'
        }),
    ensures
        sp_fn_params(s, pos) == Ok::<(Seq<TypeV>, int), (ParseErrorKind, int)>(
            (ts, pos + spec_mangle_type_list(ts).len() as int),
        ),
    decreases ts, 5int,
{
    let m = spec_mangle_type_list(ts);
    let end = pos + m.len() as int;
    if ts.len() == 0 {
        assert(Seq::<TypeV>::empty() =~= ts);
    } else {
        lemma_type_list_first(ts);
        lemma_wf_parse_list_index(ts);
        let t0 = ts.first();
        let m0 = spec_mangle_type(t0);
        let rest = ts.drop_first();
        lemma_mangle_type_first(t0);
        lemma_subrange_split(s, pos, end, m0, spec_mangle_type_list(rest));
        lemma_peek_at(s, pos, pos + m0.len() as int, m0);
        assert(wf_parse_type(t0)) by {
            assert(ts[0] == t0);
        }
        lemma_parse_type_inverts(s, pos, t0);
        assert forall|i: int| 0 <= i < rest.len() implies wf_parse_type(#[trigger] rest[i]) by {
            assert(rest[i] == ts[i + 1]);
        }
        lemma_wf_parse_list_build(rest);
        lemma_parse_fn_params_inverts(s, pos + m0.len() as int, rest);
        assert(seq![t0] + rest =~= ts);
    }
}

/// Reading an absolute path where the mangler wrote one yields the
/// written path.
proof fn lemma_parse_abs_path_inverts(s: Seq<char>, pos: int, ap: AbsolutePathV)
    requires
        0 <= pos,
        wf_parse_path(ap),
        pos + spec_mangle_path(ap).len() <= s.len(),
        s.subrange(pos, pos + spec_mangle_path(ap).len() as int) == spec_mangle_path(ap),
    ensures
        sp_abs_path(s, pos) == Ok::<(AbsolutePathV, int), (ParseErrorKind, int)>(
            (ap, pos + spec_mangle_path(ap).len() as int),
        ),
    decreases ap, 3int,
{
    let m = spec_mangle_path(ap);
    let end = pos + m.len() as int;
    match ap {
        AbsolutePathV::Subst(sub) => {
            lemma_parse_subst_inverts(s, pos, sub);
            lemma_peek_at(s, pos, end, m);
            if sub.0 == 0 {
                assert(m[0] == 'S');
            } else {
                assert(m[0] == 'S');
            }
        },
        AbsolutePathV::Path { name, args } => {
            let mp = spec_mangle_prefix(*name);
            let ma = spec_mangle_args(args);
            assert(m == seq!['N'] + (mp + (ma + seq!['E']))) by {
                assert(seq!['N'] + mp + ma + seq!['E'] =~= seq!['N'] + (mp + (ma + seq!['E'])));
            }
            lemma_peek_at(s, pos, end, m);
            lemma_subrange_split(s, pos, end, seq!['N'], mp + (ma + seq!['E']));
            let p1 = pos + 1 + mp.len() as int;
            lemma_subrange_split(s, pos + 1, end, mp, ma + seq!['E']);
            lemma_subrange_split(s, p1, end, ma, seq!['E']);
            let p2 = p1 + ma.len() as int;
            lemma_peek_at(s, p2, end, seq!['E']);
            lemma_mangle_prefix_len(*name);
            if args.len() == 0 {
                assert(ma == Seq::<char>::empty());
                assert(p2 == p1);
                lemma_parse_prefix_inverts(s, pos + 1, *name);
                assert(args =~= Seq::<TypeV>::empty());
                assert(sp_peek(s, p1) == 'E');
            } else {
                assert(ma == seq!['I'] + (spec_mangle_type_list(args) + seq!['E'])) by {
                    assert(seq!['I'] + spec_mangle_type_list(args) + seq!['E'] =~= seq!['I'] + (
                    spec_mangle_type_list(args) + seq!['E']));
                }
                lemma_peek_at(s, p1, p2, ma);
                lemma_subrange_split(s, p1, p2, seq!['I'], spec_mangle_type_list(args)
                    + seq!['E']);
                lemma_parse_prefix_inverts(s, pos + 1, *name);
                lemma_parse_type_seq_inverts(s, p1 + 1, args);
            }
        },
    }
}

/// Reading a path prefix where the mangler wrote one, followed by a chain
/// of further identifiers, yields the prefix with the chain appended. The
/// character after the whole stretch must close it.
#[verifier::rlimit(100)]
#[verifier::spinoff_prover]
proof fn lemma_parse_prefix_with_tail(
    s: Seq<char>,
    pos: int,
    p: PathPrefixV,
    extra: Seq<IdentV>,
)
    requires
        0 <= pos,
        wf_parse_prefix(p),
        forall|i: int| 0 <= i < extra.len() ==> wf_parse_ident(#[trigger] extra[i]),
        pos + spec_mangle_prefix(p).len() + mangle_idents(extra).len() <= s.len(),
        s.subrange(
            pos,
            pos + spec_mangle_prefix(p).len() + mangle_idents(extra).len(),
        ) == spec_mangle_prefix(p) + mangle_idents(extra),
        ({
            let b = sp_peek(s, pos + spec_mangle_prefix(p).len() + mangle_idents(extra).len());
            b == EOT_CHAR || b == 'E' || b == 'I'
        }),
    ensures
        sp_path_prefix(s, pos) == Ok::<(PathPrefixV, int), (ParseErrorKind, int)>(
            (
                wrap_nodes(p, extra),
                pos + spec_mangle_prefix(p).len() + mangle_idents(extra).len(),
            ),
        ),
    decreases p, 7int,
{
    let mp = spec_mangle_prefix(p);
    let me = mangle_idents(extra);
    let end = pos + mp.len() + me.len();
    let b = sp_peek(s, end);
    lemma_subrange_split(s, pos, end, mp, me);
    lemma_mangle_prefix_len(p);
    lemma_peek_at(s, pos, pos + mp.len() as int, mp);
    let c = sp_peek(s, pos);
    // the character right after the mangled prefix: the first of the
    // extra identifiers, or the closing character
    let p1 = pos + mp.len() as int;
    if extra.len() > 0 {
        assert(me == spec_mangle_ident(extra.first()) + mangle_idents(extra.drop_first()));
        lemma_mangle_ident_starts_digit(extra.first());
        assert(wf_parse_ident(extra.first())) by {
            assert(extra[0] == extra.first());
        }
        lemma_peek_at(s, p1, end, me);
        assert(spec_digit_value(sp_peek(s, p1), 10) is Some);
    }
    assert(spec_digit_value(EOT_CHAR, 10) is None);
    assert(spec_digit_value('E', 10) is None);
    assert(spec_digit_value('I', 10) is None);
    match p {
        PathPrefixV::Node { prefix, ident } => {
            assert(mp == spec_mangle_prefix(*prefix) + spec_mangle_ident(ident));
            let extra2 = seq![ident] + extra;
            assert(extra2.first() == ident);
            assert(extra2.drop_first() =~= extra);
            assert(mangle_idents(extra2) == spec_mangle_ident(ident) + me);
            assert(spec_mangle_prefix(*prefix) + mangle_idents(extra2) =~= mp + me);
            assert forall|i: int| 0 <= i < extra2.len() implies wf_parse_ident(
                #[trigger] extra2[i],
            ) by {
                if i == 0 {
                    assert(extra2[0] == ident);
                } else {
                    assert(extra2[i] == extra[i - 1]);
                }
            }
            lemma_parse_prefix_with_tail(s, pos, *prefix, extra2);
            lemma_wrap_nodes_push(*prefix, Seq::<IdentV>::empty(), ident);
            assert(wrap_nodes(*prefix, extra2) == wrap_nodes(
                PathPrefixV::Node { prefix: Box::new(*prefix), ident },
                extra,
            ));
        },
        PathPrefixV::CrateId { name, dis } => {
            assert(mp == spec_mangle_text(name + seq!['_'] + dis));
            lemma_radix_digits_value((name + seq!['_'] + dis).len(), 10);
            assert(mp[0] == spec_radix_digits((name + seq!['_'] + dis).len(), 10)[0]);
            assert(spec_digit_value(c, 10) is Some);
            assert(sp_peek(s, p1) != 'u') by {
                assert(spec_digit_value('u', 10) is None);
            }
            lemma_parse_crate_id_inverts_ascii(s, pos, name, dis);
            lemma_parse_prefix_tail_inverts(s, p1, p, extra);
        },
        PathPrefixV::TraitImpl { self_type, impled_trait, dis } => {
            let mt = spec_mangle_type(*self_type);
            let mtr: Seq<char> = match impled_trait {
                Some(tr) => spec_mangle_path(*tr),
                None => Seq::empty(),
            };
            let md = spec_mangle_dis(dis);
            assert(mp == seq!['X'] + (mt + (mtr + md))) by {
                assert(seq!['X'] + mt + mtr + md =~= seq!['X'] + (mt + (mtr + md)));
            }
            lemma_subrange_split(s, pos, p1, seq!['X'], mt + (mtr + md));
            let pt = pos + 1 + mt.len() as int;
            lemma_subrange_split(s, pos + 1, p1, mt, mtr + md);
            let ptr = pt + mtr.len() as int;
            lemma_subrange_split(s, pt, p1, mtr, md);
            lemma_parse_type_inverts(s, pos + 1, *self_type);
            // whether a trait path follows is read off the next character
            match impled_trait {
                Some(tr) => {
                    lemma_peek_at(s, pt, ptr, mtr);
                    match *tr {
                        AbsolutePathV::Path { .. } => {
                            assert(sp_peek(s, pt) == 'N');
                        },
                        AbsolutePathV::Subst(sub) => {
                            if sub.0 == 0 {
                                assert(sp_peek(s, pt) == 'S');
                            } else {
                                assert(sp_peek(s, pt) == 'S');
                            }
                        },
                    }
                    lemma_parse_abs_path_inverts(s, pt, *tr);
                },
                None => {
                    assert(ptr == pt);
                    if dis.0 > 0 {
                        lemma_peek_at(s, pt, p1, md);
                        assert(sp_peek(s, pt) == 's');
                    } else {
                        assert(pt == p1);
                    }
                },
            }
            // the disambiguator, closed off by what follows
            if dis.0 == 0 {
                assert(ptr == p1);
            } else {
                lemma_peek_at(s, ptr, p1, md);
            }
            lemma_parse_dis_inverts(s, ptr, dis);
            lemma_parse_prefix_tail_inverts(s, p1, p, extra);
        },
        PathPrefixV::InherentImpl { self_type } => {
            assert(mp == seq!['M'] + spec_mangle_type(*self_type));
            lemma_subrange_split(s, pos, p1, seq!['M'], spec_mangle_type(*self_type));
            lemma_parse_type_inverts(s, pos + 1, *self_type);
            lemma_parse_prefix_tail_inverts(s, p1, p, extra);
        },
        PathPrefixV::Subst(sub) => {
            if sub.0 == 0 {
                assert(mp[0] == 'S');
            } else {
                assert(mp[0] == 'S');
            }
            lemma_parse_subst_inverts(s, pos, sub);
            lemma_parse_prefix_tail_inverts(s, p1, p, extra);
        },
    }
}

/// Reading a path prefix where the mangler wrote one yields the written
/// prefix, provided the character after it closes it.
proof fn lemma_parse_prefix_inverts(s: Seq<char>, pos: int, p: PathPrefixV)
    requires
        0 <= pos,
        wf_parse_prefix(p),
        pos + spec_mangle_prefix(p).len() <= s.len(),
        s.subrange(pos, pos + spec_mangle_prefix(p).len() as int) == spec_mangle_prefix(p),
        ({
            let b = sp_peek(s, pos + spec_mangle_prefix(p).len() as int);
            b == EOT_CHAR || b == 'E' || b == 'I'
        }),
    ensures
        sp_path_prefix(s, pos) == Ok::<(PathPrefixV, int), (ParseErrorKind, int)>(
            (p, pos + spec_mangle_prefix(p).len() as int),
        ),
    decreases p, 8int,
{
    assert(mangle_idents(Seq::<IdentV>::empty()) == Seq::<char>::empty());
    assert(spec_mangle_prefix(p) + Seq::<char>::empty() =~= spec_mangle_prefix(p));
    lemma_parse_prefix_with_tail(s, pos, p, Seq::<IdentV>::empty());
}

/// A path prefix's mangled form never starts with the end sentinel.
proof fn lemma_mangle_prefix_first(p: PathPrefixV)
    ensures
        spec_mangle_prefix(p).len() >= 1,
        spec_mangle_prefix(p)[0] != EOT_CHAR,
    decreases p,
{
    lemma_mangle_prefix_len(p);
    match p {
        PathPrefixV::CrateId { name, dis } => {
            let combined = name + seq!['_'] + dis;
            if ascii_chars(combined) {
                lemma_radix_digits_value(combined.len(), 10);
                assert(spec_mangle_prefix(p)[0] == spec_radix_digits(combined.len(), 10)[0]);
            } else {
                let enc = crate::charset::spec_encode_ident(combined);
                lemma_radix_digits_value(enc.len(), 10);
                assert(spec_mangle_prefix(p)[0] == spec_radix_digits(enc.len(), 10)[0]);
            }
            assert(spec_digit_value(EOT_CHAR, 10) is None);
        },
        PathPrefixV::Node { prefix, ident } => {
            lemma_mangle_prefix_first(*prefix);
            lemma_mangle_prefix_len(*prefix);
            assert(spec_mangle_prefix(p)[0] == spec_mangle_prefix(*prefix)[0]);
        },
        PathPrefixV::TraitImpl { .. } => {
            assert(spec_mangle_prefix(p)[0] == 'X');
        },
        PathPrefixV::InherentImpl { .. } => {
            assert(spec_mangle_prefix(p)[0] == 'M');
        },
        PathPrefixV::Subst(sub) => {
            if sub.0 == 0 {
                assert(spec_mangle_prefix(p)[0] == 'S');
            } else {
                assert(spec_mangle_prefix(p)[0] == 'S');
            }
        },
    }
}

/// The mangle-parse round trip: parsing what the mangler wrote
/// reproduces the symbol exactly, for every symbol whose identifiers the
/// parser can carry back (ASCII text that does not start with a digit,
/// crate disambiguators without underscores, closure or disambiguated
/// empty identifiers, and back-references in type position written as
/// back-reference nodes).
#[verifier::rlimit(100)]
#[verifier::spinoff_prover]
proof fn lemma_mangle_symbol_shape(sym: SymbolV)
    ensures
        ({
            let s = spec_mangle_symbol(sym);
            let mp = spec_mangle_path(sym.name);
            let mic: Seq<char> = match sym.instantiating_crate {
                Some(p) => spec_mangle_prefix(p),
                None => Seq::empty(),
            };
            &&& s.len() == 2 + mp.len() + mic.len()
            &&& s.len() >= 2
            &&& s[0] == '_' && s[1] == 'R'
            &&& s.subrange(2, 2 + mp.len() as int) == mp
            &&& s.subrange(2 + mp.len() as int, s.len() as int) == mic
            &&& mp.len() >= 2
            &&& spec_digit_value(sp_peek(s, 2), 10) is None
        }),
{
    let s = spec_mangle_symbol(sym);
    let mp = spec_mangle_path(sym.name);
    let mic: Seq<char> = match sym.instantiating_crate {
        Some(p) => spec_mangle_prefix(p),
        None => Seq::empty(),
    };
    assert(s == seq!['_', 'R'] + (mp + mic)) by {
        assert(seq!['_', 'R'] + mp + mic =~= seq!['_', 'R'] + (mp + mic));
    }
    assert(s.subrange(0, s.len() as int) =~= s);
    lemma_subrange_split(s, 0, s.len() as int, seq!['_', 'R'], mp + mic);
    lemma_subrange_split(s, 2, s.len() as int, mp, mic);
    assert(s[0] == '_' && s[1] == 'R') by {
        assert(s[0] == (seq!['_', 'R'] + (mp + mic))[0]);
        assert(s[1] == (seq!['_', 'R'] + (mp + mic))[1]);
    }
    match sym.name {
        AbsolutePathV::Path { .. } => {
            assert(mp[0] == 'N');
        },
        AbsolutePathV::Subst(sub) => {
            if sub.0 == 0 {
                assert(mp[0] == 'S');
            } else {
                assert(mp[0] == 'S');
            }
        },
    }
    lemma_peek_at(s, 2, 2 + mp.len() as int, mp);
    assert(spec_digit_value('N', 10) is None);
    assert(spec_digit_value('S', 10) is None);
}

/// The mangle-parse round trip: parsing what the mangler wrote
/// reproduces the symbol exactly, for every symbol whose identifiers the
/// parser can carry back (ASCII text that does not start with a digit,
/// crate disambiguators without underscores, closure or disambiguated
/// empty identifiers, and back-references in type position written as
/// back-reference nodes).
#[verifier::rlimit(100)]
#[verifier::spinoff_prover]
pub proof fn lemma_parse_inverts_mangle(sym: SymbolV)
    requires
        wf_parse_symbol(sym),
    ensures
        sp_symbol(spec_mangle_symbol(sym)) == Ok::<(SymbolV, int), (ParseErrorKind, int)>(
            (sym, spec_mangle_symbol(sym).len() as int),
        ),
{
    let s = spec_mangle_symbol(sym);
    let mp = spec_mangle_path(sym.name);
    let mic: Seq<char> = match sym.instantiating_crate {
        Some(p) => spec_mangle_prefix(p),
        None => Seq::empty(),
    };
    lemma_mangle_symbol_shape(sym);
    lemma_parse_abs_path_inverts(s, 2, sym.name);
    let p1 = 2 + mp.len() as int;
    match sym.instantiating_crate {
        Some(ic) => {
            lemma_mangle_prefix_first(ic);
            lemma_peek_at(s, p1, s.len() as int, mic);
            assert(sp_peek(s, p1) != EOT_CHAR);
            assert(sp_peek(s, s.len() as int) == EOT_CHAR);
            lemma_parse_prefix_inverts(s, p1, ic);
        },
        None => {
            assert(p1 == s.len());
            assert(sp_peek(s, p1) == EOT_CHAR);
        },
    }
}

} // verus!
