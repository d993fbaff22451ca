//! The mangler: each node of the structured form is written out as the
//! grammar's canonical byte form. The `spec_mangle_*` functions are the
//! reference statement of that form; every executable emitter is proved to
//! append exactly what they describe.
use vstd::prelude::*;

use crate::ast::{
    Abi, AbsolutePath, AbsolutePathV, BasicType, GenericArgumentList, Ident, IdentTag, IdentV,
    NumericDisambiguator, PathPrefix, PathPrefixV, Subst, Symbol, SymbolV, Type, TypeV,
    NUMBER_RADIX,
};
use crate::charset::spec_encode_ident;
use crate::int_radix::{push_radix_digits, spec_radix_digits};
use crate::text::{ascii_chars, chars_are_ascii, chars_to_string, push_str_chars, str_to_chars};
use vstd::string::StringExecFns;

verus! {

broadcast use vstd::std_specs::vec::group_vec_axioms, vstd::seq::group_seq_axioms;

/// The letter of a basic type.
pub open spec fn spec_mangle_basic(b: BasicType) -> char {
    match b {
        BasicType::I8 => 'a',
        BasicType::Bool => 'b',
        BasicType::Char => 'c',
        BasicType::F64 => 'd',
        BasicType::Str => 'e',
        BasicType::F32 => 'f',
        BasicType::U8 => 'h',
        BasicType::Isize => 'i',
        BasicType::Usize => 'j',
        BasicType::I32 => 'l',
        BasicType::U32 => 'm',
        BasicType::I128 => 'n',
        BasicType::U128 => 'o',
        BasicType::I16 => 's',
        BasicType::U16 => 't',
        BasicType::Unit => 'u',
        BasicType::Ellipsis => 'v',
        BasicType::I64 => 'x',
        BasicType::U64 => 'y',
        BasicType::Never => 'z',
    }
}

/// The mangled form of an ABI: nothing for the native one, `Kc` for "C".
pub open spec fn spec_mangle_abi(a: Abi) -> Seq<char> {
    match a {
        Abi::Rust => Seq::empty(),
        Abi::C => seq!['K', 'c'],
    }
}

/// The mangled form of a namespace tag: nothing for the default namespace.
pub open spec fn spec_mangle_tag(t: IdentTag) -> Seq<char> {
    match t {
        IdentTag::TypeNs => Seq::empty(),
        IdentTag::ValueNs => seq!['V'],
        IdentTag::Closure => seq!['C'],
    }
}

/// The mangled form of a numeric disambiguator: absent for 0, `s_` for 1,
/// `s<n-2>_` in hexadecimal otherwise.
pub open spec fn spec_mangle_dis(d: NumericDisambiguator) -> Seq<char> {
    if d.0 == 0 {
        Seq::empty()
    } else if d.0 == 1 {
        seq!['s', '_']
    } else {
        seq!['s'] + spec_radix_digits((d.0 - 2) as nat, NUMBER_RADIX as nat) + seq!['_']
    }
}

/// The mangled form of a back-reference: `S_` for index 0, `S<n-1>_` in
/// hexadecimal otherwise.
pub open spec fn spec_mangle_subst(s: Subst) -> Seq<char> {
    if s.0 == 0 {
        seq!['S', '_']
    } else {
        seq!['S'] + spec_radix_digits((s.0 - 1) as nat, NUMBER_RADIX as nat) + seq!['_']
    }
}

/// Text the mangler takes: ASCII of any length, or anything short enough
/// for the punycode encoder's arithmetic.
pub open spec fn mangleable_text(s: Seq<char>) -> bool {
    ascii_chars(s) || s.len() <= 1000
}

/// Whether every identifier and crate-id text in a node is mangleable.
pub open spec fn mangleable_ident(id: IdentV) -> bool {
    mangleable_text(id.ident)
}

/// Whether every text under a path prefix is mangleable.
pub open spec fn mangleable_prefix(p: PathPrefixV) -> bool
    decreases p, 0int,
{
    match p {
        PathPrefixV::CrateId { name, dis } => mangleable_text(name + seq!['_'] + dis),
        PathPrefixV::TraitImpl { self_type, impled_trait, dis } => mangleable_type(*self_type)
            && (match impled_trait {
            Some(t) => mangleable_path(*t),
            None => true,
        }),
        PathPrefixV::InherentImpl { self_type } => mangleable_type(*self_type),
        PathPrefixV::Node { prefix, ident } => mangleable_prefix(*prefix) && mangleable_ident(
            ident,
        ),
        PathPrefixV::Subst(_) => true,
    }
}

/// Whether every text under an absolute path is mangleable.
pub open spec fn mangleable_path(ap: AbsolutePathV) -> bool
    decreases ap, 2int,
{
    match ap {
        AbsolutePathV::Path { name, args } => mangleable_prefix(*name) && mangleable_type_list(
            args,
        ),
        AbsolutePathV::Subst(_) => true,
    }
}

/// Whether every text under each type of a list is mangleable.
pub open spec fn mangleable_type_list(ts: Seq<TypeV>) -> bool
    decreases ts, 1int,
{
    if ts.len() == 0 {
        true
    } else {
        mangleable_type_list(ts.drop_last()) && mangleable_type(ts.last())
    }
}

/// Whether every text under a type is mangleable.
pub open spec fn mangleable_type(t: TypeV) -> bool
    decreases t, 3int,
{
    match t {
        TypeV::BasicType(_) => true,
        TypeV::Ref(inner) => mangleable_type(*inner),
        TypeV::RefMut(inner) => mangleable_type(*inner),
        TypeV::RawPtrConst(inner) => mangleable_type(*inner),
        TypeV::RawPtrMut(inner) => mangleable_type(*inner),
        TypeV::Array(_opt_size, inner) => mangleable_type(*inner),
        TypeV::Tuple(components) => mangleable_type_list(components),
        TypeV::Named(ap) => mangleable_path(*ap),
        TypeV::GenericParam(id) => mangleable_ident(id),
        TypeV::Fn { is_unsafe, abi, params, return_type } => mangleable_type_list(params) && (
        match return_type {
            Some(rt) => mangleable_type(*rt),
            None => true,
        }),
        TypeV::Subst(_) => true,
    }
}

/// Whether every text under a symbol is mangleable.
pub open spec fn mangleable_symbol(sym: SymbolV) -> bool {
    mangleable_path(sym.name) && (match sym.instantiating_crate {
        Some(p) => mangleable_prefix(p),
        None => true,
    })
}

/// A mangleable list has mangleable elements.
pub proof fn lemma_mangleable_list_index(ts: Seq<TypeV>)
    requires
        mangleable_type_list(ts),
    ensures
        forall|i: int| 0 <= i < ts.len() ==> mangleable_type(#[trigger] ts[i]),
    decreases ts.len(),
{
    if ts.len() > 0 {
        lemma_mangleable_list_index(ts.drop_last());
        assert forall|i: int| 0 <= i < ts.len() implies mangleable_type(#[trigger] ts[i]) by {
            if i < ts.len() - 1 {
                assert(ts.drop_last()[i] == ts[i]);
            } else {
                assert(ts[i] == ts.last());
            }
        }
    }
}

/// The length-prefixed form of identifier text. ASCII text is written
/// as-is; other text goes through the punycode transform and gains the `u`
/// marker after its bytes.
pub open spec fn spec_mangle_text(s: Seq<char>) -> Seq<char>
    recommends
        mangleable_text(s),
{
    if ascii_chars(s) {
        spec_radix_digits(s.len(), 10) + s
    } else {
        let t = spec_encode_ident(s);
        spec_radix_digits(t.len(), 10) + t + seq!['u']
    }
}

/// The mangled form of an identifier: text, tag, disambiguator.
pub open spec fn spec_mangle_ident(id: IdentV) -> Seq<char> {
    spec_mangle_text(id.ident) + spec_mangle_tag(id.tag) + spec_mangle_dis(id.dis)
}

/// The mangled form of a path prefix.
pub open spec fn spec_mangle_prefix(p: PathPrefixV) -> Seq<char>
    decreases p, 0int,
{
    match p {
        PathPrefixV::CrateId { name, dis } => spec_mangle_text(name + seq!['_'] + dis),
        PathPrefixV::TraitImpl { self_type, impled_trait, dis } => seq!['X'] + spec_mangle_type(
            *self_type,
        ) + (match impled_trait {
            Some(t) => spec_mangle_path(*t),
            None => Seq::empty(),
        }) + spec_mangle_dis(dis),
        PathPrefixV::InherentImpl { self_type } => seq!['M'] + spec_mangle_type(*self_type),
        PathPrefixV::Node { prefix, ident } => spec_mangle_prefix(*prefix) + spec_mangle_ident(
            ident,
        ),
        PathPrefixV::Subst(s) => spec_mangle_subst(s),
    }
}

/// The mangled form of an absolute path: `N`, the prefix, the argument
/// list, `E`; or a back-reference.
pub open spec fn spec_mangle_path(ap: AbsolutePathV) -> Seq<char>
    decreases ap, 2int,
{
    match ap {
        AbsolutePathV::Path { name, args } => seq!['N'] + spec_mangle_prefix(*name)
            + spec_mangle_args(args) + seq!['E'],
        AbsolutePathV::Subst(s) => spec_mangle_subst(s),
    }
}

/// The mangled form of a generic-argument list: nothing when empty, else
/// `I`, the types, `E`.
pub open spec fn spec_mangle_args(args: Seq<TypeV>) -> Seq<char>
    decreases args, 1int,
{
    if args.len() == 0 {
        Seq::empty()
    } else {
        seq!['I'] + spec_mangle_type_list(args) + seq!['E']
    }
}

/// The concatenated mangled forms of a list of types.
pub open spec fn spec_mangle_type_list(ts: Seq<TypeV>) -> Seq<char>
    decreases ts, 0int,
{
    if ts.len() == 0 {
        Seq::empty()
    } else {
        spec_mangle_type_list(ts.drop_last()) + spec_mangle_type(ts.last())
    }
}

/// The mangled form of a type.
pub open spec fn spec_mangle_type(t: TypeV) -> Seq<char>
    decreases t, 3int,
{
    match t {
        TypeV::BasicType(b) => seq![spec_mangle_basic(b)],
        TypeV::Ref(inner) => seq!['R'] + spec_mangle_type(*inner),
        TypeV::RefMut(inner) => seq!['Q'] + spec_mangle_type(*inner),
        TypeV::RawPtrConst(inner) => seq!['P'] + spec_mangle_type(*inner),
        TypeV::RawPtrMut(inner) => seq!['O'] + spec_mangle_type(*inner),
        TypeV::Array(opt_size, inner) => seq!['A'] + (match opt_size {
            Some(n) => spec_radix_digits(n as nat, 10),
            None => Seq::empty(),
        }) + spec_mangle_type(*inner),
        TypeV::Tuple(components) => seq!['T'] + spec_mangle_type_list(components) + seq!['E'],
        TypeV::Named(ap) => spec_mangle_path(*ap),
        TypeV::GenericParam(id) => seq!['G'] + spec_mangle_ident(id) + seq!['E'],
        TypeV::Fn { is_unsafe, abi, params, return_type } => seq!['F'] + (if is_unsafe {
            seq!['U']
        } else {
            Seq::empty()
        }) + spec_mangle_abi(abi) + spec_mangle_type_list(params) + (match return_type {
            Some(rt) => seq!['J'] + spec_mangle_type(*rt),
            None => Seq::empty(),
        }) + seq!['E'],
        TypeV::Subst(s) => spec_mangle_subst(s),
    }
}

/// The mangled form of a whole symbol: the `_R` marker, the absolute path,
/// and the instantiating crate where present.
pub open spec fn spec_mangle_symbol(s: SymbolV) -> Seq<char> {
    seq!['_', 'R'] + spec_mangle_path(s.name) + (match s.instantiating_crate {
        Some(p) => spec_mangle_prefix(p),
        None => Seq::empty(),
    })
}

/// Appending one element extends the concatenated list form by that
/// element's form.
pub proof fn lemma_type_list_push(ts: Seq<TypeV>, t: TypeV)
    ensures
        spec_mangle_type_list(ts.push(t)) == spec_mangle_type_list(ts) + spec_mangle_type(t),
{
    assert(ts.push(t).drop_last() =~= ts);
    assert(ts.push(t).last() == t);
}

/// Writes the length-prefixed form of identifier text.
fn push_text(out: &mut Vec<char>, text: &str)
    requires
        mangleable_text(text@),
    ensures
        final(out)@ == old(out)@ + spec_mangle_text(text@),
{
    let cs = str_to_chars(text);
    let ascii = chars_are_ascii(&cs, 0, cs.len());
    proof {
        assert(cs@.subrange(0, cs@.len() as int) =~= cs@);
    }
    if ascii {
        push_radix_digits(out, cs.len() as u64, 10);
        push_str_chars(out, text);
    } else {
        let t = crate::charset::encode_punycode_ident(text);
        let tc = str_to_chars(t.as_str());
        push_radix_digits(out, tc.len() as u64, 10);
        push_str_chars(out, t.as_str());
        out.push('u');
        proof {
            assert(out@ =~= old(out)@ + spec_mangle_text(text@));
        }
    }
}

impl IdentTag {
    /// Writes the namespace tag of an identifier.
    fn mangle_chars(&self, out: &mut Vec<char>)
        ensures
            final(out)@ == old(out)@ + spec_mangle_tag(*self),
    {
        match self {
            IdentTag::TypeNs => {},
            IdentTag::ValueNs => out.push('V'),
            IdentTag::Closure => out.push('C'),
        }
    }

    /// Appends the mangled form of this namespace tag.
    pub fn mangle(&self, out: &mut String)
        ensures
            final(out)@ == old(out)@ + spec_mangle_tag(*self),
    {
        let mut buf: Vec<char> = Vec::new();
        self.mangle_chars(&mut buf);
        let s = chars_to_string(&buf);
        out.append(s.as_str());
    }
}

impl NumericDisambiguator {
    /// Writes the mangled form of this disambiguator.
    fn mangle_chars(&self, out: &mut Vec<char>)
        ensures
            final(out)@ == old(out)@ + spec_mangle_dis(*self),
    {
        if self.0 == 0 {
            // no suffix
        } else if self.0 == 1 {
            out.push('s');
            out.push('_');
        } else {
            out.push('s');
            push_radix_digits(out, self.0 - 2, NUMBER_RADIX);
            out.push('_');
            proof {
                assert(out@ =~= old(out)@ + spec_mangle_dis(*self));
            }
        }
    }

    /// Appends the mangled form of this disambiguator.
    pub fn mangle(&self, out: &mut String)
        ensures
            final(out)@ == old(out)@ + spec_mangle_dis(*self),
    {
        let mut buf: Vec<char> = Vec::new();
        self.mangle_chars(&mut buf);
        let s = chars_to_string(&buf);
        out.append(s.as_str());
    }
}

impl Subst {
    /// Writes the mangled form of this back-reference.
    fn mangle_chars(&self, out: &mut Vec<char>)
        ensures
            final(out)@ == old(out)@ + spec_mangle_subst(*self),
    {
        if self.0 == 0 {
            out.push('S');
            out.push('_');
        } else {
            out.push('S');
            push_radix_digits(out, self.0 - 1, NUMBER_RADIX);
            out.push('_');
            proof {
                assert(out@ =~= old(out)@ + spec_mangle_subst(*self));
            }
        }
    }

    /// Appends the mangled form of this back-reference.
    pub fn mangle(&self, out: &mut String)
        ensures
            final(out)@ == old(out)@ + spec_mangle_subst(*self),
    {
        let mut buf: Vec<char> = Vec::new();
        self.mangle_chars(&mut buf);
        let s = chars_to_string(&buf);
        out.append(s.as_str());
    }
}

impl Ident {
    /// Writes the mangled form of this identifier.
    fn mangle_chars(&self, out: &mut Vec<char>)
        requires
            mangleable_ident(self@),
        ensures
            final(out)@ == old(out)@ + spec_mangle_ident(self@),
    {
        push_text(out, self.ident.as_str());
        self.tag.mangle_chars(out);
        self.dis.mangle_chars(out);
    }

    /// Appends the mangled form of this identifier.
    pub fn mangle(&self, out: &mut String)
        requires
            mangleable_ident(self@),
        ensures
            final(out)@ == old(out)@ + spec_mangle_ident(self@),
    {
        let mut buf: Vec<char> = Vec::new();
        self.mangle_chars(&mut buf);
        let s = chars_to_string(&buf);
        out.append(s.as_str());
    }
}

impl Abi {
    /// Writes the mangled form of this ABI.
    fn mangle_chars(&self, out: &mut Vec<char>)
        ensures
            final(out)@ == old(out)@ + spec_mangle_abi(*self),
    {
        match self {
            Abi::Rust => {},
            Abi::C => {
                out.push('K');
                out.push('c');
            },
        }
    }

    /// Appends the mangled form of this ABI.
    pub fn mangle(&self, out: &mut String)
        ensures
            final(out)@ == old(out)@ + spec_mangle_abi(*self),
    {
        let mut buf: Vec<char> = Vec::new();
        self.mangle_chars(&mut buf);
        let s = chars_to_string(&buf);
        out.append(s.as_str());
    }
}

impl BasicType {
    /// Writes the letter of this basic type.
    fn mangle_chars(&self, out: &mut Vec<char>)
        ensures
            final(out)@ == old(out)@ + seq![spec_mangle_basic(*self)],
    {
        out.push(
            match self {
                BasicType::I8 => 'a',
                BasicType::Bool => 'b',
                BasicType::Char => 'c',
                BasicType::F64 => 'd',
                BasicType::Str => 'e',
                BasicType::F32 => 'f',
                BasicType::U8 => 'h',
                BasicType::Isize => 'i',
                BasicType::Usize => 'j',
                BasicType::I32 => 'l',
                BasicType::U32 => 'm',
                BasicType::I128 => 'n',
                BasicType::U128 => 'o',
                BasicType::I16 => 's',
                BasicType::U16 => 't',
                BasicType::Unit => 'u',
                BasicType::Ellipsis => 'v',
                BasicType::I64 => 'x',
                BasicType::U64 => 'y',
                BasicType::Never => 'z',
            },
        );
    }

    /// Appends the letter of this basic type.
    pub fn mangle(&self, out: &mut String)
        ensures
            final(out)@ == old(out)@ + seq![spec_mangle_basic(*self)],
    {
        let mut buf: Vec<char> = Vec::new();
        self.mangle_chars(&mut buf);
        let s = chars_to_string(&buf);
        out.append(s.as_str());
    }
}

impl PathPrefix {
    /// Writes the mangled form of this path prefix.
    fn mangle_chars(&self, out: &mut Vec<char>)
        requires
            mangleable_prefix(self@),
        ensures
            final(out)@ == old(out)@ + spec_mangle_prefix(self@),
        decreases self,
    {
        match self {
            PathPrefix::CrateId { name, dis } => {
                let mut cs = str_to_chars(name.as_str());
                cs.push('_');
                let ds = str_to_chars(dis.as_str());
                let mut k: usize = 0;
                while k < ds.len()
                    invariant
                        0 <= k <= ds@.len(),
                        ds@ == dis@,
                        cs@ == name@ + seq!['_'] + dis@.subrange(0, k as int),
                    decreases ds@.len() - k,
                {
                    cs.push(ds[k]);
                    proof {
                        assert(cs@ =~= name@ + seq!['_'] + dis@.subrange(0, k + 1));
                    }
                    k += 1;
                }
                proof {
                    assert(cs@ =~= name@ + seq!['_'] + dis@);
                }
                let combined = chars_to_string(&cs);
                push_text(out, combined.as_str());
            },
            PathPrefix::TraitImpl { self_type, impled_trait, dis } => {
                out.push('X');
                self_type.mangle_chars(out);
                match impled_trait {
                    Some(t) => t.mangle_chars(out),
                    None => {},
                }
                dis.mangle_chars(out);
                proof {
                    assert(out@ =~= old(out)@ + spec_mangle_prefix(self@));
                }
            },
            PathPrefix::InherentImpl { self_type } => {
                out.push('M');
                self_type.mangle_chars(out);
            },
            PathPrefix::Node { prefix, ident } => {
                prefix.mangle_chars(out);
                ident.mangle_chars(out);
            },
            PathPrefix::Subst(s) => {
                s.mangle_chars(out);
            },
        }
    }

    /// Appends the mangled form of this path prefix.
    pub fn mangle(&self, out: &mut String)
        requires
            mangleable_prefix(self@),
        ensures
            final(out)@ == old(out)@ + spec_mangle_prefix(self@),
    {
        let mut buf: Vec<char> = Vec::new();
        self.mangle_chars(&mut buf);
        let s = chars_to_string(&buf);
        out.append(s.as_str());
    }
}

impl AbsolutePath {
    /// Writes the mangled form of this absolute path.
    fn mangle_chars(&self, out: &mut Vec<char>)
        requires
            mangleable_path(self@),
        ensures
            final(out)@ == old(out)@ + spec_mangle_path(self@),
        decreases self,
    {
        match self {
            AbsolutePath::Path { name, args } => {
                out.push('N');
                name.mangle_chars(out);
                args.mangle_chars(out);
                out.push('E');
                proof {
                    assert(out@ =~= old(out)@ + spec_mangle_path(self@));
                }
            },
            AbsolutePath::Subst(s) => {
                s.mangle_chars(out);
            },
        }
    }

    /// Appends the mangled form of this absolute path.
    pub fn mangle(&self, out: &mut String)
        requires
            mangleable_path(self@),
        ensures
            final(out)@ == old(out)@ + spec_mangle_path(self@),
    {
        let mut buf: Vec<char> = Vec::new();
        self.mangle_chars(&mut buf);
        let s = chars_to_string(&buf);
        out.append(s.as_str());
    }
}

impl GenericArgumentList {
    /// Writes the mangled form of this argument list.
    fn mangle_chars(&self, out: &mut Vec<char>)
        requires
            mangleable_type_list(self@),
        ensures
            final(out)@ == old(out)@ + spec_mangle_args(self@),
        decreases self,
    {
        broadcast use crate::ast::lemma_view_types;

        if self.0.len() > 0 {
            out.push('I');
            push_type_list(out, &self.0);
            out.push('E');
            proof {
                assert(out@ =~= old(out)@ + spec_mangle_args(self@));
            }
        }
    }

    /// Appends the mangled form of this argument list.
    pub fn mangle(&self, out: &mut String)
        requires
            mangleable_type_list(self@),
        ensures
            final(out)@ == old(out)@ + spec_mangle_args(self@),
    {
        let mut buf: Vec<char> = Vec::new();
        self.mangle_chars(&mut buf);
        let s = chars_to_string(&buf);
        out.append(s.as_str());
    }
}

/// Writes the concatenated mangled forms of a list of types.
fn push_type_list(out: &mut Vec<char>, ts: &Vec<Type>)
    requires
        mangleable_type_list(crate::ast::view_types(ts@)),
    ensures
        final(out)@ == old(out)@ + spec_mangle_type_list(crate::ast::view_types(ts@)),
    decreases ts,
{
    broadcast use crate::ast::lemma_view_types;

    let ghost orig = out@;
    let n = ts.len();
    let mut i: usize = 0;
    while i < n
        invariant
            0 <= i <= n == ts@.len(),
            mangleable_type_list(crate::ast::view_types(ts@)),
            out@ == orig + spec_mangle_type_list(crate::ast::view_types(ts@).subrange(0, i as int)),
        decreases n - i,
    {
        proof {
            crate::ast::lemma_view_types(ts@);
            lemma_mangleable_list_index(crate::ast::view_types(ts@));
        }
        ts[i].mangle_chars(out);
        proof {
            let vts = crate::ast::view_types(ts@);
            assert(vts.subrange(0, i + 1) =~= vts.subrange(0, i as int).push(vts[i as int]));
            lemma_type_list_push(vts.subrange(0, i as int), vts[i as int]);
        }
        i += 1;
    }
    proof {
        let vts = crate::ast::view_types(ts@);
        assert(vts.subrange(0, n as int) =~= vts);
    }
}

impl Type {
    /// Writes the mangled form of this type.
    fn mangle_chars(&self, out: &mut Vec<char>)
        requires
            mangleable_type(self@),
        ensures
            final(out)@ == old(out)@ + spec_mangle_type(self@),
        decreases self,
    {
        match self {
            Type::BasicType(b) => {
                b.mangle_chars(out);
            },
            Type::Ref(t) => {
                out.push('R');
                t.mangle_chars(out);
            },
            Type::RefMut(t) => {
                out.push('Q');
                t.mangle_chars(out);
            },
            Type::RawPtrConst(t) => {
                out.push('P');
                t.mangle_chars(out);
            },
            Type::RawPtrMut(t) => {
                out.push('O');
                t.mangle_chars(out);
            },
            Type::Array(opt_size, t) => {
                out.push('A');
                match opt_size {
                    Some(n) => push_radix_digits(out, *n, 10),
                    None => {},
                }
                t.mangle_chars(out);
                proof {
                    assert(out@ =~= old(out)@ + spec_mangle_type(self@));
                }
            },
            Type::Tuple(ts) => {
                out.push('T');
                push_type_list(out, ts);
                out.push('E');
                proof {
                    assert(out@ =~= old(out)@ + spec_mangle_type(self@));
                }
            },
            Type::Named(ap) => {
                ap.mangle_chars(out);
            },
            Type::GenericParam(id) => {
                out.push('G');
                id.mangle_chars(out);
                out.push('E');
                proof {
                    assert(out@ =~= old(out)@ + spec_mangle_type(self@));
                }
            },
            Type::Fn { is_unsafe, abi, params, return_type } => {
                out.push('F');
                if *is_unsafe {
                    out.push('U');
                }
                abi.mangle_chars(out);
                push_type_list(out, params);
                match return_type {
                    Some(rt) => {
                        out.push('J');
                        rt.mangle_chars(out);
                    },
                    None => {},
                }
                out.push('E');
                proof {
                    assert(out@ =~= old(out)@ + spec_mangle_type(self@));
                }
            },
            Type::Subst(s) => {
                s.mangle_chars(out);
            },
        }
    }

    /// Appends the mangled form of this type.
    pub fn mangle(&self, out: &mut String)
        requires
            mangleable_type(self@),
        ensures
            final(out)@ == old(out)@ + spec_mangle_type(self@),
    {
        let mut buf: Vec<char> = Vec::new();
        self.mangle_chars(&mut buf);
        let s = chars_to_string(&buf);
        out.append(s.as_str());
    }
}

impl Symbol {
    /// Writes the mangled form of this symbol.
    fn mangle_chars(&self, out: &mut Vec<char>)
        requires
            mangleable_symbol(self@),
        ensures
            final(out)@ == old(out)@ + spec_mangle_symbol(self@),
    {
        out.push('_');
        out.push('R');
        self.name.mangle_chars(out);
        match &self.instantiating_crate {
            Some(p) => p.mangle_chars(out),
            None => {},
        }
        proof {
            assert(out@ =~= old(out)@ + spec_mangle_symbol(self@));
        }
    }

    /// Appends the mangled form of this symbol.
    pub fn mangle(&self, out: &mut String)
        requires
            mangleable_symbol(self@),
        ensures
            final(out)@ == old(out)@ + spec_mangle_symbol(self@),
    {
        let mut buf: Vec<char> = Vec::new();
        self.mangle_chars(&mut buf);
        let s = chars_to_string(&buf);
        out.append(s.as_str());
    }
}

/// An empty generic-argument list is mangled as nothing at all.
pub proof fn lemma_empty_args_mangle_nothing(args: Seq<TypeV>)
    requires
        args.len() == 0,
    ensures
        spec_mangle_args(args) == Seq::<char>::empty(),
{
}

/// Back-reference index 0 has the two-byte short form, and disambiguator
/// value 1 has its own short form.
pub proof fn lemma_short_forms()
    ensures
        spec_mangle_subst(Subst(0)) == seq!['S', '_'],
        spec_mangle_dis(NumericDisambiguator(1)) == seq!['s', '_'],
        spec_mangle_dis(NumericDisambiguator(0)) == Seq::<char>::empty(),
{
}

/// An array without a length is mangled as `A` and its element type, with
/// no decimal prefix between them.
pub proof fn lemma_array_absent_length(t: TypeV)
    ensures
        spec_mangle_type(TypeV::Array(None, Box::new(t))) == seq!['A'] + spec_mangle_type(t),
{
    assert(seq!['A'] + Seq::<char>::empty() + spec_mangle_type(t) =~= seq!['A']
        + spec_mangle_type(t));
}

/// A function without a return type has no `J` clause; a unit return is
/// carried by `J` and the unit letter.
pub proof fn lemma_fn_return_clause(params: Seq<TypeV>)
    ensures
        spec_mangle_type(
            TypeV::Fn { is_unsafe: false, abi: Abi::Rust, params, return_type: None },
        ) == seq!['F'] + spec_mangle_type_list(params) + seq!['E'],
        spec_mangle_type(
            TypeV::Fn {
                is_unsafe: false,
                abi: Abi::Rust,
                params,
                return_type: Some(Box::new(TypeV::BasicType(BasicType::Unit))),
            },
        ) == seq!['F'] + spec_mangle_type_list(params) + seq!['J', 'u'] + seq!['E'],
{
    let l = spec_mangle_type_list(params);
    assert(seq!['F'] + Seq::<char>::empty() + Seq::<char>::empty() + l + Seq::<char>::empty()
        + seq!['E'] =~= seq!['F'] + l + seq!['E']);
    assert(seq!['J'] + spec_mangle_type(TypeV::BasicType(BasicType::Unit)) =~= seq!['J', 'u']);
    assert(seq!['F'] + Seq::<char>::empty() + Seq::<char>::empty() + l + (seq!['J']
        + spec_mangle_type(TypeV::BasicType(BasicType::Unit))) + seq!['E'] =~= seq!['F'] + l
        + seq!['J', 'u'] + seq!['E']);
}

} // verus!
