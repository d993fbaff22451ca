//! The structured form of a mangled symbol: a tree of path prefixes,
//! absolute paths and types, with back-reference nodes standing for
//! previously emitted subtrees.
//!
//! Each executable node type has a mathematical model (the `...V` types,
//! built from `Seq` and plain values); contracts throughout the crate are
//! stated over those models.
use vstd::prelude::*;

verus! {

broadcast use vstd::std_specs::vec::group_vec_axioms, vstd::seq::group_seq_axioms;

/// Radix used for back-reference indices and numeric disambiguators.
pub const NUMBER_RADIX: u8 = 16;

/// Namespace of an identifier: the type namespace (the default, unmarked),
/// the value namespace, or a closure.
#[derive(Clone, Copy, Debug, PartialEq, Eq, Structural)]
pub enum IdentTag {
    TypeNs,
    ValueNs,
    Closure,
}

/// The fixed alphabet of basic types.
#[derive(Clone, Copy, Debug, PartialEq, Eq, Structural)]
pub enum BasicType {
    Bool,
    Char,
    Str,
    Unit,
    I8,
    I16,
    I32,
    I64,
    I128,
    Isize,
    U8,
    U16,
    U32,
    U64,
    U128,
    Usize,
    F32,
    F64,
    Never,
    Ellipsis,
}

/// A function ABI: the native one (implicit in the mangled form) or "C".
#[derive(Clone, Copy, Debug, PartialEq, Eq, Structural)]
pub enum Abi {
    Rust,
    C,
}

/// A numeric disambiguator. Value 0 means "no suffix emitted"; value 1 has
/// the short mangled form `s_`; value n >= 2 is mangled `s<n-2>_`.
#[derive(Clone, Copy, Debug, PartialEq, Eq, Structural)]
pub struct NumericDisambiguator(pub u64);

/// A back-reference index. Index 0 has the short mangled form `S_`;
/// index n >= 1 is mangled `S<n-1>_`.
#[derive(Clone, Copy, Debug, PartialEq, Eq, Structural)]
pub struct Subst(pub u64);

/// An identifier: text, namespace tag and disambiguator. Closure
/// identifiers have empty text by convention.
#[derive(Clone, Debug, PartialEq, Eq)]
pub struct Ident {
    pub ident: String,
    pub tag: IdentTag,
    pub dis: NumericDisambiguator,
}

/// Model of an identifier.
pub struct IdentV {
    pub ident: Seq<char>,
    pub tag: IdentTag,
    pub dis: NumericDisambiguator,
}

/// A path prefix: the part of an absolute path before the generic arguments.
#[derive(Debug, PartialEq, Eq)]
pub enum PathPrefix {
    CrateId { name: String, dis: String },
    TraitImpl { self_type: Box<Type>, impled_trait: Option<Box<AbsolutePath>>, dis: NumericDisambiguator },
    InherentImpl { self_type: Box<Type> },
    Node { prefix: Box<PathPrefix>, ident: Ident },
    Subst(Subst),
}

/// Model of a path prefix.
pub enum PathPrefixV {
    CrateId { name: Seq<char>, dis: Seq<char> },
    TraitImpl { self_type: Box<TypeV>, impled_trait: Option<Box<AbsolutePathV>>, dis: NumericDisambiguator },
    InherentImpl { self_type: Box<TypeV> },
    Node { prefix: Box<PathPrefixV>, ident: IdentV },
    Subst(Subst),
}

/// An absolute path: a path prefix plus a (possibly empty) list of generic
/// arguments, or a back-reference.
#[derive(Debug, PartialEq, Eq)]
pub enum AbsolutePath {
    Path { name: Box<PathPrefix>, args: GenericArgumentList },
    Subst(Subst),
}

/// Model of an absolute path.
pub enum AbsolutePathV {
    Path { name: Box<PathPrefixV>, args: Seq<TypeV> },
    Subst(Subst),
}

/// An ordered list of generic arguments (types).
#[derive(Debug, PartialEq, Eq)]
pub struct GenericArgumentList(pub Vec<Type>);

/// A type.
#[derive(Debug, PartialEq, Eq)]
pub enum Type {
    BasicType(BasicType),
    Ref(Box<Type>),
    RefMut(Box<Type>),
    RawPtrConst(Box<Type>),
    RawPtrMut(Box<Type>),
    Array(Option<u64>, Box<Type>),
    Tuple(Vec<Type>),
    Named(Box<AbsolutePath>),
    GenericParam(Ident),
    Fn { is_unsafe: bool, abi: Abi, params: Vec<Type>, return_type: Option<Box<Type>> },
    Subst(Subst),
}

/// Model of a type.
pub enum TypeV {
    BasicType(BasicType),
    Ref(Box<TypeV>),
    RefMut(Box<TypeV>),
    RawPtrConst(Box<TypeV>),
    RawPtrMut(Box<TypeV>),
    Array(Option<u64>, Box<TypeV>),
    Tuple(Seq<TypeV>),
    Named(Box<AbsolutePathV>),
    GenericParam(IdentV),
    Fn { is_unsafe: bool, abi: Abi, params: Seq<TypeV>, return_type: Option<Box<TypeV>> },
    Subst(Subst),
}

/// A whole symbol: an absolute path and an optional instantiating crate.
#[derive(Debug, PartialEq, Eq)]
pub struct Symbol {
    pub name: AbsolutePath,
    pub instantiating_crate: Option<PathPrefix>,
}

/// Model of a symbol.
pub struct SymbolV {
    pub name: AbsolutePathV,
    pub instantiating_crate: Option<PathPrefixV>,
}

impl View for Ident {
    type V = IdentV;

    open spec fn view(&self) -> IdentV {
        IdentV { ident: self.ident@, tag: self.tag, dis: self.dis }
    }
}

impl PathPrefix {
    /// Model of this path prefix.
    pub open spec fn model(&self) -> PathPrefixV
        decreases self,
    {
        match self {
            PathPrefix::CrateId { name, dis } => PathPrefixV::CrateId { name: name@, dis: dis@ },
            PathPrefix::TraitImpl { self_type, impled_trait, dis } => PathPrefixV::TraitImpl {
                self_type: Box::new(self_type.model()),
                impled_trait: match impled_trait {
                    Some(t) => Some(Box::new(t.model())),
                    None => None,
                },
                dis: *dis,
            },
            PathPrefix::InherentImpl { self_type } => PathPrefixV::InherentImpl {
                self_type: Box::new(self_type.model()),
            },
            PathPrefix::Node { prefix, ident } => PathPrefixV::Node {
                prefix: Box::new(prefix.model()),
                ident: ident@,
            },
            PathPrefix::Subst(s) => PathPrefixV::Subst(*s),
        }
    }
}

impl AbsolutePath {
    /// Model of this absolute path.
    pub open spec fn model(&self) -> AbsolutePathV
        decreases self,
    {
        match self {
            AbsolutePath::Path { name, args } => AbsolutePathV::Path {
                name: Box::new(name.model()),
                args: view_types(args.0@),
            },
            AbsolutePath::Subst(s) => AbsolutePathV::Subst(*s),
        }
    }
}

impl View for GenericArgumentList {
    type V = Seq<TypeV>;

    open spec fn view(&self) -> Seq<TypeV> {
        view_types(self.0@)
    }
}

impl Type {
    /// Model of this type.
    pub open spec fn model(&self) -> TypeV
        decreases self,
    {
        match self {
            Type::BasicType(b) => TypeV::BasicType(*b),
            Type::Ref(t) => TypeV::Ref(Box::new(t.model())),
            Type::RefMut(t) => TypeV::RefMut(Box::new(t.model())),
            Type::RawPtrConst(t) => TypeV::RawPtrConst(Box::new(t.model())),
            Type::RawPtrMut(t) => TypeV::RawPtrMut(Box::new(t.model())),
            Type::Array(n, t) => TypeV::Array(*n, Box::new(t.model())),
            Type::Tuple(ts) => TypeV::Tuple(view_types(ts@)),
            Type::Named(p) => TypeV::Named(Box::new(p.model())),
            Type::GenericParam(id) => TypeV::GenericParam(id@),
            Type::Fn { is_unsafe, abi, params, return_type } => TypeV::Fn {
                is_unsafe: *is_unsafe,
                abi: *abi,
                params: view_types(params@),
                return_type: match return_type {
                    Some(t) => Some(Box::new(t.model())),
                    None => None,
                },
            },
            Type::Subst(s) => TypeV::Subst(*s),
        }
    }
}

/// Model of a list of types, element by element.
pub open spec fn view_types(ts: Seq<Type>) -> Seq<TypeV>
    decreases ts,
{
    if ts.len() == 0 {
        Seq::empty()
    } else {
        view_types(ts.drop_last()).push(ts.last().model())
    }
}

pub broadcast proof fn lemma_view_types(ts: Seq<Type>)
    ensures
        (#[trigger] view_types(ts)).len() == ts.len(),
        forall|i: int| 0 <= i < ts.len() ==> view_types(ts)[i] == #[trigger] ts[i].model(),
    decreases ts.len(),
{
    if ts.len() > 0 {
        lemma_view_types(ts.drop_last());
        assert forall|i: int| 0 <= i < ts.len() implies view_types(ts)[i] == #[trigger] ts[i].model() by {
            if i < ts.len() - 1 {
                assert(ts.drop_last()[i] == ts[i]);
            }
        }
    }
}

/// The model of a list grows element by element.
pub broadcast proof fn lemma_view_types_push(ts: Seq<Type>, t: Type)
    ensures
        #[trigger] view_types(ts.push(t)) == view_types(ts).push(t.model()),
{
    assert(ts.push(t).drop_last() =~= ts);
    assert(ts.push(t).last() == t);
}

impl View for Symbol {
    type V = SymbolV;

    open spec fn view(&self) -> SymbolV {
        SymbolV {
            name: self.name.model(),
            instantiating_crate: match &self.instantiating_crate {
                Some(p) => Some(p.model()),
                None => None,
            },
        }
    }
}


impl View for PathPrefix {
    type V = PathPrefixV;

    open spec fn view(&self) -> PathPrefixV {
        self.model()
    }
}

impl View for AbsolutePath {
    type V = AbsolutePathV;

    open spec fn view(&self) -> AbsolutePathV {
        self.model()
    }
}

impl View for Type {
    type V = TypeV;

    open spec fn view(&self) -> TypeV {
        self.model()
    }
}

/// Whether two identifiers have the same model.
pub fn ident_eq(a: &Ident, b: &Ident) -> (r: bool)
    ensures
        r == (a@ == b@),
{
    a.ident.eq(&b.ident) && a.tag == b.tag && a.dis == b.dis
}

/// Whether two types have the same model.
pub fn type_eq(a: &Type, b: &Type) -> (r: bool)
    ensures
        r == (a@ == b@),
    decreases a,
{
    match (a, b) {
        (Type::BasicType(x), Type::BasicType(y)) => x == y,
        (Type::Ref(x), Type::Ref(y)) => type_eq(x, y),
        (Type::RefMut(x), Type::RefMut(y)) => type_eq(x, y),
        (Type::RawPtrConst(x), Type::RawPtrConst(y)) => type_eq(x, y),
        (Type::RawPtrMut(x), Type::RawPtrMut(y)) => type_eq(x, y),
        (Type::Array(n, x), Type::Array(m, y)) => {
            let sizes_eq = match (n, m) {
                (Some(nv), Some(mv)) => nv == mv,
                (None, None) => true,
                _ => false,
            };
            sizes_eq && type_eq(x, y)
        },
        (Type::Tuple(xs), Type::Tuple(ys)) => type_list_eq(xs, ys),
        (Type::Named(x), Type::Named(y)) => abs_path_eq(x, y),
        (Type::GenericParam(x), Type::GenericParam(y)) => ident_eq(x, y),
        (
            Type::Fn { is_unsafe: u1, abi: a1, params: p1, return_type: r1 },
            Type::Fn { is_unsafe: u2, abi: a2, params: p2, return_type: r2 },
        ) => {
            let rets_eq = match (r1, r2) {
                (Some(x), Some(y)) => type_eq(x, y),
                (None, None) => true,
                _ => false,
            };
            u1 == u2 && a1 == a2 && rets_eq && type_list_eq(p1, p2)
        },
        (Type::Subst(x), Type::Subst(y)) => x == y,
        _ => false,
    }
}

/// Whether two lists of types have the same models, element by element.
pub fn type_list_eq(a: &Vec<Type>, b: &Vec<Type>) -> (r: bool)
    ensures
        r == (view_types(a@) == view_types(b@)),
    decreases a,
{
    proof {
        lemma_view_types(a@);
        lemma_view_types(b@);
    }
    if a.len() != b.len() {
        proof {
            assert(view_types(a@).len() != view_types(b@).len());
        }
        return false;
    }
    let n = a.len();
    let mut i: usize = 0;
    while i < n
        invariant
            0 <= i <= n == a@.len() == b@.len(),
            forall|j: int| 0 <= j < i ==> view_types(a@)[j] == view_types(b@)[j],
        decreases n - i,
    {
        proof {
            lemma_view_types(a@);
            lemma_view_types(b@);
        }
        if !type_eq(&a[i], &b[i]) {
            proof {
                assert(view_types(a@)[i as int] != view_types(b@)[i as int]);
            }
            return false;
        }
        i += 1;
    }
    proof {
        lemma_view_types(a@);
        lemma_view_types(b@);
        assert(view_types(a@) =~= view_types(b@));
    }
    true
}

/// Whether two absolute paths have the same model.
pub fn abs_path_eq(a: &AbsolutePath, b: &AbsolutePath) -> (r: bool)
    ensures
        r == (a@ == b@),
    decreases a,
{
    match (a, b) {
        (
            AbsolutePath::Path { name: n1, args: a1 },
            AbsolutePath::Path { name: n2, args: a2 },
        ) => prefix_eq(n1, n2) && type_list_eq(&a1.0, &a2.0),
        (AbsolutePath::Subst(x), AbsolutePath::Subst(y)) => x == y,
        _ => false,
    }
}

/// Whether two path prefixes have the same model.
pub fn prefix_eq(a: &PathPrefix, b: &PathPrefix) -> (r: bool)
    ensures
        r == (a@ == b@),
    decreases a,
{
    match (a, b) {
        (
            PathPrefix::CrateId { name: n1, dis: d1 },
            PathPrefix::CrateId { name: n2, dis: d2 },
        ) => n1.eq(n2) && d1.eq(d2),
        (
            PathPrefix::TraitImpl { self_type: s1, impled_trait: t1, dis: d1 },
            PathPrefix::TraitImpl { self_type: s2, impled_trait: t2, dis: d2 },
        ) => {
            let traits_eq = match (t1, t2) {
                (Some(x), Some(y)) => abs_path_eq(x, y),
                (None, None) => true,
                _ => false,
            };
            d1 == d2 && traits_eq && type_eq(s1, s2)
        },
        (
            PathPrefix::InherentImpl { self_type: s1 },
            PathPrefix::InherentImpl { self_type: s2 },
        ) => type_eq(s1, s2),
        (
            PathPrefix::Node { prefix: p1, ident: i1 },
            PathPrefix::Node { prefix: p2, ident: i2 },
        ) => ident_eq(i1, i2) && prefix_eq(p1, p2),
        (PathPrefix::Subst(x), PathPrefix::Subst(y)) => x == y,
        _ => false,
    }
}

} // verus!
