//! An alternative compressor: it walks the tree exactly like the
//! structural one, but keys its dictionary on the verbose rendering of
//! each subtree instead of the subtree itself. It is slower and exists as
//! a cross-check of the structural compressor: both must produce the same
//! compressed form for every input.
//!
//! The rendering conflates exactly what the substitution rules share: an
//! absolute path with empty arguments renders like its prefix, and a named
//! type renders like its path, so the duplicate-checking insertion makes
//! those nodes share one slot.
use vstd::prelude::*;

use crate::ast::{
    view_types, AbsolutePath, AbsolutePathV, GenericArgumentList, PathPrefix, PathPrefixV, Subst,
    Symbol, SymbolV, Type, TypeV,
};
use crate::compress::{clone_ident, clone_prefix};
use crate::debug::DebugDictionary;
use crate::pretty::{spec_pretty_path, spec_pretty_prefix, spec_pretty_type};

verus! {

broadcast use vstd::std_specs::vec::group_vec_axioms, vstd::seq::group_seq_axioms;

/// The first index holding exactly this key, if any.
pub open spec fn sa_find(dict: Seq<Seq<char>>, key: Seq<char>) -> Option<int>
    decreases dict.len(),
{
    if dict.len() == 0 {
        None
    } else if dict[0] == key {
        Some(0)
    } else {
        match sa_find(dict.drop_first(), key) {
            Some(i) => Some(i + 1),
            None => None,
        }
    }
}

/// Appends a key unless it is already present.
pub open spec fn sa_alloc(dict: Seq<Seq<char>>, key: Seq<char>) -> Seq<Seq<char>> {
    if sa_find(dict, key) is Some {
        dict
    } else {
        dict.push(key)
    }
}

/// Looks up a path prefix by rendering; an inherent-impl scope is sought
/// through its self type.
pub open spec fn sa_lookup_prefix(dict: Seq<Seq<char>>, p: PathPrefixV) -> Option<int>
    decreases p,
{
    match p {
        PathPrefixV::InherentImpl { self_type } => sa_lookup_type(dict, *self_type),
        PathPrefixV::Subst(_) => None,
        _ => sa_find(dict, spec_pretty_prefix(p, true)),
    }
}

/// Looks up an absolute path by rendering; one with empty arguments is
/// sought through its prefix.
pub open spec fn sa_lookup_path(dict: Seq<Seq<char>>, ap: AbsolutePathV) -> Option<int>
    decreases ap,
{
    match ap {
        AbsolutePathV::Path { name, args } => if args.len() == 0 {
            sa_lookup_prefix(dict, *name)
        } else {
            sa_find(dict, spec_pretty_path(ap, true))
        },
        AbsolutePathV::Subst(_) => None,
    }
}

/// Looks up a type by rendering; a named type is sought through its path.
pub open spec fn sa_lookup_type(dict: Seq<Seq<char>>, t: TypeV) -> Option<int>
    decreases t,
{
    match t {
        TypeV::Named(ap) => sa_lookup_path(dict, *ap),
        TypeV::Subst(_) => None,
        _ => sa_find(dict, spec_pretty_type(t, true)),
    }
}

/// Compresses a path prefix, keying the dictionary on renderings.
pub open spec fn sa_prefix(dict: Seq<Seq<char>>, p: PathPrefixV) -> (PathPrefixV, Seq<Seq<char>>)
    decreases p, 0int,
{
    match sa_lookup_prefix(dict, p) {
        Some(i) => (PathPrefixV::Subst(Subst(i as u64)), dict),
        None => match p {
            PathPrefixV::CrateId { .. } => (p, sa_alloc(dict, spec_pretty_prefix(p, true))),
            PathPrefixV::TraitImpl { self_type, impled_trait, dis } => {
                let (st2, d1) = sa_type(dict, *self_type);
                let (tr2, d2) = match impled_trait {
                    Some(t) => {
                        let (t2, dx) = sa_path(d1, *t);
                        (Some(Box::new(t2)), dx)
                    },
                    None => (None, d1),
                };
                (
                    PathPrefixV::TraitImpl {
                        self_type: Box::new(st2),
                        impled_trait: tr2,
                        dis,
                    },
                    sa_alloc(d2, spec_pretty_prefix(p, true)),
                )
            },
            PathPrefixV::InherentImpl { self_type } => {
                let (st2, d1) = sa_type(dict, *self_type);
                (PathPrefixV::InherentImpl { self_type: Box::new(st2) }, d1)
            },
            PathPrefixV::Node { prefix, ident } => {
                let (pf2, d1) = sa_prefix(dict, *prefix);
                (
                    PathPrefixV::Node { prefix: Box::new(pf2), ident },
                    sa_alloc(d1, spec_pretty_prefix(p, true)),
                )
            },
            PathPrefixV::Subst(_) => (p, dict),
        },
    }
}

/// Compresses an absolute path, keying the dictionary on renderings.
pub open spec fn sa_path(dict: Seq<Seq<char>>, ap: AbsolutePathV) -> (AbsolutePathV, Seq<
    Seq<char>,
>)
    decreases ap, 2int,
{
    match sa_lookup_path(dict, ap) {
        Some(i) => (AbsolutePathV::Subst(Subst(i as u64)), dict),
        None => match ap {
            AbsolutePathV::Path { name, args } => {
                let (name2, d1) = sa_prefix(dict, *name);
                let (args2, d2) = sa_type_list(d1, args);
                (
                    AbsolutePathV::Path { name: Box::new(name2), args: args2 },
                    sa_alloc(d2, spec_pretty_path(ap, true)),
                )
            },
            AbsolutePathV::Subst(_) => (ap, dict),
        },
    }
}

/// Compresses each type of a list in order.
pub open spec fn sa_type_list(dict: Seq<Seq<char>>, ts: Seq<TypeV>) -> (Seq<TypeV>, Seq<
    Seq<char>,
>)
    decreases ts, 1int,
{
    if ts.len() == 0 {
        (Seq::empty(), dict)
    } else {
        let (init, d1) = sa_type_list(dict, ts.drop_last());
        let (last2, d2) = sa_type(d1, ts.last());
        (init.push(last2), d2)
    }
}

/// Compresses a type, keying the dictionary on renderings. Basic types and
/// bare generic parameters pass through and never gain a key.
pub open spec fn sa_type(dict: Seq<Seq<char>>, t: TypeV) -> (TypeV, Seq<Seq<char>>)
    decreases t, 3int,
{
    match sa_lookup_type(dict, t) {
        Some(i) => (TypeV::Subst(Subst(i as u64)), dict),
        None => match t {
            TypeV::BasicType(_) => (t, dict),
            TypeV::GenericParam(_) => (t, dict),
            TypeV::Subst(_) => (t, dict),
            TypeV::Named(ap) => {
                let (ap2, d1) = sa_path(dict, *ap);
                (TypeV::Named(Box::new(ap2)), d1)
            },
            TypeV::Ref(inner) => {
                let (i2, d1) = sa_type(dict, *inner);
                (TypeV::Ref(Box::new(i2)), sa_alloc(d1, spec_pretty_type(t, true)))
            },
            TypeV::RefMut(inner) => {
                let (i2, d1) = sa_type(dict, *inner);
                (TypeV::RefMut(Box::new(i2)), sa_alloc(d1, spec_pretty_type(t, true)))
            },
            TypeV::RawPtrConst(inner) => {
                let (i2, d1) = sa_type(dict, *inner);
                (TypeV::RawPtrConst(Box::new(i2)), sa_alloc(d1, spec_pretty_type(t, true)))
            },
            TypeV::RawPtrMut(inner) => {
                let (i2, d1) = sa_type(dict, *inner);
                (TypeV::RawPtrMut(Box::new(i2)), sa_alloc(d1, spec_pretty_type(t, true)))
            },
            TypeV::Array(opt_size, inner) => {
                let (i2, d1) = sa_type(dict, *inner);
                (TypeV::Array(opt_size, Box::new(i2)), sa_alloc(d1, spec_pretty_type(t, true)))
            },
            TypeV::Tuple(components) => {
                let (cs2, d1) = sa_type_list(dict, components);
                (TypeV::Tuple(cs2), sa_alloc(d1, spec_pretty_type(t, true)))
            },
            TypeV::Fn { is_unsafe, abi, params, return_type } => {
                let (ps2, d1) = sa_type_list(dict, params);
                let (rt2, d2) = match return_type {
                    Some(rt) => {
                        let (r2, dx) = sa_type(d1, *rt);
                        (Some(Box::new(r2)), dx)
                    },
                    None => (None, d1),
                };
                (
                    TypeV::Fn { is_unsafe, abi, params: ps2, return_type: rt2 },
                    sa_alloc(d2, spec_pretty_type(t, true)),
                )
            },
        },
    }
}

/// Compresses a whole symbol starting from an empty dictionary.
pub open spec fn sa_symbol(sym: SymbolV) -> (SymbolV, Seq<Seq<char>>) {
    let (name2, d1) = sa_path(Seq::empty(), sym.name);
    let (ic2, d2) = match sym.instantiating_crate {
        Some(p) => {
            let (p2, dx) = sa_prefix(d1, p);
            (Some(p2), dx)
        },
        None => (None, d1),
    };
    (SymbolV { name: name2, instantiating_crate: ic2 }, d2)
}

/// The rendering-keyed compressor's state.
pub struct CompressAlt {
    pub dict: Vec<String>,
}

/// Model of a rendering dictionary, key by key.
pub open spec fn view_keys(d: Seq<String>) -> Seq<Seq<char>>
    decreases d,
{
    if d.len() == 0 {
        Seq::empty()
    } else {
        view_keys(d.drop_last()).push(d.last()@)
    }
}

/// The key model grows key by key.
pub broadcast proof fn lemma_view_keys_push(d: Seq<String>, e: String)
    ensures
        #[trigger] view_keys(d.push(e)) == view_keys(d).push(e@),
{
    assert(d.push(e).drop_last() =~= d);
    assert(d.push(e).last() == e);
}

/// Element access in the key model.
pub broadcast proof fn lemma_view_keys(d: Seq<String>)
    ensures
        (#[trigger] view_keys(d)).len() == d.len(),
        forall|i: int| 0 <= i < d.len() ==> view_keys(d)[i] == (#[trigger] d[i])@,
    decreases d.len(),
{
    if d.len() > 0 {
        lemma_view_keys(d.drop_last());
        assert forall|i: int| 0 <= i < d.len() implies view_keys(d)[i] == (#[trigger] d[i])@ by {
            if i < d.len() - 1 {
                assert(d.drop_last()[i] == d[i]);
            }
        }
    }
}

impl CompressAlt {
    /// Model of the dictionary.
    pub open spec fn model(&self) -> Seq<Seq<char>> {
        view_keys(self.dict@)
    }

    /// A fresh compressor with an empty dictionary.
    fn new() -> (r: CompressAlt)
        ensures
            r.model() =~= Seq::<Seq<char>>::empty(),
    {
        let r = CompressAlt { dict: Vec::new() };
        proof {
            lemma_view_keys(r.dict@);
        }
        r
    }

    /// The first dictionary index holding exactly this key.
    fn find(&self, key: &String) -> (r: Option<usize>)
        ensures
            match r {
                Some(i) => sa_find(self.model(), key@) == Some(i as int) && i < self.dict@.len(),
                None => sa_find(self.model(), key@) is None,
            },
    {
        let ghost dv = self.model();
        proof {
            lemma_view_keys(self.dict@);
        }
        let n = self.dict.len();
        let mut i: usize = 0;
        proof {
            assert(dv.subrange(0, n as int) =~= dv);
        }
        while i < n
            invariant
                0 <= i <= n == self.dict@.len(),
                dv == self.model(),
                dv.len() == n,
                sa_find(dv, key@) == (match sa_find(dv.subrange(i as int, n as int), key@) {
                    Some(k) => Some(k + i),
                    None => None::<int>,
                }),
            decreases n - i,
        {
            proof {
                lemma_view_keys(self.dict@);
            }
            let hit = self.dict[i].eq(key);
            proof {
                let tail = dv.subrange(i as int, n as int);
                assert(tail[0] == dv[i as int]);
                assert(tail.drop_first() =~= dv.subrange(i + 1, n as int));
                assert(dv[i as int] == self.dict@[i as int]@);
            }
            if hit {
                return Some(i);
            }
            i += 1;
        }
        proof {
            assert(dv.subrange(n as int, n as int) =~= Seq::<Seq<char>>::empty());
        }
        None
    }

    /// Appends a key unless it is already present.
    fn alloc_subst(&mut self, key: String)
        ensures
            final(self).model() == sa_alloc(old(self).model(), key@),
    {
        match self.find(&key) {
            Some(_) => {},
            None => {
                proof {
                    lemma_view_keys_push(self.dict@, key);
                }
                self.dict.push(key);
            },
        }
    }

    /// The verbose rendering of a path prefix.
    fn prefix_key(p: &PathPrefix) -> (r: String)
        ensures
            r@ == spec_pretty_prefix(p@, true),
    {
        let mut out = String::new();
        p.pretty_print(&mut out, true);
        out
    }

    /// The verbose rendering of an absolute path.
    fn path_key(ap: &AbsolutePath) -> (r: String)
        ensures
            r@ == spec_pretty_path(ap@, true),
    {
        let mut out = String::new();
        ap.pretty_print(&mut out, true);
        out
    }

    /// The verbose rendering of a type.
    fn type_key(t: &Type) -> (r: String)
        ensures
            r@ == spec_pretty_type(t@, true),
    {
        let mut out = String::new();
        t.pretty_print(&mut out, true);
        out
    }

    /// Looks up a path prefix per the eligibility rules.
    fn lookup_prefix_subst(&self, p: &PathPrefix) -> (r: Option<Subst>)
        ensures
            match r {
                Some(s) => sa_lookup_prefix(self.model(), p@) == Some(s.0 as int) && s.0
                    < self.dict@.len(),
                None => sa_lookup_prefix(self.model(), p@) is None,
            },
        decreases p, 1int,
    {
        match p {
            PathPrefix::InherentImpl { self_type } => self.lookup_type_subst(self_type),
            PathPrefix::Subst(_) => None,
            _ => {
                let key = Self::prefix_key(p);
                match self.find(&key) {
                    Some(i) => Some(Subst(i as u64)),
                    None => None,
                }
            },
        }
    }

    /// Looks up an absolute path per the eligibility rules.
    fn lookup_abs_path_subst(&self, ap: &AbsolutePath) -> (r: Option<Subst>)
        ensures
            match r {
                Some(s) => sa_lookup_path(self.model(), ap@) == Some(s.0 as int) && s.0
                    < self.dict@.len(),
                None => sa_lookup_path(self.model(), ap@) is None,
            },
        decreases ap, 2int,
    {
        match ap {
            AbsolutePath::Path { name, args } => {
                proof {
                    crate::ast::lemma_view_types(args.0@);
                }
                if args.0.len() == 0 {
                    self.lookup_prefix_subst(name)
                } else {
                    let key = Self::path_key(ap);
                    match self.find(&key) {
                        Some(i) => Some(Subst(i as u64)),
                        None => None,
                    }
                }
            },
            AbsolutePath::Subst(_) => None,
        }
    }

    /// Looks up a type per the eligibility rules.
    fn lookup_type_subst(&self, t: &Type) -> (r: Option<Subst>)
        ensures
            match r {
                Some(s) => sa_lookup_type(self.model(), t@) == Some(s.0 as int) && s.0
                    < self.dict@.len(),
                None => sa_lookup_type(self.model(), t@) is None,
            },
        decreases t, 0int,
    {
        match t {
            Type::Named(ap) => self.lookup_abs_path_subst(ap),
            Type::Subst(_) => None,
            _ => {
                let key = Self::type_key(t);
                match self.find(&key) {
                    Some(i) => Some(Subst(i as u64)),
                    None => None,
                }
            },
        }
    }

    /// Compresses a path prefix.
    fn compress_path_prefix(&mut self, p: &PathPrefix) -> (r: PathPrefix)
        ensures
            (r@, final(self).model()) == sa_prefix(old(self).model(), p@),
        decreases p, 1int,
    {
        match self.lookup_prefix_subst(p) {
            Some(sub) => {
                return PathPrefix::Subst(sub);
            },
            None => {},
        }
        match p {
            PathPrefix::CrateId { .. } => {
                let r = clone_prefix(p);
                let key = Self::prefix_key(p);
                self.alloc_subst(key);
                r
            },
            PathPrefix::TraitImpl { self_type, impled_trait, dis } => {
                let st2 = self.compress_type(self_type);
                let tr2: Option<Box<AbsolutePath>> = match impled_trait {
                    Some(t) => Some(Box::new(self.compress_abs_path(t))),
                    None => None,
                };
                let r = PathPrefix::TraitImpl {
                    self_type: Box::new(st2),
                    impled_trait: tr2,
                    dis: *dis,
                };
                let key = Self::prefix_key(p);
                self.alloc_subst(key);
                r
            },
            PathPrefix::InherentImpl { self_type } => {
                let st2 = self.compress_type(self_type);
                PathPrefix::InherentImpl { self_type: Box::new(st2) }
            },
            PathPrefix::Node { prefix, ident } => {
                let pf2 = self.compress_path_prefix(prefix);
                let r = PathPrefix::Node { prefix: Box::new(pf2), ident: clone_ident(ident) };
                let key = Self::prefix_key(p);
                self.alloc_subst(key);
                r
            },
            PathPrefix::Subst(s) => PathPrefix::Subst(*s),
        }
    }

    /// Compresses an absolute path.
    fn compress_abs_path(&mut self, ap: &AbsolutePath) -> (r: AbsolutePath)
        ensures
            (r@, final(self).model()) == sa_path(old(self).model(), ap@),
        decreases ap, 3int,
    {
        match self.lookup_abs_path_subst(ap) {
            Some(sub) => {
                return AbsolutePath::Subst(sub);
            },
            None => {},
        }
        match ap {
            AbsolutePath::Path { name, args } => {
                let name2 = self.compress_path_prefix(name);
                let args2 = self.compress_generic_argument_list(args);
                let key = Self::path_key(ap);
                self.alloc_subst(key);
                AbsolutePath::Path { name: Box::new(name2), args: args2 }
            },
            AbsolutePath::Subst(s) => AbsolutePath::Subst(*s),
        }
    }

    /// Compresses each argument of a generic-argument list.
    fn compress_generic_argument_list(&mut self, args: &GenericArgumentList) -> (r:
        GenericArgumentList)
        ensures
            (r@, final(self).model()) == sa_type_list(old(self).model(), args@),
        decreases args, 2int,
    {
        GenericArgumentList(self.compress_type_list(&args.0))
    }

    /// Compresses each type of a list in order.
    fn compress_type_list(&mut self, ts: &Vec<Type>) -> (r: Vec<Type>)
        ensures
            (view_types(r@), final(self).model()) == sa_type_list(
                old(self).model(),
                view_types(ts@),
            ),
        decreases ts, 1int,
    {
        let ghost d0 = self.model();
        let ghost vts = view_types(ts@);
        let mut r: Vec<Type> = Vec::new();
        let n = ts.len();
        let mut i: usize = 0;
        proof {
            crate::ast::lemma_view_types(ts@);
            crate::ast::lemma_view_types(r@);
            assert(view_types(r@) =~= Seq::<TypeV>::empty());
            assert(vts.subrange(0, 0) =~= Seq::<TypeV>::empty());
        }
        while i < n
            invariant
                0 <= i <= n == ts@.len(),
                vts == view_types(ts@),
                vts.len() == n,
                (view_types(r@), self.model()) == sa_type_list(d0, vts.subrange(0, i as int)),
            decreases n - i,
        {
            proof {
                crate::ast::lemma_view_types(ts@);
            }
            let ghost r_old = r@;
            let c = self.compress_type(&ts[i]);
            r.push(c);
            proof {
                crate::ast::lemma_view_types_push(r_old, c);
                assert(vts.subrange(0, i + 1).drop_last() =~= vts.subrange(0, i as int));
                assert(vts.subrange(0, i + 1).last() == vts[i as int]);
            }
            i += 1;
        }
        proof {
            assert(vts.subrange(0, n as int) =~= vts);
        }
        r
    }

    /// Compresses a type.
    fn compress_type(&mut self, t: &Type) -> (r: Type)
        ensures
            (r@, final(self).model()) == sa_type(old(self).model(), t@),
        decreases t, 4int,
    {
        match self.lookup_type_subst(t) {
            Some(sub) => {
                return Type::Subst(sub);
            },
            None => {},
        }
        match t {
            Type::BasicType(b) => Type::BasicType(*b),
            Type::GenericParam(id) => Type::GenericParam(clone_ident(id)),
            Type::Subst(s) => Type::Subst(*s),
            Type::Named(ap) => {
                let ap2 = self.compress_abs_path(ap);
                Type::Named(Box::new(ap2))
            },
            Type::Ref(inner) => {
                let i2 = self.compress_type(inner);
                let r = Type::Ref(Box::new(i2));
                let key = Self::type_key(t);
                self.alloc_subst(key);
                r
            },
            Type::RefMut(inner) => {
                let i2 = self.compress_type(inner);
                let r = Type::RefMut(Box::new(i2));
                let key = Self::type_key(t);
                self.alloc_subst(key);
                r
            },
            Type::RawPtrConst(inner) => {
                let i2 = self.compress_type(inner);
                let r = Type::RawPtrConst(Box::new(i2));
                let key = Self::type_key(t);
                self.alloc_subst(key);
                r
            },
            Type::RawPtrMut(inner) => {
                let i2 = self.compress_type(inner);
                let r = Type::RawPtrMut(Box::new(i2));
                let key = Self::type_key(t);
                self.alloc_subst(key);
                r
            },
            Type::Array(opt_size, inner) => {
                let i2 = self.compress_type(inner);
                let r = Type::Array(*opt_size, Box::new(i2));
                let key = Self::type_key(t);
                self.alloc_subst(key);
                r
            },
            Type::Tuple(components) => {
                let cs2 = self.compress_type_list(components);
                let r = Type::Tuple(cs2);
                let key = Self::type_key(t);
                self.alloc_subst(key);
                r
            },
            Type::Fn { is_unsafe, abi, params, return_type } => {
                let ps2 = self.compress_type_list(params);
                let rt2: Option<Box<Type>> = match return_type {
                    Some(rt) => Some(Box::new(self.compress_type(rt))),
                    None => None,
                };
                let r = Type::Fn {
                    is_unsafe: *is_unsafe,
                    abi: *abi,
                    params: ps2,
                    return_type: rt2,
                };
                let key = Self::type_key(t);
                self.alloc_subst(key);
                r
            },
        }
    }

    /// The dictionary as (index, rendering) pairs, in index order.
    pub fn to_debug_dictionary(&self) -> (r: DebugDictionary)
        ensures
            r.data@.len() == self.dict@.len(),
            forall|i: int| 0 <= i < r.data@.len() ==> (#[trigger] r.data@[i]).0 == Subst(i as u64),
    {
        let mut items: Vec<(Subst, String)> = Vec::new();
        let n = self.dict.len();
        let mut i: usize = 0;
        while i < n
            invariant
                0 <= i <= n == self.dict@.len(),
                items@.len() == i,
                forall|j: int| 0 <= j < i ==> (#[trigger] items@[j]).0 == Subst(j as u64),
            decreases n - i,
        {
            items.push((Subst(i as u64), self.dict[i].clone()));
            i += 1;
        }
        DebugDictionary { data: items }
    }
}

/// Compresses a whole symbol with the rendering-keyed dictionary.
pub fn compress_ext(symbol: &Symbol) -> (r: (Symbol, CompressAlt))
    ensures
        (r.0@, r.1.model()) == sa_symbol(symbol@),
{
    let mut compress = CompressAlt::new();
    let name = compress.compress_abs_path(&symbol.name);
    let instantiating_crate: Option<PathPrefix> = match &symbol.instantiating_crate {
        Some(ic) => Some(compress.compress_path_prefix(ic)),
        None => None,
    };
    (Symbol { name, instantiating_crate }, compress)
}

} // verus!
