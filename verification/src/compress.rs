//! The compressor: walks the tree depth-first and replaces every already
//! seen eligible subtree by a back-reference to its dictionary index.
//!
//! The dictionary is one vector of tagged entries; an entry's index is its
//! position, so indices are dense and assigned in completion order by
//! construction. Basic types and bare generic parameters are never added;
//! an inherent-impl scope shares its slot with its self type; an absolute
//! path with empty arguments shares its slot with its prefix.
use vstd::prelude::*;

use crate::ast::{
    abs_path_eq, prefix_eq, type_eq, view_types, AbsolutePath, AbsolutePathV, BasicType,
    GenericArgumentList, PathPrefix, PathPrefixV, Subst, Symbol, SymbolV, Type, TypeV,
};
use crate::debug::DebugDictionary;

verus! {

broadcast use vstd::std_specs::vec::group_vec_axioms, vstd::seq::group_seq_axioms;

/// One dictionary entry: the subtree a back-reference index stands for.
pub enum DictEntry {
    Prefix(PathPrefix),
    Path(AbsolutePath),
    Ty(Type),
}

/// Model of a dictionary entry.
pub enum DictEntryV {
    Prefix(PathPrefixV),
    Path(AbsolutePathV),
    Ty(TypeV),
}

impl DictEntry {
    /// Model of this entry.
    pub open spec fn model(&self) -> DictEntryV {
        match self {
            DictEntry::Prefix(p) => DictEntryV::Prefix(p.model()),
            DictEntry::Path(ap) => DictEntryV::Path(ap.model()),
            DictEntry::Ty(t) => DictEntryV::Ty(t.model()),
        }
    }
}

/// Model of a dictionary, entry by entry.
pub open spec fn view_dict(d: Seq<DictEntry>) -> Seq<DictEntryV>
    decreases d,
{
    if d.len() == 0 {
        Seq::empty()
    } else {
        view_dict(d.drop_last()).push(d.last().model())
    }
}

/// The dictionary model grows entry by entry.
pub broadcast proof fn lemma_view_dict_push(d: Seq<DictEntry>, e: DictEntry)
    ensures
        #[trigger] view_dict(d.push(e)) == view_dict(d).push(e.model()),
{
    assert(d.push(e).drop_last() =~= d);
    assert(d.push(e).last() == e);
}

/// Element access in the dictionary model.
pub broadcast proof fn lemma_view_dict(d: Seq<DictEntry>)
    ensures
        (#[trigger] view_dict(d)).len() == d.len(),
        forall|i: int| 0 <= i < d.len() ==> view_dict(d)[i] == #[trigger] d[i].model(),
    decreases d.len(),
{
    if d.len() > 0 {
        lemma_view_dict(d.drop_last());
        assert forall|i: int| 0 <= i < d.len() implies view_dict(d)[i] == #[trigger] d[i].model() by {
            if i < d.len() - 1 {
                assert(d.drop_last()[i] == d[i]);
            }
        }
    }
}

/// The first index holding exactly this entry, if any.
pub open spec fn sc_find(dict: Seq<DictEntryV>, e: DictEntryV) -> Option<int>
    decreases dict.len(),
{
    if dict.len() == 0 {
        None
    } else if dict[0] == e {
        Some(0)
    } else {
        match sc_find(dict.drop_first(), e) {
            Some(i) => Some(i + 1),
            None => None,
        }
    }
}

/// A found index lies within the dictionary.
pub proof fn lemma_sc_find_in_bounds(dict: Seq<DictEntryV>, e: DictEntryV)
    ensures
        sc_find(dict, e) matches Some(i) ==> 0 <= i < dict.len(),
    decreases dict.len(),
{
    if dict.len() > 0 {
        lemma_sc_find_in_bounds(dict.drop_first(), e);
    }
}

/// Where an equal path prefix already sits in the dictionary: an
/// inherent-impl scope is sought through its self type, anything else
/// under its own entry.
pub open spec fn sc_lookup_prefix(dict: Seq<DictEntryV>, p: PathPrefixV) -> Option<int>
    decreases p,
{
    match p {
        PathPrefixV::InherentImpl { self_type } => sc_lookup_type(dict, *self_type),
        PathPrefixV::Subst(_) => None,
        _ => sc_find(dict, DictEntryV::Prefix(p)),
    }
}

/// Where an equal absolute path already sits: one with empty arguments is
/// sought through its prefix.
pub open spec fn sc_lookup_path(dict: Seq<DictEntryV>, ap: AbsolutePathV) -> Option<int>
    decreases ap,
{
    match ap {
        AbsolutePathV::Path { name, args } => if args.len() == 0 {
            sc_lookup_prefix(dict, *name)
        } else {
            sc_find(dict, DictEntryV::Path(ap))
        },
        AbsolutePathV::Subst(_) => None,
    }
}

/// Where an equal type already sits: a named type is sought through its
/// path.
pub open spec fn sc_lookup_type(dict: Seq<DictEntryV>, t: TypeV) -> Option<int>
    decreases t,
{
    match t {
        TypeV::Named(ap) => sc_lookup_path(dict, *ap),
        TypeV::Subst(_) => None,
        _ => sc_find(dict, DictEntryV::Ty(t)),
    }
}

/// Compresses a path prefix against a dictionary: the rewritten node and
/// the grown dictionary.
pub open spec fn sc_prefix(dict: Seq<DictEntryV>, p: PathPrefixV) -> (PathPrefixV, Seq<
    DictEntryV,
>)
    decreases p, 0int,
{
    match sc_lookup_prefix(dict, p) {
        Some(i) => (PathPrefixV::Subst(Subst(i as u64)), dict),
        None => match p {
            PathPrefixV::CrateId { .. } => (p, dict.push(DictEntryV::Prefix(p))),
            PathPrefixV::TraitImpl { self_type, impled_trait, dis } => {
                let (st2, d1) = sc_type(dict, *self_type);
                let (tr2, d2) = match impled_trait {
                    Some(t) => {
                        let (t2, dx) = sc_path(d1, *t);
                        (Some(Box::new(t2)), dx)
                    },
                    None => (None, d1),
                };
                (
                    PathPrefixV::TraitImpl {
                        self_type: Box::new(st2),
                        impled_trait: tr2,
                        dis,
                    },
                    d2.push(DictEntryV::Prefix(p)),
                )
            },
            PathPrefixV::InherentImpl { self_type } => {
                let (st2, d1) = sc_type(dict, *self_type);
                (PathPrefixV::InherentImpl { self_type: Box::new(st2) }, d1)
            },
            PathPrefixV::Node { prefix, ident } => {
                let (pf2, d1) = sc_prefix(dict, *prefix);
                (
                    PathPrefixV::Node { prefix: Box::new(pf2), ident },
                    d1.push(DictEntryV::Prefix(p)),
                )
            },
            PathPrefixV::Subst(_) => (p, dict),
        },
    }
}

/// Compresses an absolute path.
pub open spec fn sc_path(dict: Seq<DictEntryV>, ap: AbsolutePathV) -> (AbsolutePathV, Seq<
    DictEntryV,
>)
    decreases ap, 2int,
{
    match sc_lookup_path(dict, ap) {
        Some(i) => (AbsolutePathV::Subst(Subst(i as u64)), dict),
        None => match ap {
            AbsolutePathV::Path { name, args } => {
                let (name2, d1) = sc_prefix(dict, *name);
                let (args2, d2) = sc_type_list(d1, args);
                let d3 = if args.len() == 0 {
                    d2
                } else {
                    d2.push(DictEntryV::Path(ap))
                };
                (AbsolutePathV::Path { name: Box::new(name2), args: args2 }, d3)
            },
            AbsolutePathV::Subst(_) => (ap, dict),
        },
    }
}

/// Compresses each type of a list in order.
pub open spec fn sc_type_list(dict: Seq<DictEntryV>, ts: Seq<TypeV>) -> (Seq<TypeV>, Seq<
    DictEntryV,
>)
    decreases ts, 1int,
{
    if ts.len() == 0 {
        (Seq::empty(), dict)
    } else {
        let (init, d1) = sc_type_list(dict, ts.drop_last());
        let (last2, d2) = sc_type(d1, ts.last());
        (init.push(last2), d2)
    }
}

/// Compresses a type. Basic types, bare generic parameters and
/// back-references pass through and are never added to the dictionary.
pub open spec fn sc_type(dict: Seq<DictEntryV>, t: TypeV) -> (TypeV, Seq<DictEntryV>)
    decreases t, 3int,
{
    match sc_lookup_type(dict, t) {
        Some(i) => (TypeV::Subst(Subst(i as u64)), dict),
        None => match t {
            TypeV::BasicType(_) => (t, dict),
            TypeV::GenericParam(_) => (t, dict),
            TypeV::Subst(_) => (t, dict),
            TypeV::Named(ap) => {
                let (ap2, d1) = sc_path(dict, *ap);
                (TypeV::Named(Box::new(ap2)), d1)
            },
            TypeV::Ref(inner) => {
                let (i2, d1) = sc_type(dict, *inner);
                (TypeV::Ref(Box::new(i2)), d1.push(DictEntryV::Ty(t)))
            },
            TypeV::RefMut(inner) => {
                let (i2, d1) = sc_type(dict, *inner);
                (TypeV::RefMut(Box::new(i2)), d1.push(DictEntryV::Ty(t)))
            },
            TypeV::RawPtrConst(inner) => {
                let (i2, d1) = sc_type(dict, *inner);
                (TypeV::RawPtrConst(Box::new(i2)), d1.push(DictEntryV::Ty(t)))
            },
            TypeV::RawPtrMut(inner) => {
                let (i2, d1) = sc_type(dict, *inner);
                (TypeV::RawPtrMut(Box::new(i2)), d1.push(DictEntryV::Ty(t)))
            },
            TypeV::Array(opt_size, inner) => {
                let (i2, d1) = sc_type(dict, *inner);
                (TypeV::Array(opt_size, Box::new(i2)), d1.push(DictEntryV::Ty(t)))
            },
            TypeV::Tuple(components) => {
                let (cs2, d1) = sc_type_list(dict, components);
                (TypeV::Tuple(cs2), d1.push(DictEntryV::Ty(t)))
            },
            TypeV::Fn { is_unsafe, abi, params, return_type } => {
                let (ps2, d1) = sc_type_list(dict, params);
                let (rt2, d2) = match return_type {
                    Some(rt) => {
                        let (r2, dx) = sc_type(d1, *rt);
                        (Some(Box::new(r2)), dx)
                    },
                    None => (None, d1),
                };
                (
                    TypeV::Fn { is_unsafe, abi, params: ps2, return_type: rt2 },
                    d2.push(DictEntryV::Ty(t)),
                )
            },
        },
    }
}

/// Compresses a whole symbol starting from an empty dictionary.
pub open spec fn sc_symbol(sym: SymbolV) -> (SymbolV, Seq<DictEntryV>) {
    let (name2, d1) = sc_path(Seq::empty(), sym.name);
    let (ic2, d2) = match sym.instantiating_crate {
        Some(p) => {
            let (p2, dx) = sc_prefix(d1, p);
            (Some(p2), dx)
        },
        None => (None, d1),
    };
    (SymbolV { name: name2, instantiating_crate: ic2 }, d2)
}

/// The compressor's state: the dictionary of already seen subtrees, with
/// an entry's back-reference index equal to its position.
pub struct Compress {
    pub dict: Vec<DictEntry>,
}

/// Whether two dictionary entries have the same model.
fn entry_eq(a: &DictEntry, b: &DictEntry) -> (r: bool)
    ensures
        r == (a.model() == b.model()),
{
    match (a, b) {
        (DictEntry::Prefix(x), DictEntry::Prefix(y)) => prefix_eq(x, y),
        (DictEntry::Path(x), DictEntry::Path(y)) => abs_path_eq(x, y),
        (DictEntry::Ty(x), DictEntry::Ty(y)) => type_eq(x, y),
        _ => false,
    }
}

impl Compress {
    /// Model of the dictionary.
    pub open spec fn model(&self) -> Seq<DictEntryV> {
        view_dict(self.dict@)
    }

    /// A fresh compressor with an empty dictionary.
    fn new() -> (r: Compress)
        ensures
            r.model() =~= Seq::<DictEntryV>::empty(),
    {
        let r = Compress { dict: Vec::new() };
        proof {
            lemma_view_dict(r.dict@);
        }
        r
    }

    /// The first dictionary index holding exactly this entry.
    fn find(&self, e: &DictEntry) -> (r: Option<usize>)
        ensures
            match r {
                Some(i) => sc_find(self.model(), e.model()) == Some(i as int) && i
                    < self.dict@.len(),
                None => sc_find(self.model(), e.model()) is None,
            },
    {
        let ghost dv = self.model();
        proof {
            lemma_view_dict(self.dict@);
        }
        let n = self.dict.len();
        let mut i: usize = 0;
        proof {
            assert(dv.subrange(0, n as int) =~= dv);
        }
        while i < n
            invariant
                0 <= i <= n == self.dict@.len(),
                dv == self.model(),
                dv.len() == n,
                sc_find(dv, e.model()) == (match sc_find(dv.subrange(i as int, n as int), e.model()) {
                    Some(k) => Some(k + i),
                    None => None::<int>,
                }),
            decreases n - i,
        {
            proof {
                lemma_view_dict(self.dict@);
            }
            let hit = entry_eq(&self.dict[i], e);
            proof {
                let tail = dv.subrange(i as int, n as int);
                assert(tail[0] == dv[i as int]);
                assert(tail.drop_first() =~= dv.subrange(i + 1, n as int));
                assert(dv[i as int] == self.dict@[i as int].model());
            }
            if hit {
                return Some(i);
            }
            i += 1;
        }
        proof {
            assert(dv.subrange(n as int, n as int) =~= Seq::<DictEntryV>::empty());
        }
        None
    }

    /// Looks up a path prefix per the eligibility rules.
    fn lookup_prefix_subst(&self, p: &PathPrefix) -> (r: Option<Subst>)
        ensures
            match r {
                Some(s) => sc_lookup_prefix(self.model(), p@) == Some(s.0 as int) && s.0
                    < self.dict@.len(),
                None => sc_lookup_prefix(self.model(), p@) is None,
            },
        decreases p, 1int,
    {
        match p {
            PathPrefix::InherentImpl { self_type } => self.lookup_type_subst(self_type),
            PathPrefix::Subst(_) => None,
            _ => {
                let r = self.find(&DictEntry::Prefix(clone_prefix(p)));
                match r {
                    Some(i) => Some(Subst(i as u64)),
                    None => None,
                }
            },
        }
    }

    /// Looks up an absolute path per the eligibility rules.
    fn lookup_abs_path_subst(&self, ap: &AbsolutePath) -> (r: Option<Subst>)
        ensures
            match r {
                Some(s) => sc_lookup_path(self.model(), ap@) == Some(s.0 as int) && s.0
                    < self.dict@.len(),
                None => sc_lookup_path(self.model(), ap@) is None,
            },
        decreases ap, 2int,
    {
        match ap {
            AbsolutePath::Path { name, args } => {
                proof {
                    crate::ast::lemma_view_types(args.0@);
                }
                if args.0.len() == 0 {
                    self.lookup_prefix_subst(name)
                } else {
                    let r = self.find(&DictEntry::Path(clone_abs_path(ap)));
                    match r {
                        Some(i) => Some(Subst(i as u64)),
                        None => None,
                    }
                }
            },
            AbsolutePath::Subst(_) => None,
        }
    }

    /// Looks up a type per the eligibility rules.
    fn lookup_type_subst(&self, t: &Type) -> (r: Option<Subst>)
        ensures
            match r {
                Some(s) => sc_lookup_type(self.model(), t@) == Some(s.0 as int) && s.0
                    < self.dict@.len(),
                None => sc_lookup_type(self.model(), t@) is None,
            },
        decreases t, 0int,
    {
        match t {
            Type::Named(ap) => self.lookup_abs_path_subst(ap),
            Type::Subst(_) => None,
            _ => {
                let r = self.find(&DictEntry::Ty(clone_type(t)));
                match r {
                    Some(i) => Some(Subst(i as u64)),
                    None => None,
                }
            },
        }
    }

    /// Appends a dictionary entry; its index is its position.
    fn alloc_subst(&mut self, e: DictEntry)
        ensures
            final(self).model() == old(self).model().push(e.model()),
    {
        proof {
            lemma_view_dict_push(self.dict@, e);
        }
        self.dict.push(e);
    }
}

/// A structural copy of a type.
pub fn clone_type(t: &Type) -> (r: Type)
    ensures
        r@ == t@,
    decreases t,
{
    match t {
        Type::BasicType(b) => Type::BasicType(*b),
        Type::Ref(x) => Type::Ref(Box::new(clone_type(x))),
        Type::RefMut(x) => Type::RefMut(Box::new(clone_type(x))),
        Type::RawPtrConst(x) => Type::RawPtrConst(Box::new(clone_type(x))),
        Type::RawPtrMut(x) => Type::RawPtrMut(Box::new(clone_type(x))),
        Type::Array(n, x) => Type::Array(*n, Box::new(clone_type(x))),
        Type::Tuple(xs) => Type::Tuple(clone_type_list(xs)),
        Type::Named(ap) => Type::Named(Box::new(clone_abs_path(ap))),
        Type::GenericParam(id) => Type::GenericParam(clone_ident(id)),
        Type::Fn { is_unsafe, abi, params, return_type } => Type::Fn {
            is_unsafe: *is_unsafe,
            abi: *abi,
            params: clone_type_list(params),
            return_type: match return_type {
                Some(x) => Some(Box::new(clone_type(x))),
                None => None,
            },
        },
        Type::Subst(s) => Type::Subst(*s),
    }
}

/// A structural copy of a list of types.
pub fn clone_type_list(ts: &Vec<Type>) -> (r: Vec<Type>)
    ensures
        view_types(r@) == view_types(ts@),
    decreases ts,
{
    let mut r: Vec<Type> = Vec::new();
    let n = ts.len();
    let mut i: usize = 0;
    proof {
        crate::ast::lemma_view_types(r@);
        crate::ast::lemma_view_types(ts@);
        assert(view_types(r@) =~= view_types(ts@).subrange(0, 0));
    }
    while i < n
        invariant
            0 <= i <= n == ts@.len(),
            view_types(r@) == view_types(ts@).subrange(0, i as int),
            r@.len() == i,
        decreases n - i,
    {
        proof {
            crate::ast::lemma_view_types(ts@);
        }
        let ghost r_old = r@;
        let c = clone_type(&ts[i]);
        r.push(c);
        proof {
            crate::ast::lemma_view_types_push(r_old, c);
            assert(view_types(ts@).subrange(0, i + 1) =~= view_types(ts@).subrange(
                0,
                i as int,
            ).push(view_types(ts@)[i as int]));
        }
        i += 1;
    }
    proof {
        crate::ast::lemma_view_types(ts@);
        assert(view_types(ts@).subrange(0, n as int) =~= view_types(ts@));
    }
    r
}

/// A structural copy of an identifier.
pub fn clone_ident(id: &Ident) -> (r: Ident)
    ensures
        r@ == id@,
{
    Ident { ident: id.ident.clone(), tag: id.tag, dis: id.dis }
}

/// A structural copy of an absolute path.
pub fn clone_abs_path(ap: &AbsolutePath) -> (r: AbsolutePath)
    ensures
        r@ == ap@,
    decreases ap,
{
    match ap {
        AbsolutePath::Path { name, args } => AbsolutePath::Path {
            name: Box::new(clone_prefix(name)),
            args: GenericArgumentList(clone_type_list(&args.0)),
        },
        AbsolutePath::Subst(s) => AbsolutePath::Subst(*s),
    }
}

/// A structural copy of a path prefix.
pub fn clone_prefix(p: &PathPrefix) -> (r: PathPrefix)
    ensures
        r@ == p@,
    decreases p,
{
    match p {
        PathPrefix::CrateId { name, dis } => PathPrefix::CrateId {
            name: name.clone(),
            dis: dis.clone(),
        },
        PathPrefix::TraitImpl { self_type, impled_trait, dis } => PathPrefix::TraitImpl {
            self_type: Box::new(clone_type(self_type)),
            impled_trait: match impled_trait {
                Some(t) => Some(Box::new(clone_abs_path(t))),
                None => None,
            },
            dis: *dis,
        },
        PathPrefix::InherentImpl { self_type } => PathPrefix::InherentImpl {
            self_type: Box::new(clone_type(self_type)),
        },
        PathPrefix::Node { prefix, ident } => PathPrefix::Node {
            prefix: Box::new(clone_prefix(prefix)),
            ident: clone_ident(ident),
        },
        PathPrefix::Subst(s) => PathPrefix::Subst(*s),
    }
}

use crate::ast::Ident;

impl Compress {
    /// Compresses a path prefix, rewriting seen subtrees to
    /// back-references and recording new ones.
    fn compress_path_prefix(&mut self, p: &PathPrefix) -> (r: PathPrefix)
        ensures
            (r@, final(self).model()) == sc_prefix(old(self).model(), p@),
        decreases p, 1int,
    {
        match self.lookup_prefix_subst(p) {
            Some(sub) => {
                return PathPrefix::Subst(sub);
            },
            None => {},
        }
        match p {
            PathPrefix::CrateId { .. } => {
                let r = clone_prefix(p);
                self.alloc_subst(DictEntry::Prefix(clone_prefix(p)));
                r
            },
            PathPrefix::TraitImpl { self_type, impled_trait, dis } => {
                let st2 = self.compress_type(self_type);
                let tr2: Option<Box<AbsolutePath>> = match impled_trait {
                    Some(t) => Some(Box::new(self.compress_abs_path(t))),
                    None => None,
                };
                let r = PathPrefix::TraitImpl {
                    self_type: Box::new(st2),
                    impled_trait: tr2,
                    dis: *dis,
                };
                self.alloc_subst(DictEntry::Prefix(clone_prefix(p)));
                r
            },
            PathPrefix::InherentImpl { self_type } => {
                let st2 = self.compress_type(self_type);
                PathPrefix::InherentImpl { self_type: Box::new(st2) }
            },
            PathPrefix::Node { prefix, ident } => {
                let pf2 = self.compress_path_prefix(prefix);
                let r = PathPrefix::Node { prefix: Box::new(pf2), ident: clone_ident(ident) };
                self.alloc_subst(DictEntry::Prefix(clone_prefix(p)));
                r
            },
            PathPrefix::Subst(s) => PathPrefix::Subst(*s),
        }
    }

    /// Compresses an absolute path.
    fn compress_abs_path(&mut self, ap: &AbsolutePath) -> (r: AbsolutePath)
        ensures
            (r@, final(self).model()) == sc_path(old(self).model(), ap@),
        decreases ap, 3int,
    {
        match self.lookup_abs_path_subst(ap) {
            Some(sub) => {
                return AbsolutePath::Subst(sub);
            },
            None => {},
        }
        match ap {
            AbsolutePath::Path { name, args } => {
                let name2 = self.compress_path_prefix(name);
                let args2 = self.compress_generic_argument_list(args);
                proof {
                    crate::ast::lemma_view_types(args.0@);
                }
                if args.0.len() > 0 {
                    self.alloc_subst(DictEntry::Path(clone_abs_path(ap)));
                }
                AbsolutePath::Path { name: Box::new(name2), args: args2 }
            },
            AbsolutePath::Subst(s) => AbsolutePath::Subst(*s),
        }
    }

    /// Compresses each argument of a generic-argument list.
    fn compress_generic_argument_list(&mut self, args: &GenericArgumentList) -> (r:
        GenericArgumentList)
        ensures
            (r@, final(self).model()) == sc_type_list(old(self).model(), args@),
        decreases args, 2int,
    {
        GenericArgumentList(self.compress_type_list(&args.0))
    }

    /// Compresses each type of a list in order.
    fn compress_type_list(&mut self, ts: &Vec<Type>) -> (r: Vec<Type>)
        ensures
            (view_types(r@), final(self).model()) == sc_type_list(
                old(self).model(),
                view_types(ts@),
            ),
        decreases ts, 1int,
    {
        let ghost d0 = self.model();
        let ghost vts = view_types(ts@);
        let mut r: Vec<Type> = Vec::new();
        let n = ts.len();
        let mut i: usize = 0;
        proof {
            crate::ast::lemma_view_types(ts@);
            crate::ast::lemma_view_types(r@);
            assert(view_types(r@) =~= Seq::<TypeV>::empty());
            assert(vts.subrange(0, 0) =~= Seq::<TypeV>::empty());
        }
        while i < n
            invariant
                0 <= i <= n == ts@.len(),
                vts == view_types(ts@),
                vts.len() == n,
                (view_types(r@), self.model()) == sc_type_list(d0, vts.subrange(0, i as int)),
            decreases n - i,
        {
            proof {
                crate::ast::lemma_view_types(ts@);
            }
            let ghost r_old = r@;
            let c = self.compress_type(&ts[i]);
            r.push(c);
            proof {
                crate::ast::lemma_view_types_push(r_old, c);
                assert(vts.subrange(0, i + 1).drop_last() =~= vts.subrange(0, i as int));
                assert(vts.subrange(0, i + 1).last() == vts[i as int]);
            }
            i += 1;
        }
        proof {
            assert(vts.subrange(0, n as int) =~= vts);
        }
        r
    }

    /// Compresses a type.
    fn compress_type(&mut self, t: &Type) -> (r: Type)
        ensures
            (r@, final(self).model()) == sc_type(old(self).model(), t@),
        decreases t, 4int,
    {
        match self.lookup_type_subst(t) {
            Some(sub) => {
                return Type::Subst(sub);
            },
            None => {},
        }
        match t {
            Type::BasicType(b) => Type::BasicType(*b),
            Type::GenericParam(id) => Type::GenericParam(clone_ident(id)),
            Type::Subst(s) => Type::Subst(*s),
            Type::Named(ap) => {
                let ap2 = self.compress_abs_path(ap);
                Type::Named(Box::new(ap2))
            },
            Type::Ref(inner) => {
                let i2 = self.compress_type(inner);
                let r = Type::Ref(Box::new(i2));
                self.alloc_subst(DictEntry::Ty(clone_type(t)));
                r
            },
            Type::RefMut(inner) => {
                let i2 = self.compress_type(inner);
                let r = Type::RefMut(Box::new(i2));
                self.alloc_subst(DictEntry::Ty(clone_type(t)));
                r
            },
            Type::RawPtrConst(inner) => {
                let i2 = self.compress_type(inner);
                let r = Type::RawPtrConst(Box::new(i2));
                self.alloc_subst(DictEntry::Ty(clone_type(t)));
                r
            },
            Type::RawPtrMut(inner) => {
                let i2 = self.compress_type(inner);
                let r = Type::RawPtrMut(Box::new(i2));
                self.alloc_subst(DictEntry::Ty(clone_type(t)));
                r
            },
            Type::Array(opt_size, inner) => {
                let i2 = self.compress_type(inner);
                let r = Type::Array(*opt_size, Box::new(i2));
                self.alloc_subst(DictEntry::Ty(clone_type(t)));
                r
            },
            Type::Tuple(components) => {
                let cs2 = self.compress_type_list(components);
                let r = Type::Tuple(cs2);
                self.alloc_subst(DictEntry::Ty(clone_type(t)));
                r
            },
            Type::Fn { is_unsafe, abi, params, return_type } => {
                let ps2 = self.compress_type_list(params);
                let rt2: Option<Box<Type>> = match return_type {
                    Some(rt) => Some(Box::new(self.compress_type(rt))),
                    None => None,
                };
                let r = Type::Fn {
                    is_unsafe: *is_unsafe,
                    abi: *abi,
                    params: ps2,
                    return_type: rt2,
                };
                self.alloc_subst(DictEntry::Ty(clone_type(t)));
                r
            },
        }
    }

    /// The dictionary as (index, verbose rendering) pairs, in index order:
    /// for a dictionary of N entries the indices are exactly 0 through
    /// N - 1, each once.
    pub fn to_debug_dictionary(&self) -> (r: DebugDictionary)
        ensures
            r.data@.len() == self.dict@.len(),
            forall|i: int| 0 <= i < r.data@.len() ==> (#[trigger] r.data@[i]).0 == Subst(i as u64),
    {
        let mut items: Vec<(Subst, String)> = Vec::new();
        let n = self.dict.len();
        let mut i: usize = 0;
        while i < n
            invariant
                0 <= i <= n == self.dict@.len(),
                items@.len() == i,
                forall|j: int| 0 <= j < i ==> (#[trigger] items@[j]).0 == Subst(j as u64),
            decreases n - i,
        {
            let mut rendered = String::new();
            match &self.dict[i] {
                DictEntry::Prefix(p) => p.pretty_print(&mut rendered, true),
                DictEntry::Path(ap) => ap.pretty_print(&mut rendered, true),
                DictEntry::Ty(t) => t.pretty_print(&mut rendered, true),
            }
            items.push((Subst(i as u64), rendered));
            i += 1;
        }
        DebugDictionary { data: items }
    }
}

/// Compresses a whole symbol; the returned state holds the dictionary that
/// was built.
pub fn compress_ext(symbol: &Symbol) -> (r: (Symbol, Compress))
    ensures
        (r.0@, r.1.model()) == sc_symbol(symbol@),
{
    let mut compress = Compress::new();
    let name = compress.compress_abs_path(&symbol.name);
    let instantiating_crate: Option<PathPrefix> = match &symbol.instantiating_crate {
        Some(ic) => Some(compress.compress_path_prefix(ic)),
        None => None,
    };
    (Symbol { name, instantiating_crate }, compress)
}

/// No dictionary entry is a basic type.
pub open spec fn no_basic_entry(dict: Seq<DictEntryV>) -> bool {
    forall|i: int|
        0 <= i < dict.len() ==> !((#[trigger] dict[i]) matches DictEntryV::Ty(
            TypeV::BasicType(_),
        ))
}

/// Compressing a path prefix never stores a basic type.
pub proof fn lemma_sc_prefix_no_basic(dict: Seq<DictEntryV>, p: PathPrefixV)
    requires
        no_basic_entry(dict),
    ensures
        no_basic_entry(sc_prefix(dict, p).1),
    decreases p, 0int,
{
    if sc_lookup_prefix(dict, p) is None {
        match p {
            PathPrefixV::CrateId { .. } => {
                lemma_no_basic_push(dict, DictEntryV::Prefix(p));
            },
            PathPrefixV::TraitImpl { self_type, impled_trait, dis } => {
                lemma_sc_type_no_basic(dict, *self_type);
                let (st2, d1) = sc_type(dict, *self_type);
                let d2 = match impled_trait {
                    Some(t) => {
                        lemma_sc_path_no_basic(d1, *t);
                        sc_path(d1, *t).1
                    },
                    None => d1,
                };
                lemma_no_basic_push(d2, DictEntryV::Prefix(p));
            },
            PathPrefixV::InherentImpl { self_type } => {
                lemma_sc_type_no_basic(dict, *self_type);
            },
            PathPrefixV::Node { prefix, ident } => {
                lemma_sc_prefix_no_basic(dict, *prefix);
                lemma_no_basic_push(sc_prefix(dict, *prefix).1, DictEntryV::Prefix(p));
            },
            PathPrefixV::Subst(_) => {},
        }
    }
}

/// Compressing an absolute path never stores a basic type.
pub proof fn lemma_sc_path_no_basic(dict: Seq<DictEntryV>, ap: AbsolutePathV)
    requires
        no_basic_entry(dict),
    ensures
        no_basic_entry(sc_path(dict, ap).1),
    decreases ap, 2int,
{
    if sc_lookup_path(dict, ap) is None {
        match ap {
            AbsolutePathV::Path { name, args } => {
                lemma_sc_prefix_no_basic(dict, *name);
                let d1 = sc_prefix(dict, *name).1;
                lemma_sc_type_list_no_basic(d1, args);
                let d2 = sc_type_list(d1, args).1;
                if args.len() != 0 {
                    lemma_no_basic_push(d2, DictEntryV::Path(ap));
                }
            },
            AbsolutePathV::Subst(_) => {},
        }
    }
}

/// Compressing a list of types never stores a basic type.
pub proof fn lemma_sc_type_list_no_basic(dict: Seq<DictEntryV>, ts: Seq<TypeV>)
    requires
        no_basic_entry(dict),
    ensures
        no_basic_entry(sc_type_list(dict, ts).1),
    decreases ts, 1int,
{
    if ts.len() != 0 {
        lemma_sc_type_list_no_basic(dict, ts.drop_last());
        lemma_sc_type_no_basic(sc_type_list(dict, ts.drop_last()).1, ts.last());
    }
}

/// Compressing a type never stores a basic type: the basic arm passes
/// through without touching the dictionary, and every stored type is a
/// composite.
pub proof fn lemma_sc_type_no_basic(dict: Seq<DictEntryV>, t: TypeV)
    requires
        no_basic_entry(dict),
    ensures
        no_basic_entry(sc_type(dict, t).1),
    decreases t, 3int,
{
    if sc_lookup_type(dict, t) is None {
        match t {
            TypeV::BasicType(_) => {},
            TypeV::GenericParam(_) => {},
            TypeV::Subst(_) => {},
            TypeV::Named(ap) => {
                lemma_sc_path_no_basic(dict, *ap);
            },
            TypeV::Ref(inner) => {
                lemma_sc_type_no_basic(dict, *inner);
                lemma_no_basic_push(sc_type(dict, *inner).1, DictEntryV::Ty(t));
            },
            TypeV::RefMut(inner) => {
                lemma_sc_type_no_basic(dict, *inner);
                lemma_no_basic_push(sc_type(dict, *inner).1, DictEntryV::Ty(t));
            },
            TypeV::RawPtrConst(inner) => {
                lemma_sc_type_no_basic(dict, *inner);
                lemma_no_basic_push(sc_type(dict, *inner).1, DictEntryV::Ty(t));
            },
            TypeV::RawPtrMut(inner) => {
                lemma_sc_type_no_basic(dict, *inner);
                lemma_no_basic_push(sc_type(dict, *inner).1, DictEntryV::Ty(t));
            },
            TypeV::Array(opt_size, inner) => {
                lemma_sc_type_no_basic(dict, *inner);
                lemma_no_basic_push(sc_type(dict, *inner).1, DictEntryV::Ty(t));
            },
            TypeV::Tuple(components) => {
                lemma_sc_type_list_no_basic(dict, components);
                lemma_no_basic_push(sc_type_list(dict, components).1, DictEntryV::Ty(t));
            },
            TypeV::Fn { is_unsafe, abi, params, return_type } => {
                lemma_sc_type_list_no_basic(dict, params);
                let d1 = sc_type_list(dict, params).1;
                let d2 = match return_type {
                    Some(rt) => {
                        lemma_sc_type_no_basic(d1, *rt);
                        sc_type(d1, *rt).1
                    },
                    None => d1,
                };
                lemma_no_basic_push(d2, DictEntryV::Ty(t));
            },
        }
    }
}

/// Pushing a non-basic entry keeps the dictionary free of basic types.
proof fn lemma_no_basic_push(dict: Seq<DictEntryV>, e: DictEntryV)
    requires
        no_basic_entry(dict),
        !(e matches DictEntryV::Ty(TypeV::BasicType(_))),
    ensures
        no_basic_entry(dict.push(e)),
{
    assert forall|i: int|
        0 <= i < dict.push(e).len() implies !((#[trigger] dict.push(e)[i])
        matches DictEntryV::Ty(TypeV::BasicType(_))) by {
        if i < dict.len() {
            assert(dict.push(e)[i] == dict[i]);
        } else {
            assert(dict.push(e)[i] == e);
        }
    }
}

/// An absolute path with empty arguments shares its dictionary slot with
/// its prefix: looking it up is looking the prefix up, and compressing it
/// adds no entry of its own beyond the prefix's.
pub proof fn lemma_empty_args_share_prefix_slot(dict: Seq<DictEntryV>, name: PathPrefixV)
    ensures
        sc_lookup_path(dict, AbsolutePathV::Path { name: Box::new(name), args: Seq::empty() })
            == sc_lookup_prefix(dict, name),
        sc_path(dict, AbsolutePathV::Path { name: Box::new(name), args: Seq::empty() }).1
            == sc_prefix(dict, name).1,
{
    let ap = AbsolutePathV::Path { name: Box::new(name), args: Seq::empty() };
    if sc_lookup_path(dict, ap) is None {
        let d1 = sc_prefix(dict, name).1;
        assert(sc_type_list(d1, Seq::empty()).1 == d1);
    }
}

/// The dictionary a whole compression builds never holds a basic type as
/// a key.
pub proof fn lemma_compress_never_stores_basic_types(sym: SymbolV)
    ensures
        no_basic_entry(sc_symbol(sym).1),
{
    assert(no_basic_entry(Seq::<DictEntryV>::empty()));
    lemma_sc_path_no_basic(Seq::empty(), sym.name);
    match sym.instantiating_crate {
        Some(p) => {
            lemma_sc_prefix_no_basic(sc_path(Seq::empty(), sym.name).1, p);
        },
        None => {},
    }
}

} // verus!
