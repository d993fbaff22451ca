//! The decompressor: mirrors the compressor. It walks the tree in the same
//! order, rebuilding the dictionary, and replaces every back-reference by
//! the subtree its index stands for.
//!
//! A back-reference may land on an entry of another category; the wrapping
//! then follows the index: a path entry seen in type position becomes a
//! named type, a type entry seen in prefix position becomes an
//! inherent-impl scope, and so on. A back-reference to an index that is
//! not yet defined is left in place unchanged.
use vstd::prelude::*;

use crate::ast::{
    view_types, AbsolutePath, AbsolutePathV, GenericArgumentList, PathPrefix, PathPrefixV, Subst,
    Symbol, SymbolV, Type, TypeV,
};
use crate::compress::{
    clone_abs_path, clone_ident, clone_prefix, clone_type, lemma_view_dict, lemma_view_dict_push,
    view_dict, DictEntry, DictEntryV,
};
use crate::debug::DebugDictionary;

verus! {

broadcast use vstd::std_specs::vec::group_vec_axioms, vstd::seq::group_seq_axioms;

/// What a back-reference in path-prefix position resolves to.
pub open spec fn sd_resolve_prefix(e: DictEntryV) -> PathPrefixV {
    match e {
        DictEntryV::Prefix(p) => p,
        DictEntryV::Ty(t) => PathPrefixV::InherentImpl { self_type: Box::new(t) },
        DictEntryV::Path(ap) => PathPrefixV::InherentImpl {
            self_type: Box::new(TypeV::Named(Box::new(ap))),
        },
    }
}

/// What a back-reference in absolute-path position resolves to.
pub open spec fn sd_resolve_path(e: DictEntryV) -> AbsolutePathV {
    match e {
        DictEntryV::Path(ap) => ap,
        DictEntryV::Prefix(p) => AbsolutePathV::Path { name: Box::new(p), args: Seq::empty() },
        DictEntryV::Ty(t) => AbsolutePathV::Path {
            name: Box::new(PathPrefixV::InherentImpl { self_type: Box::new(t) }),
            args: Seq::empty(),
        },
    }
}

/// What a back-reference in type position resolves to.
pub open spec fn sd_resolve_type(e: DictEntryV) -> TypeV {
    match e {
        DictEntryV::Ty(t) => t,
        DictEntryV::Path(ap) => TypeV::Named(Box::new(ap)),
        DictEntryV::Prefix(p) => TypeV::Named(
            Box::new(AbsolutePathV::Path { name: Box::new(p), args: Seq::empty() }),
        ),
    }
}

/// Decompresses a path prefix against a dictionary.
pub open spec fn sd_prefix(dict: Seq<DictEntryV>, p: PathPrefixV) -> (PathPrefixV, Seq<
    DictEntryV,
>)
    decreases p, 0int,
{
    match p {
        PathPrefixV::CrateId { .. } => (p, dict.push(DictEntryV::Prefix(p))),
        PathPrefixV::TraitImpl { self_type, impled_trait, dis } => {
            let (st2, d1) = sd_type(dict, *self_type);
            let (tr2, d2) = match impled_trait {
                Some(t) => {
                    let (t2, dx) = sd_path(d1, *t);
                    (Some(Box::new(t2)), dx)
                },
                None => (None, d1),
            };
            let r = PathPrefixV::TraitImpl { self_type: Box::new(st2), impled_trait: tr2, dis };
            (r, d2.push(DictEntryV::Prefix(r)))
        },
        PathPrefixV::InherentImpl { self_type } => {
            let (st2, d1) = sd_type(dict, *self_type);
            (PathPrefixV::InherentImpl { self_type: Box::new(st2) }, d1)
        },
        PathPrefixV::Node { prefix, ident } => {
            let (pf2, d1) = sd_prefix(dict, *prefix);
            let r = PathPrefixV::Node { prefix: Box::new(pf2), ident };
            (r, d1.push(DictEntryV::Prefix(r)))
        },
        PathPrefixV::Subst(s) => if s.0 < dict.len() {
            (sd_resolve_prefix(dict[s.0 as int]), dict)
        } else {
            (p, dict)
        },
    }
}

/// Decompresses an absolute path.
pub open spec fn sd_path(dict: Seq<DictEntryV>, ap: AbsolutePathV) -> (AbsolutePathV, Seq<
    DictEntryV,
>)
    decreases ap, 2int,
{
    match ap {
        AbsolutePathV::Path { name, args } => {
            let (name2, d1) = sd_prefix(dict, *name);
            let (args2, d2) = sd_type_list(d1, args);
            let r = AbsolutePathV::Path { name: Box::new(name2), args: args2 };
            if args.len() == 0 {
                (r, d2)
            } else {
                (r, d2.push(DictEntryV::Path(r)))
            }
        },
        AbsolutePathV::Subst(s) => if s.0 < dict.len() {
            (sd_resolve_path(dict[s.0 as int]), dict)
        } else {
            (ap, dict)
        },
    }
}

/// Decompresses each type of a list in order.
pub open spec fn sd_type_list(dict: Seq<DictEntryV>, ts: Seq<TypeV>) -> (Seq<TypeV>, Seq<
    DictEntryV,
>)
    decreases ts, 1int,
{
    if ts.len() == 0 {
        (Seq::empty(), dict)
    } else {
        let (init, d1) = sd_type_list(dict, ts.drop_last());
        let (last2, d2) = sd_type(d1, ts.last());
        (init.push(last2), d2)
    }
}

/// Decompresses a type.
pub open spec fn sd_type(dict: Seq<DictEntryV>, t: TypeV) -> (TypeV, Seq<DictEntryV>)
    decreases t, 3int,
{
    match t {
        TypeV::BasicType(_) => (t, dict),
        TypeV::GenericParam(_) => (t, dict),
        TypeV::Named(ap) => {
            let (ap2, d1) = sd_path(dict, *ap);
            (TypeV::Named(Box::new(ap2)), d1)
        },
        TypeV::Ref(inner) => {
            let (i2, d1) = sd_type(dict, *inner);
            let r = TypeV::Ref(Box::new(i2));
            (r, d1.push(DictEntryV::Ty(r)))
        },
        TypeV::RefMut(inner) => {
            let (i2, d1) = sd_type(dict, *inner);
            let r = TypeV::RefMut(Box::new(i2));
            (r, d1.push(DictEntryV::Ty(r)))
        },
        TypeV::RawPtrConst(inner) => {
            let (i2, d1) = sd_type(dict, *inner);
            let r = TypeV::RawPtrConst(Box::new(i2));
            (r, d1.push(DictEntryV::Ty(r)))
        },
        TypeV::RawPtrMut(inner) => {
            let (i2, d1) = sd_type(dict, *inner);
            let r = TypeV::RawPtrMut(Box::new(i2));
            (r, d1.push(DictEntryV::Ty(r)))
        },
        TypeV::Array(opt_size, inner) => {
            let (i2, d1) = sd_type(dict, *inner);
            let r = TypeV::Array(opt_size, Box::new(i2));
            (r, d1.push(DictEntryV::Ty(r)))
        },
        TypeV::Tuple(components) => {
            let (cs2, d1) = sd_type_list(dict, components);
            let r = TypeV::Tuple(cs2);
            (r, d1.push(DictEntryV::Ty(r)))
        },
        TypeV::Fn { is_unsafe, abi, params, return_type } => {
            let (ps2, d1) = sd_type_list(dict, params);
            let (rt2, d2) = match return_type {
                Some(rt) => {
                    let (r2, dx) = sd_type(d1, *rt);
                    (Some(Box::new(r2)), dx)
                },
                None => (None, d1),
            };
            let r = TypeV::Fn { is_unsafe, abi, params: ps2, return_type: rt2 };
            (r, d2.push(DictEntryV::Ty(r)))
        },
        TypeV::Subst(s) => if s.0 < dict.len() {
            (sd_resolve_type(dict[s.0 as int]), dict)
        } else {
            (t, dict)
        },
    }
}

/// Decompresses a whole symbol starting from an empty dictionary.
pub open spec fn sd_symbol(sym: SymbolV) -> (SymbolV, Seq<DictEntryV>) {
    let (name2, d1) = sd_path(Seq::empty(), sym.name);
    let (ic2, d2) = match sym.instantiating_crate {
        Some(p) => {
            let (p2, dx) = sd_prefix(d1, p);
            (Some(p2), dx)
        },
        None => (None, d1),
    };
    (SymbolV { name: name2, instantiating_crate: ic2 }, d2)
}

/// The decompressor's state: the dictionary rebuilt so far, an entry's
/// back-reference index equal to its position.
pub struct Decompress {
    pub dict: Vec<DictEntry>,
}

impl Decompress {
    /// Model of the dictionary.
    pub open spec fn model(&self) -> Seq<DictEntryV> {
        view_dict(self.dict@)
    }

    /// A fresh decompressor with an empty dictionary.
    pub fn new() -> (r: Decompress)
        ensures
            r.model() =~= Seq::<DictEntryV>::empty(),
    {
        let r = Decompress { dict: Vec::new() };
        proof {
            lemma_view_dict(r.dict@);
        }
        r
    }

    /// Expands every back-reference of a symbol.
    pub fn decompress(symbol: &Symbol) -> (r: Symbol)
        ensures
            r@ == sd_symbol(symbol@).0,
    {
        let mut d = Decompress::new();
        d.decompress_symbol(symbol)
    }

    /// Appends a dictionary entry; its index is its position.
    fn alloc_subst(&mut self, e: DictEntry)
        ensures
            final(self).model() == old(self).model().push(e.model()),
    {
        proof {
            lemma_view_dict_push(self.dict@, e);
        }
        self.dict.push(e);
    }


    /// Resolves a dictionary index seen in absolute-path position.
    fn resolve_path_entry(&self, iu: usize) -> (r: AbsolutePath)
        requires
            iu < self.dict@.len(),
        ensures
            r@ == sd_resolve_path(self.model()[iu as int]),
    {
        proof {
            lemma_view_dict(self.dict@);
            assert(self.model()[iu as int] == self.dict@[iu as int].model());
        }
        let r = match &self.dict[iu] {
            DictEntry::Path(stored) => clone_abs_path(stored),
            DictEntry::Prefix(stored) => AbsolutePath::Path {
                name: Box::new(clone_prefix(stored)),
                args: GenericArgumentList(Vec::new()),
            },
            DictEntry::Ty(stored) => AbsolutePath::Path {
                name: Box::new(PathPrefix::InherentImpl { self_type: Box::new(clone_type(stored)) }),
                args: GenericArgumentList(Vec::new()),
            },
        };
        proof {
            assert(crate::ast::view_types(Seq::<Type>::empty()) =~= Seq::<TypeV>::empty());
        }
        r
    }

    /// Resolves a dictionary index seen in path-prefix position.
    fn resolve_prefix_entry(&self, iu: usize) -> (r: PathPrefix)
        requires
            iu < self.dict@.len(),
        ensures
            r@ == sd_resolve_prefix(self.model()[iu as int]),
    {
        proof {
            lemma_view_dict(self.dict@);
            assert(self.model()[iu as int] == self.dict@[iu as int].model());
        }
        let ghost e = self.model()[iu as int];
        match &self.dict[iu] {
            DictEntry::Prefix(stored) => {
                let r = clone_prefix(stored);
                proof {
                    assert(e == DictEntryV::Prefix(stored@));
                    assert(r@ == sd_resolve_prefix(e));
                }
                r
            },
            DictEntry::Ty(stored) => {
                let r = PathPrefix::InherentImpl { self_type: Box::new(clone_type(stored)) };
                proof {
                    assert(e == DictEntryV::Ty(stored@));
                    assert(sd_resolve_prefix(e) == PathPrefixV::InherentImpl {
                        self_type: Box::new(stored@),
                    });
                    assert(r@ == PathPrefixV::InherentImpl { self_type: Box::new(stored@) });
                }
                r
            },
            DictEntry::Path(stored) => {
                let inner = clone_abs_path(stored);
                let named = Type::Named(Box::new(inner));
                proof {
                    assert(named@ == TypeV::Named(Box::new(stored@)));
                }
                let r = PathPrefix::InherentImpl { self_type: Box::new(named) };
                proof {
                    assert(e == DictEntryV::Path(stored@));
                    assert(r@ == PathPrefixV::InherentImpl {
                        self_type: Box::new(TypeV::Named(Box::new(stored@))),
                    });
                    assert(sd_resolve_prefix(e) == PathPrefixV::InherentImpl {
                        self_type: Box::new(TypeV::Named(Box::new(stored@))),
                    });
                    assert(r@ == sd_resolve_prefix(e));
                }
                r
            },
        }
    }

    /// Resolves a dictionary index seen in type position.
    fn resolve_type_entry(&self, iu: usize) -> (r: Type)
        requires
            iu < self.dict@.len(),
        ensures
            r@ == sd_resolve_type(self.model()[iu as int]),
    {
        proof {
            lemma_view_dict(self.dict@);
            assert(self.model()[iu as int] == self.dict@[iu as int].model());
        }
        let ghost e = self.model()[iu as int];
        match &self.dict[iu] {
            DictEntry::Ty(stored) => {
                let r = clone_type(stored);
                proof {
                    assert(e == DictEntryV::Ty(stored@));
                    assert(r@ == sd_resolve_type(e));
                }
                r
            },
            DictEntry::Path(stored) => {
                let r = Type::Named(Box::new(clone_abs_path(stored)));
                proof {
                    assert(e == DictEntryV::Path(stored@));
                    assert(r@ == TypeV::Named(Box::new(stored@)));
                    assert(r@ == sd_resolve_type(e));
                }
                r
            },
            DictEntry::Prefix(stored) => {
                let empty_args = GenericArgumentList(Vec::new());
                proof {
                    assert(empty_args@ =~= Seq::<TypeV>::empty());
                }
                let inner = AbsolutePath::Path {
                    name: Box::new(clone_prefix(stored)),
                    args: empty_args,
                };
                proof {
                    assert(inner@ == AbsolutePathV::Path {
                        name: Box::new(stored@),
                        args: Seq::empty(),
                    });
                }
                let r = Type::Named(Box::new(inner));
                proof {
                    assert(e == DictEntryV::Prefix(stored@));
                    assert(r@ == TypeV::Named(
                        Box::new(
                            AbsolutePathV::Path { name: Box::new(stored@), args: Seq::empty() },
                        ),
                    ));
                    assert(r@ == sd_resolve_type(e));
                }
                r
            },
        }
    }

    /// Decompresses a whole symbol.
    pub fn decompress_symbol(&mut self, symbol: &Symbol) -> (r: Symbol)
        ensures
            (r@, final(self).model()) == ({
                let (name2, d1) = sd_path(old(self).model(), symbol@.name);
                let (ic2, d2) = match symbol@.instantiating_crate {
                    Some(p) => {
                        let (p2, dx) = sd_prefix(d1, p);
                        (Some(p2), dx)
                    },
                    None => (None, d1),
                };
                (SymbolV { name: name2, instantiating_crate: ic2 }, d2)
            }),
    {
        let name = self.decompress_qname(&symbol.name);
        let instantiating_crate: Option<PathPrefix> = match &symbol.instantiating_crate {
            Some(ic) => Some(self.decompress_name_prefix(ic)),
            None => None,
        };
        Symbol { name, instantiating_crate }
    }

    /// Decompresses an absolute path.
    pub fn decompress_qname(&mut self, ap: &AbsolutePath) -> (r: AbsolutePath)
        ensures
            (r@, final(self).model()) == sd_path(old(self).model(), ap@),
        decreases ap, 3int,
    {
        match ap {
            AbsolutePath::Path { name, args } => {
                let name2 = self.decompress_name_prefix(name);
                let args2 = self.decompress_generic_parameter_list(args);
                let r = AbsolutePath::Path { name: Box::new(name2), args: args2 };
                proof {
                    crate::ast::lemma_view_types(args.0@);
                }
                if args.0.len() > 0 {
                    self.alloc_subst(DictEntry::Path(clone_abs_path(&r)));
                }
                r
            },
            AbsolutePath::Subst(s) => {
                proof {
                    lemma_view_dict(self.dict@);
                }
                if s.0 < self.dict.len() as u64 {
                    self.resolve_path_entry(s.0 as usize)
                } else {
                    AbsolutePath::Subst(*s)
                }
            },
        }
    }

    /// Decompresses a path prefix.
    #[verifier::rlimit(100)]
    pub fn decompress_name_prefix(&mut self, p: &PathPrefix) -> (r: PathPrefix)
        ensures
            (r@, final(self).model()) == sd_prefix(old(self).model(), p@),
        decreases p, 1int,
    {
        match p {
            PathPrefix::CrateId { .. } => {
                let r = clone_prefix(p);
                self.alloc_subst(DictEntry::Prefix(clone_prefix(p)));
                r
            },
            PathPrefix::TraitImpl { self_type, impled_trait, dis } => {
                let st2 = self.decompress_type(self_type);
                let tr2: Option<Box<AbsolutePath>> = match impled_trait {
                    Some(t) => Some(Box::new(self.decompress_qname(t))),
                    None => None,
                };
                let r = PathPrefix::TraitImpl {
                    self_type: Box::new(st2),
                    impled_trait: tr2,
                    dis: *dis,
                };
                self.alloc_subst(DictEntry::Prefix(clone_prefix(&r)));
                r
            },
            PathPrefix::InherentImpl { self_type } => {
                let st2 = self.decompress_type(self_type);
                PathPrefix::InherentImpl { self_type: Box::new(st2) }
            },
            PathPrefix::Node { prefix, ident } => {
                let pf2 = self.decompress_name_prefix(prefix);
                let r = PathPrefix::Node { prefix: Box::new(pf2), ident: clone_ident(ident) };
                self.alloc_subst(DictEntry::Prefix(clone_prefix(&r)));
                r
            },
            PathPrefix::Subst(s) => {
                proof {
                    lemma_view_dict(self.dict@);
                }
                if s.0 < self.dict.len() as u64 {
                    self.resolve_prefix_entry(s.0 as usize)
                } else {
                    PathPrefix::Subst(*s)
                }
            },
        }
    }

    /// Decompresses each argument of a generic-argument list.
    pub fn decompress_generic_parameter_list(&mut self, args: &GenericArgumentList) -> (r:
        GenericArgumentList)
        ensures
            (r@, final(self).model()) == sd_type_list(old(self).model(), args@),
        decreases args, 2int,
    {
        GenericArgumentList(self.decompress_type_list(&args.0))
    }

    /// Decompresses each type of a list in order.
    fn decompress_type_list(&mut self, ts: &Vec<Type>) -> (r: Vec<Type>)
        ensures
            (view_types(r@), final(self).model()) == sd_type_list(
                old(self).model(),
                view_types(ts@),
            ),
        decreases ts, 1int,
    {
        let ghost d0 = self.model();
        let ghost vts = view_types(ts@);
        let mut r: Vec<Type> = Vec::new();
        let n = ts.len();
        let mut i: usize = 0;
        proof {
            crate::ast::lemma_view_types(ts@);
            crate::ast::lemma_view_types(r@);
            assert(view_types(r@) =~= Seq::<TypeV>::empty());
            assert(vts.subrange(0, 0) =~= Seq::<TypeV>::empty());
        }
        while i < n
            invariant
                0 <= i <= n == ts@.len(),
                vts == view_types(ts@),
                vts.len() == n,
                (view_types(r@), self.model()) == sd_type_list(d0, vts.subrange(0, i as int)),
            decreases n - i,
        {
            proof {
                crate::ast::lemma_view_types(ts@);
            }
            let ghost r_old = r@;
            let c = self.decompress_type(&ts[i]);
            r.push(c);
            proof {
                crate::ast::lemma_view_types_push(r_old, c);
                assert(vts.subrange(0, i + 1).drop_last() =~= vts.subrange(0, i as int));
                assert(vts.subrange(0, i + 1).last() == vts[i as int]);
            }
            i += 1;
        }
        proof {
            assert(vts.subrange(0, n as int) =~= vts);
        }
        r
    }

    /// Decompresses a type.
    #[verifier::rlimit(100)]
    pub fn decompress_type(&mut self, t: &Type) -> (r: Type)
        ensures
            (r@, final(self).model()) == sd_type(old(self).model(), t@),
        decreases t, 0int,
    {
        match t {
            Type::BasicType(b) => Type::BasicType(*b),
            Type::GenericParam(id) => Type::GenericParam(clone_ident(id)),
            Type::Named(ap) => {
                let ap2 = self.decompress_qname(ap);
                Type::Named(Box::new(ap2))
            },
            Type::Ref(inner) => {
                let i2 = self.decompress_type(inner);
                let r = Type::Ref(Box::new(i2));
                self.alloc_subst(DictEntry::Ty(clone_type(&r)));
                r
            },
            Type::RefMut(inner) => {
                let i2 = self.decompress_type(inner);
                let r = Type::RefMut(Box::new(i2));
                self.alloc_subst(DictEntry::Ty(clone_type(&r)));
                r
            },
            Type::RawPtrConst(inner) => {
                let i2 = self.decompress_type(inner);
                let r = Type::RawPtrConst(Box::new(i2));
                self.alloc_subst(DictEntry::Ty(clone_type(&r)));
                r
            },
            Type::RawPtrMut(inner) => {
                let i2 = self.decompress_type(inner);
                let r = Type::RawPtrMut(Box::new(i2));
                self.alloc_subst(DictEntry::Ty(clone_type(&r)));
                r
            },
            Type::Array(opt_size, inner) => {
                let i2 = self.decompress_type(inner);
                let r = Type::Array(*opt_size, Box::new(i2));
                self.alloc_subst(DictEntry::Ty(clone_type(&r)));
                r
            },
            Type::Tuple(components) => {
                let cs2 = self.decompress_type_list(components);
                let r = Type::Tuple(cs2);
                self.alloc_subst(DictEntry::Ty(clone_type(&r)));
                r
            },
            Type::Fn { is_unsafe, abi, params, return_type } => {
                let ps2 = self.decompress_type_list(params);
                let rt2: Option<Box<Type>> = match return_type {
                    Some(rt) => Some(Box::new(self.decompress_type(rt))),
                    None => None,
                };
                let r = Type::Fn {
                    is_unsafe: *is_unsafe,
                    abi: *abi,
                    params: ps2,
                    return_type: rt2,
                };
                self.alloc_subst(DictEntry::Ty(clone_type(&r)));
                r
            },
            Type::Subst(s) => {
                proof {
                    lemma_view_dict(self.dict@);
                }
                if s.0 < self.dict.len() as u64 {
                    self.resolve_type_entry(s.0 as usize)
                } else {
                    Type::Subst(*s)
                }
            },
        }
    }

    /// The dictionary as (index, verbose rendering) pairs, in index order.
    pub fn to_debug_dictionary(&self) -> (r: DebugDictionary)
        ensures
            r.data@.len() == self.dict@.len(),
            forall|i: int| 0 <= i < r.data@.len() ==> (#[trigger] r.data@[i]).0 == Subst(i as u64),
    {
        let mut items: Vec<(Subst, String)> = Vec::new();
        let n = self.dict.len();
        let mut i: usize = 0;
        while i < n
            invariant
                0 <= i <= n == self.dict@.len(),
                items@.len() == i,
                forall|j: int| 0 <= j < i ==> (#[trigger] items@[j]).0 == Subst(j as u64),
            decreases n - i,
        {
            let mut rendered = String::new();
            match &self.dict[i] {
                DictEntry::Prefix(p) => p.pretty_print(&mut rendered, true),
                DictEntry::Path(ap) => ap.pretty_print(&mut rendered, true),
                DictEntry::Ty(t) => t.pretty_print(&mut rendered, true),
            }
            items.push((Subst(i as u64), rendered));
            i += 1;
        }
        DebugDictionary { data: items }
    }
}

} // verus!
