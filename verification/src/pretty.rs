//! The pretty printer: renders the structured form in surface syntax. Each
//! emitter takes one `verbose` flag: verbose output shows numeric
//! disambiguators, crate disambiguator brackets and the instantiating
//! crate; plain output suppresses them.
//!
//! Displayed disambiguator indices are one above the stored value (the
//! stored value 0 means "absent" and shows as 1 on closures); the index
//! saturates at the largest 64-bit value.
use vstd::prelude::*;

use crate::ast::{
    Abi, AbsolutePath, AbsolutePathV, BasicType, GenericArgumentList, Ident, IdentTag, IdentV,
    NumericDisambiguator, PathPrefix, PathPrefixV, Subst, Symbol, SymbolV, Type, TypeV,
};
use crate::int_radix::{push_radix_digits, spec_radix_digits};
use crate::text::{chars_to_string, push_str_chars};
use vstd::string::StringExecFns;

verus! {

broadcast use vstd::std_specs::vec::group_vec_axioms, vstd::seq::group_seq_axioms;

/// The displayed index of a disambiguator: one above the stored value,
/// saturating.
pub open spec fn spec_display_index(d: NumericDisambiguator) -> Seq<char> {
    seq!['['] + spec_radix_digits(
        if d.0 == u64::MAX {
            d.0 as nat
        } else {
            (d.0 + 1) as nat
        },
        10,
    ) + seq![']']
}

/// The rendered name of a basic type.
pub open spec fn spec_pretty_basic(b: BasicType) -> Seq<char> {
    match b {
        BasicType::Bool => "bool"@,
        BasicType::Char => "char"@,
        BasicType::Str => "str"@,
        BasicType::Unit => "()"@,
        BasicType::I8 => "i8"@,
        BasicType::I16 => "i16"@,
        BasicType::I32 => "i32"@,
        BasicType::I64 => "i64"@,
        BasicType::I128 => "i128"@,
        BasicType::Isize => "isize"@,
        BasicType::U8 => "u8"@,
        BasicType::U16 => "u16"@,
        BasicType::U32 => "u32"@,
        BasicType::U64 => "u64"@,
        BasicType::U128 => "u128"@,
        BasicType::Usize => "usize"@,
        BasicType::F32 => "f32"@,
        BasicType::F64 => "f64"@,
        BasicType::Never => "!"@,
        BasicType::Ellipsis => "..."@,
    }
}

/// The rendered ABI name, quoted.
pub open spec fn spec_pretty_abi(a: Abi) -> Seq<char> {
    match a {
        Abi::Rust => seq!['"'] + seq!['"'],
        Abi::C => seq!['"'] + seq!['C'] + seq!['"'],
    }
}

/// The rendered identifier: closures show as `{closure}` with their index
/// always attached; other identifiers show their text, a tick for the
/// value namespace in verbose mode, and their index in verbose mode where
/// one was stored.
pub open spec fn spec_pretty_ident(id: IdentV, verbose: bool) -> Seq<char> {
    if id.tag == IdentTag::Closure {
        "{closure}"@ + spec_display_index(id.dis)
    } else {
        id.ident + (if verbose && id.tag == IdentTag::ValueNs {
            seq!['\'']
        } else {
            Seq::empty()
        }) + (if verbose && id.dis.0 > 0 {
            spec_display_index(id.dis)
        } else {
            Seq::empty()
        })
    }
}

/// The rendered back-reference, as a placeholder with its index.
pub open spec fn spec_pretty_subst(s: Subst) -> Seq<char> {
    seq!['{'] + spec_radix_digits(s.0 as nat, 10) + seq!['}']
}

/// The rendered path prefix.
pub open spec fn spec_pretty_prefix(p: PathPrefixV, verbose: bool) -> Seq<char>
    decreases p, 0int,
{
    match p {
        PathPrefixV::CrateId { name, dis } => name + (if verbose {
            seq!['['] + dis + seq![']']
        } else {
            Seq::empty()
        }),
        PathPrefixV::TraitImpl { self_type, impled_trait, dis } => seq!['<'] + spec_pretty_type(
            *self_type,
            verbose,
        ) + (match impled_trait {
            Some(t) => " as "@ + spec_pretty_path(*t, verbose),
            None => Seq::empty(),
        }) + seq!['>'] + (if verbose && dis.0 > 0 {
            spec_display_index(dis)
        } else {
            Seq::empty()
        }),
        PathPrefixV::InherentImpl { self_type } => seq!['<'] + spec_pretty_type(
            *self_type,
            verbose,
        ) + seq!['>'],
        PathPrefixV::Node { prefix, ident } => spec_pretty_prefix(*prefix, verbose) + "::"@
            + spec_pretty_ident(ident, verbose),
        PathPrefixV::Subst(s) => spec_pretty_subst(s),
    }
}

/// The rendered absolute path: its prefix and its argument list.
pub open spec fn spec_pretty_path(ap: AbsolutePathV, verbose: bool) -> Seq<char>
    decreases ap, 2int,
{
    match ap {
        AbsolutePathV::Path { name, args } => spec_pretty_prefix(*name, verbose)
            + spec_pretty_args(args, verbose),
        AbsolutePathV::Subst(s) => spec_pretty_subst(s),
    }
}

/// The rendered argument list: nothing when empty, else angle brackets
/// around the comma-separated types.
pub open spec fn spec_pretty_args(args: Seq<TypeV>, verbose: bool) -> Seq<char>
    decreases args, 1int,
{
    if args.len() == 0 {
        Seq::empty()
    } else {
        seq!['<'] + spec_pretty_type_list(args, verbose) + seq!['>']
    }
}

/// Types joined by commas.
pub open spec fn spec_pretty_type_list(ts: Seq<TypeV>, verbose: bool) -> Seq<char>
    decreases ts, 0int,
{
    if ts.len() == 0 {
        Seq::empty()
    } else if ts.len() == 1 {
        spec_pretty_type(ts.last(), verbose)
    } else {
        spec_pretty_type_list(ts.drop_last(), verbose) + seq![','] + spec_pretty_type(
            ts.last(),
            verbose,
        )
    }
}

/// The rendered type.
pub open spec fn spec_pretty_type(t: TypeV, verbose: bool) -> Seq<char>
    decreases t, 3int,
{
    match t {
        TypeV::BasicType(b) => spec_pretty_basic(b),
        TypeV::Ref(inner) => seq!['&'] + spec_pretty_type(*inner, verbose),
        TypeV::RefMut(inner) => "&mut "@ + spec_pretty_type(*inner, verbose),
        TypeV::RawPtrConst(inner) => "*const "@ + spec_pretty_type(*inner, verbose),
        TypeV::RawPtrMut(inner) => "*mut "@ + spec_pretty_type(*inner, verbose),
        TypeV::Array(opt_size, inner) => seq!['['] + spec_pretty_type(*inner, verbose) + (
        match opt_size {
            Some(n) => "; "@ + spec_radix_digits(n as nat, 10),
            None => Seq::empty(),
        }) + seq![']'],
        TypeV::Tuple(components) => seq!['('] + spec_pretty_type_list(components, verbose)
            + seq![')'],
        TypeV::Named(ap) => spec_pretty_path(*ap, verbose),
        TypeV::GenericParam(id) => spec_pretty_ident(id, verbose),
        TypeV::Fn { is_unsafe, abi, params, return_type } => (if is_unsafe {
            "unsafe "@
        } else {
            Seq::empty()
        }) + (if abi != Abi::Rust {
            "extern "@ + spec_pretty_abi(abi) + seq![' ']
        } else {
            Seq::empty()
        }) + "fn("@ + spec_pretty_type_list(params, verbose) + seq![')'] + (match return_type {
            Some(rt) => " -> "@ + spec_pretty_type(*rt, verbose),
            None => Seq::empty(),
        }),
        TypeV::Subst(s) => spec_pretty_subst(s),
    }
}

/// The rendered symbol: its path, and in verbose mode the instantiating
/// crate after an `@` sign.
pub open spec fn spec_pretty_symbol(sym: SymbolV, verbose: bool) -> Seq<char> {
    spec_pretty_path(sym.name, verbose) + (match sym.instantiating_crate {
        Some(p) => if verbose {
            " @ "@ + spec_pretty_prefix(p, verbose)
        } else {
            Seq::empty()
        },
        None => Seq::empty(),
    })
}

/// Writes the displayed disambiguator index.
pub fn push_display_index(out: &mut Vec<char>, d: NumericDisambiguator)
    ensures
        final(out)@ == old(out)@ + spec_display_index(d),
{
    out.push('[');
    let shown = if d.0 == u64::MAX {
        d.0
    } else {
        d.0 + 1
    };
    push_radix_digits(out, shown, 10);
    out.push(']');
    proof {
        assert(out@ =~= old(out)@ + spec_display_index(d));
    }
}

/// Appending one element extends the comma-joined list by a comma and that
/// element.
pub proof fn lemma_pretty_list_push(ts: Seq<TypeV>, t: TypeV, verbose: bool)
    ensures
        ts.len() == 0 ==> spec_pretty_type_list(ts.push(t), verbose) == spec_pretty_type(
            t,
            verbose,
        ),
        ts.len() > 0 ==> spec_pretty_type_list(ts.push(t), verbose) == spec_pretty_type_list(
            ts,
            verbose,
        ) + seq![','] + spec_pretty_type(t, verbose),
{
    assert(ts.push(t).drop_last() =~= ts);
    assert(ts.push(t).last() == t);
}

impl IdentTag {
    /// Writes nothing: the namespace shows only through its identifier.
    fn pretty_chars(&self, out: &mut Vec<char>)
        ensures
            final(out)@ == old(out)@,
    {
    }

    /// Appends this tag's rendering, which is empty.
    pub fn pretty_print(&self, out: &mut String, verbose: bool)
        ensures
            final(out)@ == old(out)@,
    {
        let mut buf: Vec<char> = Vec::new();
        self.pretty_chars(&mut buf);
        let s = chars_to_string(&buf);
        out.append(s.as_str());
    }
}

impl Ident {
    /// Writes the rendered identifier.
    pub fn pretty_print_chars(&self, out: &mut Vec<char>, verbose: bool)
        ensures
            final(out)@ == old(out)@ + spec_pretty_ident(self@, verbose),
    {
        match self.tag {
            IdentTag::Closure => {
                push_str_chars(out, "{closure}");
                push_display_index(out, self.dis);
            },
            _ => {
                push_str_chars(out, self.ident.as_str());
                if verbose {
                    match self.tag {
                        IdentTag::ValueNs => out.push('\''),
                        _ => {},
                    }
                }
                if verbose && self.dis.0 > 0 {
                    push_display_index(out, self.dis);
                }
            },
        }
        proof {
            assert(out@ =~= old(out)@ + spec_pretty_ident(self@, verbose));
        }
    }

    /// Appends the rendered identifier.
    pub fn pretty_print(&self, out: &mut String, verbose: bool)
        ensures
            final(out)@ == old(out)@ + spec_pretty_ident(self@, verbose),
    {
        let mut buf: Vec<char> = Vec::new();
        self.pretty_print_chars(&mut buf, verbose);
        let s = chars_to_string(&buf);
        out.append(s.as_str());
    }
}

impl Subst {
    /// Writes the placeholder form of an unresolved back-reference.
    fn pretty_chars(&self, out: &mut Vec<char>)
        ensures
            final(out)@ == old(out)@ + spec_pretty_subst(*self),
    {
        out.push('{');
        push_radix_digits(out, self.0, 10);
        out.push('}');
        proof {
            assert(out@ =~= old(out)@ + spec_pretty_subst(*self));
        }
    }

    /// Appends the placeholder form of an unresolved back-reference.
    pub fn pretty_print(&self, out: &mut String, verbose: bool)
        ensures
            final(out)@ == old(out)@ + spec_pretty_subst(*self),
    {
        let mut buf: Vec<char> = Vec::new();
        self.pretty_chars(&mut buf);
        let s = chars_to_string(&buf);
        out.append(s.as_str());
    }
}

impl BasicType {
    /// Writes the name of this basic type.
    pub fn pretty_print_basic_chars(&self, out: &mut Vec<char>)
        ensures
            final(out)@ == old(out)@ + spec_pretty_basic(*self),
    {
        let name: &str = match self {
            BasicType::Bool => "bool",
            BasicType::Char => "char",
            BasicType::Str => "str",
            BasicType::Unit => "()",
            BasicType::I8 => "i8",
            BasicType::I16 => "i16",
            BasicType::I32 => "i32",
            BasicType::I64 => "i64",
            BasicType::I128 => "i128",
            BasicType::Isize => "isize",
            BasicType::U8 => "u8",
            BasicType::U16 => "u16",
            BasicType::U32 => "u32",
            BasicType::U64 => "u64",
            BasicType::U128 => "u128",
            BasicType::Usize => "usize",
            BasicType::F32 => "f32",
            BasicType::F64 => "f64",
            BasicType::Never => "!",
            BasicType::Ellipsis => "...",
        };
        push_str_chars(out, name);
    }

    /// Appends the name of this basic type.
    pub fn pretty_print(&self, out: &mut String, verbose: bool)
        ensures
            final(out)@ == old(out)@ + spec_pretty_basic(*self),
    {
        let mut buf: Vec<char> = Vec::new();
        self.pretty_print_basic_chars(&mut buf);
        let s = chars_to_string(&buf);
        out.append(s.as_str());
    }
}

impl Abi {
    /// Writes the quoted ABI name.
    pub fn pretty_print_abi_chars(&self, out: &mut Vec<char>)
        ensures
            final(out)@ == old(out)@ + spec_pretty_abi(*self),
    {
        out.push('"');
        match self {
            Abi::Rust => {},
            Abi::C => out.push('C'),
        }
        out.push('"');
        proof {
            assert(out@ =~= old(out)@ + spec_pretty_abi(*self));
        }
    }

    /// Appends the quoted ABI name.
    pub fn pretty_print(&self, out: &mut String, verbose: bool)
        ensures
            final(out)@ == old(out)@ + spec_pretty_abi(*self),
    {
        let mut buf: Vec<char> = Vec::new();
        self.pretty_print_abi_chars(&mut buf);
        let s = chars_to_string(&buf);
        out.append(s.as_str());
    }
}

impl PathPrefix {
    /// Writes the rendered path prefix.
    #[verifier::rlimit(100)]
    pub fn pretty_print_prefix_chars(&self, out: &mut Vec<char>, verbose: bool)
        ensures
            final(out)@ == old(out)@ + spec_pretty_prefix(self@, verbose),
        decreases self,
    {
        match self {
            PathPrefix::CrateId { name, dis } => {
                push_str_chars(out, name.as_str());
                if verbose {
                    out.push('[');
                    push_str_chars(out, dis.as_str());
                    out.push(']');
                }
                proof {
                    assert(out@ =~= old(out)@ + spec_pretty_prefix(self@, verbose));
                }
            },
            PathPrefix::TraitImpl { self_type, impled_trait, dis } => {
                out.push('<');
                self_type.pretty_chars(out, verbose);
                match impled_trait {
                    Some(t) => {
                        push_str_chars(out, " as ");
                        t.pretty_chars(out, verbose);
                    },
                    None => {},
                }
                out.push('>');
                if verbose && dis.0 > 0 {
                    push_display_index(out, *dis);
                }
                proof {
                    assert(out@ =~= old(out)@ + spec_pretty_prefix(self@, verbose));
                }
            },
            PathPrefix::InherentImpl { self_type } => {
                out.push('<');
                self_type.pretty_chars(out, verbose);
                out.push('>');
                proof {
                    assert(out@ =~= old(out)@ + spec_pretty_prefix(self@, verbose));
                }
            },
            PathPrefix::Node { prefix, ident } => {
                prefix.pretty_print_prefix_chars(out, verbose);
                push_str_chars(out, "::");
                ident.pretty_print_chars(out, verbose);
                proof {
                    assert(out@ =~= old(out)@ + spec_pretty_prefix(self@, verbose));
                }
            },
            PathPrefix::Subst(s) => {
                s.pretty_chars(out);
            },
        }
    }

    /// Appends the rendered path prefix.
    pub fn pretty_print(&self, out: &mut String, verbose: bool)
        ensures
            final(out)@ == old(out)@ + spec_pretty_prefix(self@, verbose),
    {
        let mut buf: Vec<char> = Vec::new();
        self.pretty_print_prefix_chars(&mut buf, verbose);
        let s = chars_to_string(&buf);
        out.append(s.as_str());
    }
}

impl AbsolutePath {
    /// Writes the rendered absolute path.
    fn pretty_chars(&self, out: &mut Vec<char>, verbose: bool)
        ensures
            final(out)@ == old(out)@ + spec_pretty_path(self@, verbose),
        decreases self,
    {
        match self {
            AbsolutePath::Path { name, args } => {
                name.pretty_print_prefix_chars(out, verbose);
                args.pretty_chars(out, verbose);
                proof {
                    assert(out@ =~= old(out)@ + spec_pretty_path(self@, verbose));
                }
            },
            AbsolutePath::Subst(s) => {
                s.pretty_chars(out);
            },
        }
    }

    /// Appends the rendered absolute path.
    pub fn pretty_print(&self, out: &mut String, verbose: bool)
        ensures
            final(out)@ == old(out)@ + spec_pretty_path(self@, verbose),
    {
        let mut buf: Vec<char> = Vec::new();
        self.pretty_chars(&mut buf, verbose);
        let s = chars_to_string(&buf);
        out.append(s.as_str());
    }
}

/// Writes the comma-joined renderings of a list of types.
fn push_pretty_list(out: &mut Vec<char>, ts: &Vec<Type>, verbose: bool)
    ensures
        final(out)@ == old(out)@ + spec_pretty_type_list(crate::ast::view_types(ts@), verbose),
    decreases ts,
{
    let ghost orig = out@;
    let n = ts.len();
    let mut i: usize = 0;
    proof {
        assert(crate::ast::view_types(ts@).subrange(0, 0) =~= Seq::<TypeV>::empty());
    }
    while i < n
        invariant
            0 <= i <= n == ts@.len(),
            out@ == orig + spec_pretty_type_list(
                crate::ast::view_types(ts@).subrange(0, i as int),
                verbose,
            ),
        decreases n - i,
    {
        proof {
            crate::ast::lemma_view_types(ts@);
        }
        if i > 0 {
            out.push(',');
        }
        ts[i].pretty_chars(out, verbose);
        proof {
            let vts = crate::ast::view_types(ts@);
            assert(vts.subrange(0, i + 1) =~= vts.subrange(0, i as int).push(vts[i as int]));
            lemma_pretty_list_push(vts.subrange(0, i as int), vts[i as int], verbose);
            assert(out@ =~= orig + spec_pretty_type_list(vts.subrange(0, i + 1), verbose));
        }
        i += 1;
    }
    proof {
        crate::ast::lemma_view_types(ts@);
        let vts = crate::ast::view_types(ts@);
        assert(vts.subrange(0, n as int) =~= vts);
    }
}

impl GenericArgumentList {
    /// Writes the rendered argument list.
    fn pretty_chars(&self, out: &mut Vec<char>, verbose: bool)
        ensures
            final(out)@ == old(out)@ + spec_pretty_args(self@, verbose),
        decreases self,
    {
        broadcast use crate::ast::lemma_view_types;

        if self.0.len() > 0 {
            out.push('<');
            push_pretty_list(out, &self.0, verbose);
            out.push('>');
            proof {
                assert(out@ =~= old(out)@ + spec_pretty_args(self@, verbose));
            }
        }
    }

    /// Appends the rendered argument list.
    pub fn pretty_print(&self, out: &mut String, verbose: bool)
        ensures
            final(out)@ == old(out)@ + spec_pretty_args(self@, verbose),
    {
        let mut buf: Vec<char> = Vec::new();
        self.pretty_chars(&mut buf, verbose);
        let s = chars_to_string(&buf);
        out.append(s.as_str());
    }
}

impl Type {
    /// Writes the rendered type.
    #[verifier::rlimit(100)]
    fn pretty_chars(&self, out: &mut Vec<char>, verbose: bool)
        ensures
            final(out)@ == old(out)@ + spec_pretty_type(self@, verbose),
        decreases self,
    {
        match self {
            Type::BasicType(b) => {
                b.pretty_print_basic_chars(out);
            },
            Type::Ref(t) => {
                out.push('&');
                t.pretty_chars(out, verbose);
                proof {
                    assert(out@ =~= old(out)@ + spec_pretty_type(self@, verbose));
                }
            },
            Type::RefMut(t) => {
                push_str_chars(out, "&mut ");
                t.pretty_chars(out, verbose);
            },
            Type::RawPtrConst(t) => {
                push_str_chars(out, "*const ");
                t.pretty_chars(out, verbose);
            },
            Type::RawPtrMut(t) => {
                push_str_chars(out, "*mut ");
                t.pretty_chars(out, verbose);
            },
            Type::Array(opt_size, t) => {
                out.push('[');
                t.pretty_chars(out, verbose);
                match opt_size {
                    Some(n) => {
                        push_str_chars(out, "; ");
                        push_radix_digits(out, *n, 10);
                    },
                    None => {},
                }
                out.push(']');
                proof {
                    assert(out@ =~= old(out)@ + spec_pretty_type(self@, verbose));
                }
            },
            Type::Tuple(ts) => {
                out.push('(');
                push_pretty_list(out, ts, verbose);
                out.push(')');
                proof {
                    assert(out@ =~= old(out)@ + spec_pretty_type(self@, verbose));
                }
            },
            Type::Named(ap) => {
                ap.pretty_chars(out, verbose);
            },
            Type::GenericParam(id) => {
                id.pretty_print_chars(out, verbose);
            },
            Type::Fn { is_unsafe, abi, params, return_type } => {
                if *is_unsafe {
                    push_str_chars(out, "unsafe ");
                }
                match abi {
                    Abi::Rust => {},
                    _ => {
                        push_str_chars(out, "extern ");
                        abi.pretty_print_abi_chars(out);
                        out.push(' ');
                    },
                }
                push_str_chars(out, "fn(");
                push_pretty_list(out, params, verbose);
                out.push(')');
                match return_type {
                    Some(rt) => {
                        push_str_chars(out, " -> ");
                        rt.pretty_chars(out, verbose);
                    },
                    None => {},
                }
                proof {
                    assert(out@ =~= old(out)@ + spec_pretty_type(self@, verbose));
                }
            },
            Type::Subst(s) => {
                s.pretty_chars(out);
            },
        }
    }

    /// Appends the rendered type.
    pub fn pretty_print(&self, out: &mut String, verbose: bool)
        ensures
            final(out)@ == old(out)@ + spec_pretty_type(self@, verbose),
    {
        let mut buf: Vec<char> = Vec::new();
        self.pretty_chars(&mut buf, verbose);
        let s = chars_to_string(&buf);
        out.append(s.as_str());
    }
}

impl Symbol {
    /// Writes the rendered symbol.
    fn pretty_chars(&self, out: &mut Vec<char>, verbose: bool)
        ensures
            final(out)@ == old(out)@ + spec_pretty_symbol(self@, verbose),
    {
        self.name.pretty_chars(out, verbose);
        match &self.instantiating_crate {
            Some(p) => {
                if verbose {
                    push_str_chars(out, " @ ");
                    p.pretty_print_prefix_chars(out, verbose);
                }
            },
            None => {},
        }
        proof {
            assert(out@ =~= old(out)@ + spec_pretty_symbol(self@, verbose));
        }
    }

    /// Appends the rendered symbol.
    pub fn pretty_print(&self, out: &mut String, verbose: bool)
        ensures
            final(out)@ == old(out)@ + spec_pretty_symbol(self@, verbose),
    {
        let mut buf: Vec<char> = Vec::new();
        self.pretty_chars(&mut buf, verbose);
        let s = chars_to_string(&buf);
        out.append(s.as_str());
    }
}

/// A closure identifier always shows its disambiguator index, in both
/// modes, even where the stored value is 0.
pub proof fn lemma_closure_always_shows_index(id: IdentV, verbose: bool)
    requires
        id.tag == IdentTag::Closure,
    ensures
        spec_pretty_ident(id, verbose) == "{closure}"@ + spec_display_index(id.dis),
{
}

} // verus!
