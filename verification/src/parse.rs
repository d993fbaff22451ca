//! The parser: single-lookahead recursive descent from mangled bytes to the
//! structured form. Back-references in the input become `Subst` nodes; the
//! decompressor expands them.
//!
//! The `sp_*` functions are the reference statement of the grammar: each
//! takes the input characters and a position and yields the parsed node and
//! the position after it, or the error kind and position. Each executable
//! production is proved to return exactly what they describe. The spec
//! functions guard each inner position with `pos < p <= s.len()`; the
//! executable productions prove that they always advance, so the guards'
//! failure branches are never taken.
use vstd::prelude::*;

use crate::ast::{
    Abi, AbsolutePath, AbsolutePathV, BasicType, GenericArgumentList, Ident, IdentTag, IdentV,
    NumericDisambiguator, PathPrefix, PathPrefixV, Subst, Symbol, SymbolV, Type, TypeV,
    NUMBER_RADIX,
};
use crate::charset::spec_decode_ident;
use crate::int_radix::{spec_digit_value, spec_digits_value};
use crate::text::{ascii_chars, chars_are_ascii, chars_to_string};

verus! {

broadcast use vstd::std_specs::vec::group_vec_axioms, vstd::seq::group_seq_axioms;

/// The synthetic end-of-input byte: every position at or past the end of
/// the input reads as this, so one-byte lookahead is always defined.
pub const EOT: u8 = 5;

/// The end-of-input sentinel as a character.
pub const EOT_CHAR: char = '\u{5}';

/// Why a parse failed, and nothing more; the position travels beside it.
#[derive(Clone, Copy, Debug, PartialEq, Eq, Structural)]
pub enum ParseErrorKind {
    /// A wrong tag letter, missing terminator or malformed integer.
    Malformed,
    /// A non-ASCII byte in an identifier payload, or a failed punycode
    /// decode.
    Encoding,
    /// An encoding-version tag; only the untagged version is supported.
    Version { version: u64 },
    /// End of input inside a production.
    Truncation,
    /// A back-reference to an index not yet defined.
    Dictionary { index: u64 },
}

/// The character at a position, or the end sentinel.
pub open spec fn sp_peek(s: Seq<char>, pos: int) -> char {
    if 0 <= pos < s.len() {
        s[pos]
    } else {
        EOT_CHAR
    }
}

/// The error for an unexpected character: truncation at the end of input,
/// structural otherwise.
pub open spec fn sp_fail(s: Seq<char>, pos: int) -> (ParseErrorKind, int) {
    (
        if pos >= s.len() {
            ParseErrorKind::Truncation
        } else {
            ParseErrorKind::Malformed
        },
        pos,
    )
}

/// The end of the run of digits of the given radix starting at `pos`.
pub open spec fn sp_digit_run_end(s: Seq<char>, pos: int, radix: nat) -> int
    decreases s.len() - pos,
{
    if 0 <= pos < s.len() && spec_digit_value(s[pos], radix) is Some {
        sp_digit_run_end(s, pos + 1, radix)
    } else {
        pos
    }
}

/// Reads a number: the maximal digit run, which must not be empty and must
/// fit in 64 bits.
pub open spec fn sp_number(s: Seq<char>, pos: int, radix: nat) -> Result<
    (u64, int),
    (ParseErrorKind, int),
> {
    let end = sp_digit_run_end(s, pos, radix);
    if end == pos {
        Err(sp_fail(s, pos))
    } else {
        let v = spec_digits_value(s.subrange(pos, end), radix);
        if v > u64::MAX {
            Err((ParseErrorKind::Malformed, pos))
        } else {
            Ok((v as u64, end))
        }
    }
}

/// Reads length-prefixed identifier text: a decimal length, that many
/// bytes, and an optional `u` marker asking for the punycode transform to
/// be undone. Unmarked payloads must be ASCII.
pub open spec fn sp_uident(s: Seq<char>, pos: int) -> Result<
    (Seq<char>, int),
    (ParseErrorKind, int),
> {
    match sp_number(s, pos, 10) {
        Err(e) => Err(e),
        Ok((n, p1)) => {
            if p1 + n > s.len() {
                Err((ParseErrorKind::Truncation, p1))
            } else {
                let payload = s.subrange(p1, p1 + n);
                let p2 = p1 + n;
                if sp_peek(s, p2) == 'u' {
                    match spec_decode_ident(payload) {
                        Some(text) => Ok((text, p2 + 1)),
                        None => Err((ParseErrorKind::Encoding, p2)),
                    }
                } else {
                    if ascii_chars(payload) {
                        Ok((payload, p2))
                    } else {
                        Err((ParseErrorKind::Encoding, p1))
                    }
                }
            }
        },
    }
}

/// Reads an optional numeric disambiguator: absent means 0, `s_` means 1,
/// `s<n>_` means n + 2.
pub open spec fn sp_opt_dis(s: Seq<char>, pos: int) -> Result<
    (NumericDisambiguator, int),
    (ParseErrorKind, int),
> {
    if sp_peek(s, pos) == 's' {
        if sp_peek(s, pos + 1) == '_' {
            Ok((NumericDisambiguator(1), pos + 2))
        } else {
            match sp_number(s, pos + 1, NUMBER_RADIX as nat) {
                Err(e) => Err(e),
                Ok((n, p1)) => {
                    if sp_peek(s, p1) != '_' {
                        Err(sp_fail(s, p1))
                    } else if n > u64::MAX - 2 {
                        Err((ParseErrorKind::Malformed, pos + 1))
                    } else {
                        Ok((NumericDisambiguator((n + 2) as u64), p1 + 1))
                    }
                },
            }
        }
    } else {
        Ok((NumericDisambiguator(0), pos))
    }
}

/// Reads a back-reference: `S_` means index 0, `S<n>_` means n + 1.
pub open spec fn sp_subst(s: Seq<char>, pos: int) -> Result<
    (Subst, int),
    (ParseErrorKind, int),
> {
    if sp_peek(s, pos) != 'S' {
        Err(sp_fail(s, pos))
    } else if sp_peek(s, pos + 1) == '_' {
        Ok((Subst(0), pos + 2))
    } else {
        match sp_number(s, pos + 1, NUMBER_RADIX as nat) {
            Err(e) => Err(e),
            Ok((n, p1)) => {
                if sp_peek(s, p1) != '_' {
                    Err(sp_fail(s, p1))
                } else if n > u64::MAX - 1 {
                    Err((ParseErrorKind::Malformed, pos + 1))
                } else {
                    Ok((Subst((n + 1) as u64), p1 + 1))
                }
            },
        }
    }
}

/// Reads an identifier: text, optional namespace tag, optional
/// disambiguator.
pub open spec fn sp_ident(s: Seq<char>, pos: int) -> Result<
    (IdentV, int),
    (ParseErrorKind, int),
> {
    match sp_uident(s, pos) {
        Err(e) => Err(e),
        Ok((text, p1)) => {
            let (tag, p2) = if sp_peek(s, p1) == 'C' {
                (IdentTag::Closure, p1 + 1)
            } else if sp_peek(s, p1) == 'V' {
                (IdentTag::ValueNs, p1 + 1)
            } else {
                (IdentTag::TypeNs, p1)
            };
            match sp_opt_dis(s, p2) {
                Err(e) => Err(e),
                Ok((dis, p3)) => Ok((IdentV { ident: text, tag, dis }, p3)),
            }
        },
    }
}

/// Reads a crate id: length-prefixed text holding "name_disambiguator",
/// split at its last underscore.
pub open spec fn sp_crate_id(s: Seq<char>, pos: int) -> Result<
    (PathPrefixV, int),
    (ParseErrorKind, int),
> {
    match sp_uident(s, pos) {
        Err(e) => Err(e),
        Ok((text, p1)) => {
            let sep = crate::charset::spec_last_index_of(text, '_');
            if sep < 0 {
                Err((ParseErrorKind::Malformed, pos))
            } else {
                Ok(
                    (
                        PathPrefixV::CrateId {
                            name: text.subrange(0, sep),
                            dis: text.subrange(sep + 1, text.len() as int),
                        },
                        p1,
                    ),
                )
            }
        },
    }
}

/// Reads the chain of identifiers appended to a path-prefix root; stops
/// before `E`, `I` or the end of input.
pub open spec fn sp_prefix_tail(s: Seq<char>, pos: int, acc: PathPrefixV) -> Result<
    (PathPrefixV, int),
    (ParseErrorKind, int),
>
    decreases s.len() - pos, 1int,
{
    let c = sp_peek(s, pos);
    if c == EOT_CHAR || c == 'E' || c == 'I' {
        Ok((acc, pos))
    } else {
        match sp_ident(s, pos) {
            Err(e) => Err(e),
            Ok((id, p1)) => {
                if pos < p1 <= s.len() {
                    sp_prefix_tail(
                        s,
                        p1,
                        PathPrefixV::Node { prefix: Box::new(acc), ident: id },
                    )
                } else {
                    Err((ParseErrorKind::Malformed, p1))
                }
            },
        }
    }
}

/// Reads a path prefix: a back-reference, trait-impl scope, inherent-impl
/// scope or crate id root, then any chain of appended identifiers.
pub open spec fn sp_path_prefix(s: Seq<char>, pos: int) -> Result<
    (PathPrefixV, int),
    (ParseErrorKind, int),
>
    decreases s.len() - pos, 6int,
{
    let c = sp_peek(s, pos);
    let root: Result<(PathPrefixV, int), (ParseErrorKind, int)> = if c == 'S' {
        match sp_subst(s, pos) {
            Err(e) => Err(e),
            Ok((sub, p1)) => Ok((PathPrefixV::Subst(sub), p1)),
        }
    } else if c == 'X' {
        match sp_type(s, pos + 1) {
            Err(e) => Err(e),
            Ok((st, p1)) => {
                if pos + 1 < p1 <= s.len() {
                    let c1 = sp_peek(s, p1);
                    let trait_res: Result<
                        (Option<Box<AbsolutePathV>>, int),
                        (ParseErrorKind, int),
                    > = if c1 == 'N' || c1 == 'S' {
                        match sp_abs_path(s, p1) {
                            Err(e) => Err(e),
                            Ok((tr, p2)) => Ok((Some(Box::new(tr)), p2)),
                        }
                    } else {
                        Ok((None, p1))
                    };
                    match trait_res {
                        Err(e) => Err(e),
                        Ok((tr, p2)) => match sp_opt_dis(s, p2) {
                            Err(e) => Err(e),
                            Ok((dis, p3)) => Ok(
                                (
                                    PathPrefixV::TraitImpl {
                                        self_type: Box::new(st),
                                        impled_trait: tr,
                                        dis,
                                    },
                                    p3,
                                ),
                            ),
                        },
                    }
                } else {
                    Err((ParseErrorKind::Malformed, p1))
                }
            },
        }
    } else if c == 'M' {
        match sp_type(s, pos + 1) {
            Err(e) => Err(e),
            Ok((st, p1)) => Ok((PathPrefixV::InherentImpl { self_type: Box::new(st) }, p1)),
        }
    } else if spec_digit_value(c, 10) is Some {
        sp_crate_id(s, pos)
    } else {
        Err(sp_fail(s, pos))
    };
    match root {
        Err(e) => Err(e),
        Ok((acc, p1)) => {
            if pos < p1 <= s.len() {
                sp_prefix_tail(s, p1, acc)
            } else {
                Err((ParseErrorKind::Malformed, p1))
            }
        },
    }
}

/// Reads an absolute path: `N`, a path prefix, an optional argument list,
/// `E`; or a back-reference.
pub open spec fn sp_abs_path(s: Seq<char>, pos: int) -> Result<
    (AbsolutePathV, int),
    (ParseErrorKind, int),
>
    decreases s.len() - pos, 2int,
{
    let c = sp_peek(s, pos);
    if c == 'S' {
        match sp_subst(s, pos) {
            Err(e) => Err(e),
            Ok((sub, p1)) => Ok((AbsolutePathV::Subst(sub), p1)),
        }
    } else if c == 'N' {
        match sp_path_prefix(s, pos + 1) {
            Err(e) => Err(e),
            Ok((prefix, p1)) => {
                if pos + 1 < p1 <= s.len() {
                    let args_res: Result<(Seq<TypeV>, int), (ParseErrorKind, int)> = if sp_peek(
                        s,
                        p1,
                    ) == 'I' {
                        sp_type_seq(s, p1 + 1)
                    } else {
                        Ok((Seq::empty(), p1))
                    };
                    match args_res {
                        Err(e) => Err(e),
                        Ok((args, p2)) => {
                            if sp_peek(s, p2) == 'E' {
                                Ok(
                                    (
                                        AbsolutePathV::Path { name: Box::new(prefix), args },
                                        p2 + 1,
                                    ),
                                )
                            } else {
                                Err(sp_fail(s, p2))
                            }
                        },
                    }
                } else {
                    Err((ParseErrorKind::Malformed, p1))
                }
            },
        }
    } else {
        Err(sp_fail(s, pos))
    }
}

/// Reads types up to and through a closing `E`.
pub open spec fn sp_type_seq(s: Seq<char>, pos: int) -> Result<
    (Seq<TypeV>, int),
    (ParseErrorKind, int),
>
    decreases s.len() - pos, 4int,
{
    if sp_peek(s, pos) == 'E' {
        Ok((Seq::empty(), pos + 1))
    } else {
        match sp_type(s, pos) {
            Err(e) => Err(e),
            Ok((t, p1)) => {
                if pos < p1 <= s.len() {
                    match sp_type_seq(s, p1) {
                        Err(e) => Err(e),
                        Ok((rest, p2)) => Ok((seq![t] + rest, p2)),
                    }
                } else {
                    Err((ParseErrorKind::Malformed, p1))
                }
            },
        }
    }
}

/// Reads function parameter types; stops before `E` or `J` without
/// consuming them.
pub open spec fn sp_fn_params(s: Seq<char>, pos: int) -> Result<
    (Seq<TypeV>, int),
    (ParseErrorKind, int),
>
    decreases s.len() - pos, 4int,
{
    let c = sp_peek(s, pos);
    if c == 'E' || c == 'J' || c == EOT_CHAR {
        Ok((Seq::empty(), pos))
    } else {
        match sp_type(s, pos) {
            Err(e) => Err(e),
            Ok((t, p1)) => {
                if pos < p1 <= s.len() {
                    match sp_fn_params(s, p1) {
                        Err(e) => Err(e),
                        Ok((rest, p2)) => Ok((seq![t] + rest, p2)),
                    }
                } else {
                    Err((ParseErrorKind::Malformed, p1))
                }
            },
        }
    }
}

/// The basic type a letter stands for, if any.
pub open spec fn sp_basic_type(c: char) -> Option<BasicType> {
    if c == 'a' {
        Some(BasicType::I8)
    } else if c == 'b' {
        Some(BasicType::Bool)
    } else if c == 'c' {
        Some(BasicType::Char)
    } else if c == 'd' {
        Some(BasicType::F64)
    } else if c == 'e' {
        Some(BasicType::Str)
    } else if c == 'f' {
        Some(BasicType::F32)
    } else if c == 'h' {
        Some(BasicType::U8)
    } else if c == 'i' {
        Some(BasicType::Isize)
    } else if c == 'j' {
        Some(BasicType::Usize)
    } else if c == 'l' {
        Some(BasicType::I32)
    } else if c == 'm' {
        Some(BasicType::U32)
    } else if c == 'n' {
        Some(BasicType::I128)
    } else if c == 'o' {
        Some(BasicType::U128)
    } else if c == 's' {
        Some(BasicType::I16)
    } else if c == 't' {
        Some(BasicType::U16)
    } else if c == 'u' {
        Some(BasicType::Unit)
    } else if c == 'v' {
        Some(BasicType::Ellipsis)
    } else if c == 'x' {
        Some(BasicType::I64)
    } else if c == 'y' {
        Some(BasicType::U64)
    } else if c == 'z' {
        Some(BasicType::Never)
    } else {
        None
    }
}

/// Reads a type.
pub open spec fn sp_type(s: Seq<char>, pos: int) -> Result<
    (TypeV, int),
    (ParseErrorKind, int),
>
    decreases s.len() - pos, 3int,
{
    let c = sp_peek(s, pos);
    if sp_basic_type(c) is Some {
        Ok((TypeV::BasicType(sp_basic_type(c)->Some_0), pos + 1))
    } else if c == 'R' || c == 'Q' || c == 'P' || c == 'O' {
        match sp_type(s, pos + 1) {
            Err(e) => Err(e),
            Ok((inner, p1)) => Ok(
                (
                    if c == 'R' {
                        TypeV::Ref(Box::new(inner))
                    } else if c == 'Q' {
                        TypeV::RefMut(Box::new(inner))
                    } else if c == 'P' {
                        TypeV::RawPtrConst(Box::new(inner))
                    } else {
                        TypeV::RawPtrMut(Box::new(inner))
                    },
                    p1,
                ),
            ),
        }
    } else if c == 'A' {
        let size_res: Result<(Option<u64>, int), (ParseErrorKind, int)> = if spec_digit_value(
            sp_peek(s, pos + 1),
            10,
        ) is Some {
            match sp_number(s, pos + 1, 10) {
                Err(e) => Err(e),
                Ok((n, p1)) => Ok((Some(n), p1)),
            }
        } else {
            Ok((None, pos + 1))
        };
        match size_res {
            Err(e) => Err(e),
            Ok((size, p1)) => {
                if pos < p1 <= s.len() {
                    match sp_type(s, p1) {
                        Err(e) => Err(e),
                        Ok((inner, p2)) => Ok((TypeV::Array(size, Box::new(inner)), p2)),
                    }
                } else {
                    Err((ParseErrorKind::Malformed, p1))
                }
            },
        }
    } else if c == 'T' {
        match sp_type_seq(s, pos + 1) {
            Err(e) => Err(e),
            Ok((ts, p1)) => Ok((TypeV::Tuple(ts), p1)),
        }
    } else if c == 'N' {
        match sp_abs_path(s, pos) {
            Err(e) => Err(e),
            Ok((ap, p1)) => Ok((TypeV::Named(Box::new(ap)), p1)),
        }
    } else if c == 'S' {
        match sp_subst(s, pos) {
            Err(e) => Err(e),
            Ok((sub, p1)) => Ok((TypeV::Subst(sub), p1)),
        }
    } else if c == 'G' {
        match sp_ident(s, pos + 1) {
            Err(e) => Err(e),
            Ok((id, p1)) => {
                if sp_peek(s, p1) == 'E' {
                    Ok((TypeV::GenericParam(id), p1 + 1))
                } else {
                    Err(sp_fail(s, p1))
                }
            },
        }
    } else if c == 'F' {
        let (is_unsafe, p1) = if sp_peek(s, pos + 1) == 'U' {
            (true, pos + 2)
        } else {
            (false, pos + 1)
        };
        let abi_res: Result<(Abi, int), (ParseErrorKind, int)> = if sp_peek(s, p1) == 'K' {
            if sp_peek(s, p1 + 1) == 'c' {
                Ok((Abi::C, p1 + 2))
            } else {
                Err(sp_fail(s, p1 + 1))
            }
        } else {
            Ok((Abi::Rust, p1))
        };
        match abi_res {
            Err(e) => Err(e),
            Ok((abi, p2)) => {
                if pos < p2 <= s.len() {
                    match sp_fn_params(s, p2) {
                        Err(e) => Err(e),
                        Ok((params, p3)) => {
                            if !(pos < p3 <= s.len()) {
                                Err((ParseErrorKind::Malformed, p3))
                            } else {
                                let ret_res: Result<
                                    (Option<Box<TypeV>>, int),
                                    (ParseErrorKind, int),
                                > = if sp_peek(s, p3) == 'J' {
                                    match sp_type(s, p3 + 1) {
                                        Err(e) => Err(e),
                                        Ok((rt, p4)) => Ok((Some(Box::new(rt)), p4)),
                                    }
                                } else {
                                    Ok((None, p3))
                                };
                                match ret_res {
                                    Err(e) => Err(e),
                                    Ok((ret, p4)) => {
                                        if sp_peek(s, p4) == 'E' {
                                            Ok(
                                                (
                                                    TypeV::Fn {
                                                        is_unsafe,
                                                        abi,
                                                        params,
                                                        return_type: ret,
                                                    },
                                                    p4 + 1,
                                                ),
                                            )
                                        } else {
                                            Err(sp_fail(s, p4))
                                        }
                                    },
                                }
                            }
                        },
                    }
                } else {
                    Err((ParseErrorKind::Malformed, p2))
                }
            },
        }
    } else {
        Err(sp_fail(s, pos))
    }
}

/// Reads a whole symbol: the `_R` marker, no version tag, the absolute
/// path, an optional instantiating-crate prefix, and nothing after it.
pub open spec fn sp_symbol(s: Seq<char>) -> Result<(SymbolV, int), (ParseErrorKind, int)> {
    if s.len() < 2 || s[0] != '_' || s[1] != 'R' {
        Err((ParseErrorKind::Malformed, 0))
    } else if spec_digit_value(sp_peek(s, 2), 10) is Some {
        match sp_number(s, 2, 10) {
            Err(e) => Err(e),
            Ok((n, _p)) => Err(
                (
                    ParseErrorKind::Version {
                        version: if n == u64::MAX {
                            n
                        } else {
                            (n + 1) as u64
                        },
                    },
                    2,
                ),
            ),
        }
    } else {
        match sp_abs_path(s, 2) {
            Err(e) => Err(e),
            Ok((name, p1)) => {
                if 2 < p1 <= s.len() {
                    let crate_res: Result<
                        (Option<PathPrefixV>, int),
                        (ParseErrorKind, int),
                    > = if sp_peek(s, p1) == EOT_CHAR {
                        Ok((None, p1))
                    } else {
                        match sp_path_prefix(s, p1) {
                            Err(e) => Err(e),
                            Ok((p, p2)) => Ok((Some(p), p2)),
                        }
                    };
                    match crate_res {
                        Err(e) => Err(e),
                        Ok((ic, p2)) => {
                            if p2 == s.len() {
                                Ok((SymbolV { name, instantiating_crate: ic }, p2))
                            } else {
                                Err((ParseErrorKind::Malformed, p2))
                            }
                        },
                    }
                } else {
                    Err((ParseErrorKind::Malformed, p1))
                }
            },
        }
    }
}

/// Properties of the digit run: it stays within bounds, holds only digits,
/// and ends before a non-digit or the end of input.
pub proof fn lemma_digit_run_end(s: Seq<char>, pos: int, radix: nat)
    requires
        0 <= pos <= s.len(),
    ensures
        pos <= sp_digit_run_end(s, pos, radix) <= s.len(),
        forall|i: int|
            pos <= i < sp_digit_run_end(s, pos, radix) ==> spec_digit_value(
                #[trigger] s[i],
                radix,
            ) is Some,
        sp_digit_run_end(s, pos, radix) < s.len() ==> spec_digit_value(
            s[sp_digit_run_end(s, pos, radix)],
            radix,
        ) is None,
    decreases s.len() - pos,
{
    if 0 <= pos < s.len() && spec_digit_value(s[pos], radix) is Some {
        lemma_digit_run_end(s, pos + 1, radix);
    }
}

/// A longer run of digits reads as at least as large a value.
pub proof fn lemma_digits_value_monotone(s: Seq<char>, start: int, mid: int, end: int, radix: nat)
    requires
        0 <= start <= mid <= end <= s.len(),
        radix >= 2,
    ensures
        spec_digits_value(s.subrange(start, end), radix) >= spec_digits_value(
            s.subrange(start, mid),
            radix,
        ),
    decreases end - mid,
{
    if mid < end {
        lemma_digits_value_monotone(s, start, mid, end - 1, radix);
        let whole = s.subrange(start, end);
        let shorter = s.subrange(start, end - 1);
        assert(whole.drop_last() =~= shorter);
        let v = spec_digits_value(shorter, radix);
        assert(spec_digits_value(whole, radix) >= v * radix) by {
            assert(spec_digits_value(whole, radix) == v * radix + (
            match spec_digit_value(whole.last(), radix) {
                Some(d) => d,
                None => 0,
            }));
        }
        assert(v * radix >= v) by (nonlinear_arith)
            requires
                radix >= 2,
                v >= 0,
        ;
    } else {
        assert(s.subrange(start, end) =~= s.subrange(start, mid));
    }
}

/// One parse error: its kind and the input offset it arose at.
#[derive(Clone, Copy, Debug, PartialEq, Eq, Structural)]
pub struct ParseError {
    pub kind: ParseErrorKind,
    pub pos: usize,
}

/// The recursive-descent parser: the input characters and a cursor.
pub struct Parser<'a> {
    pub input: &'a [char],
    pub pos: usize,
}

impl<'a> Parser<'a> {
    /// The input as a character sequence.
    pub open spec fn sv(&self) -> Seq<char> {
        self.input@
    }

    /// The cursor never runs past the end of the input.
    pub open spec fn wf(&self) -> bool {
        self.pos <= self.input@.len()
    }

    /// The character under the cursor, or the end sentinel.
    pub fn cur(&self) -> (c: char)
        ensures
            c == sp_peek(self.sv(), self.pos as int),
    {
        if self.pos < self.input.len() {
            self.input[self.pos]
        } else {
            EOT_CHAR
        }
    }

    /// Steps over `c` if it is next; reports whether it did.
    pub fn try_eat(&mut self, c: char) -> (r: bool)
        requires
            old(self).wf(),
            c != EOT_CHAR,
        ensures
            final(self).input == old(self).input,
            final(self).wf(),
            r == (sp_peek(old(self).sv(), old(self).pos as int) == c),
            r ==> final(self).pos == old(self).pos + 1 && old(self).pos < old(self).sv().len(),
            !r ==> final(self).pos == old(self).pos,
    {
        if self.pos < self.input.len() && self.input[self.pos] == c {
            self.pos += 1;
            true
        } else {
            false
        }
    }

    /// Reads a number in the given radix: a non-empty maximal digit run
    /// that fits in 64 bits.
    pub fn parse_number(&mut self, radix: u8) -> (r: Result<u64, ParseError>)
        requires
            2 <= radix <= 62,
            old(self).wf(),
        ensures
            final(self).input == old(self).input,
            final(self).wf(),
            match r {
                Ok(v) => ({
                    &&& sp_number(old(self).sv(), old(self).pos as int, radix as nat) == Ok::<
                        (u64, int),
                        (ParseErrorKind, int),
                    >((v, final(self).pos as int))
                    &&& old(self).pos < final(self).pos
                }),
                Err(e) => sp_number(old(self).sv(), old(self).pos as int, radix as nat) == Err::<
                    (u64, int),
                    (ParseErrorKind, int),
                >((e.kind, e.pos as int)),
            },
    {
        let ghost s = self.input@;
        let n_len = self.input.len();
        let start_pos = self.pos;
        let ghost start = self.pos as int;
        let ghost end = sp_digit_run_end(s, start, radix as nat);
        proof {
            lemma_digit_run_end(s, start, radix as nat);
        }
        let first = self.cur();
        if crate::int_radix::char_digit_to_value(first, radix).is_none() {
            let kind = if self.pos >= self.input.len() {
                ParseErrorKind::Truncation
            } else {
                ParseErrorKind::Malformed
            };
            return Err(ParseError { kind, pos: self.pos });
        }
        let mut value: u64 = 0;
        proof {
            assert(s.subrange(start, start) =~= Seq::<char>::empty());
            assert(end > start);
        }
        loop
            invariant
                self.input == old(self).input,
                self.input@ == s,
                n_len == s.len(),
                start == start_pos as int,
                start == old(self).pos as int,
                2 <= radix <= 62,
                start <= self.pos <= end <= s.len(),
                end == sp_digit_run_end(s, start, radix as nat),
                value == spec_digits_value(s.subrange(start, self.pos as int), radix as nat),
                forall|i: int|
                    start <= i < end ==> spec_digit_value(#[trigger] s[i], radix as nat) is Some,
                end < s.len() ==> spec_digit_value(s[end], radix as nat) is None,
            ensures
                self.input == old(self).input,
                self.pos == end,
                value == spec_digits_value(s.subrange(start, end), radix as nat),
                spec_digits_value(s.subrange(start, end), radix as nat) <= u64::MAX,
            decreases end - self.pos,
        {
            let c = self.cur();
            let dopt = crate::int_radix::char_digit_to_value(c, radix);
            match dopt {
                None => {
                    proof {
                        assert(self.pos == end);
                    }
                    break ;
                },
                Some(d) => {
                    proof {
                        if self.pos as int == end {
                            if end < s.len() {
                                assert(spec_digit_value(s[end], radix as nat) is None);
                            } else {
                                assert(sp_peek(s, self.pos as int) == EOT_CHAR);
                                assert(spec_digit_value(EOT_CHAR, radix as nat) is None);
                            }
                            assert(false);
                        }
                        assert(self.pos < end);
                        assert(d < radix);
                    }
                    if value > (u64::MAX - d) / (radix as u64) {
                        proof {
                            let vv = value as int;
                            let dd = d as int;
                            let rr = radix as int;
                            let mx = u64::MAX as int;
                            assert(vv * rr + dd > mx) by (nonlinear_arith)
                                requires
                                    vv > (mx - dd) / rr,
                                    2 <= rr,
                                    0 <= dd < rr,
                                    vv >= 0,
                                    mx > 0,
                            ;
                            let nextsub = s.subrange(start, self.pos + 1);
                            assert(nextsub.drop_last() =~= s.subrange(start, self.pos as int));
                            assert(nextsub.last() == s[self.pos as int]);
                            assert(spec_digits_value(nextsub, radix as nat) == vv * rr + dd);
                            lemma_digits_value_monotone(s, start, self.pos + 1, end, radix as nat);
                            assert(spec_digits_value(s.subrange(start, end), radix as nat) > mx);
                        }
                        return Err(ParseError { kind: ParseErrorKind::Malformed, pos: start_pos });
                    }
                    proof {
                        let vv = value as int;
                        let dd = d as int;
                        let rr = radix as int;
                        let mx = u64::MAX as int;
                        assert(vv * rr + dd <= mx) by (nonlinear_arith)
                            requires
                                vv <= (mx - dd) / rr,
                                2 <= rr,
                                0 <= dd < rr,
                                vv >= 0,
                                mx > 0,
                        ;
                        let nextsub = s.subrange(start, self.pos + 1);
                        assert(nextsub.drop_last() =~= s.subrange(start, self.pos as int));
                        assert(nextsub.last() == s[self.pos as int]);
                    }
                    value = value * (radix as u64) + d;
                    self.pos += 1;
                },
            }
        }
        Ok(value)
    }

    /// The failure for the character under the cursor.
    fn fail_here(&self) -> (e: ParseError)
        ensures
            e.kind == sp_fail(self.sv(), self.pos as int).0,
            e.pos as int == sp_fail(self.sv(), self.pos as int).1,
    {
        let kind = if self.pos >= self.input.len() {
            ParseErrorKind::Truncation
        } else {
            ParseErrorKind::Malformed
        };
        ParseError { kind, pos: self.pos }
    }

    /// The characters between two positions, gathered into a vector.
    fn take_chars(&self, from: usize, to: usize) -> (r: Vec<char>)
        requires
            from <= to <= self.input@.len(),
        ensures
            r@ == self.input@.subrange(from as int, to as int),
    {
        let mut r: Vec<char> = Vec::new();
        let mut i = from;
        while i < to
            invariant
                from <= i <= to <= self.input@.len(),
                r@ == self.input@.subrange(from as int, i as int),
            decreases to - i,
        {
            r.push(self.input[i]);
            proof {
                assert(self.input@.subrange(from as int, i + 1) =~= self.input@.subrange(
                    from as int,
                    i as int,
                ).push(self.input@[i as int]));
            }
            i += 1;
        }
        proof {
            assert(r@ =~= self.input@.subrange(from as int, to as int));
        }
        r
    }

    /// Reads length-prefixed identifier text, undoing the punycode
    /// transform where the `u` marker asks for it.
    pub fn parse_uident(&mut self) -> (r: Result<String, ParseError>)
        requires
            old(self).wf(),
        ensures
            final(self).input == old(self).input,
            final(self).wf(),
            match r {
                Ok(text) => ({
                    &&& sp_uident(old(self).sv(), old(self).pos as int) == Ok::<
                        (Seq<char>, int),
                        (ParseErrorKind, int),
                    >((text@, final(self).pos as int))
                    &&& old(self).pos < final(self).pos
                }),
                Err(e) => sp_uident(old(self).sv(), old(self).pos as int) == Err::<
                    (Seq<char>, int),
                    (ParseErrorKind, int),
                >((e.kind, e.pos as int)),
            },
    {
        let n = match self.parse_number(10) {
            Ok(n) => n,
            Err(e) => {
                return Err(e);
            },
        };
        let remaining = (self.input.len() - self.pos) as u64;
        if n > remaining {
            return Err(ParseError { kind: ParseErrorKind::Truncation, pos: self.pos });
        }
        let p1 = self.pos;
        let end = self.pos + (n as usize);
        let payload = self.take_chars(p1, end);
        self.pos = end;
        if self.try_eat('u') {
            match crate::charset::decode_punycode_chars(payload) {
                Ok(text) => Ok(text),
                Err(_) => Err(ParseError { kind: ParseErrorKind::Encoding, pos: end }),
            }
        } else {
            proof {
                assert(payload@.subrange(0, payload@.len() as int) =~= payload@);
            }
            if chars_are_ascii(&payload, 0, payload.len()) {
                Ok(chars_to_string(&payload))
            } else {
                Err(ParseError { kind: ParseErrorKind::Encoding, pos: p1 })
            }
        }
    }

    /// Reads an optional numeric disambiguator.
    pub fn parse_disambiguator(&mut self) -> (r: Result<NumericDisambiguator, ParseError>)
        requires
            old(self).wf(),
        ensures
            final(self).input == old(self).input,
            final(self).wf(),
            match r {
                Ok(d) => ({
                    &&& sp_opt_dis(old(self).sv(), old(self).pos as int) == Ok::<
                        (NumericDisambiguator, int),
                        (ParseErrorKind, int),
                    >((d, final(self).pos as int))
                    &&& old(self).pos <= final(self).pos
                }),
                Err(e) => sp_opt_dis(old(self).sv(), old(self).pos as int) == Err::<
                    (NumericDisambiguator, int),
                    (ParseErrorKind, int),
                >((e.kind, e.pos as int)),
            },
    {
        if self.try_eat('s') {
            let num_pos = self.pos;
            if self.try_eat('_') {
                Ok(NumericDisambiguator(1))
            } else {
                let n = match self.parse_number(NUMBER_RADIX) {
                    Ok(n) => n,
                    Err(e) => {
                        return Err(e);
                    },
                };
                if !self.try_eat('_') {
                    let e = self.fail_here();
                    return Err(e);
                }
                if n > u64::MAX - 2 {
                    return Err(ParseError { kind: ParseErrorKind::Malformed, pos: num_pos });
                }
                Ok(NumericDisambiguator(n + 2))
            }
        } else {
            Ok(NumericDisambiguator(0))
        }
    }

    /// Reads a back-reference token.
    pub fn parse_backref(&mut self) -> (r: Result<Subst, ParseError>)
        requires
            old(self).wf(),
        ensures
            final(self).input == old(self).input,
            final(self).wf(),
            match r {
                Ok(sub) => ({
                    &&& sp_subst(old(self).sv(), old(self).pos as int) == Ok::<
                        (Subst, int),
                        (ParseErrorKind, int),
                    >((sub, final(self).pos as int))
                    &&& old(self).pos < final(self).pos
                }),
                Err(e) => sp_subst(old(self).sv(), old(self).pos as int) == Err::<
                    (Subst, int),
                    (ParseErrorKind, int),
                >((e.kind, e.pos as int)),
            },
    {
        if !self.try_eat('S') {
            let e = self.fail_here();
            return Err(e);
        }
        let num_pos = self.pos;
        if self.try_eat('_') {
            Ok(Subst(0))
        } else {
            let n = match self.parse_number(NUMBER_RADIX) {
                Ok(n) => n,
                Err(e) => {
                    return Err(e);
                },
            };
            if !self.try_eat('_') {
                let e = self.fail_here();
                return Err(e);
            }
            if n > u64::MAX - 1 {
                return Err(ParseError { kind: ParseErrorKind::Malformed, pos: num_pos });
            }
            Ok(Subst(n + 1))
        }
    }

    /// Reads an identifier: text, tag, disambiguator.
    pub fn parse_ident(&mut self) -> (r: Result<Ident, ParseError>)
        requires
            old(self).wf(),
        ensures
            final(self).input == old(self).input,
            final(self).wf(),
            match r {
                Ok(id) => ({
                    &&& sp_ident(old(self).sv(), old(self).pos as int) == Ok::<
                        (IdentV, int),
                        (ParseErrorKind, int),
                    >((id@, final(self).pos as int))
                    &&& old(self).pos < final(self).pos
                }),
                Err(e) => sp_ident(old(self).sv(), old(self).pos as int) == Err::<
                    (IdentV, int),
                    (ParseErrorKind, int),
                >((e.kind, e.pos as int)),
            },
    {
        let text = match self.parse_uident() {
            Ok(t) => t,
            Err(e) => {
                return Err(e);
            },
        };
        let tag = if self.try_eat('C') {
            IdentTag::Closure
        } else if self.try_eat('V') {
            IdentTag::ValueNs
        } else {
            IdentTag::TypeNs
        };
        let dis = match self.parse_disambiguator() {
            Ok(d) => d,
            Err(e) => {
                return Err(e);
            },
        };
        Ok(Ident { ident: text, tag, dis })
    }

    /// Reads a crate-id root: length-prefixed text split at its last
    /// underscore into name and disambiguator.
    pub fn parse_crate_id(&mut self) -> (r: Result<PathPrefix, ParseError>)
        requires
            old(self).wf(),
        ensures
            final(self).input == old(self).input,
            final(self).wf(),
            match r {
                Ok(p) => ({
                    &&& sp_crate_id(old(self).sv(), old(self).pos as int) == Ok::<
                        (PathPrefixV, int),
                        (ParseErrorKind, int),
                    >((p@, final(self).pos as int))
                    &&& old(self).pos < final(self).pos
                }),
                Err(e) => sp_crate_id(old(self).sv(), old(self).pos as int) == Err::<
                    (PathPrefixV, int),
                    (ParseErrorKind, int),
                >((e.kind, e.pos as int)),
            },
    {
        let start_pos = self.pos;
        let text = match self.parse_uident() {
            Ok(t) => t,
            Err(e) => {
                return Err(e);
            },
        };
        let cs = crate::text::str_to_chars(text.as_str());
        match crate::charset::last_index_of(&cs, '_') {
            Some(sep) => {
                let name_part = self.slice_to_string(&cs, 0, sep);
                let dis_part = self.slice_to_string(&cs, sep + 1, cs.len());
                Ok(PathPrefix::CrateId { name: name_part, dis: dis_part })
            },
            None => Err(ParseError { kind: ParseErrorKind::Malformed, pos: start_pos }),
        }
    }

    /// A stretch of a character vector, as a string.
    fn slice_to_string(&self, v: &Vec<char>, from: usize, to: usize) -> (r: String)
        requires
            from <= to <= v@.len(),
        ensures
            r@ == v@.subrange(from as int, to as int),
    {
        let mut part: Vec<char> = Vec::new();
        let mut i = from;
        while i < to
            invariant
                from <= i <= to <= v@.len(),
                part@ == v@.subrange(from as int, i as int),
            decreases to - i,
        {
            part.push(v[i]);
            proof {
                assert(v@.subrange(from as int, i + 1) =~= v@.subrange(from as int, i as int).push(
                    v@[i as int],
                ));
            }
            i += 1;
        }
        chars_to_string(&part)
    }

    /// The basic type a letter stands for, if any.
    pub fn basic_of_char(c: char) -> (r: Option<BasicType>)
        ensures
            r == sp_basic_type(c),
    {
        match c {
            'a' => Some(BasicType::I8),
            'b' => Some(BasicType::Bool),
            'c' => Some(BasicType::Char),
            'd' => Some(BasicType::F64),
            'e' => Some(BasicType::Str),
            'f' => Some(BasicType::F32),
            'h' => Some(BasicType::U8),
            'i' => Some(BasicType::Isize),
            'j' => Some(BasicType::Usize),
            'l' => Some(BasicType::I32),
            'm' => Some(BasicType::U32),
            'n' => Some(BasicType::I128),
            'o' => Some(BasicType::U128),
            's' => Some(BasicType::I16),
            't' => Some(BasicType::U16),
            'u' => Some(BasicType::Unit),
            'v' => Some(BasicType::Ellipsis),
            'x' => Some(BasicType::I64),
            'y' => Some(BasicType::U64),
            'z' => Some(BasicType::Never),
            _ => None,
        }
    }

    /// Reads a type.
    #[verifier::rlimit(100)]
    #[verifier::spinoff_prover]
    pub fn parse_type(&mut self) -> (r: Result<Type, ParseError>)
        requires
            old(self).wf(),
        ensures
            final(self).input == old(self).input,
            final(self).wf(),
            match r {
                Ok(t) => ({
                    &&& sp_type(old(self).sv(), old(self).pos as int) == Ok::<
                        (TypeV, int),
                        (ParseErrorKind, int),
                    >((t@, final(self).pos as int))
                    &&& old(self).pos < final(self).pos
                }),
                Err(e) => sp_type(old(self).sv(), old(self).pos as int) == Err::<
                    (TypeV, int),
                    (ParseErrorKind, int),
                >((e.kind, e.pos as int)),
            },
        decreases old(self).input@.len() - old(self).pos, 3int,
    {
        let n_len = self.input.len();
        let c = self.cur();
        match Self::basic_of_char(c) {
            Some(b) => {
                proof {
                    assert(c != EOT_CHAR);
                    assert(self.pos < n_len);
                }
                self.pos += 1;
                return Ok(Type::BasicType(b));
            },
            None => {},
        }
        if c == 'R' || c == 'Q' || c == 'P' || c == 'O' {
            proof {
                assert(c != EOT_CHAR);
                assert(self.pos < n_len);
            }
            self.pos += 1;
            let inner = match self.parse_type() {
                Ok(t) => t,
                Err(e) => {
                    return Err(e);
                },
            };
            Ok(
                if c == 'R' {
                    Type::Ref(Box::new(inner))
                } else if c == 'Q' {
                    Type::RefMut(Box::new(inner))
                } else if c == 'P' {
                    Type::RawPtrConst(Box::new(inner))
                } else {
                    Type::RawPtrMut(Box::new(inner))
                },
            )
        } else if c == 'A' {
            proof {
                assert(c != EOT_CHAR);
                assert(self.pos < n_len);
            }
            self.pos += 1;
            let next = self.cur();
            let size: Option<u64> = if crate::int_radix::char_digit_to_value(next, 10).is_some() {
                match self.parse_number(10) {
                    Ok(n) => Some(n),
                    Err(e) => {
                        return Err(e);
                    },
                }
            } else {
                None
            };
            let inner = match self.parse_type() {
                Ok(t) => t,
                Err(e) => {
                    return Err(e);
                },
            };
            Ok(Type::Array(size, Box::new(inner)))
        } else if c == 'T' {
            proof {
                assert(c != EOT_CHAR);
                assert(self.pos < n_len);
            }
            self.pos += 1;
            let ts = match self.parse_type_seq() {
                Ok(ts) => ts,
                Err(e) => {
                    return Err(e);
                },
            };
            Ok(Type::Tuple(ts))
        } else if c == 'N' {
            let ap = match self.parse_abs_path() {
                Ok(ap) => ap,
                Err(e) => {
                    return Err(e);
                },
            };
            Ok(Type::Named(Box::new(ap)))
        } else if c == 'S' {
            let sub = match self.parse_backref() {
                Ok(sub) => sub,
                Err(e) => {
                    return Err(e);
                },
            };
            Ok(Type::Subst(sub))
        } else if c == 'G' {
            proof {
                assert(c != EOT_CHAR);
                assert(self.pos < n_len);
            }
            self.pos += 1;
            let id = match self.parse_ident() {
                Ok(id) => id,
                Err(e) => {
                    return Err(e);
                },
            };
            if !self.try_eat('E') {
                let e = self.fail_here();
                return Err(e);
            }
            Ok(Type::GenericParam(id))
        } else if c == 'F' {
            proof {
                assert(c != EOT_CHAR);
                assert(self.pos < n_len);
            }
            self.pos += 1;
            let is_unsafe = self.try_eat('U');
            let abi: Abi = if self.try_eat('K') {
                if self.try_eat('c') {
                    Abi::C
                } else {
                    let e = self.fail_here();
                    return Err(e);
                }
            } else {
                Abi::Rust
            };
            let params = match self.parse_fn_params() {
                Ok(ps) => ps,
                Err(e) => {
                    return Err(e);
                },
            };
            let return_type: Option<Box<Type>> = if self.try_eat('J') {
                match self.parse_type() {
                    Ok(t) => Some(Box::new(t)),
                    Err(e) => {
                        return Err(e);
                    },
                }
            } else {
                None
            };
            if !self.try_eat('E') {
                let e = self.fail_here();
                return Err(e);
            }
            Ok(Type::Fn { is_unsafe, abi, params, return_type })
        } else {
            let e = self.fail_here();
            Err(e)
        }
    }

    /// Reads types up to and through a closing `E`.
    pub fn parse_type_seq(&mut self) -> (r: Result<Vec<Type>, ParseError>)
        requires
            old(self).wf(),
        ensures
            final(self).input == old(self).input,
            final(self).wf(),
            match r {
                Ok(ts) => ({
                    &&& sp_type_seq(old(self).sv(), old(self).pos as int) == Ok::<
                        (Seq<TypeV>, int),
                        (ParseErrorKind, int),
                    >((crate::ast::view_types(ts@), final(self).pos as int))
                    &&& old(self).pos < final(self).pos
                }),
                Err(e) => sp_type_seq(old(self).sv(), old(self).pos as int) == Err::<
                    (Seq<TypeV>, int),
                    (ParseErrorKind, int),
                >((e.kind, e.pos as int)),
            },
        decreases old(self).input@.len() - old(self).pos, 4int,
    {
        let ghost s = self.input@;
        let ghost pos0 = self.pos as int;
        let ghost spec0 = sp_type_seq(s, pos0);
        let mut ts: Vec<Type> = Vec::new();
        proof {
            assert(crate::ast::view_types(ts@) =~= Seq::<TypeV>::empty());
        }
        loop
            invariant_except_break
                spec0 == (match sp_type_seq(s, self.pos as int) {
                    Ok((rest, p)) => Ok::<(Seq<TypeV>, int), (ParseErrorKind, int)>(
                        (crate::ast::view_types(ts@) + rest, p),
                    ),
                    Err(e) => Err(e),
                }),
            invariant
                self.input == old(self).input,
                self.input@ == s,
                self.wf(),
                pos0 <= self.pos as int,
                pos0 == old(self).pos as int,
                spec0 == sp_type_seq(s, pos0),
            ensures
                self.input == old(self).input,
                self.wf(),
                pos0 < self.pos as int,
                spec0 == Ok::<(Seq<TypeV>, int), (ParseErrorKind, int)>(
                    (crate::ast::view_types(ts@), self.pos as int),
                ),
            decreases s.len() - self.pos,
        {
            let ghost pos_i = self.pos as int;
            let ghost ts_old = ts@;
            if self.try_eat('E') {
                proof {
                    assert(crate::ast::view_types(ts@) + Seq::<TypeV>::empty() =~= crate::ast::view_types(ts@));
                }
                break ;
            }
            let t = match self.parse_type() {
                Ok(t) => t,
                Err(e) => {
                    return Err(e);
                },
            };
            ts.push(t);
            proof {
                crate::ast::lemma_view_types_push(ts_old, t);
                assert(ts@ == ts_old.push(t));
                match sp_type_seq(s, self.pos as int) {
                    Ok((rest2, p2)) => {
                        assert(crate::ast::view_types(ts_old) + (seq![t.model()] + rest2)
                            =~= crate::ast::view_types(ts@) + rest2);
                    },
                    Err(e2) => {},
                }
            }
        }
        Ok(ts)
    }

    /// Reads function parameter types, stopping before `E` or `J`.
    pub fn parse_fn_params(&mut self) -> (r: Result<Vec<Type>, ParseError>)
        requires
            old(self).wf(),
        ensures
            final(self).input == old(self).input,
            final(self).wf(),
            match r {
                Ok(ts) => ({
                    &&& sp_fn_params(old(self).sv(), old(self).pos as int) == Ok::<
                        (Seq<TypeV>, int),
                        (ParseErrorKind, int),
                    >((crate::ast::view_types(ts@), final(self).pos as int))
                    &&& old(self).pos <= final(self).pos
                }),
                Err(e) => sp_fn_params(old(self).sv(), old(self).pos as int) == Err::<
                    (Seq<TypeV>, int),
                    (ParseErrorKind, int),
                >((e.kind, e.pos as int)),
            },
        decreases old(self).input@.len() - old(self).pos, 4int,
    {
        let ghost s = self.input@;
        let ghost pos0 = self.pos as int;
        let ghost spec0 = sp_fn_params(s, pos0);
        let mut ts: Vec<Type> = Vec::new();
        proof {
            assert(crate::ast::view_types(ts@) =~= Seq::<TypeV>::empty());
        }
        loop
            invariant_except_break
                spec0 == (match sp_fn_params(s, self.pos as int) {
                    Ok((rest, p)) => Ok::<(Seq<TypeV>, int), (ParseErrorKind, int)>(
                        (crate::ast::view_types(ts@) + rest, p),
                    ),
                    Err(e) => Err(e),
                }),
            invariant
                self.input == old(self).input,
                self.input@ == s,
                self.wf(),
                pos0 <= self.pos as int,
                pos0 == old(self).pos as int,
                spec0 == sp_fn_params(s, pos0),
            ensures
                self.input == old(self).input,
                self.wf(),
                pos0 <= self.pos as int,
                spec0 == Ok::<(Seq<TypeV>, int), (ParseErrorKind, int)>(
                    (crate::ast::view_types(ts@), self.pos as int),
                ),
            decreases s.len() - self.pos,
        {
            let ghost ts_old = ts@;
            let c = self.cur();
            if c == 'E' || c == 'J' || c == EOT_CHAR {
                proof {
                    assert(crate::ast::view_types(ts@) + Seq::<TypeV>::empty() =~= crate::ast::view_types(ts@));
                }
                break ;
            }
            let t = match self.parse_type() {
                Ok(t) => t,
                Err(e) => {
                    return Err(e);
                },
            };
            ts.push(t);
            proof {
                crate::ast::lemma_view_types_push(ts_old, t);
                assert(ts@ == ts_old.push(t));
                match sp_fn_params(s, self.pos as int) {
                    Ok((rest2, p2)) => {
                        assert(crate::ast::view_types(ts_old) + (seq![t.model()] + rest2)
                            =~= crate::ast::view_types(ts@) + rest2);
                    },
                    Err(e2) => {},
                }
            }
        }
        Ok(ts)
    }

    /// Reads an absolute path.
    pub fn parse_abs_path(&mut self) -> (r: Result<AbsolutePath, ParseError>)
        requires
            old(self).wf(),
        ensures
            final(self).input == old(self).input,
            final(self).wf(),
            match r {
                Ok(ap) => ({
                    &&& sp_abs_path(old(self).sv(), old(self).pos as int) == Ok::<
                        (AbsolutePathV, int),
                        (ParseErrorKind, int),
                    >((ap@, final(self).pos as int))
                    &&& old(self).pos < final(self).pos
                }),
                Err(e) => sp_abs_path(old(self).sv(), old(self).pos as int) == Err::<
                    (AbsolutePathV, int),
                    (ParseErrorKind, int),
                >((e.kind, e.pos as int)),
            },
        decreases old(self).input@.len() - old(self).pos, 2int,
    {
        let n_len = self.input.len();
        let c = self.cur();
        if c == 'S' {
            let sub = match self.parse_backref() {
                Ok(sub) => sub,
                Err(e) => {
                    return Err(e);
                },
            };
            Ok(AbsolutePath::Subst(sub))
        } else if c == 'N' {
            proof {
                assert(c != EOT_CHAR);
                assert(self.pos < n_len);
            }
            self.pos += 1;
            let prefix = match self.parse_path_prefix() {
                Ok(p) => p,
                Err(e) => {
                    return Err(e);
                },
            };
            let args: GenericArgumentList = if self.try_eat('I') {
                let ts = match self.parse_type_seq() {
                    Ok(ts) => ts,
                    Err(e) => {
                        return Err(e);
                    },
                };
                GenericArgumentList(ts)
            } else {
                GenericArgumentList(Vec::new())
            };
            if !self.try_eat('E') {
                let e = self.fail_here();
                return Err(e);
            }
            proof {
                if args.0@.len() == 0 {
                    assert(crate::ast::view_types(args.0@) =~= Seq::<TypeV>::empty());
                }
            }
            Ok(AbsolutePath::Path { name: Box::new(prefix), args })
        } else {
            let e = self.fail_here();
            Err(e)
        }
    }

    /// Reads a path prefix: a root, then the chain of appended identifiers.
    pub fn parse_path_prefix(&mut self) -> (r: Result<PathPrefix, ParseError>)
        requires
            old(self).wf(),
        ensures
            final(self).input == old(self).input,
            final(self).wf(),
            match r {
                Ok(p) => ({
                    &&& sp_path_prefix(old(self).sv(), old(self).pos as int) == Ok::<
                        (PathPrefixV, int),
                        (ParseErrorKind, int),
                    >((p@, final(self).pos as int))
                    &&& old(self).pos < final(self).pos
                }),
                Err(e) => sp_path_prefix(old(self).sv(), old(self).pos as int) == Err::<
                    (PathPrefixV, int),
                    (ParseErrorKind, int),
                >((e.kind, e.pos as int)),
            },
        decreases old(self).input@.len() - old(self).pos, 6int,
    {
        let n_len = self.input.len();
        let ghost s = self.input@;
        let ghost pos0 = self.pos as int;
        let ghost whole0 = sp_path_prefix(s, pos0);
        let c = self.cur();
        let root: PathPrefix = if c == 'S' {
            let sub = match self.parse_backref() {
                Ok(sub) => sub,
                Err(e) => {
                    return Err(e);
                },
            };
            PathPrefix::Subst(sub)
        } else if c == 'X' {
            proof {
                assert(c != EOT_CHAR);
                assert(self.pos < n_len);
            }
            self.pos += 1;
            let st = match self.parse_type() {
                Ok(t) => t,
                Err(e) => {
                    return Err(e);
                },
            };
            let c1 = self.cur();
            let impled_trait: Option<Box<AbsolutePath>> = if c1 == 'N' || c1 == 'S' {
                match self.parse_abs_path() {
                    Ok(ap) => Some(Box::new(ap)),
                    Err(e) => {
                        return Err(e);
                    },
                }
            } else {
                None
            };
            let dis = match self.parse_disambiguator() {
                Ok(d) => d,
                Err(e) => {
                    return Err(e);
                },
            };
            PathPrefix::TraitImpl { self_type: Box::new(st), impled_trait, dis }
        } else if c == 'M' {
            proof {
                assert(c != EOT_CHAR);
                assert(self.pos < n_len);
            }
            self.pos += 1;
            let st = match self.parse_type() {
                Ok(t) => t,
                Err(e) => {
                    return Err(e);
                },
            };
            PathPrefix::InherentImpl { self_type: Box::new(st) }
        } else if crate::int_radix::char_digit_to_value(c, 10).is_some() {
            match self.parse_crate_id() {
                Ok(p) => p,
                Err(e) => {
                    return Err(e);
                },
            }
        } else {
            let e = self.fail_here();
            return Err(e);
        };
        let ghost p_root = self.pos as int;
        let ghost tail0 = sp_prefix_tail(s, p_root, root@);
        proof {
            assert(whole0 == tail0);
        }
        let mut acc = root;
        loop
            invariant
                self.input == old(self).input,
                self.input@ == s,
                self.wf(),
                pos0 == old(self).pos as int,
                pos0 < self.pos as int,
                whole0 == tail0,
                whole0 == sp_path_prefix(s, pos0),
                tail0 == sp_prefix_tail(s, self.pos as int, acc@),
            ensures
                self.input == old(self).input,
                self.wf(),
                pos0 < self.pos as int,
                tail0 == Ok::<(PathPrefixV, int), (ParseErrorKind, int)>(
                    (acc@, self.pos as int),
                ),
            decreases s.len() - self.pos,
        {
            let c2 = self.cur();
            if c2 == EOT_CHAR || c2 == 'E' || c2 == 'I' {
                break ;
            }
            let id = match self.parse_ident() {
                Ok(id) => id,
                Err(e) => {
                    return Err(e);
                },
            };
            acc = PathPrefix::Node { prefix: Box::new(acc), ident: id };
        }
        Ok(acc)
    }

    /// Reads a whole symbol and demands that the input end with it.
    pub fn parse_symbol(&mut self) -> (r: Result<Symbol, ParseError>)
        requires
            old(self).pos == 0,
        ensures
            final(self).input == old(self).input,
            match r {
                Ok(sym) => sp_symbol(old(self).sv()) == Ok::<
                    (SymbolV, int),
                    (ParseErrorKind, int),
                >((sym@, final(self).pos as int)),
                Err(e) => sp_symbol(old(self).sv()) == Err::<
                    (SymbolV, int),
                    (ParseErrorKind, int),
                >((e.kind, e.pos as int)),
            },
    {
        let n = self.input.len();
        if n < 2 || self.input[0] != '_' || self.input[1] != 'R' {
            return Err(ParseError { kind: ParseErrorKind::Malformed, pos: 0 });
        }
        self.pos = 2;
        let c = self.cur();
        if crate::int_radix::char_digit_to_value(c, 10).is_some() {
            let v = match self.parse_number(10) {
                Ok(v) => v,
                Err(e) => {
                    return Err(e);
                },
            };
            let version = if v == u64::MAX {
                v
            } else {
                v + 1
            };
            return Err(ParseError { kind: ParseErrorKind::Version { version }, pos: 2 });
        }
        let name = match self.parse_abs_path() {
            Ok(ap) => ap,
            Err(e) => {
                return Err(e);
            },
        };
        let c1 = self.cur();
        let instantiating_crate: Option<PathPrefix> = if c1 == EOT_CHAR {
            None
        } else {
            match self.parse_path_prefix() {
                Ok(p) => Some(p),
                Err(e) => {
                    return Err(e);
                },
            }
        };
        if self.pos != self.input.len() {
            return Err(ParseError { kind: ParseErrorKind::Malformed, pos: self.pos });
        }
        Ok(Symbol { name, instantiating_crate })
    }
}

/// The one-line message reported for a failed parse.
pub open spec fn spec_parse_err_msg(kind: ParseErrorKind, pos: int) -> Seq<char> {
    "at position "@ + crate::int_radix::spec_radix_digits(pos as nat, 10) + ": "@ + (match kind {
        ParseErrorKind::Malformed => "malformed mangled symbol"@,
        ParseErrorKind::Encoding => "malformed identifier encoding"@,
        ParseErrorKind::Truncation => "unexpected end of input"@,
        ParseErrorKind::Version { version } => crate::error::spec_version_msg(version, 0),
        ParseErrorKind::Dictionary { index } => "back-reference to an index not yet defined: "@
            + crate::int_radix::spec_radix_digits(index as nat, 10),
    })
}

/// Renders a parse error as its one-line message.
pub fn render_parse_error(e: ParseError) -> (r: String)
    ensures
        r@ == spec_parse_err_msg(e.kind, e.pos as int),
{
    let mut out: Vec<char> = Vec::new();
    crate::text::push_str_chars(&mut out, "at position ");
    crate::int_radix::push_radix_digits(&mut out, e.pos as u64, 10);
    crate::text::push_str_chars(&mut out, ": ");
    match e.kind {
        ParseErrorKind::Malformed => {
            crate::text::push_str_chars(&mut out, "malformed mangled symbol");
        },
        ParseErrorKind::Encoding => {
            crate::text::push_str_chars(&mut out, "malformed identifier encoding");
        },
        ParseErrorKind::Truncation => {
            crate::text::push_str_chars(&mut out, "unexpected end of input");
        },
        ParseErrorKind::Version { version } => {
            match crate::error::version_mismatch::<()>(version, 0) {
                Err(m) => {
                    crate::text::push_str_chars(&mut out, m.as_str());
                },
                Ok(_) => {},
            }
        },
        ParseErrorKind::Dictionary { index } => {
            crate::text::push_str_chars(&mut out, "back-reference to an index not yet defined: ");
            crate::int_radix::push_radix_digits(&mut out, index, 10);
        },
    }
    chars_to_string(&out)
}

/// Parses a mangled symbol from its bytes; back-references stay as `Subst`
/// nodes. The whole input must be one symbol: trailing bytes are refused.
pub fn parse(input: &[u8]) -> (r: Result<Symbol, String>)
    ensures
        match r {
            Ok(sym) => sp_symbol(crate::text::chars_of_bytes(input@)) == Ok::<
                (SymbolV, int),
                (ParseErrorKind, int),
            >((sym@, input@.len() as int)),
            Err(m) => (sp_symbol(crate::text::chars_of_bytes(input@)) matches Err(ep) && m@
                == spec_parse_err_msg(ep.0, ep.1)),
        },
{
    let chars = crate::text::bytes_to_chars(input);
    let mut parser = Parser { input: chars.as_slice(), pos: 0 };
    let ghost s = crate::text::chars_of_bytes(input@);
    match parser.parse_symbol() {
        Ok(sym) => {
            proof {
                assert(parser.pos as int == s.len());
            }
            Ok(sym)
        },
        Err(e) => Err(render_parse_error(e)),
    }
}

} // verus!
