//! The direct demangler: one pass over the mangled bytes that parses,
//! expands back-references and renders at once. Instead of a dictionary of
//! subtrees it keeps, per back-reference index, the range of the output
//! written for that subtree; a back-reference copies its range to the end
//! of the output.
//!
//! The `sdd_*` functions are the reference statement of the pass: each
//! takes the input, a position, the mode and the output-and-dictionary
//! state, and yields the position and state after the production. They
//! reuse the parser's reading functions and the pretty printer's rendering
//! functions, so what this pass writes is pinned to the same rendering.
//! Position guards (`pos < p <= s.len()`) are never taken on any input,
//! exactly as in the parser.
use vstd::prelude::*;

use crate::ast::{Abi, IdentTag, IdentV, NumericDisambiguator, PathPrefixV, Subst};
use crate::charset::spec_last_index_of;
use crate::int_radix::spec_radix_digits;
use crate::parse::{
    sp_basic_type, sp_fail, sp_number, sp_opt_dis, sp_peek, sp_subst, sp_uident, ParseError,
    ParseErrorKind, EOT_CHAR,
};
use crate::pretty::{
    spec_pretty_abi, spec_pretty_basic, spec_pretty_ident, spec_pretty_prefix,
};

verus! {

broadcast use vstd::std_specs::vec::group_vec_axioms, vstd::seq::group_seq_axioms;

/// The copy a back-reference makes: the stored range of the output,
/// appended to its end.
pub open spec fn sdd_subst(
    s: Seq<char>,
    pos: int,
    out: Seq<char>,
    dict: Seq<(usize, usize)>,
) -> Result<(int, Seq<char>), (ParseErrorKind, int)> {
    match sp_subst(s, pos) {
        Err(e) => Err(e),
        Ok((sub, p1)) => {
            if sub.0 >= dict.len() {
                Err((ParseErrorKind::Dictionary { index: sub.0 }, pos))
            } else {
                let (a, b) = dict[sub.0 as int];
                if a <= b <= out.len() {
                    Ok((p1, out + out.subrange(a as int, b as int)))
                } else {
                    Err((ParseErrorKind::Malformed, pos))
                }
            }
        },
    }
}

/// Reads an identifier and appends its rendering.
pub open spec fn sdd_ident(s: Seq<char>, pos: int, verbose: bool, out: Seq<char>) -> Result<
    (int, Seq<char>),
    (ParseErrorKind, int),
> {
    match sp_uident(s, pos) {
        Err(e) => Err(e),
        Ok((text, p1)) => {
            let (tag, p2) = if sp_peek(s, p1) == 'C' {
                (IdentTag::Closure, p1 + 1)
            } else if sp_peek(s, p1) == 'V' {
                (IdentTag::ValueNs, p1 + 1)
            } else {
                (IdentTag::TypeNs, p1)
            };
            match sp_opt_dis(s, p2) {
                Err(e) => Err(e),
                Ok((dis, p3)) => Ok(
                    (p3, out + spec_pretty_ident(IdentV { ident: text, tag, dis }, verbose)),
                ),
            }
        },
    }
}

/// Reads a crate-id root and appends its rendering.
pub open spec fn sdd_crate_root(s: Seq<char>, pos: int, verbose: bool, out: Seq<char>) -> Result<
    (int, Seq<char>),
    (ParseErrorKind, int),
> {
    match sp_uident(s, pos) {
        Err(e) => Err(e),
        Ok((text, p1)) => {
            let sep = spec_last_index_of(text, '_');
            if sep < 0 {
                Err((ParseErrorKind::Malformed, pos))
            } else {
                Ok(
                    (
                        p1,
                        out + spec_pretty_prefix(
                            PathPrefixV::CrateId {
                                name: text.subrange(0, sep),
                                dis: text.subrange(sep + 1, text.len() as int),
                            },
                            verbose,
                        ),
                    ),
                )
            }
        },
    }
}

/// Reads the chain of identifiers appended to a prefix root, rendering
/// each after `::` and recording the growing range.
pub open spec fn sdd_prefix_tail(
    s: Seq<char>,
    pos: int,
    verbose: bool,
    out: Seq<char>,
    dict: Seq<(usize, usize)>,
    start: int,
) -> Result<(int, Seq<char>, Seq<(usize, usize)>), (ParseErrorKind, int)>
    decreases s.len() - pos, 5int,
{
    let c = sp_peek(s, pos);
    if c == EOT_CHAR || c == 'E' || c == 'I' {
        Ok((pos, out, dict))
    } else {
        match sdd_ident(s, pos, verbose, out + "::"@) {
            Err(e) => Err(e),
            Ok((p1, out1)) => {
                if pos < p1 <= s.len() && 0 <= start <= out1.len() && out1.len() <= usize::MAX {
                    sdd_prefix_tail(
                        s,
                        p1,
                        verbose,
                        out1,
                        dict.push((start as usize, out1.len() as usize)),
                        start,
                    )
                } else {
                    Err((ParseErrorKind::Malformed, p1))
                }
            },
        }
    }
}

/// Reads a path prefix: its root, then the identifier chain. Every root
/// but a back-reference or inherent-impl scope records its range.
pub open spec fn sdd_prefix(
    s: Seq<char>,
    pos: int,
    verbose: bool,
    out: Seq<char>,
    dict: Seq<(usize, usize)>,
) -> Result<(int, Seq<char>, Seq<(usize, usize)>), (ParseErrorKind, int)>
    decreases s.len() - pos, 6int,
{
    let start = out.len() as int;
    let c = sp_peek(s, pos);
    let root: Result<(int, Seq<char>, Seq<(usize, usize)>, bool), (ParseErrorKind, int)> = if c
        == 'S' {
        match sdd_subst(s, pos, out, dict) {
            Err(e) => Err(e),
            Ok((p1, out1)) => Ok((p1, out1, dict, false)),
        }
    } else if c == 'X' {
        match sdd_type(s, pos + 1, verbose, out + seq!['<'], dict) {
            Err(e) => Err(e),
            Ok((p1, out1, d1)) => {
                if pos + 1 < p1 <= s.len() {
                    let c1 = sp_peek(s, p1);
                    let trait_res: Result<
                        (int, Seq<char>, Seq<(usize, usize)>),
                        (ParseErrorKind, int),
                    > = if c1 == 'N' || c1 == 'S' {
                        sdd_abs_path(s, p1, verbose, out1 + " as "@, d1)
                    } else {
                        Ok((p1, out1, d1))
                    };
                    match trait_res {
                        Err(e) => Err(e),
                        Ok((p2, out2, d2)) => {
                            if pos < p2 <= s.len() {
                                match sp_opt_dis(s, p2) {
                                    Err(e) => Err(e),
                                    Ok((dis, p3)) => {
                                        let out3 = out2 + seq!['>'] + (
                                        if verbose && dis.0 > 0 {
                                            crate::pretty::spec_display_index(dis)
                                        } else {
                                            Seq::empty()
                                        });
                                        Ok((p3, out3, d2, true))
                                    },
                                }
                            } else {
                                Err((ParseErrorKind::Malformed, p2))
                            }
                        },
                    }
                } else {
                    Err((ParseErrorKind::Malformed, p1))
                }
            },
        }
    } else if c == 'M' {
        match sdd_type(s, pos + 1, verbose, out + seq!['<'], dict) {
            Err(e) => Err(e),
            Ok((p1, out1, d1)) => Ok((p1, out1 + seq!['>'], d1, false)),
        }
    } else if crate::int_radix::spec_digit_value(c, 10) is Some {
        match sdd_crate_root(s, pos, verbose, out) {
            Err(e) => Err(e),
            Ok((p1, out1)) => Ok((p1, out1, dict, true)),
        }
    } else {
        Err(sp_fail(s, pos))
    };
    match root {
        Err(e) => Err(e),
        Ok((p1, out1, d1, add_root)) => {
            if pos < p1 <= s.len() && 0 <= start <= out1.len() && out1.len() <= usize::MAX {
                let d2 = if add_root {
                    d1.push((start as usize, out1.len() as usize))
                } else {
                    d1
                };
                sdd_prefix_tail(s, p1, verbose, out1, d2, start)
            } else {
                Err((ParseErrorKind::Malformed, p1))
            }
        },
    }
}

/// Reads an absolute path: a back-reference, or `N`, a prefix, an optional
/// argument list and `E`. A non-empty argument list records the whole
/// path's range; an empty one shares the prefix's.
pub open spec fn sdd_abs_path(
    s: Seq<char>,
    pos: int,
    verbose: bool,
    out: Seq<char>,
    dict: Seq<(usize, usize)>,
) -> Result<(int, Seq<char>, Seq<(usize, usize)>), (ParseErrorKind, int)>
    decreases s.len() - pos, 2int,
{
    let start = out.len() as int;
    let c = sp_peek(s, pos);
    if c == 'S' {
        match sdd_subst(s, pos, out, dict) {
            Err(e) => Err(e),
            Ok((p1, out1)) => Ok((p1, out1, dict)),
        }
    } else if c == 'N' {
        match sdd_prefix(s, pos + 1, verbose, out, dict) {
            Err(e) => Err(e),
            Ok((p1, out1, d1)) => {
                if pos + 1 < p1 <= s.len() {
                    let args_res: Result<
                        (int, Seq<char>, Seq<(usize, usize)>),
                        (ParseErrorKind, int),
                    > = if sp_peek(s, p1) == 'I' {
                        if sp_peek(s, p1 + 1) == 'E' {
                            Ok((p1 + 2, out1, d1))
                        } else {
                            match sdd_type_commas(s, p1 + 1, verbose, out1 + seq!['<'], d1, true) {
                                Err(e) => Err(e),
                                Ok((p2, out2, d2)) => {
                                    let out3 = out2 + seq!['>'];
                                    if 0 <= start <= out3.len() && out3.len() <= usize::MAX {
                                        Ok(
                                            (
                                                p2,
                                                out3,
                                                d2.push(
                                                    (start as usize, out3.len() as usize),
                                                ),
                                            ),
                                        )
                                    } else {
                                        Err((ParseErrorKind::Malformed, p2))
                                    }
                                },
                            }
                        }
                    } else {
                        Ok((p1, out1, d1))
                    };
                    match args_res {
                        Err(e) => Err(e),
                        Ok((p2, out2, d2)) => {
                            if sp_peek(s, p2) == 'E' {
                                Ok((p2 + 1, out2, d2))
                            } else {
                                Err(sp_fail(s, p2))
                            }
                        },
                    }
                } else {
                    Err((ParseErrorKind::Malformed, p1))
                }
            },
        }
    } else {
        Err(sp_fail(s, pos))
    }
}

/// Reads comma-separated types up to and through a closing `E`.
pub open spec fn sdd_type_commas(
    s: Seq<char>,
    pos: int,
    verbose: bool,
    out: Seq<char>,
    dict: Seq<(usize, usize)>,
    first: bool,
) -> Result<(int, Seq<char>, Seq<(usize, usize)>), (ParseErrorKind, int)>
    decreases s.len() - pos, 4int,
{
    if sp_peek(s, pos) == 'E' {
        Ok((pos + 1, out, dict))
    } else {
        let out0 = if first {
            out
        } else {
            out + seq![',']
        };
        match sdd_type(s, pos, verbose, out0, dict) {
            Err(e) => Err(e),
            Ok((p1, out1, d1)) => {
                if pos < p1 <= s.len() {
                    sdd_type_commas(s, p1, verbose, out1, d1, false)
                } else {
                    Err((ParseErrorKind::Malformed, p1))
                }
            },
        }
    }
}

/// Reads comma-separated function parameter types, stopping before `E` or
/// `J` without consuming them.
pub open spec fn sdd_fn_params(
    s: Seq<char>,
    pos: int,
    verbose: bool,
    out: Seq<char>,
    dict: Seq<(usize, usize)>,
    first: bool,
) -> Result<(int, Seq<char>, Seq<(usize, usize)>), (ParseErrorKind, int)>
    decreases s.len() - pos, 4int,
{
    let c = sp_peek(s, pos);
    if c == 'E' || c == 'J' || c == EOT_CHAR {
        Ok((pos, out, dict))
    } else {
        let out0 = if first {
            out
        } else {
            out + seq![',']
        };
        match sdd_type(s, pos, verbose, out0, dict) {
            Err(e) => Err(e),
            Ok((p1, out1, d1)) => {
                if pos < p1 <= s.len() {
                    sdd_fn_params(s, p1, verbose, out1, d1, false)
                } else {
                    Err((ParseErrorKind::Malformed, p1))
                }
            },
        }
    }
}

/// Reads a function type and appends its rendering; records its range.
pub open spec fn sdd_fn_type(
    s: Seq<char>,
    pos: int,
    verbose: bool,
    out: Seq<char>,
    dict: Seq<(usize, usize)>,
) -> Result<(int, Seq<char>, Seq<(usize, usize)>), (ParseErrorKind, int)>
    decreases s.len() - pos, 1int,
{
    let start = out.len() as int;
    let (is_unsafe, p1) = if sp_peek(s, pos + 1) == 'U' {
        (true, pos + 2)
    } else {
        (false, pos + 1)
    };
    let abi_res: Result<(Abi, int), (ParseErrorKind, int)> = if sp_peek(s, p1) == 'K' {
        if sp_peek(s, p1 + 1) == 'c' {
            Ok((Abi::C, p1 + 2))
        } else {
            Err(sp_fail(s, p1 + 1))
        }
    } else {
        Ok((Abi::Rust, p1))
    };
    match abi_res {
        Err(e) => Err(e),
        Ok((abi, p2)) => {
            if !(pos < p2 <= s.len()) {
                Err((ParseErrorKind::Malformed, p2))
            } else {
                let out1 = out + (if is_unsafe {
                    "unsafe "@
                } else {
                    Seq::empty()
                }) + (if abi != Abi::Rust {
                    "extern "@ + spec_pretty_abi(abi) + seq![' ']
                } else {
                    Seq::empty()
                }) + "fn("@;
                match sdd_fn_params(s, p2, verbose, out1, dict, true) {
                    Err(e) => Err(e),
                    Ok((p3, out2, d2)) => {
                        if !(pos < p3 <= s.len()) {
                            Err((ParseErrorKind::Malformed, p3))
                        } else {
                            let ret_res: Result<
                                (int, Seq<char>, Seq<(usize, usize)>),
                                (ParseErrorKind, int),
                            > = if sp_peek(s, p3) == 'J' {
                                sdd_type(s, p3 + 1, verbose, out2 + ")"@ + " -> "@, d2)
                            } else {
                                Ok((p3, out2 + ")"@, d2))
                            };
                            match ret_res {
                                Err(e) => Err(e),
                                Ok((p4, out3, d3)) => {
                                    if sp_peek(s, p4) == 'E' {
                                        if 0 <= start <= out3.len() && out3.len() <= usize::MAX {
                                            Ok(
                                                (
                                                    p4 + 1,
                                                    out3,
                                                    d3.push(
                                                        (start as usize, out3.len() as usize),
                                                    ),
                                                ),
                                            )
                                        } else {
                                            Err((ParseErrorKind::Malformed, p4))
                                        }
                                    } else {
                                        Err(sp_fail(s, p4))
                                    }
                                },
                            }
                        }
                    },
                }
            }
        },
    }
}

/// Reads a type and appends its rendering. Composite types record their
/// range; basic types, bare generic parameters, named paths and
/// back-references do not add an entry of their own.
pub open spec fn sdd_type(
    s: Seq<char>,
    pos: int,
    verbose: bool,
    out: Seq<char>,
    dict: Seq<(usize, usize)>,
) -> Result<(int, Seq<char>, Seq<(usize, usize)>), (ParseErrorKind, int)>
    decreases s.len() - pos, 3int,
{
    let start = out.len() as int;
    let c = sp_peek(s, pos);
    if sp_basic_type(c) is Some {
        Ok((pos + 1, out + spec_pretty_basic(sp_basic_type(c)->Some_0), dict))
    } else if c == 'R' || c == 'Q' || c == 'P' || c == 'O' {
        let head: Seq<char> = if c == 'R' {
            seq!['&']
        } else if c == 'Q' {
            "&mut "@
        } else if c == 'P' {
            "*const "@
        } else {
            "*mut "@
        };
        match sdd_type(s, pos + 1, verbose, out + head, dict) {
            Err(e) => Err(e),
            Ok((p1, out1, d1)) => {
                if 0 <= start <= out1.len() && out1.len() <= usize::MAX {
                    Ok((p1, out1, d1.push((start as usize, out1.len() as usize))))
                } else {
                    Err((ParseErrorKind::Malformed, p1))
                }
            },
        }
    } else if c == 'A' {
        let size_res: Result<(Option<u64>, int), (ParseErrorKind, int)> = if crate::int_radix::spec_digit_value(
            sp_peek(s, pos + 1),
            10,
        ) is Some {
            match sp_number(s, pos + 1, 10) {
                Err(e) => Err(e),
                Ok((n, p1)) => Ok((Some(n), p1)),
            }
        } else {
            Ok((None, pos + 1))
        };
        match size_res {
            Err(e) => Err(e),
            Ok((size, p1)) => {
                if pos < p1 <= s.len() {
                    match sdd_type(s, p1, verbose, out + seq!['['], dict) {
                        Err(e) => Err(e),
                        Ok((p2, out2, d2)) => {
                            let out3 = out2 + (match size {
                                Some(n) => "; "@ + spec_radix_digits(n as nat, 10),
                                None => Seq::empty(),
                            }) + seq![']'];
                            if 0 <= start <= out3.len() && out3.len() <= usize::MAX {
                                Ok((p2, out3, d2.push((start as usize, out3.len() as usize))))
                            } else {
                                Err((ParseErrorKind::Malformed, p2))
                            }
                        },
                    }
                } else {
                    Err((ParseErrorKind::Malformed, p1))
                }
            },
        }
    } else if c == 'T' {
        match sdd_type_commas(s, pos + 1, verbose, out + seq!['('], dict, true) {
            Err(e) => Err(e),
            Ok((p1, out1, d1)) => {
                let out2 = out1 + seq![')'];
                if 0 <= start <= out2.len() && out2.len() <= usize::MAX {
                    Ok((p1, out2, d1.push((start as usize, out2.len() as usize))))
                } else {
                    Err((ParseErrorKind::Malformed, p1))
                }
            },
        }
    } else if c == 'G' {
        match sdd_ident(s, pos + 1, verbose, out) {
            Err(e) => Err(e),
            Ok((p1, out1)) => {
                if sp_peek(s, p1) == 'E' {
                    Ok((p1 + 1, out1, dict))
                } else {
                    Err(sp_fail(s, p1))
                }
            },
        }
    } else if c == 'N' {
        sdd_abs_path(s, pos, verbose, out, dict)
    } else if c == 'S' {
        match sdd_subst(s, pos, out, dict) {
            Err(e) => Err(e),
            Ok((p1, out1)) => Ok((p1, out1, dict)),
        }
    } else if c == 'F' {
        sdd_fn_type(s, pos, verbose, out, dict)
    } else {
        Err(sp_fail(s, pos))
    }
}

/// Demangles a whole symbol: the `_R` marker, no version tag, the
/// absolute path, and in verbose mode the instantiating crate after an
/// `@` sign. In plain mode any instantiating crate suffix is skipped
/// without being read.
pub open spec fn sdd_symbol(s: Seq<char>, verbose: bool) -> Result<
    (int, Seq<char>, Seq<(usize, usize)>),
    (ParseErrorKind, int),
> {
    if s.len() < 2 || s[0] != '_' || s[1] != 'R' {
        Err((ParseErrorKind::Malformed, 0))
    } else if crate::int_radix::spec_digit_value(sp_peek(s, 2), 10) is Some {
        match sp_number(s, 2, 10) {
            Err(e) => Err(e),
            Ok((n, _p)) => Err(
                (
                    ParseErrorKind::Version {
                        version: if n == u64::MAX {
                            n
                        } else {
                            (n + 1) as u64
                        },
                    },
                    2,
                ),
            ),
        }
    } else {
        match sdd_abs_path(s, 2, verbose, Seq::empty(), Seq::empty()) {
            Err(e) => Err(e),
            Ok((p1, out1, d1)) => {
                if sp_peek(s, p1) != EOT_CHAR && verbose {
                    sdd_prefix(s, p1, verbose, out1 + " @ "@, d1)
                } else {
                    Ok((p1, out1, d1))
                }
            },
        }
    }
}

/// Reading an identifier and rendering it is the same as parsing it and
/// rendering the parsed identifier.
pub proof fn lemma_sdd_ident_via_parse(s: Seq<char>, pos: int, verbose: bool, out: Seq<char>)
    ensures
        sdd_ident(s, pos, verbose, out) == (match crate::parse::sp_ident(s, pos) {
            Ok((id, p)) => Ok::<(int, Seq<char>), (ParseErrorKind, int)>(
                (p, out + spec_pretty_ident(id, verbose)),
            ),
            Err(e) => Err(e),
        }),
{
}

/// The one-line message of a failed demangling.
pub open spec fn spec_demangle_err_msg(kind: ParseErrorKind, pos: int) -> Seq<char> {
    "Error demangling "@ + crate::parse::spec_parse_err_msg(kind, pos)
}

/// The one-pass demangler: cursor, mode, output and the table of output
/// ranges that back-references copy.
pub struct Demangler {
    pub input: Vec<char>,
    pub pos: usize,
    pub verbose: bool,
    pub out: Vec<char>,
    pub dict: Vec<(usize, usize)>,
}

impl Demangler {
    /// The input as a character sequence.
    pub open spec fn sv(&self) -> Seq<char> {
        self.input@
    }

    /// The cursor never runs past the end of the input.
    pub open spec fn wf(&self) -> bool {
        self.pos <= self.input@.len()
    }

    /// A fresh demangler over the given characters.
    fn new_chars(input: Vec<char>, verbose: bool) -> (r: Demangler)
        ensures
            r.input@ == input@,
            r.pos == 0,
            r.verbose == verbose,
            r.out@ == Seq::<char>::empty(),
            r.dict@ == Seq::<(usize, usize)>::empty(),
    {
        Demangler { input, pos: 0, verbose, out: Vec::new(), dict: Vec::new() }
    }

    /// The output length always fits the machine's word.
    proof fn out_len_bound(&self)
        ensures
            self.out@.len() <= usize::MAX,
    {
        assert(self.out@.len() == vstd::std_specs::vec::spec_vec_len(&self.out));
    }

    /// The character under the cursor, or the end sentinel.
    pub fn cur(&self) -> (c: char)
        ensures
            c == sp_peek(self.sv(), self.pos as int),
    {
        if self.pos < self.input.len() {
            self.input[self.pos]
        } else {
            EOT_CHAR
        }
    }

    /// Records that the output from `start` to its current end stands for
    /// the back-reference index allocated next.
    pub fn alloc_subst(&mut self, start: usize)
        requires
            start <= old(self).out@.len(),
        ensures
            *final(self) == (Demangler {
                dict: final(self).dict,
                ..*old(self)
            }),
            final(self).dict@ == old(self).dict@.push((start, old(self).out@.len() as usize)),
    {
        let end = self.out.len();
        self.dict.push((start, end));
    }

    /// Reads a number through the parser.
    pub fn parse_number(&mut self, radix: u8) -> (r: Result<u64, ParseError>)
        requires
            2 <= radix <= 62,
            old(self).wf(),
        ensures
            *final(self) == (Demangler { pos: final(self).pos, ..*old(self) }),
            final(self).wf(),
            match r {
                Ok(v) => ({
                    &&& sp_number(old(self).sv(), old(self).pos as int, radix as nat) == Ok::<
                        (u64, int),
                        (ParseErrorKind, int),
                    >((v, final(self).pos as int))
                    &&& old(self).pos < final(self).pos
                }),
                Err(e) => sp_number(old(self).sv(), old(self).pos as int, radix as nat) == Err::<
                    (u64, int),
                    (ParseErrorKind, int),
                >((e.kind, e.pos as int)),
            },
    {
        let (r, np) = {
            let mut p = crate::parse::Parser { input: self.input.as_slice(), pos: self.pos };
            let r = p.parse_number(radix);
            (r, p.pos)
        };
        self.pos = np;
        r
    }

    /// Copies the output range a back-reference names to the end of the
    /// output.
    pub fn demangle_subst(&mut self) -> (r: Result<(), ParseError>)
        requires
            old(self).wf(),
        ensures
            *final(self) == (Demangler {
                pos: final(self).pos,
                out: final(self).out,
                ..*old(self)
            }),
            final(self).wf(),
            match r {
                Ok(_) => ({
                    &&& sdd_subst(
                        old(self).sv(),
                        old(self).pos as int,
                        old(self).out@,
                        old(self).dict@,
                    ) == Ok::<(int, Seq<char>), (ParseErrorKind, int)>(
                        (final(self).pos as int, final(self).out@),
                    )
                    &&& old(self).pos < final(self).pos
                    &&& old(self).out@.len() <= final(self).out@.len()
                }),
                Err(e) => sdd_subst(
                    old(self).sv(),
                    old(self).pos as int,
                    old(self).out@,
                    old(self).dict@,
                ) == Err::<(int, Seq<char>), (ParseErrorKind, int)>((e.kind, e.pos as int))
                    && final(self).out@ == old(self).out@,
            },
    {
        let start_pos = self.pos;
        let (r, np) = {
            let mut p = crate::parse::Parser { input: self.input.as_slice(), pos: self.pos };
            let r = p.parse_backref();
            (r, p.pos)
        };
        self.pos = np;
        let sub = match r {
            Ok(sub) => sub,
            Err(e) => {
                return Err(e);
            },
        };
        if sub.0 >= self.dict.len() as u64 {
            return Err(
                ParseError { kind: ParseErrorKind::Dictionary { index: sub.0 }, pos: start_pos },
            );
        }
        let (a, b) = self.dict[sub.0 as usize];
        if !(a <= b && b <= self.out.len()) {
            return Err(ParseError { kind: ParseErrorKind::Malformed, pos: start_pos });
        }
        let ghost out0 = self.out@;
        let mut k = a;
        while k < b
            invariant
                a <= k <= b <= out0.len(),
                self.input == old(self).input,
                self.pos == np,
                self.verbose == old(self).verbose,
                self.dict == old(self).dict,
                self.out@ == out0 + out0.subrange(a as int, k as int),
            decreases b - k,
        {
            let c = self.out[k];
            proof {
                assert(out0.subrange(a as int, k + 1) =~= out0.subrange(a as int, k as int).push(
                    out0[k as int],
                ));
                assert(self.out@[k as int] == out0[k as int]);
            }
            self.out.push(c);
            k += 1;
        }
        proof {
            assert(self.out@ =~= out0 + out0.subrange(a as int, b as int));
        }
        Ok(())
    }

    /// Reads an identifier and writes its rendering.
    pub fn demangle_ident(&mut self) -> (r: Result<(), ParseError>)
        requires
            old(self).wf(),
        ensures
            *final(self) == (Demangler {
                pos: final(self).pos,
                out: final(self).out,
                ..*old(self)
            }),
            final(self).wf(),
            match r {
                Ok(_) => ({
                    &&& sdd_ident(
                        old(self).sv(),
                        old(self).pos as int,
                        old(self).verbose,
                        old(self).out@,
                    ) == Ok::<(int, Seq<char>), (ParseErrorKind, int)>(
                        (final(self).pos as int, final(self).out@),
                    )
                    &&& old(self).pos < final(self).pos
                    &&& old(self).out@.len() <= final(self).out@.len()
                }),
                Err(e) => sdd_ident(
                    old(self).sv(),
                    old(self).pos as int,
                    old(self).verbose,
                    old(self).out@,
                ) == Err::<(int, Seq<char>), (ParseErrorKind, int)>((e.kind, e.pos as int))
                    && final(self).out@ == old(self).out@,
            },
    {
        proof {
            lemma_sdd_ident_via_parse(
                self.sv(),
                self.pos as int,
                self.verbose,
                self.out@,
            );
        }
        let (r, np) = {
            let mut p = crate::parse::Parser { input: self.input.as_slice(), pos: self.pos };
            let r = p.parse_ident();
            (r, p.pos)
        };
        self.pos = np;
        match r {
            Ok(id) => {
                id.pretty_print_chars(&mut self.out, self.verbose);
                Ok(())
            },
            Err(e) => Err(e),
        }
    }
}

impl Demangler {
    /// Reads an optional numeric disambiguator through the parser.
    pub fn parse_opt_numeric_disambiguator(&mut self) -> (r: Result<
        NumericDisambiguator,
        ParseError,
    >)
        requires
            old(self).wf(),
        ensures
            *final(self) == (Demangler { pos: final(self).pos, ..*old(self) }),
            final(self).wf(),
            match r {
                Ok(d) => ({
                    &&& sp_opt_dis(old(self).sv(), old(self).pos as int) == Ok::<
                        (NumericDisambiguator, int),
                        (ParseErrorKind, int),
                    >((d, final(self).pos as int))
                    &&& old(self).pos <= final(self).pos
                }),
                Err(e) => sp_opt_dis(old(self).sv(), old(self).pos as int) == Err::<
                    (NumericDisambiguator, int),
                    (ParseErrorKind, int),
                >((e.kind, e.pos as int)),
            },
    {
        let (r, np) = {
            let mut p = crate::parse::Parser { input: self.input.as_slice(), pos: self.pos };
            let r = p.parse_disambiguator();
            (r, p.pos)
        };
        self.pos = np;
        r
    }

    /// Reads a crate-id root and writes its rendering.
    fn demangle_crate_root(&mut self) -> (r: Result<(), ParseError>)
        requires
            old(self).wf(),
        ensures
            *final(self) == (Demangler {
                pos: final(self).pos,
                out: final(self).out,
                ..*old(self)
            }),
            final(self).wf(),
            match r {
                Ok(_) => ({
                    &&& sdd_crate_root(
                        old(self).sv(),
                        old(self).pos as int,
                        old(self).verbose,
                        old(self).out@,
                    ) == Ok::<(int, Seq<char>), (ParseErrorKind, int)>(
                        (final(self).pos as int, final(self).out@),
                    )
                    &&& old(self).pos < final(self).pos
                    &&& old(self).out@.len() <= final(self).out@.len()
                }),
                Err(e) => sdd_crate_root(
                    old(self).sv(),
                    old(self).pos as int,
                    old(self).verbose,
                    old(self).out@,
                ) == Err::<(int, Seq<char>), (ParseErrorKind, int)>((e.kind, e.pos as int))
                    && final(self).out@ == old(self).out@,
            },
    {
        let start_pos = self.pos;
        let (r, np) = {
            let mut p = crate::parse::Parser { input: self.input.as_slice(), pos: self.pos };
            let r = p.parse_crate_id();
            (r, p.pos)
        };
        self.pos = np;
        match r {
            Ok(p) => {
                p.pretty_print_prefix_chars(&mut self.out, self.verbose);
                proof {
                    assert(sdd_crate_root(
                        old(self).sv(),
                        start_pos as int,
                        old(self).verbose,
                        old(self).out@,
                    ) == Ok::<(int, Seq<char>), (ParseErrorKind, int)>(
                        (np as int, old(self).out@ + crate::pretty::spec_pretty_prefix(
                            p@,
                            old(self).verbose,
                        )),
                    ));
                }
                Ok(())
            },
            Err(e) => Err(e),
        }
    }

    /// Reads a path prefix and writes its rendering.
    #[verifier::spinoff_prover]
    pub fn demangle_path_prefix(&mut self) -> (r: Result<(), ParseError>)
        requires
            old(self).wf(),
        ensures
            *final(self) == (Demangler {
                pos: final(self).pos,
                out: final(self).out,
                dict: final(self).dict,
                ..*old(self)
            }),
            final(self).wf(),
            match r {
                Ok(_) => ({
                    &&& sdd_prefix(
                        old(self).sv(),
                        old(self).pos as int,
                        old(self).verbose,
                        old(self).out@,
                        old(self).dict@,
                    ) == Ok::<(int, Seq<char>, Seq<(usize, usize)>), (ParseErrorKind, int)>(
                        (final(self).pos as int, final(self).out@, final(self).dict@),
                    )
                    &&& old(self).pos < final(self).pos
                    &&& old(self).out@.len() <= final(self).out@.len()
                }),
                Err(e) => sdd_prefix(
                    old(self).sv(),
                    old(self).pos as int,
                    old(self).verbose,
                    old(self).out@,
                    old(self).dict@,
                ) == Err::<(int, Seq<char>, Seq<(usize, usize)>), (ParseErrorKind, int)>(
                    (e.kind, e.pos as int),
                ),
            },
        decreases old(self).input@.len() - old(self).pos, 6int,
    {
        let n_len = self.input.len();
        let ghost s = self.input@;
        let ghost pos0 = self.pos as int;
        let ghost whole0 = sdd_prefix(s, pos0, self.verbose, self.out@, self.dict@);
        let start = self.out.len();
        let c = self.cur();
        let add_root: bool;
        if c == 'S' {
            match self.demangle_subst() {
                Ok(_) => {},
                Err(e) => {
                    return Err(e);
                },
            }
            add_root = false;
        } else if c == 'X' {
            proof {
                assert(c != EOT_CHAR);
                assert(self.pos < n_len);
            }
            self.pos += 1;
            crate::text::push_char(&mut self.out, '<');
            match self.demangle_type() {
                Ok(_) => {},
                Err(e) => {
                    return Err(e);
                },
            }
            let c1 = self.cur();
            if c1 == 'N' || c1 == 'S' {
                crate::text::push_str_chars(&mut self.out, " as ");
                match self.demangle_abs_path() {
                    Ok(_) => {},
                    Err(e) => {
                        return Err(e);
                    },
                }
            }
            let dis = match self.parse_opt_numeric_disambiguator() {
                Ok(d) => d,
                Err(e) => {
                    return Err(e);
                },
            };
            crate::text::push_char(&mut self.out, '>');
            if self.verbose && dis.0 > 0 {
                crate::pretty::push_display_index(&mut self.out, dis);
            }
            add_root = true;
        } else if c == 'M' {
            proof {
                assert(c != EOT_CHAR);
                assert(self.pos < n_len);
            }
            self.pos += 1;
            crate::text::push_char(&mut self.out, '<');
            match self.demangle_type() {
                Ok(_) => {},
                Err(e) => {
                    return Err(e);
                },
            }
            crate::text::push_char(&mut self.out, '>');
            add_root = false;
        } else if crate::int_radix::char_digit_to_value(c, 10).is_some() {
            match self.demangle_crate_root() {
                Ok(_) => {},
                Err(e) => {
                    return Err(e);
                },
            }
            add_root = true;
        } else {
            let kind = if self.pos >= n_len {
                ParseErrorKind::Truncation
            } else {
                ParseErrorKind::Malformed
            };
            return Err(ParseError { kind, pos: self.pos });
        }
        proof {
            self.out_len_bound();
        }
        if add_root {
            self.alloc_subst(start);
        }
        let ghost tail0 = sdd_prefix_tail(
            s,
            self.pos as int,
            self.verbose,
            self.out@,
            self.dict@,
            start as int,
        );
        proof {
            assert(whole0 == tail0);
        }
        loop
            invariant
                self.input == old(self).input,
                self.verbose == old(self).verbose,
                self.input@ == s,
                self.wf(),
                pos0 == old(self).pos as int,
                pos0 < self.pos as int,
                start <= self.out@.len(),
                whole0 == tail0,
                whole0 == sdd_prefix(s, pos0, self.verbose, old(self).out@, old(self).dict@),
                tail0 == sdd_prefix_tail(
                    s,
                    self.pos as int,
                    self.verbose,
                    self.out@,
                    self.dict@,
                    start as int,
                ),
            ensures
                self.input == old(self).input,
                self.verbose == old(self).verbose,
                self.wf(),
                pos0 < self.pos as int,
                tail0 == Ok::<(int, Seq<char>, Seq<(usize, usize)>), (ParseErrorKind, int)>(
                    (self.pos as int, self.out@, self.dict@),
                ),
            decreases s.len() - self.pos,
        {
            let c2 = self.cur();
            if c2 == EOT_CHAR || c2 == 'E' || c2 == 'I' {
                break ;
            }
            crate::text::push_str_chars(&mut self.out, "::");
            match self.demangle_ident() {
                Ok(_) => {},
                Err(e) => {
                    return Err(e);
                },
            }
            proof {
                self.out_len_bound();
            }
            self.alloc_subst(start);
        }
        Ok(())
    }

    /// Reads an absolute path and writes its rendering.
    #[verifier::spinoff_prover]
    pub fn demangle_abs_path(&mut self) -> (r: Result<(), ParseError>)
        requires
            old(self).wf(),
        ensures
            *final(self) == (Demangler {
                pos: final(self).pos,
                out: final(self).out,
                dict: final(self).dict,
                ..*old(self)
            }),
            final(self).wf(),
            match r {
                Ok(_) => ({
                    &&& sdd_abs_path(
                        old(self).sv(),
                        old(self).pos as int,
                        old(self).verbose,
                        old(self).out@,
                        old(self).dict@,
                    ) == Ok::<(int, Seq<char>, Seq<(usize, usize)>), (ParseErrorKind, int)>(
                        (final(self).pos as int, final(self).out@, final(self).dict@),
                    )
                    &&& old(self).pos < final(self).pos
                    &&& old(self).out@.len() <= final(self).out@.len()
                }),
                Err(e) => sdd_abs_path(
                    old(self).sv(),
                    old(self).pos as int,
                    old(self).verbose,
                    old(self).out@,
                    old(self).dict@,
                ) == Err::<(int, Seq<char>, Seq<(usize, usize)>), (ParseErrorKind, int)>(
                    (e.kind, e.pos as int),
                ),
            },
        decreases old(self).input@.len() - old(self).pos, 2int,
    {
        let n_len = self.input.len();
        let start = self.out.len();
        let c = self.cur();
        if c == 'S' {
            match self.demangle_subst() {
                Ok(_) => Ok(()),
                Err(e) => Err(e),
            }
        } else if c == 'N' {
            proof {
                assert(c != EOT_CHAR);
                assert(self.pos < n_len);
            }
            self.pos += 1;
            match self.demangle_path_prefix() {
                Ok(_) => {},
                Err(e) => {
                    return Err(e);
                },
            }
            if self.cur() == 'I' {
                proof {
                    assert(self.pos < n_len);
                }
                self.pos += 1;
                if self.cur() == 'E' {
                    proof {
                        assert(self.pos < n_len);
                    }
                    self.pos += 1;
                } else {
                    crate::text::push_char(&mut self.out, '<');
                    match self.demangle_generic_argument_list(true) {
                        Ok(_) => {},
                        Err(e) => {
                            return Err(e);
                        },
                    }
                    crate::text::push_char(&mut self.out, '>');
                    proof {
                        self.out_len_bound();
                    }
                    self.alloc_subst(start);
                }
            }
            if self.cur() == 'E' {
                proof {
                    assert(self.pos < n_len);
                }
                self.pos += 1;
                Ok(())
            } else {
                let kind = if self.pos >= n_len {
                    ParseErrorKind::Truncation
                } else {
                    ParseErrorKind::Malformed
                };
                Err(ParseError { kind, pos: self.pos })
            }
        } else {
            let kind = if self.pos >= n_len {
                ParseErrorKind::Truncation
            } else {
                ParseErrorKind::Malformed
            };
            Err(ParseError { kind, pos: self.pos })
        }
    }

    /// Reads comma-separated types through the closing `E`, writing each.
    pub fn demangle_generic_argument_list(&mut self, first: bool) -> (r: Result<(), ParseError>)
        requires
            old(self).wf(),
        ensures
            *final(self) == (Demangler {
                pos: final(self).pos,
                out: final(self).out,
                dict: final(self).dict,
                ..*old(self)
            }),
            final(self).wf(),
            match r {
                Ok(_) => ({
                    &&& sdd_type_commas(
                        old(self).sv(),
                        old(self).pos as int,
                        old(self).verbose,
                        old(self).out@,
                        old(self).dict@,
                        first,
                    ) == Ok::<(int, Seq<char>, Seq<(usize, usize)>), (ParseErrorKind, int)>(
                        (final(self).pos as int, final(self).out@, final(self).dict@),
                    )
                    &&& old(self).pos < final(self).pos
                    &&& old(self).out@.len() <= final(self).out@.len()
                }),
                Err(e) => sdd_type_commas(
                    old(self).sv(),
                    old(self).pos as int,
                    old(self).verbose,
                    old(self).out@,
                    old(self).dict@,
                    first,
                ) == Err::<(int, Seq<char>, Seq<(usize, usize)>), (ParseErrorKind, int)>(
                    (e.kind, e.pos as int),
                ),
            },
        decreases old(self).input@.len() - old(self).pos, 4int,
    {
        let n_len = self.input.len();
        if self.cur() == 'E' {
            proof {
                assert(self.pos < n_len);
            }
            self.pos += 1;
            return Ok(());
        }
        if !first {
            crate::text::push_char(&mut self.out, ',');
        }
        match self.demangle_type() {
            Ok(_) => {},
            Err(e) => {
                return Err(e);
            },
        }
        self.demangle_generic_argument_list(false)
    }

    /// Reads function parameter types, stopping before `E` or `J`.
    fn demangle_fn_params(&mut self, first: bool) -> (r: Result<(), ParseError>)
        requires
            old(self).wf(),
        ensures
            *final(self) == (Demangler {
                pos: final(self).pos,
                out: final(self).out,
                dict: final(self).dict,
                ..*old(self)
            }),
            final(self).wf(),
            match r {
                Ok(_) => ({
                    &&& sdd_fn_params(
                        old(self).sv(),
                        old(self).pos as int,
                        old(self).verbose,
                        old(self).out@,
                        old(self).dict@,
                        first,
                    ) == Ok::<(int, Seq<char>, Seq<(usize, usize)>), (ParseErrorKind, int)>(
                        (final(self).pos as int, final(self).out@, final(self).dict@),
                    )
                    &&& old(self).pos <= final(self).pos
                    &&& old(self).out@.len() <= final(self).out@.len()
                }),
                Err(e) => sdd_fn_params(
                    old(self).sv(),
                    old(self).pos as int,
                    old(self).verbose,
                    old(self).out@,
                    old(self).dict@,
                    first,
                ) == Err::<(int, Seq<char>, Seq<(usize, usize)>), (ParseErrorKind, int)>(
                    (e.kind, e.pos as int),
                ),
            },
        decreases old(self).input@.len() - old(self).pos, 4int,
    {
        let c = self.cur();
        if c == 'E' || c == 'J' || c == EOT_CHAR {
            return Ok(());
        }
        if !first {
            crate::text::push_char(&mut self.out, ',');
        }
        match self.demangle_type() {
            Ok(_) => {},
            Err(e) => {
                return Err(e);
            },
        }
        self.demangle_fn_params(false)
    }
}

impl Demangler {
    /// Reads a type and writes its rendering.
    #[verifier::rlimit(100)]
    #[verifier::spinoff_prover]
    pub fn demangle_type(&mut self) -> (r: Result<(), ParseError>)
        requires
            old(self).wf(),
        ensures
            *final(self) == (Demangler {
                pos: final(self).pos,
                out: final(self).out,
                dict: final(self).dict,
                ..*old(self)
            }),
            final(self).wf(),
            match r {
                Ok(_) => ({
                    &&& sdd_type(
                        old(self).sv(),
                        old(self).pos as int,
                        old(self).verbose,
                        old(self).out@,
                        old(self).dict@,
                    ) == Ok::<(int, Seq<char>, Seq<(usize, usize)>), (ParseErrorKind, int)>(
                        (final(self).pos as int, final(self).out@, final(self).dict@),
                    )
                    &&& old(self).pos < final(self).pos
                    &&& old(self).out@.len() <= final(self).out@.len()
                }),
                Err(e) => sdd_type(
                    old(self).sv(),
                    old(self).pos as int,
                    old(self).verbose,
                    old(self).out@,
                    old(self).dict@,
                ) == Err::<(int, Seq<char>, Seq<(usize, usize)>), (ParseErrorKind, int)>(
                    (e.kind, e.pos as int),
                ),
            },
        decreases old(self).input@.len() - old(self).pos, 3int,
    {
        let ghost s0 = self.input@;
        let ghost p0 = self.pos as int;
        let ghost v0 = self.verbose;
        let ghost o0 = self.out@;
        let ghost d0 = self.dict@;
        let n_len = self.input.len();
        let start = self.out.len();
        let c = self.cur();
        match crate::parse::Parser::basic_of_char(c) {
            Some(b) => {
                proof {
                    assert(c != EOT_CHAR);
                    assert(self.pos < n_len);
                }
                self.pos += 1;
                b.pretty_print_basic_chars(&mut self.out);
                proof {
                    assert(sdd_type(s0, p0, v0, o0, d0) == Ok::<
                        (int, Seq<char>, Seq<(usize, usize)>),
                        (ParseErrorKind, int),
                    >((self.pos as int, self.out@, self.dict@)));
                }
                return Ok(());
            },
            None => {},
        }
        if c == 'R' || c == 'Q' || c == 'P' || c == 'O' {
            proof {
                assert(c != EOT_CHAR);
                assert(self.pos < n_len);
            }
            self.pos += 1;
            if c == 'R' {
                crate::text::push_char(&mut self.out, '&');
            } else if c == 'Q' {
                crate::text::push_str_chars(&mut self.out, "&mut ");
            } else if c == 'P' {
                crate::text::push_str_chars(&mut self.out, "*const ");
            } else {
                crate::text::push_str_chars(&mut self.out, "*mut ");
            }
            let ghost head: Seq<char> = if c == 'R' {
                seq!['&']
            } else if c == 'Q' {
                "&mut "@
            } else if c == 'P' {
                "*const "@
            } else {
                "*mut "@
            };
            proof {
                assert(self.out@ == o0 + head);
            }
            match self.demangle_type() {
                Ok(_) => {},
                Err(e) => {
                    return Err(e);
                },
            }
            proof {
                self.out_len_bound();
            }
            self.alloc_subst(start);
            proof {
                assert(sdd_type(s0, p0, v0, o0, d0) == Ok::<
                    (int, Seq<char>, Seq<(usize, usize)>),
                    (ParseErrorKind, int),
                >((self.pos as int, self.out@, self.dict@)));
            }
            Ok(())
        } else if c == 'A' {
            proof {
                assert(c != EOT_CHAR);
                assert(self.pos < n_len);
            }
            self.pos += 1;
            let next = self.cur();
            let size: Option<u64> = if crate::int_radix::char_digit_to_value(next, 10).is_some() {
                match self.parse_number(10) {
                    Ok(n) => Some(n),
                    Err(e) => {
                        return Err(e);
                    },
                }
            } else {
                None
            };
            crate::text::push_char(&mut self.out, '[');
            match self.demangle_type() {
                Ok(_) => {},
                Err(e) => {
                    return Err(e);
                },
            }
            let ghost out2g = self.out@;
            match size {
                Some(n) => {
                    crate::text::push_str_chars(&mut self.out, "; ");
                    crate::int_radix::push_radix_digits(&mut self.out, n, 10);
                },
                None => {},
            }
            crate::text::push_char(&mut self.out, ']');
            proof {
                self.out_len_bound();
                assert(self.out@ =~= out2g + (match size {
                    Some(n) => "; "@ + spec_radix_digits(n as nat, 10),
                    None => Seq::empty(),
                }) + seq![']']);
            }
            self.alloc_subst(start);
            proof {
                assert(sdd_type(s0, p0, v0, o0, d0) == Ok::<
                    (int, Seq<char>, Seq<(usize, usize)>),
                    (ParseErrorKind, int),
                >((self.pos as int, self.out@, self.dict@)));
            }
            Ok(())
        } else if c == 'T' {
            proof {
                assert(c != EOT_CHAR);
                assert(self.pos < n_len);
            }
            self.pos += 1;
            crate::text::push_char(&mut self.out, '(');
            match self.demangle_generic_argument_list(true) {
                Ok(_) => {},
                Err(e) => {
                    return Err(e);
                },
            }
            crate::text::push_char(&mut self.out, ')');
            proof {
                self.out_len_bound();
            }
            self.alloc_subst(start);
            proof {
                assert(sdd_type(s0, p0, v0, o0, d0) == Ok::<
                    (int, Seq<char>, Seq<(usize, usize)>),
                    (ParseErrorKind, int),
                >((self.pos as int, self.out@, self.dict@)));
            }
            Ok(())
        } else if c == 'G' {
            proof {
                assert(c != EOT_CHAR);
                assert(self.pos < n_len);
            }
            self.pos += 1;
            match self.demangle_ident() {
                Ok(_) => {},
                Err(e) => {
                    return Err(e);
                },
            }
            if self.cur() == 'E' {
                proof {
                    assert(self.pos < n_len);
                }
                self.pos += 1;
            proof {
                assert(sdd_type(s0, p0, v0, o0, d0) == Ok::<
                    (int, Seq<char>, Seq<(usize, usize)>),
                    (ParseErrorKind, int),
                >((self.pos as int, self.out@, self.dict@)));
            }
                Ok(())
            } else {
                let kind = if self.pos >= n_len {
                    ParseErrorKind::Truncation
                } else {
                    ParseErrorKind::Malformed
                };
                Err(ParseError { kind, pos: self.pos })
            }
        } else if c == 'N' {
            match self.demangle_abs_path() {
                Ok(_) => {
            proof {
                assert(sdd_type(s0, p0, v0, o0, d0) == Ok::<
                    (int, Seq<char>, Seq<(usize, usize)>),
                    (ParseErrorKind, int),
                >((self.pos as int, self.out@, self.dict@)));
            }
                    Ok(())
                },
                Err(e) => Err(e),
            }
        } else if c == 'S' {
            match self.demangle_subst() {
                Ok(_) => {
            proof {
                assert(sdd_type(s0, p0, v0, o0, d0) == Ok::<
                    (int, Seq<char>, Seq<(usize, usize)>),
                    (ParseErrorKind, int),
                >((self.pos as int, self.out@, self.dict@)));
            }
                    Ok(())
                },
                Err(e) => Err(e),
            }
        } else if c == 'F' {
            self.demangle_fn_type()
        } else {
            let kind = if self.pos >= n_len {
                ParseErrorKind::Truncation
            } else {
                ParseErrorKind::Malformed
            };
            Err(ParseError { kind, pos: self.pos })
        }
    }

    /// Demangles the whole symbol held in the input.
    pub fn demangle_symbol(&mut self) -> (r: Result<(), ParseError>)
        requires
            old(self).pos == 0,
            old(self).out@.len() == 0,
            old(self).dict@.len() == 0,
        ensures
            *final(self) == (Demangler {
                pos: final(self).pos,
                out: final(self).out,
                dict: final(self).dict,
                ..*old(self)
            }),
            match r {
                Ok(_) => (sdd_symbol(old(self).sv(), old(self).verbose) matches Ok(t) && t.1
                    == final(self).out@ && t.2 == final(self).dict@),
                Err(e) => sdd_symbol(old(self).sv(), old(self).verbose) == Err::<
                    (int, Seq<char>, Seq<(usize, usize)>),
                    (ParseErrorKind, int),
                >((e.kind, e.pos as int)),
            },
    {
        let n = self.input.len();
        if n < 2 || self.input[0] != '_' || self.input[1] != 'R' {
            return Err(ParseError { kind: ParseErrorKind::Malformed, pos: 0 });
        }
        self.pos = 2;
        let c = self.cur();
        if crate::int_radix::char_digit_to_value(c, 10).is_some() {
            let v = match self.parse_number(10) {
                Ok(v) => v,
                Err(e) => {
                    return Err(e);
                },
            };
            let version = if v == u64::MAX {
                v
            } else {
                v + 1
            };
            return Err(ParseError { kind: ParseErrorKind::Version { version }, pos: 2 });
        }
        proof {
            assert(self.out@ =~= Seq::<char>::empty());
            assert(self.dict@ =~= Seq::<(usize, usize)>::empty());
        }
        match self.demangle_abs_path() {
            Ok(_) => {},
            Err(e) => {
                return Err(e);
            },
        }
        if self.cur() != EOT_CHAR && self.verbose {
            crate::text::push_str_chars(&mut self.out, " @ ");
            match self.demangle_path_prefix() {
                Ok(_) => {},
                Err(e) => {
                    return Err(e);
                },
            }
        }
        Ok(())
    }

    /// Demangles mangled bytes in one pass.
    pub fn demangle(input: &[u8], verbose: bool) -> (r: Result<String, String>)
        ensures
            match r {
                Ok(text) => (sdd_symbol(crate::text::chars_of_bytes(input@), verbose) matches Ok(
                    t,
                ) && t.1 == text@),
                Err(m) => (sdd_symbol(crate::text::chars_of_bytes(input@), verbose) matches Err(
                    ep,
                ) && m@ == spec_demangle_err_msg(ep.0, ep.1)),
            },
    {
        let chars = crate::text::bytes_to_chars(input);
        let mut state = Demangler::new_chars(chars, verbose);
        match state.demangle_symbol() {
            Ok(_) => Ok(crate::text::chars_to_string(&state.out)),
            Err(e) => {
                let mut msg: Vec<char> = Vec::new();
                crate::text::push_str_chars(&mut msg, "Error demangling ");
                let tail = crate::parse::render_parse_error(e);
                crate::text::push_str_chars(&mut msg, tail.as_str());
                Err(crate::text::chars_to_string(&msg))
            },
        }
    }

    /// Demangles mangled bytes and also returns the back-reference table
    /// as (index, copied text) pairs: indices dense from zero, and on
    /// success each string is exactly the output text of its recorded
    /// range.
    pub fn demangle_debug(input: &[u8], verbose: bool) -> (r: (
        Result<String, String>,
        crate::debug::DebugDictionary,
    ))
        ensures
            match r.0 {
                Ok(text) => (sdd_symbol(crate::text::chars_of_bytes(input@), verbose) matches Ok(
                    t,
                ) && t.1 == text@ && r.1.data@.len() == t.2.len() && (forall|i: int|
                    0 <= i < t.2.len() && (#[trigger] t.2[i]).0 <= t.2[i].1 <= t.1.len()
                        ==> r.1.data@[i].1@ == t.1.subrange(t.2[i].0 as int, t.2[i].1 as int))),
                Err(m) => (sdd_symbol(crate::text::chars_of_bytes(input@), verbose) matches Err(
                    ep,
                ) && m@ == spec_demangle_err_msg(ep.0, ep.1)),
            },
            forall|i: int|
                0 <= i < r.1.data@.len() ==> (#[trigger] r.1.data@[i]).0 == Subst(i as u64),
    {
        let chars = crate::text::bytes_to_chars(input);
        let mut state = Demangler::new_chars(chars, verbose);
        let outcome = state.demangle_symbol();
        let mut items: Vec<(Subst, String)> = Vec::new();
        let n = state.dict.len();
        let mut i: usize = 0;
        while i < n
            invariant
                0 <= i <= n == state.dict@.len(),
                items@.len() == i,
                forall|j: int| 0 <= j < i ==> (#[trigger] items@[j]).0 == Subst(j as u64),
                forall|j: int|
                    0 <= j < i && (#[trigger] state.dict@[j]).0 <= state.dict@[j].1
                        <= state.out@.len() ==> items@[j].1@ == state.out@.subrange(
                        state.dict@[j].0 as int,
                        state.dict@[j].1 as int,
                    ),
            decreases n - i,
        {
            let (a, b) = state.dict[i];
            let rendered = if a <= b && b <= state.out.len() {
                let mut piece: Vec<char> = Vec::new();
                let mut k = a;
                while k < b
                    invariant
                        a <= k <= b <= state.out@.len(),
                        piece@ == state.out@.subrange(a as int, k as int),
                    decreases b - k,
                {
                    piece.push(state.out[k]);
                    proof {
                        assert(state.out@.subrange(a as int, k + 1) =~= state.out@.subrange(
                            a as int,
                            k as int,
                        ).push(state.out@[k as int]));
                    }
                    k += 1;
                }
                crate::text::chars_to_string(&piece)
            } else {
                String::new()
            };
            items.push((Subst(i as u64), rendered));
            i += 1;
        }
        let dict = crate::debug::DebugDictionary { data: items };
        match outcome {
            Ok(_) => (Ok(crate::text::chars_to_string(&state.out)), dict),
            Err(e) => {
                let mut msg: Vec<char> = Vec::new();
                crate::text::push_str_chars(&mut msg, "Error demangling ");
                let tail = crate::parse::render_parse_error(e);
                crate::text::push_str_chars(&mut msg, tail.as_str());
                (Err(crate::text::chars_to_string(&msg)), dict)
            },
        }
    }
}

impl Demangler {
    /// Reads a function type and writes its rendering.
    #[verifier::rlimit(100)]
    #[verifier::spinoff_prover]
    fn demangle_fn_type(&mut self) -> (r: Result<(), ParseError>)
        requires
            old(self).wf(),
            sp_peek(old(self).sv(), old(self).pos as int) == 'F',
        ensures
            *final(self) == (Demangler {
                pos: final(self).pos,
                out: final(self).out,
                dict: final(self).dict,
                ..*old(self)
            }),
            final(self).wf(),
            match r {
                Ok(_) => ({
                    &&& sdd_fn_type(
                        old(self).sv(),
                        old(self).pos as int,
                        old(self).verbose,
                        old(self).out@,
                        old(self).dict@,
                    ) == Ok::<(int, Seq<char>, Seq<(usize, usize)>), (ParseErrorKind, int)>(
                        (final(self).pos as int, final(self).out@, final(self).dict@),
                    )
                    &&& old(self).pos < final(self).pos
                    &&& old(self).out@.len() <= final(self).out@.len()
                }),
                Err(e) => sdd_fn_type(
                    old(self).sv(),
                    old(self).pos as int,
                    old(self).verbose,
                    old(self).out@,
                    old(self).dict@,
                ) == Err::<(int, Seq<char>, Seq<(usize, usize)>), (ParseErrorKind, int)>(
                    (e.kind, e.pos as int),
                ),
            },
        decreases old(self).input@.len() - old(self).pos, 1int,
    {
        let n_len = self.input.len();
        let start = self.out.len();
        proof {
            assert(self.pos < n_len);
        }
        self.pos += 1;
        let is_unsafe = if self.cur() == 'U' {
            proof {
                assert(self.pos < n_len);
            }
            self.pos += 1;
            true
        } else {
            false
        };
        let abi: Abi = if self.cur() == 'K' {
            proof {
                assert(self.pos < n_len);
            }
            self.pos += 1;
            if self.cur() == 'c' {
                proof {
                    assert(self.pos < n_len);
                }
                self.pos += 1;
                Abi::C
            } else {
                let kind = if self.pos >= n_len {
                    ParseErrorKind::Truncation
                } else {
                    ParseErrorKind::Malformed
                };
                return Err(ParseError { kind, pos: self.pos });
            }
        } else {
            Abi::Rust
        };
        if is_unsafe {
            crate::text::push_str_chars(&mut self.out, "unsafe ");
        }
        match abi {
            Abi::Rust => {},
            _ => {
                crate::text::push_str_chars(&mut self.out, "extern ");
                abi.pretty_print_abi_chars(&mut self.out);
                crate::text::push_char(&mut self.out, ' ');
            },
        }
        crate::text::push_str_chars(&mut self.out, "fn(");
        proof {
            assert(self.out@ =~= old(self).out@ + (if is_unsafe {
                "unsafe "@
            } else {
                Seq::<char>::empty()
            }) + (if abi != Abi::Rust {
                "extern "@ + spec_pretty_abi(abi) + seq![' ']
            } else {
                Seq::<char>::empty()
            }) + "fn("@);
        }
        match self.demangle_fn_params(true) {
            Ok(_) => {},
            Err(e) => {
                return Err(e);
            },
        }
        if self.cur() == 'J' {
            proof {
                assert(self.pos < n_len);
            }
            self.pos += 1;
            crate::text::push_str_chars(&mut self.out, ")");
            crate::text::push_str_chars(&mut self.out, " -> ");
            match self.demangle_type() {
                Ok(_) => {},
                Err(e) => {
                    return Err(e);
                },
            }
        } else {
            crate::text::push_str_chars(&mut self.out, ")");
        }
        if self.cur() == 'E' {
            proof {
                assert(self.pos < n_len);
            }
            self.pos += 1;
            proof {
                self.out_len_bound();
            }
            self.alloc_subst(start);
            Ok(())
        } else {
            let kind = if self.pos >= n_len {
                ParseErrorKind::Truncation
            } else {
                ParseErrorKind::Malformed
            };
            Err(ParseError { kind, pos: self.pos })
        }
    }
}

} // verus!
