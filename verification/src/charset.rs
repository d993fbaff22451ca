//! The identifier transform for non-ASCII names: punycode, with the
//! delimiter and digit alphabet moved out of the way of the grammar.
//!
//! The punycode form of a name is `basic chars + '-' + digit tail`. The
//! mangled grammar reserves `-` has no place for it and uses `_` freely, so
//! the transform replaces the final delimiter with `_` and shifts the digits
//! `0-9` of the tail to `A-J`; decoding undoes both steps.
use vstd::prelude::*;

use crate::text::{ascii_chars, chars_are_ascii, chars_of_bytes, chars_to_string, str_to_chars};

verus! {

broadcast use vstd::std_specs::vec::group_vec_axioms, vstd::seq::group_seq_axioms;

/// What the punycode encoder returns for a character sequence short
/// enough for its arithmetic (the encode wrapper's bound).
pub uninterp spec fn puny_encoded(s: Seq<char>) -> Seq<char>;

/// What the punycode decoder returns for a character sequence, when it
/// succeeds; `None` on malformed input or overflow.
pub uninterp spec fn puny_decoded(s: Seq<char>) -> Option<Seq<char>>;

/// Relies on `unic_idna_punycode::encode_str`, on inputs of at most 1000
/// characters. Within that bound every delta the encoder computes stays
/// below (0x10FFFF - 0x80) * 1001 + 2000 < 2^31, far under the 32-bit
/// limit, so none of its overflow returns or wrapping increments is
/// reachable: it always returns its encoding, which is ASCII, the result
/// depends on the input characters alone, and `decode_to_string` (whose
/// own 32-bit positions also stay in range) inverts it, as RFC 3492's
/// one-to-one encoding promises.
#[verifier::external_body]
fn punycode_encode_str(s: &str) -> (r: String)
    requires
        s@.len() <= 1000,
    ensures
        r@ == puny_encoded(s@),
        ascii_chars(r@),
        puny_decoded(r@) == Some(s@),
{
    match unic_idna_punycode::encode_str(s) {
        Some(e) => e,
        None => String::new(),
    }
}

/// Relies on `unic_idna_punycode::decode_to_string`: the result depends on
/// the input characters alone.
#[verifier::external_body]
fn punycode_decode_str(s: &str) -> (r: Option<String>)
    ensures
        r matches Some(d) ==> puny_decoded(s@) == Some(d@),
        r is None ==> puny_decoded(s@) is None,
{
    unic_idna_punycode::decode_to_string(s)
}

/// The largest index holding `c`, or -1 where `c` does not occur.
pub open spec fn spec_last_index_of(s: Seq<char>, c: char) -> int
    decreases s.len(),
{
    if s.len() == 0 {
        -1
    } else if s.last() == c {
        s.len() - 1
    } else {
        spec_last_index_of(s.drop_last(), c)
    }
}

/// The largest index of `c` in `v`, or `None` where `c` does not occur.
pub fn last_index_of(v: &Vec<char>, c: char) -> (r: Option<usize>)
    ensures
        r matches Some(i) ==> spec_last_index_of(v@, c) == i && i < v@.len(),
        r is None ==> spec_last_index_of(v@, c) == -1,
{
    let mut i = v.len();
    proof {
        assert(v@.subrange(0, v@.len() as int) =~= v@);
    }
    while i > 0
        invariant
            0 <= i <= v@.len(),
            spec_last_index_of(v@, c) == spec_last_index_of(v@.subrange(0, i as int), c),
        decreases i,
    {
        i -= 1;
        if v[i] == c {
            proof {
                let sub = v@.subrange(0, i + 1);
                assert(sub.last() == v@[i as int]);
            }
            return Some(i);
        }
        proof {
            let sub = v@.subrange(0, i + 1);
            assert(sub.last() == v@[i as int]);
            assert(sub.drop_last() =~= v@.subrange(0, i as int));
        }
    }
    proof {
        assert(v@.subrange(0, 0) =~= Seq::<char>::empty());
    }
    None
}

/// Shifts digits `0-9` at positions at or after `from` up to `A-J`.
pub open spec fn spec_remap_digits_up(s: Seq<char>, from: int) -> Seq<char> {
    Seq::new(
        s.len(),
        |i: int|
            if i >= from && 48 <= s[i] as u32 && s[i] as u32 <= 57 {
                (((s[i] as u32) + 17) as u8) as char
            } else {
                s[i]
            },
    )
}

/// Shifts letters `A-J` at positions at or after `from` down to `0-9`.
pub open spec fn spec_remap_digits_down(s: Seq<char>, from: int) -> Seq<char> {
    Seq::new(
        s.len(),
        |i: int|
            if i >= from && 65 <= s[i] as u32 && s[i] as u32 <= 74 {
                (((s[i] as u32) - 17) as u8) as char
            } else {
                s[i]
            },
    )
}

/// Shifts letters `A-J` down to digits `0-9` from `from` on, in place.
#[allow(non_snake_case)]
pub fn remap_punycode_charset_AJ_to_09(v: &mut Vec<char>, from: usize)
    ensures
        final(v)@ == spec_remap_digits_down(old(v)@, from as int),
{
    let ghost orig = v@;
    let n = v.len();
    if from >= n {
        proof {
            assert(v@ =~= spec_remap_digits_down(orig, from as int));
        }
        return ;
    }
    let mut i = from;
    while i < n
        invariant
            from <= i <= n,
            n == v@.len() == orig.len(),
            forall|j: int| 0 <= j < i ==> v@[j] == spec_remap_digits_down(orig, from as int)[j],
            forall|j: int| i <= j < orig.len() ==> v@[j] == orig[j],
        decreases n - i,
    {
        let c = v[i];
        let b = c as u32;
        if 65 <= b && b <= 74 {
            v.set(i, ((b - 17) as u8) as char);
        }
        i += 1;
    }
    proof {
        assert(v@ =~= spec_remap_digits_down(orig, from as int));
    }
}

/// Shifts digits `0-9` up to letters `A-J` from `from` on, in place.
fn remap_digits_09_to_AJ(v: &mut Vec<char>, from: usize)
    ensures
        final(v)@ == spec_remap_digits_up(old(v)@, from as int),
{
    let ghost orig = v@;
    let n = v.len();
    if from >= n {
        proof {
            assert(v@ =~= spec_remap_digits_up(orig, from as int));
        }
        return ;
    }
    let mut i = from;
    while i < n
        invariant
            from <= i <= n,
            n == v@.len() == orig.len(),
            forall|j: int| 0 <= j < i ==> v@[j] == spec_remap_digits_up(orig, from as int)[j],
            forall|j: int| i <= j < orig.len() ==> v@[j] == orig[j],
        decreases n - i,
    {
        let c = v[i];
        let b = c as u32;
        if 48 <= b && b <= 57 {
            v.set(i, ((b + 17) as u8) as char);
        }
        i += 1;
    }
    proof {
        assert(v@ =~= spec_remap_digits_up(orig, from as int));
    }
}

/// What decoding a punycode-transformed identifier yields: undo the
/// delimiter and digit moves, then decode; `None` where the bytes are not
/// ASCII or the decoder fails.
pub open spec fn spec_decode_ident(cs: Seq<char>) -> Option<Seq<char>> {
    if !ascii_chars(cs) {
        None
    } else {
        let p = spec_last_index_of(cs, '_');
        let e = if p >= 0 {
            spec_remap_digits_down(cs.update(p, '-'), p)
        } else {
            spec_remap_digits_down(cs, 0)
        };
        puny_decoded(e)
    }
}

/// The punycode-transformed form of an identifier: encode, replace the
/// final delimiter with `_`, shift the digit tail to `A-J`.
pub open spec fn spec_encode_ident(s: Seq<char>) -> Seq<char>
    recommends
        s.len() <= 1000,
{
    let e = puny_encoded(s);
    let p = spec_last_index_of(e, '-');
    if p >= 0 {
        spec_remap_digits_up(e.update(p, '_'), p)
    } else {
        spec_remap_digits_up(e, 0)
    }
}

/// Decodes the payload of a `u`-marked identifier back to its characters.
pub fn decode_punycode_ident(ident_bytes: &[u8]) -> (r: Result<String, String>)
    ensures
        r matches Ok(id) ==> spec_decode_ident(chars_of_bytes(ident_bytes@)) == Some(id@),
        r is Err ==> spec_decode_ident(chars_of_bytes(ident_bytes@)) is None,
{
    let cs = crate::text::bytes_to_chars(ident_bytes);
    decode_punycode_chars(cs)
}

/// Decodes the payload of a `u`-marked identifier, given as characters.
pub fn decode_punycode_chars(cs: Vec<char>) -> (r: Result<String, String>)
    ensures
        r matches Ok(id) ==> spec_decode_ident(cs@) == Some(id@),
        r is Err ==> spec_decode_ident(cs@) is None,
{
    let mut cs = cs;
    if !chars_are_ascii(&cs, 0, cs.len()) {
        proof {
            assert(cs@.subrange(0, cs@.len() as int) =~= cs@);
        }
        return Err(String::from_str("ident unexpectedly contains non-ascii characters"));
    }
    proof {
        assert(cs@.subrange(0, cs@.len() as int) =~= cs@);
    }
    match last_index_of(&cs, '_') {
        Some(pu) => {
            cs.set(pu, '-');
            remap_punycode_charset_AJ_to_09(&mut cs, pu);
        },
        None => {
            remap_punycode_charset_AJ_to_09(&mut cs, 0);
        },
    }
    let e = chars_to_string(&cs);
    match punycode_decode_str(e.as_str()) {
        Some(d) => Ok(d),
        None => Err(String::from_str("could not decode punycode-encoded ident")),
    }
}

/// The transformed ASCII spelling of an identifier short enough for the
/// punycode encoder's arithmetic.
pub fn encode_punycode_ident(text: &str) -> (r: String)
    requires
        text@.len() <= 1000,
    ensures
        r@ == spec_encode_ident(text@),
{
    let e = punycode_encode_str(text);
    let mut cs = str_to_chars(e.as_str());
    match last_index_of(&cs, '-') {
        Some(pu) => {
            cs.set(pu, '_');
            remap_digits_09_to_AJ(&mut cs, pu);
        },
        None => {
            remap_digits_09_to_AJ(&mut cs, 0);
        },
    }
    chars_to_string(&cs)
}

} // verus!
