//! Printing and reading unsigned numbers in radices from 2 to 62, with the
//! digit alphabet `0-9 a-z A-Z`.
use vstd::prelude::*;

use crate::text::chars_to_string;

verus! {

broadcast use vstd::std_specs::vec::group_vec_axioms, vstd::seq::group_seq_axioms;

/// The digit character for a value below 62.
pub open spec fn spec_digit_char(v: nat) -> char {
    if v < 10 {
        ((48 + v) as u8) as char
    } else if v < 36 {
        ((97 + (v - 10)) as u8) as char
    } else {
        ((65 + (v - 36)) as u8) as char
    }
}

/// The value a character names as a digit, independent of radix.
pub open spec fn spec_char_digit(c: char) -> Option<nat> {
    if 48 <= c as u32 && c as u32 <= 57 {
        Some(((c as u32) - 48) as nat)
    } else if 97 <= c as u32 && c as u32 <= 122 {
        Some(((c as u32) - 97 + 10) as nat)
    } else if 65 <= c as u32 && c as u32 <= 90 {
        Some(((c as u32) - 65 + 36) as nat)
    } else {
        None
    }
}

/// The value of a digit character, if it is one the radix accepts.
pub open spec fn spec_digit_value(c: char, radix: nat) -> Option<nat> {
    match spec_char_digit(c) {
        Some(v) => if v < radix {
            Some(v)
        } else {
            None
        },
        None => None,
    }
}

/// The digits of `value` in the given radix, most significant first;
/// the value 0 is written "0".
pub open spec fn spec_radix_digits(value: nat, radix: nat) -> Seq<char>
    recommends
        2 <= radix <= 62,
    decreases value,
    via spec_radix_digits_dec
{
    if value < radix || radix < 2 {
        seq![spec_digit_char(if value < radix { value } else { 0 })]
    } else {
        spec_radix_digits(value / radix, radix).push(spec_digit_char(value % radix))
    }
}

#[via_fn]
proof fn spec_radix_digits_dec(value: nat, radix: nat) {
    if !(value < radix || radix < 2) {
        assert(value / radix < value) by (nonlinear_arith)
            requires
                radix >= 2,
                value >= radix,
        ;
    }
}

/// The value of a run of digit characters, read left to right.
pub open spec fn spec_digits_value(ds: Seq<char>, radix: nat) -> nat
    decreases ds.len(),
{
    if ds.len() == 0 {
        0
    } else {
        spec_digits_value(ds.drop_last(), radix) * radix + (
        match spec_digit_value(ds.last(), radix) {
            Some(v) => v,
            None => 0,
        })
    }
}

/// Reading back the digits of a value yields the value, and every digit
/// printed is a digit the radix accepts.
pub proof fn lemma_radix_digits_value(value: nat, radix: nat)
    requires
        2 <= radix <= 62,
    ensures
        spec_digits_value(spec_radix_digits(value, radix), radix) == value,
        spec_radix_digits(value, radix).len() >= 1,
        forall|i: int|
            0 <= i < spec_radix_digits(value, radix).len() ==> spec_digit_value(
                #[trigger] spec_radix_digits(value, radix)[i],
                radix,
            ) is Some,
    decreases value,
{
    if value < radix {
        let ds = spec_radix_digits(value, radix);
        assert(spec_digit_value(spec_digit_char(value), radix) == Some(value));
        assert(ds == seq![spec_digit_char(value)]);
        assert(ds.len() == 1);
        assert(ds.last() == spec_digit_char(value));
        assert(ds.drop_last() =~= Seq::<char>::empty());
        assert(spec_digits_value(ds.drop_last(), radix) == 0);
        assert(spec_digits_value(ds, radix) == 0 * radix + value);
        assert(0 * radix == 0) by (nonlinear_arith);
    } else {
        let q = value / radix;
        let m = value % radix;
        assert(q < value && q * radix + m == value && m < radix) by (nonlinear_arith)
            requires
                2 <= radix,
                value >= radix,
                q == value / radix,
                m == value % radix,
        ;
        lemma_radix_digits_value(q, radix);
        let ds = spec_radix_digits(value, radix);
        assert(ds.drop_last() =~= spec_radix_digits(q, radix));
        assert(spec_digit_value(spec_digit_char(m), radix) == Some(m));
    }
}

/// Prints one digit.
fn digit_char(v: u64) -> (c: char)
    requires
        v < 62,
    ensures
        c == spec_digit_char(v as nat),
{
    if v < 10 {
        (48 + v as u8) as char
    } else if v < 36 {
        (97 + (v as u8 - 10)) as char
    } else {
        (65 + (v as u8 - 36)) as char
    }
}

/// Appends the digits of `value` in the given radix.
pub fn push_radix_digits(out: &mut Vec<char>, value: u64, radix: u8)
    requires
        2 <= radix <= 62,
    ensures
        final(out)@ == old(out)@ + spec_radix_digits(value as nat, radix as nat),
    decreases value,
{
    if value < radix as u64 {
        out.push(digit_char(value));
    } else {
        let q = value / radix as u64;
        let m = value % radix as u64;
        proof {
            assert(q < value && m < radix) by (nonlinear_arith)
                requires
                    2 <= radix <= 62,
                    value >= radix,
                    q == value / radix as u64,
                    m == value % radix as u64,
            ;
        }
        push_radix_digits(out, q, radix);
        out.push(digit_char(m));
    }
}

/// A number paired with the radix to print it in.
pub struct RadixFmt {
    pub radix: u8,
    pub value: u64,
}

/// Pairs a value with a radix for printing.
pub fn radix(base: u8, value: u64) -> (r: RadixFmt)
    ensures
        r.radix == base,
        r.value == value,
{
    RadixFmt { radix: base, value }
}

impl RadixFmt {
    /// The digits of the value in the chosen radix, as a string.
    pub fn render(&self) -> (r: String)
        requires
            2 <= self.radix <= 62,
        ensures
            r@ == spec_radix_digits(self.value as nat, self.radix as nat),
    {
        let mut out: Vec<char> = Vec::new();
        push_radix_digits(&mut out, self.value, self.radix);
        chars_to_string(&out)
    }
}

/// The value of one ASCII digit byte under the given radix, `None` where
/// the byte is no digit or names a value the radix does not reach.
pub fn ascii_digit_to_value(ascii_char: u8, radix: u8) -> (r: Option<u64>)
    ensures
        r matches Some(v) ==> spec_digit_value(ascii_char as char, radix as nat) == Some(
            v as nat,
        ),
        r is None ==> spec_digit_value(ascii_char as char, radix as nat) is None,
{
    let value: u8 = if 48 <= ascii_char && ascii_char <= 57 {
        ascii_char - 48
    } else if 97 <= ascii_char && ascii_char <= 122 {
        (ascii_char - 97) + 10
    } else if 65 <= ascii_char && ascii_char <= 90 {
        (ascii_char - 65) + 36
    } else {
        return None;
    };
    if value < radix {
        Some(value as u64)
    } else {
        None
    }
}

/// The value of one digit character under the given radix.
pub fn char_digit_to_value(c: char, radix: u8) -> (r: Option<u64>)
    ensures
        r matches Some(v) ==> spec_digit_value(c, radix as nat) == Some(v as nat),
        r is None ==> spec_digit_value(c, radix as nat) is None,
{
    let code = c as u32;
    let value: u32 = if 48 <= code && code <= 57 {
        code - 48
    } else if 97 <= code && code <= 122 {
        (code - 97) + 10
    } else if 65 <= code && code <= 90 {
        (code - 65) + 36
    } else {
        return None;
    };
    if value < radix as u32 {
        Some(value as u64)
    } else {
        None
    }
}

} // verus!
