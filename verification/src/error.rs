//! Human-readable diagnostics: what was expected, what was found, and
//! where. Every builder's output is pinned down by a spec function.
use vstd::prelude::*;

use crate::text::{chars_to_string, push_str_chars};

verus! {

broadcast use vstd::std_specs::vec::group_vec_axioms, vstd::seq::group_seq_axioms;

/// How one expected character is named: `#` stands for any digit, anything
/// else is quoted.
pub open spec fn spec_char_name(c: char) -> Seq<char> {
    if c == '#' {
        "digit"@
    } else {
        seq!['\''] + seq![c] + seq!['\'']
    }
}

/// Each character named and followed by a comma and space.
pub open spec fn spec_comma_list(cs: Seq<char>) -> Seq<char>
    decreases cs.len(),
{
    if cs.len() == 0 {
        Seq::empty()
    } else {
        spec_comma_list(cs.drop_last()) + spec_char_name(cs.last()) + ", "@
    }
}

/// The rendered list of expected characters: one plain, two joined by
/// "or", more in comma-separated form with a final "or".
pub open spec fn spec_expected_list(cs: Seq<char>) -> Seq<char> {
    if cs.len() == 1 {
        spec_char_name(cs[0])
    } else if cs.len() == 2 {
        spec_char_name(cs[0]) + " or "@ + spec_char_name(cs[1])
    } else {
        spec_comma_list(cs.drop_last()) + "or "@ + spec_char_name(cs.last())
    }
}

/// The full message of an expectation failure.
pub open spec fn spec_expected_msg(
    expected: Seq<char>,
    found: char,
    verb: Seq<char>,
    noun: Seq<char>,
) -> Seq<char> {
    "Expected "@ + spec_expected_list(expected) + "; found "@ + spec_char_name(found)
        + " instead; while "@ + verb + " "@ + noun
}

/// Quotes one character, or names the digit class.
pub fn char_to_str(c: char) -> (r: String)
    ensures
        r@ == spec_char_name(c),
{
    let mut out: Vec<char> = Vec::new();
    if c == '#' {
        push_str_chars(&mut out, "digit");
    } else {
        out.push('\'');
        out.push(c);
        out.push('\'');
        proof {
            assert(out@ =~= spec_char_name(c));
        }
    }
    chars_to_string(&out)
}

/// Builds the failure for finding `found_char` where one of
/// `expected_chars` should stand.
pub fn expected<T>(
    expected_chars: &str,
    found_char: u8,
    verb: &str,
    noun: &str,
) -> (r: Result<T, String>)
    requires
        expected_chars@.len() >= 1,
    ensures
        r matches Err(m) && m@ == spec_expected_msg(
            expected_chars@,
            found_char as char,
            verb@,
            noun@,
        ),
{
    let cs = crate::text::str_to_chars(expected_chars);
    let mut out: Vec<char> = Vec::new();
    push_str_chars(&mut out, "Expected ");
    let n = cs.len();
    if n == 1 {
        let name = char_to_str(cs[0]);
        push_str_chars(&mut out, name.as_str());
    } else if n == 2 {
        let name0 = char_to_str(cs[0]);
        let name1 = char_to_str(cs[1]);
        push_str_chars(&mut out, name0.as_str());
        push_str_chars(&mut out, " or ");
        push_str_chars(&mut out, name1.as_str());
    } else {
        let mut i: usize = 0;
        proof {
            assert(cs@.subrange(0, 0) =~= Seq::<char>::empty());
        }
        while i < n - 1
            invariant
                3 <= n == cs@.len(),
                0 <= i <= n - 1,
                cs@ == expected_chars@,
                out@ == "Expected "@ + spec_comma_list(cs@.subrange(0, i as int)),
            decreases n - i,
        {
            let name = char_to_str(cs[i]);
            push_str_chars(&mut out, name.as_str());
            push_str_chars(&mut out, ", ");
            proof {
                let sub1 = cs@.subrange(0, i + 1);
                assert(sub1.drop_last() =~= cs@.subrange(0, i as int));
                assert(sub1.last() == cs@[i as int]);
            }
            i += 1;
        }
        push_str_chars(&mut out, "or ");
        let last = char_to_str(cs[n - 1]);
        push_str_chars(&mut out, last.as_str());
        proof {
            assert(cs@.subrange(0, n - 1 as int) =~= cs@.drop_last());
            assert(cs@.last() == cs@[n - 1 as int]);
        }
    }
    push_str_chars(&mut out, "; found ");
    let fname = char_to_str(found_char as char);
    push_str_chars(&mut out, fname.as_str());
    push_str_chars(&mut out, " instead; while ");
    push_str_chars(&mut out, verb);
    push_str_chars(&mut out, " ");
    push_str_chars(&mut out, noun);
    Err(chars_to_string(&out))
}

/// Builds the failure for a symbol carrying an unsupported encoding
/// version.
pub open spec fn spec_version_msg(actual: u64, supported: u64) -> Seq<char> {
    "Symbol uses encoding version "@ + crate::int_radix::spec_radix_digits(actual as nat, 10)
        + " but the highest supported version is "@ + crate::int_radix::spec_radix_digits(
        supported as nat,
        10,
    ) + "."@
}

/// Reports a symbol encoded under a version this library does not read.
pub fn version_mismatch<T>(actual_version: u64, supported_version: u64) -> (r: Result<T, String>)
    ensures
        r matches Err(m) && m@ == spec_version_msg(actual_version, supported_version),
{
    let mut out: Vec<char> = Vec::new();
    push_str_chars(&mut out, "Symbol uses encoding version ");
    crate::int_radix::push_radix_digits(&mut out, actual_version, 10);
    push_str_chars(&mut out, " but the highest supported version is ");
    crate::int_radix::push_radix_digits(&mut out, supported_version, 10);
    push_str_chars(&mut out, ".");
    Err(chars_to_string(&out))
}

} // verus!
