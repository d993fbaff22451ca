//! Small text utilities: moving between byte slices, character vectors and
//! `String`, with the character sequence as the common model.
use vstd::prelude::*;

verus! {

broadcast use vstd::std_specs::vec::group_vec_axioms, vstd::seq::group_seq_axioms;

/// The characters a byte sequence stands for, byte by byte.
pub open spec fn chars_of_bytes(bs: Seq<u8>) -> Seq<char> {
    bs.map_values(|b: u8| b as char)
}

/// A character whose code point fits in one byte.
pub open spec fn is_ascii_char(c: char) -> bool {
    (c as u32) < 128
}

/// A character sequence whose code points all fit in one byte.
pub open spec fn ascii_chars(s: Seq<char>) -> bool {
    forall|i: int| 0 <= i < s.len() ==> is_ascii_char(#[trigger] s[i])
}

/// Relies on `String::from_iter` over characters: collecting characters
/// yields the string of exactly those characters, in order.
#[verifier::external_body]
pub fn chars_to_string(v: &Vec<char>) -> (r: String)
    ensures
        r@ == v@,
{
    v.iter().collect()
}

/// The characters of a string slice, gathered into a vector.
pub fn str_to_chars(s: &str) -> (r: Vec<char>)
    ensures
        r@ == s@,
{
    let n = s.unicode_len();
    let mut r: Vec<char> = Vec::new();
    for i in 0..n
        invariant
            n == s@.len(),
            r@ == s@.subrange(0, i as int),
    {
        r.push(s.get_char(i));
        proof {
            assert(r@ =~= s@.subrange(0, i + 1));
        }
    }
    proof {
        assert(r@ =~= s@);
    }
    r
}

/// The characters of a byte slice, byte by byte.
pub fn bytes_to_chars(b: &[u8]) -> (r: Vec<char>)
    ensures
        r@ == chars_of_bytes(b@),
{
    let n = b.len();
    let mut r: Vec<char> = Vec::new();
    for i in 0..n
        invariant
            n == b@.len(),
            r@ == chars_of_bytes(b@).subrange(0, i as int),
    {
        r.push(b[i] as char);
        proof {
            assert(r@ =~= chars_of_bytes(b@).subrange(0, i + 1));
        }
    }
    proof {
        assert(r@ =~= chars_of_bytes(b@));
    }
    r
}

/// Appends one character to a character vector.
pub fn push_char(out: &mut Vec<char>, c: char)
    ensures
        final(out)@ == old(out)@ + seq![c],
{
    out.push(c);
    proof {
        assert(out@ =~= old(out)@ + seq![c]);
    }
}

/// Appends every character of a string slice to a character vector.
pub fn push_str_chars(out: &mut Vec<char>, s: &str)
    ensures
        final(out)@ == old(out)@ + s@,
{
    let n = s.unicode_len();
    let ghost orig = out@;
    for i in 0..n
        invariant
            n == s@.len(),
            out@ == orig + s@.subrange(0, i as int),
    {
        out.push(s.get_char(i));
        proof {
            assert(out@ =~= orig + s@.subrange(0, i + 1));
        }
    }
    proof {
        assert(out@ =~= orig + s@);
    }
}

/// Whether every character of a vector is ASCII.
pub fn chars_are_ascii(v: &Vec<char>, from: usize, to: usize) -> (r: bool)
    requires
        from <= to <= v@.len(),
    ensures
        r == ascii_chars(v@.subrange(from as int, to as int)),
{
    let mut i = from;
    while i < to
        invariant
            from <= i <= to <= v@.len(),
            forall|j: int| from <= j < i ==> is_ascii_char(#[trigger] v@[j]),
        decreases to - i,
    {
        let c = v[i];
        if c as u32 > 0x7f {
            proof {
                assert(v@.subrange(from as int, to as int)[i - from] == v@[i as int]);
            }
            return false;
        }
        i += 1;
    }
    proof {
        assert forall|j: int| 0 <= j < to - from implies is_ascii_char(#[trigger] v@.subrange(
            from as int,
            to as int,
        )[j]) by {
            assert(v@.subrange(from as int, to as int)[j] == v@[j + from]);
        }
    }
    true
}

} // verus!
