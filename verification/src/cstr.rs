//! Byte-level codec for the null-terminated strings that cross the module
//! boundary. A foreign string is modelled as the bytes the host would read
//! from the pointer: UTF-8 text followed by a terminating zero byte.

use vstd::prelude::*;

verus! {

use vstd::utf8::{valid_utf8, decode_utf8, encode_utf8, encode_utf8_valid_utf8,
    encode_utf8_decode_utf8};
use vstd::slice::slice_subrange;

/// Index of the first zero byte, or the length when none occurs.
pub open spec fn first_nul(b: Seq<u8>) -> int
    decreases b.len(),
{
    if b.len() == 0 {
        0
    } else if b[0] == 0u8 {
        0
    } else {
        1 + first_nul(b.drop_first())
    }
}

/// Whether the buffer holds a terminator at all.
pub open spec fn has_nul(b: Seq<u8>) -> bool {
    first_nul(b) < b.len()
}

/// The bytes a C string names: everything before the first zero.
pub open spec fn cstr_content(b: Seq<u8>) -> Seq<u8> {
    b.take(first_nul(b))
}

/// A buffer the host can decode: terminated, and UTF-8 up to the terminator.
pub open spec fn cstr_decodable(b: Seq<u8>) -> bool {
    has_nul(b) && valid_utf8(cstr_content(b))
}

/// The text a decodable buffer holds.
pub open spec fn cstr_chars(b: Seq<u8>) -> Seq<char> {
    decode_utf8(cstr_content(b))
}

/// The foreign image of host text: its UTF-8 bytes plus one terminating zero.
pub open spec fn cstr_of(s: Seq<char>) -> Seq<u8> {
    encode_utf8(s) + seq![0u8]
}

/// Text whose encoding a C string can carry: no interior zero byte.
pub open spec fn text_encodable(s: Seq<char>) -> bool {
    !encode_utf8(s).contains(0u8)
}

pub proof fn lemma_first_nul_bounds(b: Seq<u8>)
    ensures
        0 <= first_nul(b) <= b.len(),
        forall|j: int| 0 <= j < first_nul(b) ==> b[j] != 0u8,
        first_nul(b) < b.len() ==> b[first_nul(b)] == 0u8,
    decreases b.len(),
{
    if b.len() != 0 && b[0] != 0u8 {
        lemma_first_nul_bounds(b.drop_first());
        assert forall|j: int| 0 <= j < first_nul(b) implies b[j] != 0u8 by {
            if j > 0 {
                assert(b.drop_first()[j - 1] != 0u8);
            }
        }
    }
}

/// An index below which no zero occurs, and at which one stands (or the end),
/// is the first zero's index.
pub proof fn lemma_first_nul_is(b: Seq<u8>, i: int)
    requires
        0 <= i <= b.len(),
        forall|j: int| 0 <= j < i ==> b[j] != 0u8,
        i == b.len() || b[i] == 0u8,
    ensures
        first_nul(b) == i,
    decreases i,
{
    if i == 0 {
    } else {
        assert(b[0] != 0u8);
        lemma_first_nul_is(b.drop_first(), i - 1);
    }
}

/// Appending the terminator to zero-free text bytes puts the first zero at
/// their end.
pub proof fn lemma_first_nul_terminated(b: Seq<u8>)
    requires
        !b.contains(0u8),
    ensures
        first_nul(b + seq![0u8]) == b.len(),
{
    let t = b + seq![0u8];
    assert forall|j: int| 0 <= j < b.len() implies t[j] != 0u8 by {
        assert(t[j] == b[j]);
        if b[j] == 0u8 {
            assert(b.contains(0u8));
        }
    }
    lemma_first_nul_is(t, b.len() as int);
}

/// Encoding host text as a C string and decoding it again yields the text.
pub proof fn lemma_cstr_round_trip(s: Seq<char>)
    requires
        text_encodable(s),
    ensures
        cstr_decodable(cstr_of(s)),
        cstr_chars(cstr_of(s)) == s,
{
    lemma_first_nul_terminated(encode_utf8(s));
    assert(cstr_content(cstr_of(s)) =~= encode_utf8(s));
    encode_utf8_valid_utf8(s);
    encode_utf8_decode_utf8(s);
}

/// Relies on core::str::from_utf8: it returns `Ok` exactly on UTF-8 input,
/// and the `&str` it returns is a view of those very bytes.
#[verifier::external_body]
fn utf8_to_str<'a>(bytes: &'a [u8]) -> (r: Option<&'a str>)
    ensures
        r matches Some(s) ==> encode_utf8(s@) == bytes@,
        valid_utf8(bytes@) ==> r is Some,
{
    match core::str::from_utf8(bytes) {
        Ok(s) => Some(s),
        Err(_) => None,
    }
}

/// Position of the terminator in a foreign buffer, if it has one.
fn find_nul(b: &Vec<u8>) -> (r: Option<usize>)
    ensures
        r matches Some(i) ==> i == first_nul(b@) && i < b@.len(),
        r is None ==> !has_nul(b@),
{
    let mut i: usize = 0;
    while i < b.len()
        invariant
            0 <= i <= b@.len(),
            forall|j: int| 0 <= j < i ==> b@[j] != 0u8,
        decreases b@.len() - i,
    {
        if b[i] == 0u8 {
            proof {
                lemma_first_nul_is(b@, i as int);
            }
            return Some(i);
        }
        i += 1;
    }
    proof {
        lemma_first_nul_is(b@, b@.len() as int);
    }
    None
}

/// Decode one foreign string: take the bytes before the first zero and read
/// them as UTF-8. Fails exactly when the buffer lacks a terminator or the
/// content is not UTF-8 — a malformed module, which the caller treats as
/// fatal.
pub fn decode_cstr(b: &Vec<u8>) -> (r: Option<String>)
    ensures
        r matches Some(s) ==> cstr_decodable(b@) && s@ == cstr_chars(b@),
        r is None ==> !cstr_decodable(b@),
{
    match find_nul(b) {
        None => None,
        Some(i) => {
            let content = slice_subrange(b.as_slice(), 0, i);
            proof {
                lemma_first_nul_bounds(b@);
                assert(content@ =~= cstr_content(b@));
            }
            match utf8_to_str(content) {
                None => None,
                Some(s) => {
                    proof {
                        encode_utf8_valid_utf8(s@);
                        encode_utf8_decode_utf8(s@);
                    }
                    Some(String::from_str(s))
                },
            }
        },
    }
}

/// Encode host text as a foreign string: its UTF-8 bytes plus a terminator.
/// Fails exactly when the text itself encodes a zero byte, which no C string
/// can carry.
pub fn encode_cstr(s: &String) -> (r: Option<Vec<u8>>)
    ensures
        r matches Some(v) ==> text_encodable(s@) && v@ == cstr_of(s@),
        r is None ==> !text_encodable(s@),
{
    let mut bytes = s.as_str().as_bytes_vec();
    let mut i: usize = 0;
    while i < bytes.len()
        invariant
            bytes@ == encode_utf8(s@),
            0 <= i <= bytes@.len(),
            forall|j: int| 0 <= j < i ==> bytes@[j] != 0u8,
        decreases bytes@.len() - i,
    {
        if bytes[i] == 0u8 {
            proof {
                assert(encode_utf8(s@).contains(0u8)) by {
                    assert(encode_utf8(s@)[i as int] == 0u8);
                }
            }
            return None;
        }
        i += 1;
    }
    proof {
        if encode_utf8(s@).contains(0u8) {
            let w = choose|k: int| 0 <= k < encode_utf8(s@).len() && encode_utf8(s@)[k] == 0u8;
            assert(bytes@[w] != 0u8);
        }
    }
    bytes.push(0u8);
    Some(bytes)
}

} // verus!
