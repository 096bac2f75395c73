//! The cryptographic digest behind block and transaction hashes, and the
//! byte-to-character encoding used for hash strings.
use vstd::prelude::*;
use blake2::Digest;

verus! {

/// The 512-bit BLAKE2b digest of a byte sequence, as `blake2::Blake2b512`
/// computes it. Left uninterpreted: the contracts of this crate only depend
/// on the digest being a function of the input bytes.
pub uninterp spec fn blake2b_of(message: Seq<u8>) -> Seq<u8>;

/// Relies on blake2's `Blake2b512` (via digest's `Digest::digest`): returns
/// the 64-byte BLAKE2b-512 digest, a function of the input bytes alone.
#[verifier::external_body]
pub(crate) fn blake2b_digest(message: &[u8]) -> (r: Vec<u8>)
    ensures
        r@ == blake2b_of(message@),
        r@.len() == 64,
{
    blake2::Blake2b512::digest(message).as_slice().to_vec()
}

/// Each byte mapped to the character with the same numeric value. This is the
/// (non-hexadecimal) encoding of raw digest bytes into hash strings.
pub open spec fn chars_of_bytes(bytes: Seq<u8>) -> Seq<char> {
    bytes.map_values(|b: u8| b as char)
}

/// Relies on `String::push`: appends exactly the given character at the end.
#[verifier::external_body]
fn push_char(s: &mut String, c: char)
    ensures
        final(s)@ == old(s)@.push(c),
{
    s.push(c);
}

/// Encodes raw digest bytes as a string, one character per byte, each
/// character carrying the byte's numeric value.
pub fn byte_vector_to_string(arr: &[u8]) -> (r: String)
    ensures
        r@ == chars_of_bytes(arr@),
{
    let mut r = String::new();
    let mut i: usize = 0;
    while i < arr.len()
        invariant
            i <= arr@.len(),
            r@ == chars_of_bytes(arr@.take(i as int)),
        decreases arr@.len() - i,
    {
        let b: u8 = arr[i];
        push_char(&mut r, b as char);
        proof {
            assert(chars_of_bytes(arr@.take(i + 1)) =~= chars_of_bytes(
                arr@.take(i as int),
            ).push(arr@[i as int] as char));
        }
        i += 1;
    }
    proof {
        assert(arr@.take(arr@.len() as int) =~= arr@);
    }
    r
}

} // verus!
