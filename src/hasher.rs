//! Digests of byte buffers, ordered string lists and sampled file content.
use vstd::prelude::*;
use vstd::utf8::{encode_utf8, encode_utf8_decode_utf8};

use crate::decimal::{decimal_string, decimal_text};
use crate::joined::{comma_joined, comma_joined_bytes};

verus! {

/// The XXH3-64 hash (default secret, seed zero) of a byte sequence.
pub uninterp spec fn xxh3_64_of(b: Seq<u8>) -> u64;

/// The digest of a byte sequence: its XXH3-64 hash in base 10.
pub open spec fn digest_text(b: Seq<u8>) -> Seq<char> {
    decimal_text(xxh3_64_of(b) as nat)
}

/// The digest of an ordered list of strings: the digest of the UTF-8 bytes
/// of the list joined with `,`.
pub open spec fn array_digest_text(items: Seq<Seq<char>>) -> Seq<char> {
    digest_text(encode_utf8(comma_joined(items)))
}

/// Relies on `xxhash_rust::xxh3::xxh3_64`: a 64-bit hash that depends on the
/// input bytes alone.
#[verifier::external_body]
fn xxh3_64(input: &[u8]) -> (r: u64)
    ensures
        r == xxh3_64_of(input@),
{
    xxhash_rust::xxh3::xxh3_64(input)
}

/// The digest of `content`.
pub fn hash(content: &[u8]) -> (r: String)
    ensures
        r@ == digest_text(content@),
{
    let h = xxh3_64(content);
    decimal_string(h)
}

/// The digest of the strings of `input` joined with `,`.
pub fn hash_array(input: Vec<String>) -> (r: String)
    ensures
        r@ == array_digest_text(input.deep_view()),
{
    let joined = comma_joined_bytes(&input);
    hash(joined.as_slice())
}

/// The digest of a file, given the bytes that one fill of a buffered reader
/// yielded from its start, or `None` where the file could not be opened or
/// read: then no digest is given either.
pub fn hash_file(sample: Option<&[u8]>) -> (r: Option<String>)
    ensures
        r is Some <==> sample is Some,
        sample is Some ==> r->0@ == digest_text(sample->0@),
{
    match sample {
        Some(content) => Some(hash(content)),
        None => None,
    }
}

/// Hashing is deterministic: equal byte sequences have equal digests.
pub proof fn lemma_digest_deterministic(first: Seq<u8>, second: Seq<u8>)
    requires
        first =~= second,
    ensures
        digest_text(first) == digest_text(second),
{
}

/// Hashing a list of strings is byte-hashing the text of the list joined
/// with `,`: the list `["foo", "bar"]` and the string `"foo,bar"` hash alike.
pub proof fn lemma_array_digest_is_joined_digest(items: Seq<Seq<char>>, text: Seq<char>)
    requires
        text == comma_joined(items),
    ensures
        array_digest_text(items) == digest_text(encode_utf8(text)),
{
}

/// The empty list and the empty byte sequence have the same digest.
pub proof fn lemma_empty_list_digest()
    ensures
        array_digest_text(Seq::empty()) == digest_text(Seq::empty()),
{
    assert(comma_joined(Seq::<Seq<char>>::empty()) =~= Seq::<char>::empty());
    assert(encode_utf8(Seq::<char>::empty()) =~= Seq::<u8>::empty());
}

/// Swapping two distinct strings that hold no comma changes the bytes that
/// are hashed: `a,b` and `b,a` differ as UTF-8 byte sequences.
pub proof fn lemma_swapped_pair_bytes_differ(a: Seq<char>, b: Seq<char>)
    requires
        a != b,
        !a.contains(','),
        !b.contains(','),
    ensures
        encode_utf8(comma_joined(seq![a, b])) != encode_utf8(comma_joined(seq![b, a])),
{
    let ab = comma_joined(seq![a, b]);
    let ba = comma_joined(seq![b, a]);
    assert(seq![a, b].drop_last() =~= seq![a]);
    assert(seq![b, a].drop_last() =~= seq![b]);
    assert(comma_joined(seq![a]) == a);
    assert(comma_joined(seq![b]) == b);
    assert(ab == a + seq![','] + b);
    assert(ba == b + seq![','] + a);
    if ab == ba {
        if a.len() < b.len() {
            assert(ab[a.len() as int] == ',');
            assert(ba[a.len() as int] == b[a.len() as int]);
            assert(b.contains(b[a.len() as int]));
        } else if b.len() < a.len() {
            assert(ba[b.len() as int] == ',');
            assert(ab[b.len() as int] == a[b.len() as int]);
            assert(a.contains(a[b.len() as int]));
        } else {
            assert(a =~= b) by {
                assert forall|k: int| 0 <= k < a.len() implies a[k] == b[k] by {
                    assert(ab[k] == a[k]);
                    assert(ba[k] == b[k]);
                }
            }
        }
    }
    encode_utf8_decode_utf8(ab);
    encode_utf8_decode_utf8(ba);
}

} // verus!
