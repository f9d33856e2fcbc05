//! Joining an ordered list of strings with a single comma, as UTF-8 bytes.
use vstd::prelude::*;
use vstd::utf8::{encode_utf8, is_ascii_chars_encode_utf8};

verus! {

/// The elements of `items` in order, with one `,` between each adjacent
/// pair; no separator before the first or after the last.
pub open spec fn comma_joined(items: Seq<Seq<char>>) -> Seq<char>
    decreases items.len(),
{
    if items.len() == 0 {
        Seq::empty()
    } else if items.len() == 1 {
        items[0]
    } else {
        comma_joined(items.drop_last()) + seq![','] + items.last()
    }
}

/// UTF-8 encoding distributes over concatenation.
pub proof fn lemma_encode_utf8_concat(a: Seq<char>, b: Seq<char>)
    ensures
        encode_utf8(a + b) == encode_utf8(a) + encode_utf8(b),
    decreases a.len(),
{
    if a.len() == 0 {
        assert(a + b =~= b);
        assert(encode_utf8(a) + encode_utf8(b) =~= encode_utf8(b));
    } else {
        assert((a + b).drop_first() =~= a.drop_first() + b);
        lemma_encode_utf8_concat(a.drop_first(), b);
        assert(encode_utf8(a + b) =~= encode_utf8(a) + encode_utf8(b));
    }
}

/// The comma is the single byte 44 in UTF-8.
pub proof fn lemma_encode_comma()
    ensures
        encode_utf8(seq![',']) == seq![44u8],
{
    is_ascii_chars_encode_utf8(seq![',']);
    assert(encode_utf8(seq![',']) =~= seq![44u8]);
}

/// The UTF-8 bytes of the strings of `input` joined with `,`.
pub fn comma_joined_bytes(input: &Vec<String>) -> (r: Vec<u8>)
    ensures
        r@ == encode_utf8(comma_joined(input.deep_view())),
{
    let mut out: Vec<u8> = Vec::new();
    let mut i: usize = 0;
    while i < input.len()
        invariant
            i <= input.len(),
            out@ == encode_utf8(comma_joined(input.deep_view().take(i as int))),
        decreases input.len() - i,
    {
        let ghost before = out@;
        if i > 0 {
            out.push(44u8);
        }
        let part: &[u8] = input[i].as_str().as_bytes();
        let ghost mid = out@;
        let mut j: usize = 0;
        while j < part.len()
            invariant
                j <= part@.len(),
                out@ == mid + part@.take(j as int),
            decreases part@.len() - j,
        {
            out.push(part[j]);
            j += 1;
            assert(out@ =~= mid + part@.take(j as int));
        }
        proof {
            let items = input.deep_view();
            let prev = items.take(i as int);
            let next = items.take(i + 1);
            assert(part@.take(j as int) =~= part@);
            assert(items[i as int] == input@[i as int]@);
            assert(next.drop_last() =~= prev);
            if i == 0 {
                assert(comma_joined(next) == items[0]);
                assert(mid =~= Seq::<u8>::empty());
            } else {
                lemma_encode_comma();
                lemma_encode_utf8_concat(comma_joined(prev), seq![',']);
                lemma_encode_utf8_concat(comma_joined(prev) + seq![','], items[i as int]);
                assert(mid =~= before + seq![44u8]);
            }
        }
        i += 1;
    }
    assert(input.deep_view().take(input.len() as int) =~= input.deep_view());
    out
}

} // verus!
