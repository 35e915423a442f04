use vstd::prelude::*;

use crate::error::ReverbError;

verus! {

/// The sample word that four consecutive resource bytes encode, least
/// significant byte first. An impulse-response resource stores each
/// sample as the four little-endian bytes of its IEEE-754 single
/// encoding, so the assembled word is exactly that encoding.
pub open spec fn le_word(b0: u8, b1: u8, b2: u8, b3: u8) -> u32 {
    (b0 + b1 * 0x100 + b2 * 0x1_0000 + b3 * 0x100_0000) as u32
}

/// The sample words of a well-formed impulse-response resource blob.
pub open spec fn ir_words_of(bytes: Seq<u8>) -> Seq<u32>
    recommends
        bytes.len() % 4 == 0,
{
    Seq::new(
        bytes.len() / 4,
        |i: int| le_word(bytes[4 * i], bytes[4 * i + 1], bytes[4 * i + 2], bytes[4 * i + 3]),
    )
}

/// Decodes the canonical impulse-response resource: a contiguous blob of
/// 4-byte little-endian sample encodings. A blob whose length is not a
/// multiple of four is malformed and yields no impulse response at all.
pub fn decode_ir_bytes(bytes: &[u8]) -> (r: Result<Vec<u32>, ReverbError>)
    ensures
        r is Ok <==> bytes@.len() % 4 == 0,
        r is Ok ==> r->Ok_0@ == ir_words_of(bytes@),
        r is Err ==> r->Err_0 == ReverbError::ResourceDecode,
{
    if bytes.len() % 4 != 0 {
        return Err(ReverbError::ResourceDecode);
    }
    let len = bytes.len();
    let n = len / 4;
    let mut words: Vec<u32> = Vec::new();
    let mut i: usize = 0;
    while i < n
        invariant
            i <= n,
            len == bytes@.len(),
            n == bytes@.len() / 4,
            bytes@.len() % 4 == 0,
            words@ == ir_words_of(bytes@).take(i as int),
        decreases n - i,
    {
        let b0 = bytes[4 * i] as u32;
        let b1 = bytes[4 * i + 1] as u32;
        let b2 = bytes[4 * i + 2] as u32;
        let b3 = bytes[4 * i + 3] as u32;
        let word = b0 + b1 * 0x100 + b2 * 0x1_0000 + b3 * 0x100_0000;
        proof {
            assert(word == ir_words_of(bytes@)[i as int]);
        }
        words.push(word);
        proof {
            assert(words@ =~= ir_words_of(bytes@).take(i as int + 1));
        }
        i = i + 1;
    }
    proof {
        assert(words@ =~= ir_words_of(bytes@));
    }
    Ok(words)
}

} // verus!
