use vstd::prelude::*;

verus! {

/// The 32-bit word whose IEEE-754 single-precision reading is positive
/// zero: one sample of silence.
pub const SILENCE: u32 = 0;

/// A sequence of sample words is silent when every word is the silence word.
pub open spec fn is_silence(s: Seq<u32>) -> bool {
    forall|i: int| 0 <= i < s.len() ==> s[i] == SILENCE
}

/// A run of `n` silent sample words.
pub open spec fn silence_seq(n: nat) -> Seq<u32> {
    Seq::new(n, |i: int| SILENCE)
}

/// Builds a chunk of `n` silent samples.
pub fn silence_vec(n: usize) -> (r: Vec<u32>)
    ensures
        r@ == silence_seq(n as nat),
        r@.len() == n,
{
    let mut r: Vec<u32> = Vec::new();
    let mut i: usize = 0;
    while i < n
        invariant
            i <= n,
            r@ == silence_seq(i as nat),
        decreases n - i,
    {
        r.push(SILENCE);
        proof {
            assert(r@ =~= silence_seq((i + 1) as nat));
        }
        i = i + 1;
    }
    r
}

} // verus!
