use vstd::prelude::*;

use crate::error::ReverbError;
use crate::ring::{min_sz, ring_capacity, ring_words, WordRing};
use crate::sample::{is_silence, silence_seq, silence_vec, SILENCE};

verus! {

/// The delayed samples handed out for a request of `n`: the `n` oldest
/// samples of the line, padded with silence if the line runs dry.
pub open spec fn delayed_words(held: Seq<u32>, n: nat) -> Seq<u32> {
    held.take(min_sz(n, held.len()) as int) + silence_seq((n - min_sz(n, held.len())) as nat)
}

/// The delay line after the `n` oldest samples were consumed.
pub open spec fn line_after_take(held: Seq<u32>, n: nat) -> Seq<u32> {
    held.skip(min_sz(n, held.len()) as int)
}

/// The delay line after a mixed chunk was fed back: appended at the
/// newest end, up to the line's capacity.
pub open spec fn line_after_store(held: Seq<u32>, mixed: Seq<u32>, cap: nat) -> Seq<u32> {
    held + mixed.take(min_sz(mixed.len(), (cap - held.len()) as nat) as int)
}

/// A single-tap feedback delay line for an allpass-style echo.
///
/// The engine owns the amplitude coefficient — kept as the 32-bit word
/// of its IEEE-754 single encoding — and a delay buffer of twice the
/// delay length, pre-filled with one delay's worth of silence. Each
/// block, [`Self::take_delayed`] consumes the chunk that went in one
/// delay earlier; the caller mixes it, attenuated by the amplitude, into
/// the fresh input and feeds the mix back through
/// [`Self::store_feedback`], so the echo keeps echoing.
pub struct ReverbModule {
    /// IEEE-754 single encoding of the feedback amplitude; values below
    /// one in magnitude keep the feedback loop from diverging.
    pub amplitude_bits: u32,
    /// The delay tap length in samples.
    pub delay_samples: usize,
    /// The feedback signal history, oldest first.
    pub line: WordRing,
}

impl ReverbModule {
    /// A well-formed engine: a positive delay whose line was created
    /// with room for two delays' worth of samples.
    pub open spec fn wf(self) -> bool {
        &&& 1 <= self.delay_samples
        &&& ring_capacity(self.line) == 2 * self.delay_samples as nat
        &&& ring_words(self.line).len() <= ring_capacity(self.line)
    }

    /// Builds a delay line of `delay_samples` samples, pre-filled with
    /// one delay's worth of silence so that the first echo arrives
    /// exactly one delay after the first sound.
    pub fn new(delay_samples: usize, amplitude_bits: u32) -> (r: Result<Self, ReverbError>)
        ensures
            (r is Ok <==> 1 <= delay_samples && 2 * delay_samples <= usize::MAX),
            r is Ok ==> {
                let m = r->Ok_0;
                &&& m.wf()
                &&& m.amplitude_bits == amplitude_bits
                &&& m.delay_samples == delay_samples
                &&& ring_words(m.line) == silence_seq(delay_samples as nat)
            },
            r is Err ==> r->Err_0 == ReverbError::BufferInit,
    {
        if delay_samples < 1 || delay_samples > usize::MAX / 2 {
            return Err(ReverbError::BufferInit);
        }
        let mut line = WordRing::new(2 * delay_samples);
        let mut i: usize = 0;
        while i < delay_samples
            invariant
                i <= delay_samples,
                ring_capacity(line) == 2 * delay_samples as nat,
                ring_words(line) == silence_seq(i as nat),
            decreases delay_samples - i,
        {
            match line.try_push(SILENCE) {
                Ok(_) => {}
                Err(_) => {
                    return Err(ReverbError::BufferInit);
                },
            }
            proof {
                assert(ring_words(line) =~= silence_seq((i + 1) as nat));
            }
            i = i + 1;
        }
        Ok(ReverbModule { amplitude_bits, delay_samples, line })
    }

    /// Consumes the `n` oldest samples of the delay line — the chunk
    /// that went in one delay earlier — padding with silence if the
    /// line holds fewer. The result is always exactly `n` samples long.
    pub fn take_delayed(&mut self, n: usize) -> (delayed: Vec<u32>)
        requires
            old(self).wf(),
        ensures
            final(self).wf(),
            final(self).amplitude_bits == old(self).amplitude_bits,
            final(self).delay_samples == old(self).delay_samples,
            delayed@.len() == n,
            delayed@ == delayed_words(ring_words(old(self).line), n as nat),
            ring_words(final(self).line) == line_after_take(ring_words(old(self).line), n as nat),
    {
        let mut delayed = silence_vec(n);
        let count = self.line.pop_slice(&mut delayed);
        proof {
            assert(delayed@ =~= delayed_words(ring_words(old(self).line), n as nat));
        }
        delayed
    }

    /// Feeds a mixed chunk back into the delay line, to come out again
    /// as the delayed signal one delay from now. Returns how many
    /// samples the line accepted.
    pub fn store_feedback(&mut self, mixed: &Vec<u32>) -> (count: usize)
        requires
            old(self).wf(),
        ensures
            final(self).wf(),
            final(self).amplitude_bits == old(self).amplitude_bits,
            final(self).delay_samples == old(self).delay_samples,
            count as nat == min_sz(
                mixed@.len(),
                (ring_capacity(old(self).line) - ring_words(old(self).line).len()) as nat,
            ),
            ring_words(final(self).line) == line_after_store(
                ring_words(old(self).line),
                mixed@,
                ring_capacity(old(self).line),
            ),
    {
        self.line.push_slice(mixed)
    }
}

/// Law: silence in, silence out, over one block. A silent line hands
/// out only silent delayed samples and stays silent when consumed, and
/// feeding a silent mix back keeps it silent.
pub proof fn lemma_silence_in_silence_out(held: Seq<u32>, mixed: Seq<u32>, n: nat, cap: nat)
    requires
        is_silence(held),
        is_silence(mixed),
        held.len() <= cap,
    ensures
        is_silence(delayed_words(held, n)),
        is_silence(line_after_take(held, n)),
        is_silence(line_after_store(line_after_take(held, n), mixed, cap)),
{
}

/// The delay line after a whole run of blocks, each consuming one
/// chunk's worth of delayed samples and feeding one mixed chunk back.
pub open spec fn line_after_blocks(
    held: Seq<u32>,
    blocks: Seq<(nat, Seq<u32>)>,
    cap: nat,
) -> Seq<u32>
    decreases blocks.len(),
{
    if blocks.len() == 0 {
        held
    } else {
        let first = blocks[0];
        line_after_blocks(
            line_after_store(line_after_take(held, first.0), first.1, cap),
            blocks.skip(1),
            cap,
        )
    }
}

/// Law: silence in, silence out, indefinitely. Starting from a silent
/// delay line, a run of blocks of any length whose mixed chunks are all
/// silent — as they are when every input chunk is silent, since the
/// delayed chunks handed out are then silent too — leaves the line
/// silent, block after block.
pub proof fn lemma_silent_blocks_stay_silent(
    held: Seq<u32>,
    blocks: Seq<(nat, Seq<u32>)>,
    cap: nat,
)
    requires
        is_silence(held),
        held.len() <= cap,
        forall|i: int| 0 <= i < blocks.len() ==> is_silence((#[trigger] blocks[i]).1),
    ensures
        is_silence(line_after_blocks(held, blocks, cap)),
        line_after_blocks(held, blocks, cap).len() <= cap,
    decreases blocks.len(),
{
    if blocks.len() > 0 {
        let first = blocks[0];
        lemma_silence_in_silence_out(held, first.1, first.0, cap);
        let next = line_after_store(line_after_take(held, first.0), first.1, cap);
        assert(forall|i: int|
            0 <= i < blocks.skip(1).len() ==> is_silence((#[trigger] blocks.skip(1)[i]).1));
        lemma_silent_blocks_stay_silent(next, blocks.skip(1), cap);
    }
}

} // verus!
