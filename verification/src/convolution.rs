use vstd::prelude::*;

use crate::error::ReverbError;
use crate::ring::{ring_capacity, ring_words, WordRing};
use crate::sample::{silence_seq, silence_vec};

verus! {

/// Number of complex bins in the packed spectrum of a real transform of
/// the given length.
pub open spec fn spectrum_len(fft_len: nat) -> nat {
    fft_len / 2 + 1
}

/// What the history buffer holds after one chunk has been absorbed: the
/// oldest `chunk.len()` samples age out and the chunk enters at the
/// newest end.
pub open spec fn slide_window(held: Seq<u32>, chunk: Seq<u32>) -> Seq<u32> {
    held.skip(chunk.len() as int) + chunk
}

/// A streaming overlap-save block convolver.
///
/// The engine owns the spectral image of its impulse response — one
/// `(real, imaginary)` pair of sample words per bin, computed once when
/// the engine is built — and a history buffer holding the most recent
/// `fft_len` input samples. Each block, [`Self::absorb_chunk`] slides the
/// newest chunk into the history and hands out the full transform
/// window; the caller convolves that window with
/// [`Self::spectral_ir`] bin by bin (scaled by the reciprocal of
/// [`Self::fft_len`]) through a real transform pair of length
/// [`Self::fft_len`], and [`Self::valid_output`] then keeps exactly the
/// samples of the inverse transform that block convolution leaves free
/// of circular wraparound.
pub struct ConvolutionReverb {
    /// Packed spectrum of the zero-padded impulse response, as word
    /// pairs; its length is `fft_len / 2 + 1`.
    pub spectral_ir: Vec<(u32, u32)>,
    /// The most recent `fft_len` input samples, oldest first.
    pub history: WordRing,
    /// Fixed length of every input and output chunk.
    pub chunk_size: usize,
    /// Transform length: `chunk_size + impulse-response length - 1`,
    /// fixed for the engine's lifetime.
    pub fft_len: usize,
}

/// The transform length for a chunk size and an impulse-response
/// length: one sample short of their sum, so that every sample of a
/// block convolution of the two fits exactly once.
pub fn fft_len_for(chunk_size: usize, ir_len: usize) -> (r: Option<usize>)
    ensures
        (r is Some <==> 1 <= chunk_size && 1 <= ir_len && chunk_size + ir_len - 1 <= usize::MAX),
        r is Some ==> r->Some_0 == chunk_size + ir_len - 1,
{
    if chunk_size < 1 || ir_len < 1 {
        return None;
    }
    if usize::MAX - chunk_size < ir_len - 1 {
        return None;
    }
    Some(chunk_size + (ir_len - 1))
}

/// Zero-pads an impulse response up to the transform length.
pub fn pad_ir(ir: &Vec<u32>, fft_len: usize) -> (r: Vec<u32>)
    requires
        ir@.len() <= fft_len,
    ensures
        r@ == ir@ + silence_seq((fft_len - ir@.len()) as nat),
        r@.len() == fft_len,
{
    let mut r: Vec<u32> = Vec::new();
    let mut i: usize = 0;
    while i < ir.len()
        invariant
            i <= ir@.len(),
            r@ == ir@.take(i as int),
        decreases ir@.len() - i,
    {
        r.push(ir[i]);
        proof {
            assert(r@ =~= ir@.take(i + 1));
        }
        i = i + 1;
    }
    proof {
        assert(ir@.take(ir@.len() as int) =~= ir@);
        assert(r@ =~= ir@ + silence_seq(0));
    }
    while r.len() < fft_len
        invariant
            ir@.len() <= r@.len() <= fft_len,
            r@ == ir@ + silence_seq((r@.len() - ir@.len()) as nat),
        decreases fft_len - r@.len(),
    {
        r.push(crate::sample::SILENCE);
        proof {
            assert(r@ =~= ir@ + silence_seq((r@.len() - ir@.len()) as nat));
        }
    }
    r
}

impl ConvolutionReverb {
    /// A well-formed engine: a positive chunk size no longer than the
    /// transform length, a history buffer that always holds exactly one
    /// transform window, and a spectrum of the packed length.
    pub open spec fn wf(self) -> bool {
        &&& 1 <= self.chunk_size <= self.fft_len
        &&& ring_capacity(self.history) == self.fft_len as nat
        &&& ring_words(self.history).len() == self.fft_len as nat
        &&& self.spectral_ir@.len() == spectrum_len(self.fft_len as nat)
    }

    /// Builds an engine around an already-transformed impulse response.
    /// The history starts as one whole window of silence, so the first
    /// blocks convolve the impulse response against leading silence,
    /// exactly as a stream that has not sounded yet should.
    pub fn new(spectral_ir: Vec<(u32, u32)>, chunk_size: usize, fft_len: usize) -> (r: Result<
        Self,
        ReverbError,
    >)
        ensures
            (r is Ok <==> 1 <= chunk_size <= fft_len && spectral_ir@.len() == spectrum_len(
                fft_len as nat,
            )),
            r is Ok ==> {
                let eng = r->Ok_0;
                &&& eng.wf()
                &&& eng.chunk_size == chunk_size
                &&& eng.fft_len == fft_len
                &&& eng.spectral_ir == spectral_ir
                &&& ring_words(eng.history) == silence_seq(fft_len as nat)
            },
            r is Err ==> r->Err_0 == ReverbError::TransformFailed,
    {
        if chunk_size < 1 || fft_len < chunk_size {
            return Err(ReverbError::TransformFailed);
        }
        if spectral_ir.len() != fft_len / 2 + 1 {
            return Err(ReverbError::TransformFailed);
        }
        let mut history = WordRing::new(fft_len);
        let window = silence_vec(fft_len);
        let _count = history.push_slice(&window);
        proof {
            assert(ring_words(history) =~= silence_seq(fft_len as nat));
        }
        Ok(ConvolutionReverb { spectral_ir, history, chunk_size, fft_len })
    }

    /// Slides one input chunk into the history buffer and returns the
    /// transform window: the most recent `fft_len` samples of the input
    /// stream, oldest first, ending in the chunk just given.
    pub fn absorb_chunk(&mut self, chunk: &Vec<u32>) -> (window: Vec<u32>)
        requires
            old(self).wf(),
            chunk@.len() == old(self).chunk_size,
        ensures
            final(self).wf(),
            final(self).chunk_size == old(self).chunk_size,
            final(self).fft_len == old(self).fft_len,
            final(self).spectral_ir == old(self).spectral_ir,
            ring_words(final(self).history) == slide_window(
                ring_words(old(self).history),
                chunk@,
            ),
            window@ == ring_words(final(self).history),
            window@.len() == final(self).fft_len,
    {
        self.history.push_slice_overwrite(chunk);
        proof {
            assert(ring_words(self.history) =~= slide_window(
                ring_words(old(self).history),
                chunk@,
            ));
        }
        let mut window = silence_vec(self.fft_len);
        let _count = self.history.peek_slice(&mut window);
        proof {
            assert(window@ =~= ring_words(self.history));
        }
        window
    }

    /// Keeps the valid tail of an inverse-transformed block: the first
    /// `fft_len - chunk_size` samples carry the circular-wraparound
    /// artifact of block convolution and are discarded; the trailing
    /// `chunk_size` samples are the linear-convolution output for this
    /// block. The output is always exactly one chunk long.
    pub fn valid_output(&self, inverse: &Vec<u32>) -> (out: Vec<u32>)
        requires
            self.wf(),
            inverse@.len() == self.fft_len,
        ensures
            out@ == inverse@.skip(self.fft_len - self.chunk_size),
            out@.len() == self.chunk_size,
    {
        let start = self.fft_len - self.chunk_size;
        let mut out: Vec<u32> = Vec::new();
        let mut i: usize = start;
        while i < self.fft_len
            invariant
                self.wf(),
                inverse@.len() == self.fft_len,
                start == self.fft_len - self.chunk_size,
                start <= i <= self.fft_len,
                out@ == inverse@.subrange(start as int, i as int),
            decreases self.fft_len - i,
        {
            out.push(inverse[i]);
            proof {
                assert(out@ =~= inverse@.subrange(start as int, i + 1));
            }
            i = i + 1;
        }
        proof {
            assert(inverse@.subrange(start as int, self.fft_len as int) =~= inverse@.skip(
                start as int,
            ));
        }
        out
    }
}

/// Law: the transform window is always the most recent `fft_len`
/// samples of the input stream. If the history buffer holds the last
/// `fft_len` samples of everything streamed so far (with the stream
/// taken to begin with the window of silence the engine is built with),
/// then after one more chunk slides in it holds the last `fft_len`
/// samples of the extended stream.
pub proof fn lemma_window_is_stream_suffix(stream: Seq<u32>, chunk: Seq<u32>, fft_len: nat)
    requires
        chunk.len() <= fft_len <= stream.len(),
    ensures
        slide_window(stream.skip(stream.len() - fft_len), chunk) == (stream + chunk).skip(
            stream.len() + chunk.len() - fft_len,
        ),
{
    assert(slide_window(stream.skip(stream.len() - fft_len), chunk) =~= (stream + chunk).skip(
        stream.len() + chunk.len() - fft_len,
    ));
}

/// The input stream a run of chunks makes, in order.
pub open spec fn concat_chunks(chunks: Seq<Seq<u32>>) -> Seq<u32>
    decreases chunks.len(),
{
    if chunks.len() == 0 {
        Seq::empty()
    } else {
        concat_chunks(chunks.drop_last()) + chunks.last()
    }
}

/// The history buffer after a run of chunks was absorbed, starting from
/// the window of silence the engine is built with.
pub open spec fn history_after(chunks: Seq<Seq<u32>>, fft_len: nat) -> Seq<u32>
    decreases chunks.len(),
{
    if chunks.len() == 0 {
        silence_seq(fft_len)
    } else {
        slide_window(history_after(chunks.drop_last(), fft_len), chunks.last())
    }
}

/// Law: however many chunks have been absorbed, the history buffer
/// holds exactly the most recent `fft_len` samples of the input stream,
/// the stream taken to begin with the window of silence the engine is
/// built with.
pub proof fn lemma_history_is_stream_suffix(chunks: Seq<Seq<u32>>, fft_len: nat)
    requires
        forall|i: int| 0 <= i < chunks.len() ==> (#[trigger] chunks[i]).len() <= fft_len,
    ensures
        history_after(chunks, fft_len).len() == fft_len,
        history_after(chunks, fft_len) == (silence_seq(fft_len) + concat_chunks(chunks)).skip(
            concat_chunks(chunks).len() as int,
        ),
    decreases chunks.len(),
{
    if chunks.len() == 0 {
        assert(history_after(chunks, fft_len) =~= (silence_seq(fft_len) + concat_chunks(
            chunks,
        )).skip(concat_chunks(chunks).len() as int));
    } else {
        let prefix = chunks.drop_last();
        let chunk = chunks.last();
        assert(forall|i: int| 0 <= i < prefix.len() ==> (#[trigger] prefix[i]).len() <= fft_len);
        lemma_history_is_stream_suffix(prefix, fft_len);
        let stream = silence_seq(fft_len) + concat_chunks(prefix);
        lemma_window_is_stream_suffix(stream, chunk, fft_len);
        assert(stream.skip(stream.len() - fft_len) == history_after(prefix, fft_len));
        assert(stream + chunk =~= silence_seq(fft_len) + concat_chunks(chunks));
    }
}

} // verus!
