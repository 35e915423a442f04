use vstd::prelude::*;

verus! {

/// Failure conditions of the reverb engines.
///
/// Samples travel through this crate as the 32-bit words of their
/// IEEE-754 single-precision encoding, so every variant here concerns
/// either the decoding of raw sample words or the sizing of the
/// fixed-capacity buffers that the engines own.
#[derive(Clone, Copy, Debug, PartialEq, Eq, Structural)]
pub enum ReverbError {
    /// The embedded impulse-response resource is malformed: its byte
    /// length is not a multiple of the four bytes that encode one sample.
    ResourceDecode,
    /// A spectral transform setup does not fit together: the transform
    /// length, the chunk size and the packed spectrum length must agree
    /// before any block can be convolved.
    TransformFailed,
    /// A delay line could not be allocated or pre-filled with silence.
    BufferInit,
}

} // verus!
