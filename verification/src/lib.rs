//! Block-based mono audio reverb effects whose buffer bookkeeping is
//! verified.
//!
//! Samples are carried as the 32-bit words of their IEEE-754
//! single-precision encoding, so the sequencing of every sample through
//! the engines' ring buffers — which samples enter a transform window,
//! which delayed samples are consumed and replaced, and which slice of a
//! block-convolution result is valid output — is stated and proved here.
//! The spectral and interpolation arithmetic itself is carried out by the
//! caller on the values these words encode.

pub mod convolution;
pub mod delay;
pub mod error;
pub mod ring;
pub mod sample;
pub mod store;

pub use convolution::ConvolutionReverb;
pub use delay::ReverbModule;
pub use error::ReverbError;
