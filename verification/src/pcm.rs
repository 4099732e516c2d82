//! Audio-normalization support: decoding a raw little-endian signed 16-bit
//! PCM byte stream into integer samples, and validating converted samples
//! for finiteness before they are handed to the inference engine.
//!
//! The decoder process itself (and the integer-to-float conversion, which
//! works on floating-point values) lives outside the verified library; the
//! float samples are validated here through their IEEE 754 bit patterns.

use vstd::prelude::*;

verus! {

/// Failure modes of audio normalization.
///
/// The first four arise while obtaining the decoded byte stream; the last
/// means the decoded samples contained a non-finite value.
#[derive(Clone, Copy, Debug, PartialEq, Eq, Structural)]
pub enum NormalizeError {
    /// The input path is not valid text, so the decoder cannot be invoked on it.
    InvalidPath,
    /// The decoder process could not be spawned.
    ProcessError,
    /// The decoder ran but exited unsuccessfully.
    DecodeFailed,
    /// Temporary-file I/O failed.
    IoError,
    /// The decoded samples contain a NaN or infinite value.
    InvalidAudio,
}

/// The signed 16-bit sample encoded little-endian by the byte pair `(lo, hi)`.
pub open spec fn s16_le(lo: u8, hi: u8) -> int {
    let v = lo + 256 * hi;
    if v < 32768 {
        v as int
    } else {
        v - 65536
    }
}

/// Decodes a raw byte stream as consecutive little-endian signed 16-bit
/// samples. A trailing odd byte, if any, is discarded.
pub fn decode_pcm_s16le(bytes: &[u8]) -> (samples: Vec<i16>)
    ensures
        samples@.len() == bytes@.len() / 2,
        forall|i: int|
            0 <= i < samples@.len() ==> samples@[i] == s16_le(
                bytes@[2 * i],
                bytes@[2 * i + 1],
            ),
{
    let len: usize = bytes.len();
    let n: usize = len / 2;
    let mut samples: Vec<i16> = Vec::new();
    let mut k: usize = 0;
    while k < n
        invariant
            len == bytes@.len(),
            n == len / 2,
            k <= n,
            samples@.len() == k,
            forall|i: int|
                0 <= i < k ==> samples@[i] == s16_le(bytes@[2 * i], bytes@[2 * i + 1]),
        decreases n - k,
    {
        let j: usize = 2 * k;
        let lo = bytes[j];
        let hi = bytes[j + 1];
        let v: i32 = lo as i32 + 256 * (hi as i32);
        let s: i32 = if v < 32768 {
            v
        } else {
            v - 65536
        };
        samples.push(s as i16);
        k = k + 1;
    }
    samples
}

/// Whether the `f32` with IEEE 754 bit pattern `b` is finite, i.e. neither
/// NaN nor an infinity: finite exactly when the exponent field is not all
/// ones.
pub open spec fn f32_bits_finite(b: u32) -> bool {
    (b >> 23) & 0xff != 0xff
}

/// Validates a converted sample buffer, given as the IEEE 754 bit patterns
/// of its `f32` samples: succeeds exactly when every sample is finite, and
/// otherwise reports the buffer as corrupt audio.
pub fn check_samples_finite(bits: &Vec<u32>) -> (r: Result<(), NormalizeError>)
    ensures
        r is Ok <==> (forall|i: int| 0 <= i < bits@.len() ==> f32_bits_finite(bits@[i])),
        r is Err ==> r == Result::<(), NormalizeError>::Err(NormalizeError::InvalidAudio),
{
    let mut k: usize = 0;
    while k < bits.len()
        invariant
            k <= bits@.len(),
            forall|i: int| 0 <= i < k ==> f32_bits_finite(bits@[i]),
        decreases bits@.len() - k,
    {
        let b = bits[k];
        if (b >> 23) & 0xff == 0xff {
            return Err(NormalizeError::InvalidAudio);
        }
        k = k + 1;
    }
    Ok(())
}

} // verus!
