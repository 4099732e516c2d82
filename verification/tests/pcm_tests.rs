use whisper_cli::NormalizeError;
use whisper_cli::check_samples_finite;
use whisper_cli::decode_pcm_s16le;

#[test]
fn decode_empty_stream() {
    let samples = decode_pcm_s16le(&[]);
    assert!(samples.is_empty());
}

#[test]
fn decode_little_endian_pairs() {
    // 0x0001 = 1, 0x8000 = -32768, 0xFFFF = -1, 0x7FFF = 32767
    let bytes = [0x01, 0x00, 0x00, 0x80, 0xFF, 0xFF, 0xFF, 0x7F];
    let samples = decode_pcm_s16le(&bytes);
    assert_eq!(samples, vec![1, -32768, -1, 32767]);
}

#[test]
fn decode_discards_trailing_odd_byte() {
    let bytes = [0x02, 0x00, 0xAB];
    let samples = decode_pcm_s16le(&bytes);
    assert_eq!(samples, vec![2]);
}

#[test]
fn finite_samples_pass_validation() {
    let samples: Vec<f32> = vec![0.0, 1.0, -1.0, 0.5, -0.25, f32::MIN, f32::MAX];
    let bits: Vec<u32> = samples.iter().map(|s| s.to_bits()).collect();
    assert_eq!(check_samples_finite(&bits), Ok(()));
}

#[test]
fn empty_buffer_passes_validation() {
    assert_eq!(check_samples_finite(&Vec::new()), Ok(()));
}

#[test]
fn nan_sample_is_invalid_audio() {
    let samples: Vec<f32> = vec![0.0, f32::NAN, 0.5];
    let bits: Vec<u32> = samples.iter().map(|s| s.to_bits()).collect();
    assert_eq!(check_samples_finite(&bits), Err(NormalizeError::InvalidAudio));
}

#[test]
fn infinite_sample_is_invalid_audio() {
    let samples: Vec<f32> = vec![f32::INFINITY];
    let bits: Vec<u32> = samples.iter().map(|s| s.to_bits()).collect();
    assert_eq!(check_samples_finite(&bits), Err(NormalizeError::InvalidAudio));
    let samples: Vec<f32> = vec![f32::NEG_INFINITY];
    let bits: Vec<u32> = samples.iter().map(|s| s.to_bits()).collect();
    assert_eq!(check_samples_finite(&bits), Err(NormalizeError::InvalidAudio));
}

#[test]
fn decoded_integer_samples_convert_to_finite_floats() {
    // Every sample derived from 16-bit PCM by linear scaling is finite, so
    // validation never reports InvalidAudio on such a buffer.
    let bytes = [0x01, 0x00, 0x00, 0x80, 0xFF, 0x7F, 0x34, 0x12];
    let samples = decode_pcm_s16le(&bytes);
    let floats: Vec<f32> = samples.iter().map(|&s| f32::from(s) / 32768.0).collect();
    let bits: Vec<u32> = floats.iter().map(|s| s.to_bits()).collect();
    assert_eq!(check_samples_finite(&bits), Ok(()));
}
