//! Core pipeline of a speech-transcription command-line tool.
//!
//! The heavy lifting (audio decoding, speech recognition) is delegated to
//! external collaborators; this crate holds the verified logic between them:
//! turning raw PCM bytes into validated sample data, assembling the engine's
//! segment and token output into an ordered transcript, and rendering that
//! transcript as plain text, WebVTT and SubRip.

pub mod pcm;
pub mod render;
pub mod text;
pub mod transcript;

pub use pcm::NormalizeError;
pub use pcm::decode_pcm_s16le;
pub use pcm::check_samples_finite;
pub use transcript::MAX_TIMESTAMP;
pub use transcript::RawSegment;
pub use transcript::RawToken;
pub use transcript::TranscribeError;
pub use transcript::Transcript;
pub use transcript::Utterance;
pub use transcript::assemble;
