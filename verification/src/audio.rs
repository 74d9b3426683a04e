//! Audio stream parameters and errors.
//!
//! Capture, Opus coding and playback work on `f32` samples and run outside
//! the library; this module holds what they share.
use vstd::prelude::*;

use crate::text::{decimal, spec_decimal};
use crate::error::join_message;

verus! {

/// Default sample rate for audio streaming.
pub const SAMPLE_RATE: u32 = 48000;

/// Default number of channels (stereo).
pub const CHANNELS: u16 = 2;

/// Frame duration in milliseconds (standard Opus frame size).
pub const FRAME_MS: u32 = 10;

/// Number of samples per channel per frame (`SAMPLE_RATE * FRAME_MS / 1000`).
pub const SAMPLES_PER_FRAME: usize = 480;

/// Maximum encoded Opus frame size in bytes.
pub const MAX_FRAME_BYTES: usize = 4096;

/// Errors of the audio subsystem.
#[derive(Debug, Clone, PartialEq, Eq)]
pub enum AudioError {
    Capture(String),
    Playback(String),
    Codec(String),
    Buffer(String),
}

/// How an audio error is displayed: its kind, then its message.
pub open spec fn spec_audio_error_text(e: AudioError) -> Seq<char> {
    match e {
        AudioError::Capture(m) => "Capture error: "@ + m@,
        AudioError::Playback(m) => "Playback error: "@ + m@,
        AudioError::Codec(m) => "Codec error: "@ + m@,
        AudioError::Buffer(m) => "Buffer error: "@ + m@,
    }
}

impl AudioError {
    /// The error as it is displayed to the user.
    pub fn to_string(&self) -> (res: String)
        ensures
            res@ == spec_audio_error_text(*self),
    {
        match self {
            AudioError::Capture(m) => join_message("Capture error: ", m.as_str()),
            AudioError::Playback(m) => join_message("Playback error: ", m.as_str()),
            AudioError::Codec(m) => join_message("Codec error: ", m.as_str()),
            AudioError::Buffer(m) => join_message("Buffer error: ", m.as_str()),
        }
    }
}

/// The number of interleaved samples in one frame.
pub open spec fn spec_frame_samples() -> nat {
    SAMPLES_PER_FRAME as nat * CHANNELS as nat
}

/// Checks that a PCM buffer holds exactly one frame of interleaved stereo
/// samples, as the encoder needs.
pub fn check_frame_len(len: usize) -> (res: Result<(), AudioError>)
    ensures
        len == spec_frame_samples() ==> res is Ok,
        len != spec_frame_samples() ==> (res matches Err(AudioError::Codec(m)) && m@ == "Expected "@
            + spec_decimal(spec_frame_samples()) + " samples, got "@ + spec_decimal(len as nat)),
{
    let expected: usize = SAMPLES_PER_FRAME * (CHANNELS as usize);
    if len != expected {
        proof {
            reveal_strlit("Expected ");
            reveal_strlit(" samples, got ");
        }
        let m = join_message("Expected ", decimal(expected as u128).as_str());
        let m = m.concat(" samples, got ");
        let m = m.concat(decimal(len as u128).as_str());
        return Err(AudioError::Codec(m));
    }
    Ok(())
}

} // verus!
