//! The whole conversion, from the bytes of a WAVE file to C source text.

use vstd::prelude::*;

use crate::decode::{decode_wav, mono_of, wav_header_of, wav_samples_of};
use crate::format::{format_check, WavError};
use crate::render::{output_text, render, within_bound, Provenance, SerializationOptions};

verus! {

/// Decodes `bytes` and renders the C source for them. The first failure ends
/// the conversion, and nothing is rendered then.
pub fn convert(bytes: &[u8], options: &SerializationOptions, provenance: &Provenance) -> (r: Result<
    String,
    WavError,
>)
    ensures
        match wav_header_of(bytes@) {
            None => r matches Err(WavError::MalformedContainer { .. }),
            Some(f) => match format_check(f) {
                Err(e) => r == Err::<String, WavError>(e),
                Ok(w) => match wav_samples_of(bytes@) {
                    None => r matches Err(WavError::MalformedContainer { .. }),
                    Some(raw) => match mono_of(f.channel_count as int, raw) {
                        None => r matches Err(WavError::MalformedContainer { .. }),
                        Some(m) => if within_bound(m.len() as int, options.max_samples) {
                            r matches Ok(t) && t@ == output_text(f, w, m, *options, *provenance)
                        } else {
                            r == Err::<String, WavError>(
                                WavError::SampleCountExceeded {
                                    actual: m.len() as usize,
                                    max: options.max_samples->Some_0,
                                },
                            )
                        },
                    },
                },
            },
        },
{
    let audio = match decode_wav(bytes) {
        Ok(a) => a,
        Err(e) => {
            return Err(e);
        },
    };
    render(&audio, options, provenance)
}

} // verus!
