//! Reading a WAVE container into one channel of signed samples.

use vstd::prelude::*;

use crate::format::{format_check, AudioFormat, SampleEncoding, SampleWidth, WavError};

verus! {

/// The format that hound reads from the header of `bytes`, when it accepts
/// the header.
pub uninterp spec fn wav_header_of(bytes: Seq<u8>) -> Option<AudioFormat>;

/// The samples, channels interleaved, that hound decodes from the data chunk
/// of `bytes` as `i32`, when it decodes them all.
pub uninterp spec fn wav_samples_of(bytes: Seq<u8>) -> Option<Seq<i32>>;

/// `v` lies in the signed range of a sample stored in `bits` bits.
pub open spec fn fits_stored_bits(v: int, bits: int) -> bool {
    if bits == 8 {
        -128 <= v < 128
    } else if bits == 16 {
        -32768 <= v < 32768
    } else if bits == 24 {
        -8388608 <= v < 8388608
    } else {
        bits == 32
    }
}

/// Relies on hound's `WavReader::new` and `WavReader::spec`: the RIFF header
/// and the chunks up to the data chunk are parsed, and the format chunk is
/// handed back. The outcome depends on the bytes alone.
#[verifier::external_body]
fn read_header(bytes: &[u8]) -> (r: Result<AudioFormat, String>)
    ensures
        r is Ok <==> wav_header_of(bytes@) is Some,
        r is Ok ==> r->Ok_0 == wav_header_of(bytes@)->Some_0,
{
    let spec = hound::WavReader::new(bytes).map_err(|e| e.to_string())?.spec();
    let encoding = match spec.sample_format {
        hound::SampleFormat::Int => SampleEncoding::Integer,
        hound::SampleFormat::Float => SampleEncoding::Float,
    };
    Ok(AudioFormat {
        sample_rate: spec.sample_rate,
        channel_count: spec.channels,
        bits_per_sample: spec.bits_per_sample,
        encoding,
    })
}

/// Relies on hound's `WavReader::into_samples::<i32>`, collected: every
/// sample of the data chunk in file order, channels interleaved. `new`
/// accepts only a data chunk of whole frames of at least one channel; an
/// `i32` sample reads only from integer data of 8, 16, 24 or 32 bits,
/// sign-extended.
#[verifier::external_body]
fn read_samples(bytes: &[u8]) -> (r: Result<Vec<i32>, String>)
    ensures
        r is Ok <==> wav_samples_of(bytes@) is Some,
        r is Ok ==> r->Ok_0@ == wav_samples_of(bytes@)->Some_0,
        r is Ok ==> wav_header_of(bytes@) is Some,
        r is Ok ==> ({
            let f = wav_header_of(bytes@)->Some_0;
            &&& f.channel_count > 0
            &&& r->Ok_0@.len() % (f.channel_count as nat) == 0
            &&& forall|i: int|
                0 <= i < r->Ok_0@.len() ==> fits_stored_bits(
                    #[trigger] r->Ok_0@[i] as int,
                    f.bits_per_sample as int,
                )
        }),
{
    let reader = hound::WavReader::new(bytes).map_err(|e| e.to_string())?;
    reader.into_samples::<i32>().collect::<Result<Vec<i32>, _>>().map_err(|e| e.to_string())
}

/// The mean of two samples, truncated toward zero.
pub open spec fn mean_toward_zero(a: int, b: int) -> int {
    let s = a + b;
    if s >= 0 {
        s / 2
    } else {
        -((-s) / 2)
    }
}

/// Stereo frames `(l, r)` merged into one channel of `mean_toward_zero(l, r)`.
pub open spec fn downmixed(s: Seq<i32>) -> Seq<i32> {
    Seq::new(s.len() / 2, |i: int| mean_toward_zero(s[2 * i] as int, s[2 * i + 1] as int) as i32)
}

/// One channel made of `channels` interleaved channels: mono passes through,
/// stereo is averaged frame by frame. `None` for other layouts, and for stereo
/// data that ends in half a frame.
pub open spec fn mono_of(channels: int, raw: Seq<i32>) -> Option<Seq<i32>> {
    if channels == 1 {
        Some(raw)
    } else if channels == 2 && raw.len() % 2 == 0 {
        Some(downmixed(raw))
    } else {
        None
    }
}

/// The stream once decoded: its format, the type of its samples, and one
/// channel of samples.
#[derive(Clone, Debug)]
pub struct DecodedAudio {
    pub format: AudioFormat,
    pub width: SampleWidth,
    pub samples: Vec<i32>,
}

impl DecodedAudio {
    /// The sample type is the one the format validates to, and every sample
    /// holds in it.
    pub open spec fn wf(&self) -> bool {
        &&& format_check(self.format) == Ok::<SampleWidth, WavError>(self.width)
        &&& samples_hold(self.width, self.samples@)
    }
}

/// Merges stereo frames into mono: each output sample is the mean of the
/// frame's left and right samples, computed in 64 bits and truncated toward
/// zero.
pub fn downmix_stereo(interleaved: &Vec<i32>) -> (r: Vec<i32>)
    requires
        interleaved@.len() % 2 == 0,
    ensures
        r@ == downmixed(interleaved@),
{
    let n = interleaved.len();
    let frames = n / 2;
    let mut out: Vec<i32> = Vec::with_capacity(frames);
    let mut i: usize = 0;
    while i < frames
        invariant
            n == interleaved@.len(),
            2 * frames == n,
            i <= frames,
            out@ =~= downmixed(interleaved@).take(i as int),
        decreases frames - i,
    {
        let left = interleaved[2 * i] as i64;
        let right = interleaved[2 * i + 1] as i64;
        let sum = left + right;
        let mean: i64 = if sum >= 0 {
            ((sum as u64) / 2) as i64
        } else {
            -((((-sum) as u64) / 2) as i64)
        };
        out.push(mean as i32);
        i = i + 1;
    }
    out
}

/// Reduces interleaved samples to one channel, as [`mono_of`] says.
pub fn to_mono(channels: u16, interleaved: Vec<i32>) -> (r: Result<Vec<i32>, WavError>)
    ensures
        mono_of(channels as int, interleaved@) matches Some(m) ==> r matches Ok(v) && v@ == m,
        channels != 1 && channels != 2 ==> r == Err::<Vec<i32>, WavError>(
            WavError::UnsupportedChannelLayout { channels },
        ),
        channels == 2 && interleaved@.len() % 2 != 0 ==> r matches Err(
            WavError::MalformedContainer { .. },
        ),
{
    if channels == 1 {
        Ok(interleaved)
    } else if channels == 2 {
        if interleaved.len() % 2 != 0 {
            Err(WavError::MalformedContainer { detail: String::from_str("incomplete stereo frame") })
        } else {
            Ok(downmix_stereo(&interleaved))
        }
    } else {
        Err(WavError::UnsupportedChannelLayout { channels })
    }
}

/// Averaging two samples of a type leaves a sample of that type.
proof fn lemma_mean_holds(w: SampleWidth, a: int, b: int)
    requires
        w.holds(a),
        w.holds(b),
    ensures
        w.holds(mean_toward_zero(a, b)),
{
}

/// Every sample of a stream that decoding accepted holds in its sample type.
pub open spec fn samples_hold(w: SampleWidth, s: Seq<i32>) -> bool {
    forall|i: int| 0 <= i < s.len() ==> w.holds(#[trigger] s[i] as int)
}

proof fn lemma_mono_holds(w: SampleWidth, channels: int, raw: Seq<i32>)
    requires
        samples_hold(w, raw),
        mono_of(channels, raw) is Some,
    ensures
        samples_hold(w, mono_of(channels, raw)->Some_0),
{
    if channels == 2 {
        let m = downmixed(raw);
        assert forall|i: int| 0 <= i < m.len() implies w.holds(#[trigger] m[i] as int) by {
            assert(0 <= 2 * i && 2 * i + 1 < raw.len());
            let a = raw[2 * i] as int;
            let b = raw[2 * i + 1] as int;
            assert(w.holds(a) && w.holds(b));
            lemma_mean_holds(w, a, b);
        }
    }
}

/// Reads a WAVE container: the header first, then, once its format is
/// accepted, the samples, reduced to one channel. No sample is read from a
/// stream whose format is refused.
pub fn decode_wav(bytes: &[u8]) -> (r: Result<DecodedAudio, WavError>)
    ensures
        match wav_header_of(bytes@) {
            None => r matches Err(WavError::MalformedContainer { .. }),
            Some(f) => match format_check(f) {
                Err(e) => r == Err::<DecodedAudio, WavError>(e),
                Ok(w) => match wav_samples_of(bytes@) {
                    None => r matches Err(WavError::MalformedContainer { .. }),
                    Some(raw) => r matches Ok(d) && d.format == f && d.width == w && mono_of(
                        f.channel_count as int,
                        raw,
                    ) == Some(d.samples@),
                },
            },
        },
        r matches Ok(d) ==> d.wf(),
{
    let format = match read_header(bytes) {
        Ok(f) => f,
        Err(detail) => {
            return Err(WavError::MalformedContainer { detail });
        },
    };
    let width = match format.validate() {
        Ok(w) => w,
        Err(e) => {
            return Err(e);
        },
    };
    let raw = match read_samples(bytes) {
        Ok(raw) => raw,
        Err(detail) => {
            return Err(WavError::MalformedContainer { detail });
        },
    };
    let ghost raw_view = raw@;
    proof {
        assert(samples_hold(width, raw_view)) by {
            assert forall|i: int| 0 <= i < raw_view.len() implies width.holds(
                #[trigger] raw_view[i] as int,
            ) by {
                assert(fits_stored_bits(raw_view[i] as int, format.bits_per_sample as int));
            }
        }
        lemma_mono_holds(width, format.channel_count as int, raw_view);
    }
    match to_mono(format.channel_count, raw) {
        Ok(samples) => Ok(DecodedAudio { format, width, samples }),
        Err(e) => Err(e),
    }
}

} // verus!
