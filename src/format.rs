//! What the container header says of the stream, and which of it this crate
//! accepts.

use vstd::prelude::*;

use crate::numerals::{append_decimal, decimal_text};

verus! {

/// How each sample is encoded.
#[derive(Clone, Copy, Debug, PartialEq, Eq, Structural)]
pub enum SampleEncoding {
    Integer,
    Float,
}

/// The format chunk of a WAVE container.
#[derive(Clone, Copy, Debug, PartialEq, Eq, Structural)]
pub struct AudioFormat {
    /// Frames per second.
    pub sample_rate: u32,
    /// Samples per frame.
    pub channel_count: u16,
    /// Significant bits of each sample.
    pub bits_per_sample: u16,
    pub encoding: SampleEncoding,
}

/// The native signed integer type that holds one sample.
#[derive(Clone, Copy, Debug, PartialEq, Eq, Structural)]
pub enum SampleWidth {
    Int8,
    Int16,
    Int32,
}

/// Why a conversion did not take place.
#[derive(Clone, Debug)]
pub enum WavError {
    /// The container is not a well-formed WAVE file; `detail` says why.
    MalformedContainer { detail: String },
    /// The samples are not integers.
    UnsupportedEncoding,
    /// The bit depth is 0 or above 32.
    UnsupportedBitDepth { bits: u16 },
    /// The stream is neither mono nor stereo.
    UnsupportedChannelLayout { channels: u16 },
    /// More frames than the configured bound.
    SampleCountExceeded { actual: usize, max: usize },
    /// The output destination is already taken.
    DestinationConflict,
}

/// The bucket of a bit depth: up to 8 bits, up to 16, up to 32.
pub open spec fn width_for_bits(bits: int) -> Option<SampleWidth> {
    if 1 <= bits <= 8 {
        Some(SampleWidth::Int8)
    } else if 9 <= bits <= 16 {
        Some(SampleWidth::Int16)
    } else if 17 <= bits <= 32 {
        Some(SampleWidth::Int32)
    } else {
        None
    }
}

impl SampleWidth {
    /// The width in bits.
    pub open spec fn bits(self) -> nat {
        match self {
            SampleWidth::Int8 => 8,
            SampleWidth::Int16 => 16,
            SampleWidth::Int32 => 32,
        }
    }

    /// The smallest value of the type.
    pub open spec fn min_value(self) -> int {
        match self {
            SampleWidth::Int8 => -128,
            SampleWidth::Int16 => -32768,
            SampleWidth::Int32 => -2147483648,
        }
    }

    /// The largest value of the type.
    pub open spec fn max_value(self) -> int {
        match self {
            SampleWidth::Int8 => 127,
            SampleWidth::Int16 => 32767,
            SampleWidth::Int32 => 2147483647,
        }
    }

    /// Whether `v` lies in the type's signed range.
    pub open spec fn holds(self, v: int) -> bool {
        self.min_value() <= v <= self.max_value()
    }

    /// The C name of the type.
    pub open spec fn c_name(self) -> Seq<char> {
        match self {
            SampleWidth::Int8 => "int8_t"@,
            SampleWidth::Int16 => "int16_t"@,
            SampleWidth::Int32 => "int32_t"@,
        }
    }

    /// The type that holds samples of `bits` bits, if any does.
    pub fn for_bits(bits: u16) -> (r: Option<SampleWidth>)
        ensures
            r == width_for_bits(bits as int),
    {
        if bits >= 1 && bits <= 8 {
            Some(SampleWidth::Int8)
        } else if bits >= 9 && bits <= 16 {
            Some(SampleWidth::Int16)
        } else if bits >= 17 && bits <= 32 {
            Some(SampleWidth::Int32)
        } else {
            None
        }
    }

    /// The C name of the type, such as `int16_t`.
    pub fn c_type_name(&self) -> (r: &'static str)
        ensures
            r@ == self.c_name(),
    {
        match self {
            SampleWidth::Int8 => "int8_t",
            SampleWidth::Int16 => "int16_t",
            SampleWidth::Int32 => "int32_t",
        }
    }

    /// The width in bits.
    pub fn bit_count(&self) -> (r: u32)
        ensures
            r == self.bits(),
    {
        match self {
            SampleWidth::Int8 => 8,
            SampleWidth::Int16 => 16,
            SampleWidth::Int32 => 32,
        }
    }
}

/// What validation makes of a format: the sample type, or the first rule it
/// breaks, checked in the order encoding, bit depth, channel layout.
pub open spec fn format_check(f: AudioFormat) -> Result<SampleWidth, WavError> {
    if f.encoding == SampleEncoding::Float {
        Err(WavError::UnsupportedEncoding)
    } else if width_for_bits(f.bits_per_sample as int) is None {
        Err(WavError::UnsupportedBitDepth { bits: f.bits_per_sample })
    } else if f.channel_count != 1 && f.channel_count != 2 {
        Err(WavError::UnsupportedChannelLayout { channels: f.channel_count })
    } else {
        Ok(width_for_bits(f.bits_per_sample as int)->Some_0)
    }
}

/// The one-line description of a format used in the generated comment.
pub open spec fn summary_text(f: AudioFormat) -> Seq<char> {
    "Sample rate: "@ + decimal_text(f.sample_rate as int) + " Hz, Channels: "@ + decimal_text(
        f.channel_count as int,
    ) + ", Bits per sample: "@ + decimal_text(f.bits_per_sample as int)
}

impl AudioFormat {
    /// Checks that the stream is integer PCM of 1 to 32 bits in one or two
    /// channels, and picks the sample type.
    pub fn validate(&self) -> (r: Result<SampleWidth, WavError>)
        ensures
            r == format_check(*self),
    {
        if self.encoding == SampleEncoding::Float {
            return Err(WavError::UnsupportedEncoding);
        }
        let width = match SampleWidth::for_bits(self.bits_per_sample) {
            Some(w) => w,
            None => {
                return Err(WavError::UnsupportedBitDepth { bits: self.bits_per_sample });
            },
        };
        if self.channel_count != 1 && self.channel_count != 2 {
            return Err(WavError::UnsupportedChannelLayout { channels: self.channel_count });
        }
        Ok(width)
    }

    /// `Sample rate: <rate> Hz, Channels: <n>, Bits per sample: <bits>`.
    pub fn summary(&self) -> (r: String)
        ensures
            r@ == summary_text(*self),
    {
        let mut out = String::new();
        out.append("Sample rate: ");
        append_decimal(&mut out, self.sample_rate as i64);
        out.append(" Hz, Channels: ");
        append_decimal(&mut out, self.channel_count as i64);
        out.append(", Bits per sample: ");
        append_decimal(&mut out, self.bits_per_sample as i64);
        assert(out@ =~= summary_text(*self));
        out
    }
}

} // verus!
