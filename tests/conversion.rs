use std::io::Cursor;

use wav2c::decode::{decode_wav, downmix_stereo, to_mono};
use wav2c::format::{AudioFormat, SampleEncoding, SampleWidth, WavError};
use wav2c::identifier::{sanitize_identifier, size_symbol, to_upper};
use wav2c::numerals::{append_decimal, append_hex};
use wav2c::pipeline::convert;
use wav2c::render::{
    append_samples, array_declarator, check_bounds, render, render_array, render_comment,
    size_define, NumericBase, Provenance, SerializationOptions,
};

fn int_spec(channels: u16, bits: u16) -> hound::WavSpec {
    hound::WavSpec {
        channels,
        sample_rate: 44100,
        bits_per_sample: bits,
        sample_format: hound::SampleFormat::Int,
    }
}

fn wav_i8(channels: u16, samples: &[i8]) -> Vec<u8> {
    let mut bytes = Vec::new();
    {
        let mut w = hound::WavWriter::new(Cursor::new(&mut bytes), int_spec(channels, 8)).unwrap();
        for s in samples {
            w.write_sample(*s).unwrap();
        }
        w.finalize().unwrap();
    }
    bytes
}

fn wav_i16(channels: u16, samples: &[i16]) -> Vec<u8> {
    let mut bytes = Vec::new();
    {
        let mut w = hound::WavWriter::new(Cursor::new(&mut bytes), int_spec(channels, 16)).unwrap();
        for s in samples {
            w.write_sample(*s).unwrap();
        }
        w.finalize().unwrap();
    }
    bytes
}

fn wav_i32(bits: u16, samples: &[i32]) -> Vec<u8> {
    let mut bytes = Vec::new();
    {
        let mut w = hound::WavWriter::new(Cursor::new(&mut bytes), int_spec(1, bits)).unwrap();
        for s in samples {
            w.write_sample(*s).unwrap();
        }
        w.finalize().unwrap();
    }
    bytes
}

fn wav_float(samples: &[f32]) -> Vec<u8> {
    let spec = hound::WavSpec {
        channels: 1,
        sample_rate: 44100,
        bits_per_sample: 32,
        sample_format: hound::SampleFormat::Float,
    };
    let mut bytes = Vec::new();
    {
        let mut w = hound::WavWriter::new(Cursor::new(&mut bytes), spec).unwrap();
        for s in samples {
            w.write_sample(*s).unwrap();
        }
        w.finalize().unwrap();
    }
    bytes
}

fn options(name: &str, base: NumericBase, max: Option<usize>) -> SerializationOptions {
    SerializationOptions {
        max_samples: max,
        emit_comment: false,
        numeric_base: base,
        prefix_text: None,
        array_name: name.to_string(),
        emit_header: false,
    }
}

fn provenance() -> Provenance {
    Provenance {
        tool_name: "wav2c".to_string(),
        tool_version: "1.2.3".to_string(),
        source_name: "tone.wav".to_string(),
        repository: "https://example.org/wav2c".to_string(),
    }
}

fn mono(bits: u16) -> AudioFormat {
    AudioFormat {
        sample_rate: 8000,
        channel_count: 1,
        bits_per_sample: bits,
        encoding: SampleEncoding::Integer,
    }
}

#[test]
fn mono_8bit_decimal_body() {
    let bytes = wav_i8(1, &[10, -5]);
    let text = convert(&bytes, &options("name", NumericBase::Decimal, None), &provenance()).unwrap();
    assert_eq!(
        text,
        "#define NAME_SAMPLE_NO 2\n\nconst int8_t name[] = {\n\t 10, -5,\n};"
    );
}

#[test]
fn stereo_16bit_pair_downmixes_to_mean() {
    let bytes = wav_i16(2, &[100, 200]);
    let audio = decode_wav(&bytes).unwrap();
    assert_eq!(audio.samples, vec![150]);
    assert_eq!(audio.width, SampleWidth::Int16);
    assert_eq!(audio.format.channel_count, 2);
}

#[test]
fn hex_minus_one_at_16_bits() {
    let text = render_array("a", &vec![-1], SampleWidth::Int16, NumericBase::Hex);
    assert_eq!(text, "#define A_SAMPLE_NO 1\n\nconst int16_t a[] = {\n\t 0xffff,\n};");
}

#[test]
fn hex_literals_at_each_width() {
    let mut out = String::new();
    append_hex(&mut out, -5, SampleWidth::Int8);
    append_hex(&mut out, 10, SampleWidth::Int8);
    append_hex(&mut out, -1, SampleWidth::Int32);
    append_hex(&mut out, 0, SampleWidth::Int16);
    append_hex(&mut out, 255, SampleWidth::Int16);
    assert_eq!(out, "0xfb0xa0xffffffff0x00xff");
}

#[test]
fn decimal_literals() {
    let mut out = String::new();
    append_decimal(&mut out, 0);
    out.push(' ');
    append_decimal(&mut out, -2147483648);
    out.push(' ');
    append_decimal(&mut out, i64::MIN);
    out.push(' ');
    append_decimal(&mut out, 1234567890);
    assert_eq!(out, "0 -2147483648 -9223372036854775808 1234567890");
}

#[test]
fn float_input_is_rejected() {
    let bytes = wav_float(&[0.5, -0.25]);
    let r = convert(&bytes, &options("x", NumericBase::Decimal, None), &provenance());
    assert!(matches!(r, Err(WavError::UnsupportedEncoding)));
    assert!(matches!(decode_wav(&bytes), Err(WavError::UnsupportedEncoding)));
}

#[test]
fn sample_bound_is_enforced() {
    let bytes = wav_i8(1, &[1, 2, 3]);
    let r = convert(&bytes, &options("x", NumericBase::Decimal, Some(2)), &provenance());
    assert!(matches!(r, Err(WavError::SampleCountExceeded { actual: 3, max: 2 })));
    assert!(convert(&bytes, &options("x", NumericBase::Decimal, Some(3)), &provenance()).is_ok());
    assert!(convert(&bytes, &options("x", NumericBase::Decimal, None), &provenance()).is_ok());
    assert!(check_bounds(0, Some(0)).is_ok());
    assert!(matches!(
        check_bounds(11, Some(10)),
        Err(WavError::SampleCountExceeded { actual: 11, max: 10 })
    ));
}

#[test]
fn rows_hold_eight_literals() {
    let samples: Vec<i32> = (1..=17).collect();
    let mut out = String::new();
    append_samples(&mut out, &samples, SampleWidth::Int8, NumericBase::Decimal);
    assert_eq!(
        out,
        "\n\t 1, 2, 3, 4, 5, 6, 7, 8,\n\t 9, 10, 11, 12, 13, 14, 15, 16,\n\t 17,"
    );
    let eight: Vec<i32> = vec![0; 8];
    let mut full = String::new();
    append_samples(&mut full, &eight, SampleWidth::Int8, NumericBase::Decimal);
    assert_eq!(full, "\n\t 0, 0, 0, 0, 0, 0, 0, 0,");
    let mut empty = String::new();
    append_samples(&mut empty, &vec![], SampleWidth::Int8, NumericBase::Decimal);
    assert_eq!(empty, "");
}

#[test]
fn round_trip_count_matches_size_constant() {
    let frames: Vec<i16> = (0..21).map(|i| (i * 1000 - 10000) as i16).collect();
    let bytes = wav_i16(1, &frames);
    let text = convert(&bytes, &options("tone", NumericBase::Decimal, None), &provenance()).unwrap();
    assert!(text.starts_with("#define TONE_SAMPLE_NO 21\n"));
    assert_eq!(text.matches(',').count(), 21);
}

#[test]
fn bit_depth_buckets() {
    assert_eq!(SampleWidth::for_bits(0), None);
    assert_eq!(SampleWidth::for_bits(1), Some(SampleWidth::Int8));
    assert_eq!(SampleWidth::for_bits(8), Some(SampleWidth::Int8));
    assert_eq!(SampleWidth::for_bits(9), Some(SampleWidth::Int16));
    assert_eq!(SampleWidth::for_bits(16), Some(SampleWidth::Int16));
    assert_eq!(SampleWidth::for_bits(17), Some(SampleWidth::Int32));
    assert_eq!(SampleWidth::for_bits(32), Some(SampleWidth::Int32));
    assert_eq!(SampleWidth::for_bits(33), None);
    assert_eq!(SampleWidth::Int8.c_type_name(), "int8_t");
    assert_eq!(SampleWidth::Int16.c_type_name(), "int16_t");
    assert_eq!(SampleWidth::Int32.c_type_name(), "int32_t");
    assert_eq!(SampleWidth::Int16.bit_count(), 16);
}

#[test]
fn wide_samples_use_int32() {
    let bytes = wav_i32(24, &[-8388608, 8388607, 5]);
    let audio = decode_wav(&bytes).unwrap();
    assert_eq!(audio.width, SampleWidth::Int32);
    assert_eq!(audio.samples, vec![-8388608, 8388607, 5]);
    assert_eq!(audio.format.bits_per_sample, 24);
    let bytes32 = wav_i32(32, &[i32::MIN, i32::MAX]);
    let text = convert(&bytes32, &options("w", NumericBase::Hex, None), &provenance()).unwrap();
    assert!(text.contains("const int32_t w[] = {\n\t 0x80000000, 0x7fffffff,\n};"));
}

#[test]
fn header_fields_are_read() {
    let bytes = wav_i8(1, &[0]);
    let audio = decode_wav(&bytes).unwrap();
    let expected = AudioFormat { sample_rate: 44100, ..mono(8) };
    assert_eq!(audio.format, expected);
    assert_eq!(audio.width, SampleWidth::Int8);
}

#[test]
fn downmix_truncates_toward_zero() {
    assert_eq!(downmix_stereo(&vec![-3, 0, 3, 0, -1, -2, i32::MIN, i32::MIN]), vec![
        -1,
        1,
        -1,
        i32::MIN
    ]);
    assert_eq!(downmix_stereo(&vec![]), Vec::<i32>::new());
}

#[test]
fn channel_reduction() {
    assert_eq!(to_mono(1, vec![4, 5, 6]).unwrap(), vec![4, 5, 6]);
    assert_eq!(to_mono(2, vec![4, 6, 7, 8]).unwrap(), vec![5, 7]);
    assert!(matches!(to_mono(2, vec![1, 2, 3]), Err(WavError::MalformedContainer { .. })));
    assert!(matches!(
        to_mono(3, vec![1, 2, 3]),
        Err(WavError::UnsupportedChannelLayout { channels: 3 })
    ));
}

#[test]
fn format_validation() {
    assert_eq!(mono(16).validate().unwrap(), SampleWidth::Int16);
    assert!(matches!(mono(0).validate(), Err(WavError::UnsupportedBitDepth { bits: 0 })));
    assert!(matches!(mono(40).validate(), Err(WavError::UnsupportedBitDepth { bits: 40 })));
    let float = AudioFormat { encoding: SampleEncoding::Float, bits_per_sample: 40, ..mono(8) };
    assert!(matches!(float.validate(), Err(WavError::UnsupportedEncoding)));
    let surround = AudioFormat { channel_count: 6, ..mono(8) };
    assert!(matches!(
        surround.validate(),
        Err(WavError::UnsupportedChannelLayout { channels: 6 })
    ));
}

#[test]
fn three_channel_file_is_refused() {
    let mut bytes = Vec::new();
    {
        let mut w = hound::WavWriter::new(Cursor::new(&mut bytes), int_spec(3, 16)).unwrap();
        for s in [1i16, 2, 3] {
            w.write_sample(s).unwrap();
        }
        w.finalize().unwrap();
    }
    let r = convert(&bytes, &options("x", NumericBase::Decimal, None), &provenance());
    assert!(matches!(r, Err(WavError::UnsupportedChannelLayout { channels: 3 })));
}

#[test]
fn garbage_is_malformed() {
    let r = convert(b"fn main() {}\n", &options("x", NumericBase::Decimal, None), &provenance());
    assert!(matches!(r, Err(WavError::MalformedContainer { .. })));
    let mut truncated = wav_i16(1, &[1, 2, 3, 4]);
    truncated.truncate(truncated.len() - 3);
    assert!(matches!(decode_wav(&truncated), Err(WavError::MalformedContainer { .. })));
    assert!(matches!(decode_wav(&[]), Err(WavError::MalformedContainer { .. })));
}

#[test]
fn identifiers_are_sanitized() {
    assert_eq!(sanitize_identifier("  my 2nd-song \t"), "my_ndsong");
    assert_eq!(sanitize_identifier("Tone_A4"), "Tone_A");
    assert_eq!(sanitize_identifier("\u{3000}a b\u{2028}"), "a_b");
    assert_eq!(sanitize_identifier("caf\u{e9} bar"), "caf_bar");
    assert_eq!(sanitize_identifier("   "), "");
    assert_eq!(to_upper("ab_Cz"), "AB_CZ");
    assert_eq!(size_symbol("beep_x"), "BEEP_X_SAMPLE_NO");
}

#[test]
fn pieces_of_the_declaration() {
    assert_eq!(size_define("beep", 4096), "#define BEEP_SAMPLE_NO 4096\n");
    assert_eq!(array_declarator(SampleWidth::Int32, "beep"), "const int32_t beep[]");
}

#[test]
fn comment_and_prefix() {
    let bytes = wav_i8(1, &[7]);
    let mut opts = options(" my tone ", NumericBase::Decimal, Some(10));
    opts.emit_comment = true;
    opts.prefix_text = Some("/* john was here */".to_string());
    let text = convert(&bytes, &opts, &provenance()).unwrap();
    assert_eq!(
        text,
        "/*\n/* Generated by wav2c v1.2.3 from tone.wav\n\
         /* Sample rate: 44100 Hz, Channels: 1, Bits per sample: 8\n/*\n\
         /* https://example.org/wav2c\n*/\n\n\
         /* john was here */\n\n\
         #define MY_TONE_SAMPLE_NO 1\n\nconst int8_t my_tone[] = {\n\t 7,\n};"
    );
    let audio = decode_wav(&bytes).unwrap();
    assert_eq!(
        render_comment(&provenance(), &audio.format),
        "/*\n/* Generated by wav2c v1.2.3 from tone.wav\n\
         /* Sample rate: 44100 Hz, Channels: 1, Bits per sample: 8\n/*\n\
         /* https://example.org/wav2c\n*/\n\n"
    );
    assert_eq!(
        audio.format.summary(),
        "Sample rate: 44100 Hz, Channels: 1, Bits per sample: 8"
    );
    let rendered = render(&audio, &opts, &provenance()).unwrap();
    assert_eq!(rendered, text);
}
