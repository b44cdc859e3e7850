use libairspy_rs::commands::SampleType;
use libairspy_rs::rx::{
    decimal_prefix,
    apply_byte_budget, bytes_to_xfer, extend_i16_bytes, extend_u16_bytes, frame_count, parse_u32,
    resolve_display_rate, wav_filename, wav_header_finalized, wav_header_placeholder, SampleKind,
    WavParams, BIAST_MAX, DEFAULT_FREQ_HZ, DEFAULT_LNA_GAIN, DEFAULT_MIXER_GAIN,
    DEFAULT_VGA_IF_GAIN, FD_BUFFER_SIZE, FREQ_HZ_MAX, FREQ_HZ_MIN, FREQ_ONE_MHZ,
    LINEARITY_GAIN_MAX, LNA_GAIN_MAX, MIN_SAMPLERATE_BY_VALUE, MIXER_GAIN_MAX,
    SAMPLES_TO_XFER_MAX, SENSITIVITY_GAIN_MAX, VGA_GAIN_MAX, WAV_HEADER_LEN, WAV_MAX_DATA_BYTES,
};

#[test]
fn rx_constants_match_c_defines() {
    assert_eq!(FREQ_ONE_MHZ, 1_000_000);
    assert_eq!(DEFAULT_FREQ_HZ, 900_000_000);
    assert_eq!(FREQ_HZ_MIN, 24_000_000);
    assert_eq!(FREQ_HZ_MAX, 1_900_000_000);
    assert_eq!(DEFAULT_VGA_IF_GAIN, 5);
    assert_eq!(DEFAULT_LNA_GAIN, 1);
    assert_eq!(DEFAULT_MIXER_GAIN, 5);
    assert_eq!(VGA_GAIN_MAX, 15);
    assert_eq!(MIXER_GAIN_MAX, 15);
    assert_eq!(LNA_GAIN_MAX, 14);
    assert_eq!(LINEARITY_GAIN_MAX, 21);
    assert_eq!(SENSITIVITY_GAIN_MAX, 21);
    assert_eq!(BIAST_MAX, 1);
    assert_eq!(SAMPLES_TO_XFER_MAX, 0x8000_0000_0000_0000);
    assert_eq!(MIN_SAMPLERATE_BY_VALUE, 1_000_000);
    assert_eq!(FD_BUFFER_SIZE, 16 * 1024);
}

#[test]
fn rx_wav_params_map_sample_types_like_c() {
    let float_iq = WavParams::for_sample_type(SampleType::Float32Iq);
    assert_eq!((float_iq.format_tag, float_iq.channels, float_iq.bits_per_sample), (3, 2, 32));
    let float_real = WavParams::for_sample_type(SampleType::Float32Real);
    assert_eq!(
        (float_real.format_tag, float_real.channels, float_real.bits_per_sample),
        (3, 1, 32)
    );
    let int16_iq = WavParams::for_sample_type(SampleType::Int16Iq);
    assert_eq!((int16_iq.format_tag, int16_iq.channels, int16_iq.bits_per_sample), (1, 2, 16));
    let int16_real = WavParams::for_sample_type(SampleType::Int16Real);
    assert_eq!((int16_real.channels, int16_real.bits_per_sample), (1, 16));
    let uint16_real = WavParams::for_sample_type(SampleType::Uint16Real);
    assert_eq!((uint16_real.channels, uint16_real.bits_per_sample), (1, 16));
    let raw = WavParams::for_sample_type(SampleType::Raw);
    assert_eq!((raw.channels, raw.bits_per_sample), (1, 12));
}

#[test]
fn rx_wav_data_budget_keeps_sizes_representable() {
    assert_eq!(WAV_MAX_DATA_BYTES + WAV_HEADER_LEN as u64, u64::from(u32::MAX));
    let params = WavParams::for_sample_type(SampleType::Int16Iq);
    let bytes = wav_header_finalized(u32::MAX, &params, 2_500_000);
    assert_eq!(bytes[4..8], (u32::MAX - 8).to_le_bytes());
    assert_eq!(bytes[40..44], (u32::MAX - 44).to_le_bytes());
}

#[test]
fn rx_wav_header_placeholder_matches_c_static_initializer() {
    let bytes = wav_header_placeholder();
    assert_eq!(bytes.len(), WAV_HEADER_LEN);
    assert_eq!(&bytes[0..4], b"RIFF");
    assert_eq!(bytes[4..8], [0; 4]);
    assert_eq!(&bytes[8..12], b"WAVE");
    assert_eq!(&bytes[12..16], b"fmt ");
    assert_eq!(bytes[16..20], 16u32.to_le_bytes());
    assert_eq!(bytes[20..36], [0; 16]);
    assert_eq!(&bytes[36..40], b"data");
    assert_eq!(bytes[40..44], [0; 4]);
}

#[test]
fn rx_wav_header_finalized_encodes_c_field_updates() {
    let params = WavParams::for_sample_type(SampleType::Int16Iq);
    let bytes = wav_header_finalized(10_044, &params, 2_500_000);
    assert_eq!(bytes[4..8], 10_036u32.to_le_bytes());
    assert_eq!(bytes[20..22], 1u16.to_le_bytes());
    assert_eq!(bytes[22..24], 2u16.to_le_bytes());
    assert_eq!(bytes[24..28], 2_500_000u32.to_le_bytes());
    assert_eq!(bytes[28..32], 10_000_000u32.to_le_bytes());
    assert_eq!(bytes[32..34], 4u16.to_le_bytes());
    assert_eq!(bytes[34..36], 16u16.to_le_bytes());
    assert_eq!(bytes[40..44], 10_000u32.to_le_bytes());
}

#[test]
fn parse_u32_follows_c_strtoul_truncation() {
    assert_eq!(parse_u32("42"), Ok(42));
    assert_eq!(parse_u32("0x10"), Ok(16));
    assert_eq!(parse_u32("0b101"), Ok(5));
    assert_eq!(parse_u32("0x1FFFFFFFF"), Ok(0xFFFF_FFFF));
    assert_eq!(parse_u32("-1"), Ok(0xFFFF_FFFF));
    assert_eq!(parse_u32("99999999999999999999999"), Ok(0xFFFF_FFFF));
    assert!(parse_u32("12abc").is_err());
    assert!(parse_u32("").is_err());
}

#[test]
fn bytes_to_xfer_matches_c_formula_with_raw_fix() {
    let iq16 = WavParams::for_sample_type(SampleType::Int16Iq);
    assert_eq!(bytes_to_xfer(1000, &iq16, SampleType::Int16Iq, false), 4000);
    let fiq = WavParams::for_sample_type(SampleType::Float32Iq);
    assert_eq!(bytes_to_xfer(1000, &fiq, SampleType::Float32Iq, false), 8000);
    let raw = WavParams::for_sample_type(SampleType::Raw);
    assert_eq!(bytes_to_xfer(1000, &raw, SampleType::Raw, true), 1500);
    assert_eq!(bytes_to_xfer(1000, &raw, SampleType::Raw, false), 2000);
    assert_eq!(bytes_to_xfer(SAMPLES_TO_XFER_MAX, &iq16, SampleType::Int16Iq, false), 0);
}

#[test]
fn resolve_display_rate_treats_small_values_as_indices() {
    let rates = [10_000_000, 2_500_000];
    assert_eq!(resolve_display_rate(0, &rates), Some(10_000_000));
    assert_eq!(resolve_display_rate(1, &rates), Some(2_500_000));
    assert_eq!(resolve_display_rate(2, &rates), None);
    assert_eq!(resolve_display_rate(1_000_000, &rates), None);
    assert_eq!(resolve_display_rate(1_000_001, &rates), Some(1_000_001));
    assert_eq!(resolve_display_rate(6_000_000, &rates), Some(6_000_000));
}

#[test]
fn rx_wav_filename_matches_c_snprintf_format() {
    assert_eq!(
        wav_filename("20261225_101112", 100_000_000),
        "AirSpy_20261225_101112Z_100000kHz_IQ.wav"
    );
    assert_eq!(
        wav_filename("20130101_000000", 900_000_000),
        "AirSpy_20130101_000000Z_900000kHz_IQ.wav"
    );
}

#[test]
fn apply_byte_budget_clamps_and_deducts_like_c() {
    let mut unlimited = None;
    assert_eq!(apply_byte_budget(&mut unlimited, 4096), 4096);
    assert_eq!(unlimited, None);
    let mut remaining = Some(10_000u64);
    assert_eq!(apply_byte_budget(&mut remaining, 4096), 4096);
    assert_eq!(remaining, Some(5904));
    let mut remaining = Some(100u64);
    assert_eq!(apply_byte_budget(&mut remaining, 4096), 100);
    assert_eq!(remaining, Some(0));
    assert_eq!(apply_byte_budget(&mut remaining, 4096), 0);
    assert_eq!(remaining, Some(0));
}

#[test]
fn frame_count_matches_c_sample_count() {
    assert_eq!(frame_count(SampleKind::Float32, 8, SampleType::Float32Iq, false), 4);
    assert_eq!(frame_count(SampleKind::Float32, 8, SampleType::Float32Real, false), 8);
    assert_eq!(frame_count(SampleKind::Int16, 8, SampleType::Int16Iq, false), 4);
    assert_eq!(frame_count(SampleKind::Int16, 8, SampleType::Int16Real, false), 8);
    assert_eq!(frame_count(SampleKind::Uint16, 8, SampleType::Uint16Real, false), 8);
    assert_eq!(frame_count(SampleKind::Raw, 12, SampleType::Raw, true), 8);
    assert_eq!(frame_count(SampleKind::Raw, 12, SampleType::Raw, false), 6);
}

#[test]
fn extend_sample_bytes_serializes_little_endian() {
    let mut out = Vec::new();
    extend_i16_bytes(&mut out, &[1, -2]);
    assert_eq!(out, [1, 0, 0xFE, 0xFF]);
    out.clear();
    extend_u16_bytes(&mut out, &[0x1234]);
    assert_eq!(out, [0x34, 0x12]);
    extend_i16_bytes(&mut out, &[i16::MIN]);
    assert_eq!(out, [0x34, 0x12, 0x00, 0x80]);
}

#[test]
fn decimal_prefix_finds_the_longest_decimal_number() {
    assert_eq!(decimal_prefix(b"100"), (0, 3));
    assert_eq!(decimal_prefix(b"0.1"), (0, 3));
    assert_eq!(decimal_prefix(b"12.5e1"), (0, 6));
    assert_eq!(decimal_prefix(b" 100"), (1, 4));
    assert_eq!(decimal_prefix(b"100abc"), (0, 3));
    assert_eq!(decimal_prefix(b"abc"), (0, 0));
    assert_eq!(decimal_prefix(b""), (0, 0));
    assert_eq!(decimal_prefix(b"-100"), (0, 4));
    assert_eq!(decimal_prefix(b"1e"), (0, 1));
    assert_eq!(decimal_prefix(b"1e+"), (0, 1));
    assert_eq!(decimal_prefix(b"-.5e-2x"), (0, 6));
    assert_eq!(decimal_prefix(b"\t+"), (1, 1));
    assert_eq!(decimal_prefix(b"."), (0, 0));
    assert_eq!(decimal_prefix(b"5."), (0, 2));
}

