use libairspy_rs::commands::SampleType;
use libairspy_rs::conversion::{
    convert_block, convert_samples_int16, transfer_words, unpack_samples, unpacked_sample_count,
    ConvertedBlock, SAMPLE_SHIFT,
};

/// The firmware's packing of eight 12-bit samples into three
/// little-endian words.
fn pack_group(s: [u16; 8]) -> Vec<u8> {
    let s: Vec<u32> = s.iter().map(|&v| u32::from(v & 0x0FFF)).collect();
    let words = [
        (s[0] << 20) | (s[1] << 8) | (s[2] >> 4),
        ((s[2] & 0xF) << 28) | (s[3] << 16) | (s[4] << 4) | (s[5] >> 8),
        ((s[5] & 0xFF) << 24) | (s[6] << 12) | s[7],
    ];
    words.iter().flat_map(|w| w.to_le_bytes()).collect()
}

#[test]
fn unpacks_hardcoded_fixture_derived_from_c() {
    let input: [u8; 12] = [
        0x78, 0x56, 0x34, 0x12, 0xF0, 0xDE, 0xBC, 0x9A, 0xDF, 0x9B, 0x57, 0x13,
    ];
    let mut output = [0u16; 8];
    assert_eq!(unpack_samples(&input, &mut output), 8);
    assert_eq!(output, [0x123, 0x456, 0x789, 0xABC, 0xDEF, 0x013, 0x579, 0xBDF]);
}

#[test]
fn unpacks_one_group_matching_c_bit_layout() {
    let samples = [0x123, 0x456, 0x789, 0xABC, 0xDEF, 0x135, 0x790, 0x246];
    let input = pack_group(samples);
    let mut output = [0u16; 8];
    assert_eq!(unpack_samples(&input, &mut output), 8);
    assert_eq!(output, samples);
}

#[test]
fn unpacks_multiple_groups_in_order() {
    let a = [1, 2, 3, 4, 5, 6, 7, 8];
    let b = [0xFFF, 0, 0xAAA, 0x555, 0x0F0, 0xF0F, 0x800, 0x7FF];
    let mut input = Vec::new();
    input.extend_from_slice(&pack_group(a));
    input.extend_from_slice(&pack_group(b));
    let mut output = [0u16; 16];
    assert_eq!(unpack_samples(&input, &mut output), 16);
    assert_eq!(&output[..8], &a);
    assert_eq!(&output[8..], &b);
}

#[test]
fn decodes_partial_tail_without_overrun() {
    let mut input = pack_group([9, 8, 7, 6, 5, 4, 3, 2]);
    input.extend_from_slice(&[0x78, 0x56, 0x34, 0x12]);
    let mut output = [0u16; 16];
    assert_eq!(unpack_samples(&input, &mut output), 10);
    assert_eq!(&output[..8], &[9, 8, 7, 6, 5, 4, 3, 2]);
    assert_eq!(&output[8..10], &[0x123, 0x456]);

    let mut input8 = pack_group([9, 8, 7, 6, 5, 4, 3, 2]);
    input8.extend_from_slice(&[0x78, 0x56, 0x34, 0x12, 0xF0, 0xDE, 0xBC, 0x9A]);
    let mut output = [0u16; 16];
    assert_eq!(unpack_samples(&input8, &mut output), 13);
    assert_eq!(&output[8..13], &[0x123, 0x456, 0x789, 0xABC, 0xDEF]);

    let mut short_out = [0u16; 11];
    assert_eq!(unpack_samples(&input8, &mut short_out), 11);
    assert_eq!(&short_out[8..], &[0x123, 0x456, 0x789]);
}

#[test]
fn full_stream_buffer_matches_c_sample_count() {
    let input = vec![0u8; 262_144];
    let mut output = vec![0u16; 175_000];
    assert_eq!(unpack_samples(&input, &mut output), 174_762);
    assert_eq!(unpacked_sample_count(262_144), 174_762);
}

#[test]
fn empty_input_or_output_writes_nothing() {
    let mut output = [0u16; 8];
    assert_eq!(unpack_samples(&[], &mut output), 0);
    assert_eq!(unpack_samples(&[1u8; 12], &mut []), 0);
}

#[test]
fn all_ones_and_all_zeros_survive() {
    let ones = [0xFFF_u16; 8];
    let input = pack_group(ones);
    assert_eq!(input, vec![0xFF; 12]);
    let mut output = [0u16; 8];
    unpack_samples(&input, &mut output);
    assert_eq!(output, ones);

    let mut output = [0xBEEF_u16; 8];
    unpack_samples(&[0u8; 12], &mut output);
    assert_eq!(output, [0u16; 8]);
}

#[test]
fn scale_and_shift_match_c() {
    assert_eq!(SAMPLE_SHIFT, 4);
    // SAMPLE_SCALE is 1.0f / (1 << (15 - SAMPLE_SHIFT)).
    let scale = 1.0f32 / (1u32 << (15 - SAMPLE_SHIFT)) as f32;
    assert!((scale - 1.0 / 2048.0).abs() < f32::EPSILON);
}

#[test]
fn int16_conversion_matches_c_arithmetic() {
    let src = [0u16, 2048, 4095, 2049];
    let mut dest = [0i16; 4];
    convert_samples_int16(&src, &mut dest);
    assert_eq!(dest, [-32768, 0, 32752, 16]);
}

fn le_bytes(words: &[u16]) -> Vec<u8> {
    words.iter().flat_map(|w| w.to_le_bytes()).collect()
}

#[test]
fn dispatch_raw_passes_bytes_through() {
    let bytes = [1u8, 2, 3, 4];
    let (block, count) = convert_block(SampleType::Raw, false, &bytes);
    assert!(matches!(block, ConvertedBlock::Raw));
    assert_eq!(count, 2);
}

#[test]
fn dispatch_uint16_real_yields_u16_words() {
    let bytes = le_bytes(&[100, 4095, 0, 2048]);
    let (block, count) = convert_block(SampleType::Uint16Real, false, &bytes);
    assert_eq!(count, 4);
    assert!(matches!(block, ConvertedBlock::Uint16(w) if w == [100, 4095, 0, 2048]));
}

#[test]
fn dispatch_int16_real_converts() {
    let bytes = le_bytes(&[0, 2048, 4095, 2049]);
    let (block, count) = convert_block(SampleType::Int16Real, false, &bytes);
    assert_eq!(count, 4);
    assert!(matches!(block, ConvertedBlock::Int16(w) if w == [-32768, 0, 32752, 16]));
}

#[test]
fn dispatch_float32_real_hands_over_words() {
    let bytes = le_bytes(&[2048, 0]);
    let (block, count) = convert_block(SampleType::Float32Real, false, &bytes);
    assert_eq!(count, 2);
    assert!(matches!(block, ConvertedBlock::Float32Words(w) if w == [2048, 0]));
}

#[test]
fn dispatch_unpacks_before_converting_when_packing_enabled() {
    let packed = pack_group([2048u16; 8]);
    let (block, count) = convert_block(SampleType::Int16Real, true, &packed);
    assert_eq!(count, 8);
    assert!(matches!(block, ConvertedBlock::Int16(w) if w == [0i16; 8]));
    let (block, _) = convert_block(SampleType::Raw, true, &packed);
    assert!(matches!(block, ConvertedBlock::Raw));
    // The IQ types are delivered raw by this dispatch.
    let (block, count) = convert_block(SampleType::Int16Iq, true, &packed);
    assert!(matches!(block, ConvertedBlock::Raw));
    assert_eq!(count, 6);
}

#[test]
fn transfer_words_read_little_endian_or_unpack() {
    assert_eq!(transfer_words(&[0x34, 0x12, 0xFF], false), [0x1234]);
    let packed = pack_group([1, 2, 3, 4, 5, 6, 7, 8]);
    assert_eq!(transfer_words(&packed, true), [1, 2, 3, 4, 5, 6, 7, 8]);
}
