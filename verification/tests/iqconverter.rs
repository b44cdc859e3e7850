use libairspy_rs::filters::{HB_KERNEL_INT16, HB_KERNEL_INT16_LEN};
use libairspy_rs::iqconverter_int16::IqConverterInt16;

#[test]
fn kernel_decimation_keeps_nonzero_taps() {
    let cnv = IqConverterInt16::new(&HB_KERNEL_INT16);
    assert_eq!(cnv.fir_kernel().len(), 24);
    assert_eq!(cnv.delay_len(), 12);
    assert_eq!(HB_KERNEL_INT16_LEN, 47);
}

/// The `noise` scenario's input words: a fixed-seed LCG
/// (`s = s * 1664525 + 1013904223`, seed `0x12345678`), top 12 bits.
fn noise_words(n: usize) -> Vec<u16> {
    let mut s: u32 = 0x1234_5678;
    (0..n)
        .map(|_| {
            s = s.wrapping_mul(1_664_525).wrapping_add(1_013_904_223);
            (s >> 20) as u16
        })
        .collect()
}

/// `(word - 2048) << 4`: the int16 converter's input conversion.
fn to_i16(words: &[u16]) -> Vec<i16> {
    words.iter().map(|&w| ((i32::from(w) - 2048) << 4) as i16).collect()
}

#[test]
fn iqconverter_int16_reset_restores_fresh_converter_behavior() {
    let words = noise_words(4096);
    let mut samples_a = to_i16(&words[..2048]);
    let mut samples_b = samples_a.clone();

    let mut cnv = IqConverterInt16::new(&HB_KERNEL_INT16);
    cnv.process(&mut samples_a);

    let mut scratch = to_i16(&words[2048..4096]);
    cnv.process(&mut scratch);
    cnv.reset();
    cnv.process(&mut samples_b);

    assert_eq!(samples_a, samples_b);
}

#[test]
fn reset_restores_fresh_behaviour_after_short_blocks() {
    let input: Vec<i16> = (0..64).map(|i| ((i * 977) % 4096 - 2048) as i16 * 8).collect();
    let mut fresh = IqConverterInt16::new(&HB_KERNEL_INT16);
    let mut a = input.clone();
    fresh.process(&mut a);

    let mut used = IqConverterInt16::new(&HB_KERNEL_INT16);
    let mut scratch: Vec<i16> = (0..40).map(|i| (i * 311 % 2000) as i16).collect();
    used.process(&mut scratch);
    used.reset();
    let mut b = input.clone();
    used.process(&mut b);
    assert_eq!(a, b);
}

#[test]
fn zero_input_stays_zero() {
    let mut cnv = IqConverterInt16::new(&HB_KERNEL_INT16);
    let mut s = vec![0i16; 32];
    cnv.process(&mut s);
    assert!(s.iter().all(|&v| v == 0));
}
