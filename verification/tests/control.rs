use libairspy_rs::commands::{Command, GpioPin, GpioPort, ReceiverMode, SampleType};
use libairspy_rs::control::{
    board_id_request, partid_serialno_request, samplerate_count_request, samplerate_list_len,
    samplerate_list_request, samplerates_for_type, samplerates_from_reply, version_string_request,
    FALLBACK_SAMPLERATES, check_at_least, check_empty, composite_gains, freq_payload, gpio_read_request,
    gpio_write_request, gpiodir_read_request, gpiodir_write_request, port_pin,
    r820t_read_request, r820t_write_request, set_freq_request, set_lna_agc_request,
    set_lna_gain_request, set_linearity_gain, set_mixer_agc_request, set_mixer_gain_request,
    set_packing_request, set_receiver_mode_request, set_rf_bias_request, set_samplerate_request,
    set_sensitivity_gain, set_vga_gain_request, si5351c_read_request, si5351c_write_request,
    spiflash_erase_request, spiflash_erase_sector_request, spiflash_read_request,
    spiflash_write_request, GainProfile, VendorRequest,
};
use libairspy_rs::error::Error;

const OUT: u8 = 0x40;
const IN: u8 = 0xC0;

fn assert_in_setter(r: &VendorRequest, request: Command, index: u16) {
    assert_eq!(r.request_type, IN);
    assert_eq!(r.request, request.as_u8());
    assert_eq!((r.value, r.index), (0, index));
    assert_eq!(r.data, vec![0u8]);
}

#[test]
fn freq_payload_is_little_endian() {
    assert_eq!(100_000_000u32.to_le_bytes(), [0x00, 0xE1, 0xF5, 0x05]);
    assert_eq!(freq_payload(100_000_000), [0x00, 0xE1, 0xF5, 0x05]);
}

#[test]
fn set_freq_wire_contract() {
    let r = set_freq_request(100_000_000);
    assert_eq!(r.request_type, OUT);
    assert_eq!(r.request, 13);
    assert_eq!((r.value, r.index), (0, 0));
    assert_eq!(r.data, vec![0x00, 0xE1, 0xF5, 0x05]);
}

#[test]
fn set_freq_short_write_maps_to_length_mismatch() {
    let r = set_freq_request(1);
    assert_eq!(r.data.len(), 4);
    assert!(matches!(
        check_at_least(r.data.len(), 2),
        Err(Error::TransferLengthMismatch { expected: 4, actual: 2 })
    ));
}

#[test]
fn transferred_lengths_are_judged_like_c() {
    assert!(check_at_least(4, 4).is_ok());
    assert!(check_at_least(1, 0).is_err());
    assert!(check_empty(0).is_ok());
    assert!(matches!(
        check_empty(3),
        Err(Error::TransferLengthMismatch { expected: 0, actual: 3 })
    ));
}

#[test]
fn board_id_read_wire_contract_and_value() {
    let r = board_id_request();
    assert_eq!(r.request_type, IN);
    assert_eq!(r.request, Command::BoardIdRead.as_u8());
    assert_eq!((r.value, r.index), (0, 0));
    assert_eq!(r.data.len(), 1);
    assert!(check_at_least(r.data.len(), 1).is_ok());
}

#[test]
fn board_reads_request_c_lengths() {
    let v = version_string_request();
    assert_eq!((v.request_type, v.request, v.value, v.index), (IN, 10, 0, 0));
    assert_eq!(v.data.len(), 127);
    let p = partid_serialno_request();
    assert_eq!((p.request_type, p.request, p.value, p.index), (IN, 11, 0, 0));
    assert_eq!(p.data.len(), 24);
}

#[test]
fn stop_rx_sends_receiver_off_even_without_stream() {
    let r = set_receiver_mode_request(ReceiverMode::Off);
    assert_eq!(r.request_type, OUT);
    assert_eq!(r.request, 1);
    assert_eq!(r.value, 0);
    assert_eq!(r.index, 0);
    assert!(r.data.is_empty());
}

#[test]
fn from_transport_caches_scripted_samplerates() {
    let count = 2u32.to_le_bytes();
    assert_eq!(samplerate_list_len(Some(&count)), Some(2));
    let list = samplerate_list_request(2);
    assert_eq!((list.request_type, list.request, list.value, list.index), (IN, 25, 0, 2));
    assert_eq!(list.data.len(), 8);
    let reply: Vec<u8> = [6_000_000u32, 3_000_000u32]
        .iter()
        .flat_map(|r| r.to_le_bytes())
        .collect();
    let table = samplerates_from_reply(Some(&reply));
    assert_eq!(
        samplerates_for_type(&table, SampleType::Float32Iq),
        vec![6_000_000, 3_000_000]
    );
}

#[test]
fn from_transport_falls_back_when_query_fails() {
    let count = samplerate_count_request();
    assert_eq!(count.request, 25);
    assert_eq!((count.request_type, count.value, count.index), (IN, 0, 0));
    assert_eq!(count.data.len(), 4);
    assert_eq!(samplerate_list_len(None), None);
    assert_eq!(samplerates_from_reply(None), vec![10_000_000, 2_500_000]);
    assert_eq!(FALLBACK_SAMPLERATES, [10_000_000, 2_500_000]);
}

#[test]
fn samplerate_count_replies_outside_the_wire_range_fall_back() {
    assert_eq!(samplerate_list_len(Some(&0u32.to_le_bytes())), None);
    assert_eq!(samplerate_list_len(Some(&65_536u32.to_le_bytes())), None);
    assert_eq!(samplerate_list_len(Some(&65_535u32.to_le_bytes())), Some(65_535));
    assert_eq!(samplerate_list_len(Some(&[2, 0, 0])), None);
}

#[test]
fn real_sample_types_report_doubled_rates() {
    let table = [10_000_000u32, 2_500_000];
    assert_eq!(
        samplerates_for_type(&table, SampleType::Int16Real),
        vec![20_000_000, 5_000_000]
    );
    assert_eq!(samplerates_for_type(&table, SampleType::Int16Iq), table.to_vec());
    assert_eq!(samplerates_for_type(&[0x8000_0001], SampleType::Raw), vec![2]);
}

#[test]
fn set_samplerate_by_index_matches_table() {
    let table = [10_000_000u32, 2_500_000];
    let r = set_samplerate_request(2_500_000, &table, SampleType::Float32Iq);
    assert_in_setter(&r, Command::SetSamplerate, 1);
}

#[test]
fn set_samplerate_by_value_scales_for_iq() {
    let table = [10_000_000u32, 2_500_000];
    let r = set_samplerate_request(6_000_000, &table, SampleType::Float32Iq);
    assert_in_setter(&r, Command::SetSamplerate, 12_000);
    let r = set_samplerate_request(6_000_000, &table, SampleType::Int16Real);
    assert_in_setter(&r, Command::SetSamplerate, 6_000);
}

#[test]
fn set_samplerate_small_values_are_raw_indices() {
    let r = set_samplerate_request(0, &[], SampleType::Float32Iq);
    assert_in_setter(&r, Command::SetSamplerate, 0);
    let r = set_samplerate_request(999_999, &[], SampleType::Float32Iq);
    assert_in_setter(&r, Command::SetSamplerate, (999_999u32 % 65536) as u16);
}

#[test]
fn gain_setters_clamp_like_c() {
    assert_in_setter(&set_lna_gain_request(200), Command::SetLnaGain, 14);
    assert_in_setter(&set_mixer_gain_request(200), Command::SetMixerGain, 15);
    assert_in_setter(&set_vga_gain_request(200), Command::SetVgaGain, 15);
    assert_in_setter(&set_vga_gain_request(3), Command::SetVgaGain, 3);
}

#[test]
fn agc_setters_send_bool_as_byte() {
    assert_in_setter(&set_lna_agc_request(true), Command::SetLnaAgc, 1);
    assert_in_setter(&set_mixer_agc_request(false), Command::SetMixerAgc, 0);
}

#[test]
fn linearity_gain_runs_c_sequence_with_table_values() {
    let rs = set_linearity_gain(0);
    assert_eq!(rs.len(), 5);
    assert_in_setter(&rs[0], Command::SetMixerAgc, 0);
    assert_in_setter(&rs[1], Command::SetLnaAgc, 0);
    assert_in_setter(&rs[2], Command::SetVgaGain, 4);
    assert_in_setter(&rs[3], Command::SetMixerGain, 0);
    assert_in_setter(&rs[4], Command::SetLnaGain, 0);
}

#[test]
fn sensitivity_gain_clamps_and_uses_its_tables() {
    let rs = set_sensitivity_gain(200);
    assert_in_setter(&rs[2], Command::SetVgaGain, 13);
    assert_in_setter(&rs[3], Command::SetMixerGain, 12);
    assert_in_setter(&rs[4], Command::SetLnaGain, 14);
    assert_eq!(composite_gains(21, GainProfile::Linearity), (13, 12, 14));
    assert_eq!(composite_gains(10, GainProfile::Sensitivity), (5, 4, 12));
}

#[test]
fn rf_bias_writes_gpio_port1_pin13() {
    let r = set_rf_bias_request(true);
    assert_eq!(r.request_type, OUT);
    assert_eq!(r.request, Command::GpioWrite.as_u8());
    assert_eq!(r.value, 1);
    assert_eq!(r.index, 45);
    assert!(r.data.is_empty());
}

#[test]
fn set_packing_updates_flag_and_wire() {
    let r = set_packing_request(false, true).expect("request");
    assert_in_setter(&r, Command::SetPacking, 1);
}

#[test]
fn set_packing_refused_while_streaming() {
    assert!(matches!(set_packing_request(true, true), Err(Error::Busy)));
}

#[test]
fn receiver_mode_request_is_empty_out() {
    let r = set_receiver_mode_request(ReceiverMode::Rx);
    assert_eq!((r.request_type, r.request, r.value, r.index), (OUT, 1, 1, 0));
    assert!(r.data.is_empty());
}

#[test]
fn si5351c_and_r820t_register_writes() {
    for (w, (req, val, reg)) in [si5351c_write_request(0x10, 0xAB), r820t_write_request(0x05, 0xCD)]
        .iter()
        .zip([(2u8, 0xABu16, 0x10u16), (4, 0xCD, 0x05)])
    {
        assert_eq!(w.request_type, OUT);
        assert_eq!(w.request, req);
        assert_eq!((w.value, w.index), (val, reg));
        assert!(w.data.is_empty());
    }
}

#[test]
fn si5351c_and_r820t_register_reads() {
    for (r, (req, reg)) in [si5351c_read_request(0x11), r820t_read_request(0x06)]
        .iter()
        .zip([(3u8, 0x11u16), (5, 0x06)])
    {
        assert_eq!(r.request_type, IN);
        assert_eq!(r.request, req);
        assert_eq!((r.value, r.index), (0, reg));
        assert_eq!(r.data.len(), 1);
    }
}

#[test]
fn gpio_surface_encodes_port_pin() {
    assert_eq!(port_pin(GpioPort::Port2, GpioPin::Pin7), 71);
    assert_eq!(port_pin(GpioPort::Port0, GpioPin::Pin31), 31);
    let w = gpio_write_request(GpioPort::Port2, GpioPin::Pin7, 1);
    assert_eq!((w.request_type, w.request, w.value, w.index), (OUT, 21, 1, 71));
    assert_in_setter(&gpio_read_request(GpioPort::Port2, GpioPin::Pin7), Command::GpioRead, 71);
    let w = gpiodir_write_request(GpioPort::Port0, GpioPin::Pin31, 1);
    assert_eq!((w.request_type, w.request, w.value, w.index), (OUT, 23, 1, 31));
    assert_in_setter(
        &gpiodir_read_request(GpioPort::Port0, GpioPin::Pin31),
        Command::GpiodirRead,
        31,
    );
}

#[test]
fn spiflash_erase_variants() {
    let e = spiflash_erase_request();
    assert_eq!((e.request_type, e.request, e.value, e.index), (OUT, 6, 0, 0));
    let s = spiflash_erase_sector_request(5);
    assert_eq!((s.request_type, s.request, s.value, s.index), (OUT, 27, 5, 0));
}

#[test]
fn spiflash_write_splits_address_and_validates() {
    let w = spiflash_write_request(0x0A_BCDE, &[1, 2, 3]).expect("write");
    assert_eq!((w.request_type, w.request, w.value, w.index), (OUT, 7, 0x0A, 0xBCDE));
    assert_eq!(w.data, vec![1, 2, 3]);
    assert!(matches!(spiflash_write_request(0x10_0000, &[0]), Err(Error::InvalidParam)));
}

#[test]
fn spiflash_read_splits_address_and_fills() {
    let r = spiflash_read_request(0x01_0002, 4).expect("read");
    assert_eq!((r.request_type, r.request, r.value, r.index), (IN, 8, 0x01, 0x0002));
    assert_eq!(r.data.len(), 4);
}

#[test]
fn spiflash_length_boundary() {
    let max_len = usize::from(u16::MAX);
    let w = spiflash_write_request(0, &vec![0u8; max_len]).expect("max write");
    assert_eq!(w.data.len(), max_len);
    let r = spiflash_read_request(0, max_len).expect("max read");
    assert_eq!(r.data.len(), max_len);
    assert!(matches!(
        spiflash_write_request(0, &vec![0u8; max_len + 1]),
        Err(Error::InvalidParam)
    ));
    assert!(matches!(spiflash_read_request(0, max_len + 1), Err(Error::InvalidParam)));
}
