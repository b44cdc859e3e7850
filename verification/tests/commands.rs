use libairspy_rs::commands::{
    BoardId, Command, ConfigPage, GpioPin, GpioPort, ReceiverMode, SampleType, CMD_MAX,
    CONF_CMD_SHIFT_BIT,
};

#[test]
fn vendor_request_bytes_match_c_airspy_vendor_request() {
    assert_eq!(Command::Invalid.as_u8(), 0);
    assert_eq!(Command::ReceiverMode.as_u8(), 1);
    assert_eq!(Command::Si5351cWrite.as_u8(), 2);
    assert_eq!(Command::Si5351cRead.as_u8(), 3);
    assert_eq!(Command::R820tWrite.as_u8(), 4);
    assert_eq!(Command::R820tRead.as_u8(), 5);
    assert_eq!(Command::SpiflashErase.as_u8(), 6);
    assert_eq!(Command::SpiflashWrite.as_u8(), 7);
    assert_eq!(Command::SpiflashRead.as_u8(), 8);
    assert_eq!(Command::BoardIdRead.as_u8(), 9);
    assert_eq!(Command::VersionStringRead.as_u8(), 10);
    assert_eq!(Command::BoardPartIdSerialNoRead.as_u8(), 11);
    assert_eq!(Command::SetSamplerate.as_u8(), 12);
    assert_eq!(Command::SetFreq.as_u8(), 13);
    assert_eq!(Command::SetLnaGain.as_u8(), 14);
    assert_eq!(Command::SetMixerGain.as_u8(), 15);
    assert_eq!(Command::SetVgaGain.as_u8(), 16);
    assert_eq!(Command::SetLnaAgc.as_u8(), 17);
    assert_eq!(Command::SetMixerAgc.as_u8(), 18);
    assert_eq!(Command::MsVendorCmd.as_u8(), 19);
    assert_eq!(Command::SetRfBias.as_u8(), 20);
    assert_eq!(Command::GpioWrite.as_u8(), 21);
    assert_eq!(Command::GpioRead.as_u8(), 22);
    assert_eq!(Command::GpiodirWrite.as_u8(), 23);
    assert_eq!(Command::GpiodirRead.as_u8(), 24);
    assert_eq!(Command::GetSamplerates.as_u8(), 25);
    assert_eq!(Command::SetPacking.as_u8(), 26);
    assert_eq!(Command::SpiflashEraseSector.as_u8(), 27);
    assert_eq!(CMD_MAX, 27);
}

#[test]
fn samplerate_conf_shift_matches_c() {
    assert_eq!(CONF_CMD_SHIFT_BIT, 3);
}

#[test]
fn receiver_mode_values_match_c() {
    assert_eq!(ReceiverMode::Off.as_u8(), 0);
    assert_eq!(ReceiverMode::Rx.as_u8(), 1);
}

#[test]
fn sample_type_values_match_c_enum_airspy_sample_type() {
    assert_eq!(SampleType::Float32Iq.as_u8(), 0);
    assert_eq!(SampleType::Float32Real.as_u8(), 1);
    assert_eq!(SampleType::Int16Iq.as_u8(), 2);
    assert_eq!(SampleType::Int16Real.as_u8(), 3);
    assert_eq!(SampleType::Uint16Real.as_u8(), 4);
    assert_eq!(SampleType::Raw.as_u8(), 5);
    assert_eq!(SampleType::COUNT, 6);
}

#[test]
fn board_id_values_and_names_match_c() {
    assert_eq!(BoardId::ProtoAirspy.as_u8(), 0);
    assert_eq!(BoardId::Invalid.as_u8(), 0xFF);
    assert_eq!(BoardId::ProtoAirspy.name(), "AIRSPY");
    assert_eq!(BoardId::Invalid.name(), "Invalid Board ID");
}

#[test]
fn board_id_from_u8_roundtrips_and_rejects_unknown() {
    assert_eq!(BoardId::from_u8(0), Some(BoardId::ProtoAirspy));
    assert_eq!(BoardId::from_u8(0xFF), Some(BoardId::Invalid));
    assert_eq!(BoardId::from_u8(7), None);
}

#[test]
fn gpio_port_and_pin_values_match_c() {
    assert_eq!(GpioPort::Port0.as_u8(), 0);
    assert_eq!(GpioPort::Port7.as_u8(), 7);
    assert_eq!(GpioPin::Pin0.as_u8(), 0);
    assert_eq!(GpioPin::Pin13.as_u8(), 13);
    assert_eq!(GpioPin::Pin31.as_u8(), 31);
}

#[test]
fn config_page_values_match_c() {
    assert_eq!(ConfigPage::Calibration.as_u8(), 0);
}

#[test]
fn port_and_pin_numbers_round_trip() {
    for n in 0..8u8 {
        assert_eq!(GpioPort::from_u8(n).map(|p| p.as_u8()), Some(n));
    }
    assert_eq!(GpioPort::from_u8(8), None);
    for n in 0..32u8 {
        assert_eq!(GpioPin::from_u8(n).map(|p| p.as_u8()), Some(n));
    }
    assert_eq!(GpioPin::from_u8(32), None);
    assert!(SampleType::Float32Iq.is_iq());
    assert!(SampleType::Int16Iq.is_iq());
    assert!(!SampleType::Raw.is_iq());
}
