use libairspy_rs::cli::parse_u64;
use libairspy_rs::commands::SampleType;
use libairspy_rs::rx::{parse_u32, DEFAULT_FREQ_HZ, DEFAULT_LNA_GAIN, DEFAULT_MIXER_GAIN, DEFAULT_VGA_IF_GAIN, FREQ_HZ_MAX};
use libairspy_rs::rx_cli::{build_config, Args, Config};

/// The command line holding the given options: flags are given
/// without a value, the others with theirs.
fn args(argv: &[&str]) -> Args {
    let mut a = Args::default();
    let mut i = 0;
    while i < argv.len() {
        let flag = argv[i];
        if flag == "-w" {
            a.receive_wav = true;
            i += 1;
            continue;
        }
        if flag == "-d" {
            a.verbose = true;
            i += 1;
            continue;
        }
        let v = argv[i + 1];
        let n32 = || parse_u32(v).expect("number");
        match flag {
            "-r" => a.receive_file = Some(v.to_string()),
            "-s" => a.serial_number = Some(parse_u64(v).expect("serial")),
            "-p" => a.packing = Some(n32()),
            "-f" => a.freq_mhz = Some(v.to_string()),
            "-a" => a.sample_rate = Some(n32()),
            "-t" => a.sample_type = Some(n32()),
            "-b" => a.biast = Some(n32()),
            "-v" => a.vga_gain = Some(n32()),
            "-m" => a.mixer_gain = Some(n32()),
            "-l" => a.lna_gain = Some(n32()),
            "-g" => a.linearity_gain = Some(n32()),
            "-h" => a.sensitivity_gain = Some(n32()),
            "-n" => a.num_samples = Some(parse_u64(v).expect("count")),
            other => panic!("unexpected option {other}"),
        }
        i += 2;
    }
    a
}

/// The `-f` value in hertz: megahertz times a million, values above
/// the limit becoming `u32::MAX`.
fn freq(a: &Args) -> Option<u32> {
    a.freq_mhz.as_ref().map(|s| {
        let hz = s.trim().parse::<f64>().unwrap_or(0.0) * 1_000_000.0;
        if hz <= f64::from(FREQ_HZ_MAX) {
            hz as u32
        } else {
            u32::MAX
        }
    })
}

fn config(argv: &[&str], date_time: &str) -> Result<Config, String> {
    let a = args(argv);
    build_config(&a, freq(&a), date_time)
}

#[test]
fn rx_cli_config_defaults_match_c_globals() {
    let config = config(&["-r", "f"], "20260101_000000").expect("config");
    assert_eq!(config.freq_hz, DEFAULT_FREQ_HZ);
    assert_eq!(config.sample_type, SampleType::Int16Iq);
    assert_eq!(config.sample_rate_val, 0);
    assert_eq!(
        (config.vga_gain, config.mixer_gain, config.lna_gain),
        (DEFAULT_VGA_IF_GAIN, DEFAULT_MIXER_GAIN, DEFAULT_LNA_GAIN)
    );
    assert!(!config.biast);
    assert!(!config.packing && !config.call_set_packing);
    assert!(!config.limit_num_samples);
}

#[test]
fn rx_cli_validation_rejects_out_of_range_values_in_c_order() {
    let cases: &[(&[&str], &str)] = &[
        (&["-r", "f", "-f", "2000"], "frequency_MHz"),
        (&["-w", "-t", "5"], "RAW sampling mode"),
        (&[], "you shall specify at least"),
        (&["-r", "f", "-p", "2"], "packing out of range"),
        (&["-r", "f", "-t", "6"], "sample_type out of range"),
        (&["-r", "f", "-b", "2"], "biast_val out of range"),
        (&["-r", "f", "-v", "16"], "vga_gain out of range"),
        (&["-r", "f", "-m", "16"], "mixer_gain out of range"),
        (&["-r", "f", "-l", "15"], "lna_gain out of range"),
        (&["-r", "f", "-g", "22"], "linearity_gain out of range"),
        (&["-r", "f", "-h", "22"], "sensitivity_gain out of range"),
        (&["-r", "f", "-g", "1", "-h", "1"], "both set"),
    ];
    for (argv, expected) in cases {
        let err = config(argv, "20260101_000000").expect_err(expected);
        assert!(err.contains(expected), "{argv:?}: {err}");
    }
}

#[test]
fn rx_cli_biast_does_not_imply_serial_open() {
    let config = config(&["-r", "f", "-b", "1"], "20260101_000000").expect("config");
    assert!(config.biast);
    assert_eq!(config.serial_number, None);
}

#[test]
fn rx_cli_wav_mode_generates_c_filename() {
    let config = config(&["-w", "-f", "100"], "20261225_101112").expect("config");
    assert!(config.receive_wav);
    assert_eq!(config.path, "AirSpy_20261225_101112Z_100000kHz_IQ.wav");
}

#[test]
fn rx_cli_num_samples_limit_computes_byte_budget() {
    let config = config(&["-r", "f", "-n", "1000"], "20260101_000000").expect("config");
    assert!(config.limit_num_samples);
    assert_eq!(config.bytes_to_xfer, 4000);
    let err = config_err(&["-r", "f", "-n", "0x8000000000000000"]);
    assert!(err.contains("num_samples must be less than"));
}

fn config_err(argv: &[&str]) -> String {
    config(argv, "20260101_000000").expect_err("max")
}

#[test]
fn frequency_error_prints_six_decimals() {
    let err = config_err(&["-r", "f", "-f", "2000"]);
    assert_eq!(
        err,
        "argument error: frequency_MHz=4294.967295 MHz and shall be between [24, 1900[ MHz"
    );
    let err = config_err(&["-r", "f", "-f", "23.5"]);
    assert_eq!(
        err,
        "argument error: frequency_MHz=23.500000 MHz and shall be between [24, 1900[ MHz"
    );
}

#[test]
fn full_config_carries_every_option() {
    let c = config(
        &["-r", "out.bin", "-s", "0x1234", "-p", "1", "-f", "100.5", "-a", "1", "-t", "0", "-b",
          "1", "-v", "10", "-m", "9", "-l", "8", "-n", "5000", "-d"],
        "20260101_000000",
    )
    .expect("config");
    assert_eq!(c.path, "out.bin");
    assert_eq!(c.serial_number, Some(0x1234));
    assert!(c.packing && c.call_set_packing);
    assert_eq!(c.freq_hz, 100_500_000);
    assert_eq!(c.sample_rate_val, 1);
    assert_eq!(c.sample_type, SampleType::Float32Iq);
    assert!(c.biast);
    assert_eq!((c.vga_gain, c.mixer_gain, c.lna_gain), (10, 9, 8));
    assert_eq!(c.samples_to_xfer, 5000);
    assert_eq!(c.bytes_to_xfer, 40_000);
    assert!(c.verbose);
    assert_eq!(c.linearity_gain, None);
}
