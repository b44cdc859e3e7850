//! The capture tool's arguments and their validation into a capture
//! configuration, check by check in a fixed order, each with its
//! message.
use crate::commands::SampleType;
use crate::rx::{
    bytes_to_xfer, bytes_to_xfer_of, BIAST_MAX, DEFAULT_FREQ_HZ, DEFAULT_LNA_GAIN,
    DEFAULT_MIXER_GAIN, DEFAULT_VGA_IF_GAIN, FREQ_HZ_MAX, FREQ_HZ_MIN, LINEARITY_GAIN_MAX,
    LNA_GAIN_MAX, MIXER_GAIN_MAX, SAMPLES_TO_XFER_MAX, SENSITIVITY_GAIN_MAX, VGA_GAIN_MAX,
};
use crate::text::{decimal, push_decimal, push_zero_padded, zero_padded};
use crate::wav::{wav_filename, wav_filename_of, wav_params_of, WavParams};
use vstd::prelude::*;

verus! {

/// The capture tool's version string.
pub const AIRSPY_RX_VERSION: &'static str = "1.0.5 23 April 2016";

/// The capture tool's command line, one field per option.
#[derive(Debug, Clone)]
pub struct Args {
    /// `-r <filename>`: receive data into a file.
    pub receive_file: Option<String>,
    /// `-w`: receive into a WAV file with an automatic name.
    pub receive_wav: bool,
    /// `-s <serial>`: open the device with this serial number.
    pub serial_number: Option<u64>,
    /// `-p <packing>`: 1 = 12-bit packed transfers, 0 = not packed.
    pub packing: Option<u32>,
    /// `-f <MHz>`: the tuning frequency as written.
    pub freq_mhz: Option<String>,
    /// `-a <rate>`: sample-rate index or rate in hertz.
    pub sample_rate: Option<u32>,
    /// `-t <type>`: 0 = FLOAT32_IQ, 1 = FLOAT32_REAL, 2 = INT16_IQ,
    /// 3 = INT16_REAL, 4 = U16_REAL, 5 = RAW.
    pub sample_type: Option<u32>,
    /// `-b <biast>`: 1 = bias tee on, 0 = off.
    pub biast: Option<u32>,
    /// `-v <gain>`: VGA/IF gain 0-15.
    pub vga_gain: Option<u32>,
    /// `-m <gain>`: mixer gain 0-15.
    pub mixer_gain: Option<u32>,
    /// `-l <gain>`: LNA gain 0-14.
    pub lna_gain: Option<u32>,
    /// `-g <gain>`: linearity simplified gain 0-21.
    pub linearity_gain: Option<u32>,
    /// `-h <gain>`: sensitivity simplified gain 0-21.
    pub sensitivity_gain: Option<u32>,
    /// `-n <count>`: number of samples to transfer.
    pub num_samples: Option<u64>,
    /// `-d`: verbose mode.
    pub verbose: bool,
    /// `--help`.
    pub help: Option<bool>,
}

impl Default for Args {
    /// A command line with no option given.
    fn default() -> (a: Self)
        ensures
            a.receive_file is None,
            !a.receive_wav,
            a.serial_number is None,
            a.packing is None,
            a.freq_mhz is None,
            a.sample_rate is None,
            a.sample_type is None,
            a.biast is None,
            a.vga_gain is None,
            a.mixer_gain is None,
            a.lna_gain is None,
            a.linearity_gain is None,
            a.sensitivity_gain is None,
            a.num_samples is None,
            !a.verbose,
            a.help is None,
    {
        Args {
            receive_file: None,
            receive_wav: false,
            serial_number: None,
            packing: None,
            freq_mhz: None,
            sample_rate: None,
            sample_type: None,
            biast: None,
            vga_gain: None,
            mixer_gain: None,
            lna_gain: None,
            linearity_gain: None,
            sensitivity_gain: None,
            num_samples: None,
            verbose: false,
            help: None,
        }
    }
}

/// The validated capture parameters.
#[derive(Debug)]
pub struct Config {
    /// Output path (`-` is standard output; generated for `-w`).
    pub path: String,
    /// `-w`: WAV output with the automatic name.
    pub receive_wav: bool,
    /// `-s`: open by serial number.
    pub serial_number: Option<u64>,
    /// Whether `-p 1` asked for packed transfers.
    pub packing: bool,
    /// Whether `-p` was given at all.
    pub call_set_packing: bool,
    /// The tuning frequency in hertz.
    pub freq_hz: u32,
    /// The raw `-a` value (0 when absent).
    pub sample_rate_val: u32,
    /// The selected sample type.
    pub sample_type: SampleType,
    /// The WAV format fields of the sample type.
    pub wav_params: WavParams,
    /// Whether the bias tee is on.
    pub biast: bool,
    /// The VGA gain.
    pub vga_gain: u32,
    /// The mixer gain.
    pub mixer_gain: u32,
    /// The LNA gain.
    pub lna_gain: u32,
    /// `-g` if given.
    pub linearity_gain: Option<u32>,
    /// `-h` if given.
    pub sensitivity_gain: Option<u32>,
    /// Whether `-n` was given.
    pub limit_num_samples: bool,
    /// The `-n` sample count (0 when absent).
    pub samples_to_xfer: u64,
    /// The `-n` limit in output bytes.
    pub bytes_to_xfer: u64,
    /// `-d`.
    pub verbose: bool,
}

/// The sample type numbered `v`, if any.
pub open spec fn sample_type_of(v: u32) -> Option<SampleType> {
    if v == 0 {
        Some(SampleType::Float32Iq)
    } else if v == 1 {
        Some(SampleType::Float32Real)
    } else if v == 2 {
        Some(SampleType::Int16Iq)
    } else if v == 3 {
        Some(SampleType::Int16Real)
    } else if v == 4 {
        Some(SampleType::Uint16Real)
    } else if v == 5 {
        Some(SampleType::Raw)
    } else {
        None
    }
}

/// The `-t` number to sample type mapping; `None` out of range.
pub fn sample_type_from_u32(value: u32) -> (r: Option<SampleType>)
    ensures
        r == sample_type_of(value),
{
    match value {
        0 => Some(SampleType::Float32Iq),
        1 => Some(SampleType::Float32Real),
        2 => Some(SampleType::Int16Iq),
        3 => Some(SampleType::Int16Real),
        4 => Some(SampleType::Uint16Real),
        5 => Some(SampleType::Raw),
        _ => None,
    }
}

/// The value of an optional argument, or its default.
pub open spec fn or_default<T>(o: Option<T>, d: T) -> T {
    match o {
        Some(v) => v,
        None => d,
    }
}

/// The message for a tuning frequency out of range: the frequency in
/// MHz with six decimals.
pub open spec fn freq_message(hz: u32) -> Seq<char> {
    "argument error: frequency_MHz="@ + decimal((hz / 1_000_000) as nat) + "."@ + zero_padded(
        (hz % 1_000_000) as nat,
        6,
    ) + " MHz and shall be between [24, 1900[ MHz"@
}

/// The tuning frequency: the default without `-f`, else the parsed
/// frequency when it lies in `[FREQ_HZ_MIN, FREQ_HZ_MAX[`.
pub open spec fn freq_result(freq_hz: Option<u32>) -> Result<u32, Seq<char>> {
    match freq_hz {
        None => Ok(DEFAULT_FREQ_HZ),
        Some(hz) => if FREQ_HZ_MIN <= hz < FREQ_HZ_MAX {
            Ok(hz)
        } else {
            Err(freq_message(hz))
        },
    }
}

/// The `-f` check; `freq_hz` is the `-f` value already converted to
/// hertz (`None` without `-f`).
pub fn resolve_freq(freq_hz: Option<u32>) -> (r: Result<u32, String>)
    ensures
        match freq_result(freq_hz) {
            Ok(hz) => r == Ok::<u32, String>(hz),
            Err(m) => r matches Err(s) && s@ == m,
        },
{
    match freq_hz {
        None => Ok(DEFAULT_FREQ_HZ),
        Some(hz) => {
            if FREQ_HZ_MIN <= hz && hz < FREQ_HZ_MAX {
                Ok(hz)
            } else {
                let mut s = String::from_str("argument error: frequency_MHz=");
                push_decimal(&mut s, (hz / 1_000_000) as u64);
                s.append(".");
                push_zero_padded(&mut s, (hz % 1_000_000) as u64, 6);
                s.append(" MHz and shall be between [24, 1900[ MHz");
                Err(s)
            }
        },
    }
}

/// The output path: with `-w` the automatic WAV name (RAW refused),
/// else the `-r` file, which is then required.
pub open spec fn path_result(
    args: Args,
    sample_type: Option<SampleType>,
    freq_hz: u32,
    date_time: Seq<char>,
) -> Result<Seq<char>, Seq<char>> {
    if args.receive_wav {
        if sample_type == Some(SampleType::Raw) {
            Err("The RAW sampling mode is not compatible with Wave files"@)
        } else {
            Ok(wav_filename_of(date_time, freq_hz))
        }
    } else {
        match args.receive_file {
            Some(p) => Ok(p@),
            None => Err("error: you shall specify at least -r <with filename> or -w option"@),
        }
    }
}

/// The output-path selection.
pub fn resolve_capture_path(
    args: &Args,
    sample_type: Option<SampleType>,
    freq_hz: u32,
    date_time: &str,
) -> (r: Result<String, String>)
    ensures
        match path_result(*args, sample_type, freq_hz, date_time@) {
            Ok(p) => r matches Ok(s) && s@ == p,
            Err(m) => r matches Err(s) && s@ == m,
        },
{
    if args.receive_wav {
        if sample_type == Some(SampleType::Raw) {
            return Err(String::from_str("The RAW sampling mode is not compatible with Wave files"));
        }
        return Ok(wav_filename(date_time, freq_hz));
    }
    match &args.receive_file {
        Some(p) => Ok(p.clone()),
        None => Err(
            String::from_str("error: you shall specify at least -r <with filename> or -w option"),
        ),
    }
}

/// The bias-tee and gain checks in order; on success the defaulted
/// `(biast, vga, mixer, lna)`.
pub open spec fn ranges_result(args: Args) -> Result<(u32, u32, u32, u32), Seq<char>> {
    let biast = or_default(args.biast, 0u32);
    let vga = or_default(args.vga_gain, DEFAULT_VGA_IF_GAIN);
    let mixer = or_default(args.mixer_gain, DEFAULT_MIXER_GAIN);
    let lna = or_default(args.lna_gain, DEFAULT_LNA_GAIN);
    if biast > BIAST_MAX {
        Err("argument error: biast_val out of range"@)
    } else if vga > VGA_GAIN_MAX {
        Err("argument error: vga_gain out of range"@)
    } else if mixer > MIXER_GAIN_MAX {
        Err("argument error: mixer_gain out of range"@)
    } else if lna > LNA_GAIN_MAX {
        Err("argument error: lna_gain out of range"@)
    } else if or_default(args.linearity_gain, 0u32) > LINEARITY_GAIN_MAX {
        Err("argument error: linearity_gain out of range"@)
    } else if or_default(args.sensitivity_gain, 0u32) > SENSITIVITY_GAIN_MAX {
        Err("argument error: sensitivity_gain out of range"@)
    } else if args.linearity_gain is Some && args.sensitivity_gain is Some {
        Err(
            "argument error: linearity_gain and sensitivity_gain are both set (choose only one option)"@,
        )
    } else {
        Ok((biast, vga, mixer, lna))
    }
}

fn opt_or(o: Option<u32>, d: u32) -> (v: u32)
    ensures
        v == or_default(o, d),
{
    match o {
        Some(v) => v,
        None => d,
    }
}

/// The bias-tee and gain range checks.
pub fn validate_ranges(args: &Args) -> (r: Result<(u32, u32, u32, u32), String>)
    ensures
        match ranges_result(*args) {
            Ok(v) => r == Ok::<(u32, u32, u32, u32), String>(v),
            Err(m) => r matches Err(s) && s@ == m,
        },
{
    let biast_val = opt_or(args.biast, 0);
    if biast_val > BIAST_MAX {
        return Err(String::from_str("argument error: biast_val out of range"));
    }
    let vga_gain = opt_or(args.vga_gain, DEFAULT_VGA_IF_GAIN);
    if vga_gain > VGA_GAIN_MAX {
        return Err(String::from_str("argument error: vga_gain out of range"));
    }
    let mixer_gain = opt_or(args.mixer_gain, DEFAULT_MIXER_GAIN);
    if mixer_gain > MIXER_GAIN_MAX {
        return Err(String::from_str("argument error: mixer_gain out of range"));
    }
    let lna_gain = opt_or(args.lna_gain, DEFAULT_LNA_GAIN);
    if lna_gain > LNA_GAIN_MAX {
        return Err(String::from_str("argument error: lna_gain out of range"));
    }
    if opt_or(args.linearity_gain, 0) > LINEARITY_GAIN_MAX {
        return Err(String::from_str("argument error: linearity_gain out of range"));
    }
    if opt_or(args.sensitivity_gain, 0) > SENSITIVITY_GAIN_MAX {
        return Err(String::from_str("argument error: sensitivity_gain out of range"));
    }
    if args.linearity_gain.is_some() && args.sensitivity_gain.is_some() {
        return Err(
            String::from_str(
                "argument error: linearity_gain and sensitivity_gain are both set (choose only one option)",
            ),
        );
    }
    Ok((biast_val, vga_gain, mixer_gain, lna_gain))
}

/// The `-t` selection: INT16_IQ by default, `None` for an unknown
/// number.
pub open spec fn sample_type_arg(args: Args) -> Option<SampleType> {
    match args.sample_type {
        None => Some(SampleType::Int16Iq),
        Some(v) => sample_type_of(v),
    }
}

/// The message for a sample count at or above the limit.
pub open spec fn num_samples_message() -> Seq<char> {
    "argument error: num_samples must be less than 9223372036854775808/9223372036854Mio"@
}

/// The first check that fails, with its message, in this order: the sample count, the frequency, the output path, the
/// packing value, the sample type, then the ranges.
pub open spec fn config_error(args: Args, freq_hz: Option<u32>, date_time: Seq<char>) -> Option<
    Seq<char>,
> {
    let st = sample_type_arg(args);
    if or_default(args.num_samples, 0u64) >= SAMPLES_TO_XFER_MAX {
        Some(num_samples_message())
    } else if freq_result(freq_hz) is Err {
        Some(freq_result(freq_hz)->Err_0)
    } else if path_result(args, st, freq_result(freq_hz)->Ok_0, date_time) is Err {
        Some(path_result(args, st, freq_result(freq_hz)->Ok_0, date_time)->Err_0)
    } else if args.packing matches Some(p) && p > 1 {
        Some("argument error: packing out of range"@)
    } else if st is None {
        Some("argument error: sample_type out of range"@)
    } else if ranges_result(args) is Err {
        Some(ranges_result(args)->Err_0)
    } else {
        None
    }
}

/// Validate the command line into a capture configuration, every check
/// in the order of [`config_error`] and with its message. `freq_hz` is the `-f`
/// value converted to hertz (`None` without `-f`); `date_time` is the
/// local time (`%Y%m%d_%H%M%S`) for the automatic WAV name.
///
/// The bias tee is driven by `-b` alone; `-b` does not touch how the
/// device is opened.
pub fn build_config(args: &Args, freq_hz: Option<u32>, date_time: &str) -> (r: Result<
    Config,
    String,
>)
    ensures
        r is Err <==> config_error(*args, freq_hz, date_time@) is Some,
        r matches Err(m) ==> config_error(*args, freq_hz, date_time@) == Some(m@),
        r matches Ok(c) ==> {
            let st = sample_type_arg(*args)->Some_0;
            let ranges = ranges_result(*args)->Ok_0;
            let samples = or_default(args.num_samples, 0u64);
            let packing = args.packing == Some(1u32);
            &&& c.path@ == path_result(
                *args,
                Some(st),
                freq_result(freq_hz)->Ok_0,
                date_time@,
            )->Ok_0
            &&& c.receive_wav == args.receive_wav
            &&& c.serial_number == args.serial_number
            &&& c.packing == packing
            &&& c.call_set_packing == args.packing is Some
            &&& c.freq_hz == freq_result(freq_hz)->Ok_0
            &&& c.sample_rate_val == or_default(args.sample_rate, 0u32)
            &&& c.sample_type == st
            &&& c.wav_params == wav_params_of(st)
            &&& c.biast == (ranges.0 == 1)
            &&& c.vga_gain == ranges.1
            &&& c.mixer_gain == ranges.2
            &&& c.lna_gain == ranges.3
            &&& c.linearity_gain == args.linearity_gain
            &&& c.sensitivity_gain == args.sensitivity_gain
            &&& c.limit_num_samples == args.num_samples is Some
            &&& c.samples_to_xfer == samples
            &&& c.bytes_to_xfer == bytes_to_xfer_of(samples, wav_params_of(st), st, packing)
            &&& c.verbose == args.verbose
        },
{
    let sample_type = match args.sample_type {
        None => Some(SampleType::Int16Iq),
        Some(v) => sample_type_from_u32(v),
    };
    let effective_type = match sample_type {
        Some(t) => t,
        None => SampleType::Int16Iq,
    };
    let wav_params = WavParams::for_sample_type(effective_type);
    let samples_to_xfer: u64 = match args.num_samples {
        Some(n) => n,
        None => 0,
    };
    let packing = args.packing == Some(1u32);
    let bytes = bytes_to_xfer(samples_to_xfer, &wav_params, effective_type, packing);
    if samples_to_xfer >= SAMPLES_TO_XFER_MAX {
        return Err(
            String::from_str(
                "argument error: num_samples must be less than 9223372036854775808/9223372036854Mio",
            ),
        );
    }
    let freq = match resolve_freq(freq_hz) {
        Ok(f) => f,
        Err(m) => return Err(m),
    };
    let path = match resolve_capture_path(args, sample_type, freq, date_time) {
        Ok(p) => p,
        Err(m) => return Err(m),
    };
    if let Some(p) = args.packing {
        if p > 1 {
            return Err(String::from_str("argument error: packing out of range"));
        }
    }
    let sample_type = match sample_type {
        Some(t) => t,
        None => return Err(String::from_str("argument error: sample_type out of range")),
    };
    let (biast_val, vga_gain, mixer_gain, lna_gain) = match validate_ranges(args) {
        Ok(v) => v,
        Err(m) => return Err(m),
    };
    Ok(
        Config {
            path,
            receive_wav: args.receive_wav,
            serial_number: args.serial_number,
            packing,
            call_set_packing: args.packing.is_some(),
            freq_hz: freq,
            sample_rate_val: opt_or(args.sample_rate, 0),
            sample_type,
            wav_params,
            biast: biast_val == 1,
            vga_gain,
            mixer_gain,
            lna_gain,
            linearity_gain: args.linearity_gain,
            sensitivity_gain: args.sensitivity_gain,
            limit_num_samples: args.num_samples.is_some(),
            samples_to_xfer,
            bytes_to_xfer: bytes,
            verbose: args.verbose,
        },
    )
}

/// One gain setting of a capture.
#[derive(Debug, Clone, Copy, PartialEq, Eq, Structural)]
pub enum GainStep {
    /// Set the VGA gain.
    Vga(u8),
    /// Set the mixer gain.
    Mixer(u8),
    /// Set the LNA gain.
    Lna(u8),
    /// Set the linearity simplified gain.
    Linearity(u8),
    /// Set the sensitivity simplified gain.
    Sensitivity(u8),
}

/// The gain settings of a configuration, in order: the three separate
/// gains when no simplified gain was asked for, else the simplified
/// gains given (values keep their low byte).
pub fn gain_steps(config: &Config) -> (steps: Vec<GainStep>)
    ensures
        (config.linearity_gain is None && config.sensitivity_gain is None) ==> steps@ == seq![
            GainStep::Vga((config.vga_gain % 256) as u8),
            GainStep::Mixer((config.mixer_gain % 256) as u8),
            GainStep::Lna((config.lna_gain % 256) as u8),
        ],
        !(config.linearity_gain is None && config.sensitivity_gain is None) ==> steps@ == (match config.linearity_gain {
            Some(g) => seq![GainStep::Linearity((g % 256) as u8)],
            None => Seq::empty(),
        }) + (match config.sensitivity_gain {
            Some(g) => seq![GainStep::Sensitivity((g % 256) as u8)],
            None => Seq::empty(),
        }),
{
    let mut steps: Vec<GainStep> = Vec::new();
    if config.linearity_gain.is_none() && config.sensitivity_gain.is_none() {
        steps.push(GainStep::Vga((config.vga_gain % 256) as u8));
        steps.push(GainStep::Mixer((config.mixer_gain % 256) as u8));
        steps.push(GainStep::Lna((config.lna_gain % 256) as u8));
    } else {
        if let Some(g) = config.linearity_gain {
            steps.push(GainStep::Linearity((g % 256) as u8));
        }
        if let Some(g) = config.sensitivity_gain {
            steps.push(GainStep::Sensitivity((g % 256) as u8));
        }
    }
    assert(steps@ =~= if config.linearity_gain is None && config.sensitivity_gain is None {
        seq![
            GainStep::Vga((config.vga_gain % 256) as u8),
            GainStep::Mixer((config.mixer_gain % 256) as u8),
            GainStep::Lna((config.lna_gain % 256) as u8),
        ]
    } else {
        (match config.linearity_gain {
            Some(g) => seq![GainStep::Linearity((g % 256) as u8)],
            None => Seq::empty(),
        }) + (match config.sensitivity_gain {
            Some(g) => seq![GainStep::Sensitivity((g % 256) as u8)],
            None => Seq::empty(),
        })
    });
    steps
}

/// The `-t` number selects the sample type whose wire code it is: each
/// of 0 to 5 selects a type with that code, and no larger number
/// selects any.
pub proof fn lemma_sample_type_codes(v: u32)
    ensures
        v <= 5 ==> (sample_type_of(v) matches Some(t) && t.code() == v),
        v > 5 ==> sample_type_of(v) is None,
{
}

} // verus!
