//! The device's control surface as vendor requests: what each setter,
//! register access, GPIO and SPI-flash operation puts on the wire, and
//! how the transferred byte count is judged. The caller performs the
//! control transfer a request describes.
use crate::board::{PARTID_SERIALNO_LEN, VERSION_LOCAL_SIZE};
use crate::commands::{Command, GpioPin, GpioPort, ReceiverMode, SampleType};
use crate::error::Error;
use crate::transfer::{NO_WINDEX, NO_WVALUE, VENDOR_IN_REQUEST_TYPE, VENDOR_OUT_REQUEST_TYPE};
use vstd::prelude::*;

verus! {

/// Sample-rate arguments at or above this are literal rates in hertz;
/// below it they are table indices.
pub const MIN_SAMPLERATE_BY_VALUE: u32 = 1_000_000;

/// Entries in each composite-gain table.
pub const GAIN_COUNT: usize = 22;

/// Linearity profile: VGA gains.
pub const LINEARITY_VGA_GAINS: [u8; 22] = [
    13, 12, 11, 11, 11, 11, 11, 10, 10, 10, 10, 10, 10, 10, 10, 10, 9, 8, 7, 6, 5, 4,
];

/// Linearity profile: mixer gains.
pub const LINEARITY_MIXER_GAINS: [u8; 22] = [
    12, 12, 11, 9, 8, 7, 6, 6, 5, 0, 0, 1, 0, 0, 2, 2, 1, 1, 1, 1, 0, 0,
];

/// Linearity profile: LNA gains.
pub const LINEARITY_LNA_GAINS: [u8; 22] = [
    14, 14, 14, 13, 12, 10, 9, 9, 8, 9, 8, 6, 5, 3, 1, 0, 0, 0, 0, 0, 0, 0,
];

/// Sensitivity profile: VGA gains.
pub const SENSITIVITY_VGA_GAINS: [u8; 22] = [
    13, 12, 11, 10, 9, 8, 7, 6, 5, 5, 5, 5, 5, 4, 4, 4, 4, 4, 4, 4, 4, 4,
];

/// Sensitivity profile: mixer gains.
pub const SENSITIVITY_MIXER_GAINS: [u8; 22] = [
    12, 12, 12, 12, 11, 10, 10, 9, 9, 8, 7, 4, 4, 4, 3, 2, 2, 1, 0, 0, 0, 0,
];

/// Sensitivity profile: LNA gains.
pub const SENSITIVITY_LNA_GAINS: [u8; 22] = [
    14, 14, 14, 14, 14, 14, 14, 14, 14, 13, 12, 12, 9, 9, 8, 7, 6, 5, 3, 2, 1, 0,
];

/// The LNA gain clamp bound.
pub const LNA_GAIN_MAX: u8 = 14;

/// The mixer and VGA gain clamp bound.
pub const MIXER_VGA_GAIN_MAX: u8 = 15;

/// The highest SPI-flash address a write may start at.
pub const SPIFLASH_MAX_ADDRESS: u32 = 0x000F_FFFF;

/// One vendor control request.
#[derive(Debug)]
pub struct VendorRequest {
    /// `bmRequestType`: [`VENDOR_OUT_REQUEST_TYPE`] or
    /// [`VENDOR_IN_REQUEST_TYPE`].
    pub request_type: u8,
    /// `bRequest`: the command byte.
    pub request: u8,
    /// `wValue`.
    pub value: u16,
    /// `wIndex`.
    pub index: u16,
    /// The payload of an OUT request, or the zeroed buffer an IN
    /// request reads into.
    pub data: Vec<u8>,
}

/// Whether `r` is the OUT request `(cmd, value, index)` with payload
/// `data`.
pub open spec fn is_out(r: VendorRequest, cmd: Command, value: u16, index: u16, data: Seq<u8>) -> bool {
    &&& r.request_type == VENDOR_OUT_REQUEST_TYPE
    &&& r.request == cmd.code()
    &&& r.value == value
    &&& r.index == index
    &&& r.data@ == data
}

/// Whether `r` is the IN request `(cmd, value, index)` reading `len`
/// bytes.
pub open spec fn is_in(r: VendorRequest, cmd: Command, value: u16, index: u16, len: nat) -> bool {
    &&& r.request_type == VENDOR_IN_REQUEST_TYPE
    &&& r.request == cmd.code()
    &&& r.value == value
    &&& r.index == index
    &&& r.data@.len() == len
    &&& forall|i: int| 0 <= i < len ==> #[trigger] r.data@[i] == 0u8
}

/// A host-to-device request carrying `data`.
pub fn vendor_out(command: Command, value: u16, index: u16, data: &[u8]) -> (r: VendorRequest)
    ensures
        is_out(r, command, value, index, data@),
{
    let mut payload: Vec<u8> = Vec::new();
    let mut i: usize = 0;
    while i < data.len()
        invariant
            i <= data@.len(),
            payload@ == data@.subrange(0, i as int),
        decreases data@.len() - i,
    {
        payload.push(data[i]);
        i = i + 1;
        assert(payload@ =~= data@.subrange(0, i as int));
    }
    assert(payload@ =~= data@);
    VendorRequest {
        request_type: VENDOR_OUT_REQUEST_TYPE,
        request: command.as_u8(),
        value,
        index,
        data: payload,
    }
}

/// A host-to-device request with no payload.
pub fn vendor_out_empty(command: Command, value: u16, index: u16) -> (r: VendorRequest)
    ensures
        is_out(r, command, value, index, Seq::empty()),
{
    VendorRequest {
        request_type: VENDOR_OUT_REQUEST_TYPE,
        request: command.as_u8(),
        value,
        index,
        data: Vec::new(),
    }
}

/// A device-to-host request reading `len` bytes.
pub fn vendor_in(command: Command, value: u16, index: u16, len: usize) -> (r: VendorRequest)
    ensures
        is_in(r, command, value, index, len as nat),
{
    VendorRequest {
        request_type: VENDOR_IN_REQUEST_TYPE,
        request: command.as_u8(),
        value,
        index,
        data: vec![0u8; len],
    }
}

/// A data transfer must move at least `expected` bytes.
pub fn check_at_least(expected: usize, actual: usize) -> (r: Result<(), Error>)
    ensures
        actual >= expected ==> r is Ok,
        actual < expected ==> (r matches Err(Error::TransferLengthMismatch { expected: e, actual: a })
            && e == expected && a == actual),
{
    if actual < expected {
        Err(Error::TransferLengthMismatch { expected, actual })
    } else {
        Ok(())
    }
}

/// A payload-free request must report exactly zero bytes.
pub fn check_empty(actual: usize) -> (r: Result<(), Error>)
    ensures
        actual == 0 ==> r is Ok,
        actual != 0 ==> (r matches Err(Error::TransferLengthMismatch { expected: e, actual: a })
            && e == 0 && a == actual),
{
    if actual != 0 {
        Err(Error::TransferLengthMismatch { expected: 0, actual })
    } else {
        Ok(())
    }
}

/// The little-endian bytes of a frequency.
pub open spec fn freq_bytes(freq_hz: u32) -> Seq<u8> {
    seq![
        (freq_hz % 256) as u8,
        ((freq_hz / 256) % 256) as u8,
        ((freq_hz / 65536) % 256) as u8,
        (freq_hz / 16777216) as u8,
    ]
}

/// The tuning payload: the frequency in hertz, little-endian.
pub fn freq_payload(freq_hz: u32) -> (b: [u8; 4])
    ensures
        b@ == freq_bytes(freq_hz),
{
    let b = [
        (freq_hz % 256) as u8,
        ((freq_hz / 256) % 256) as u8,
        ((freq_hz / 65536) % 256) as u8,
        (freq_hz / 16777216) as u8,
    ];
    assert(b@ =~= freq_bytes(freq_hz));
    b
}

/// Tune the receiver: a 4-byte OUT payload, judged by
/// [`check_at_least`] with 4.
pub fn set_freq_request(freq_hz: u32) -> (r: VendorRequest)
    ensures
        is_out(r, Command::SetFreq, NO_WVALUE, NO_WINDEX, freq_bytes(freq_hz)),
{
    let payload = freq_payload(freq_hz);
    vendor_out(Command::SetFreq, NO_WVALUE, NO_WINDEX, &payload)
}

/// The one-byte status read most setters share, with the value in
/// `wIndex`; judged by [`check_at_least`] with 1.
pub fn in_setter(command: Command, index: u16) -> (r: VendorRequest)
    ensures
        is_in(r, command, NO_WVALUE, index, 1),
{
    vendor_in(command, NO_WVALUE, index, 1)
}

/// The index of the first entry of `table` equal to `v`, if any.
pub open spec fn first_index_of(table: Seq<u32>, v: u32) -> Option<int> {
    if exists|i: int| 0 <= i < table.len() && table[i] == v {
        Some(choose|i: int| 0 <= i < table.len() && table[i] == v && forall|j: int| 0 <= j < i ==> table[j] != v)
    } else {
        None
    }
}

/// The value a sample-rate argument sends: small values are indices
/// as given; a rate found in `table` sends its index; any other rate
/// is sent in kHz, doubled first for the IQ sample types; the result
/// keeps its low 16 bits.
pub open spec fn samplerate_value(samplerate: u32, table: Seq<u32>, sample_type: SampleType) -> u16 {
    let v: u32 = if samplerate < MIN_SAMPLERATE_BY_VALUE {
        samplerate
    } else {
        match first_index_of(table, samplerate) {
            Some(i) => if i <= u32::MAX {
                i as u32
            } else {
                u32::MAX
            },
            None => (if sample_type == SampleType::Float32Iq || sample_type == SampleType::Int16Iq {
                samplerate.wrapping_mul(2)
            } else {
                samplerate
            } / 1000) as u32,
        }
    };
    (v % 65536) as u16
}

/// Select the sample rate: `samplerate` is an index into `table` (the
/// device's supported rates) or a literal rate; see
/// [`samplerate_value`].
pub fn set_samplerate_request(samplerate: u32, table: &[u32], sample_type: SampleType) -> (r:
    VendorRequest)
    ensures
        is_in(r, Command::SetSamplerate, NO_WVALUE, samplerate_value(samplerate, table@, sample_type), 1),
{
    let mut value = samplerate;
    if value >= MIN_SAMPLERATE_BY_VALUE {
        let mut i: usize = 0;
        while i < table.len() && table[i] != samplerate
            invariant
                i <= table@.len(),
                forall|j: int| 0 <= j < i ==> table@[j] != samplerate,
            decreases table@.len() - i,
        {
            i = i + 1;
        }
        if i < table.len() {
            proof {
                assert(table@[i as int] == samplerate);
                let w = first_index_of(table@, samplerate);
                assert(exists|k: int| 0 <= k < table@.len() && table@[k] == samplerate);
                assert(w == Some(i as int)) by {
                    let c = choose|k: int|
                        0 <= k < table@.len() && table@[k] == samplerate && forall|j: int|
                            0 <= j < k ==> table@[j] != samplerate;
                    assert(0 <= i < table@.len() && table@[i as int] == samplerate && forall|j: int|
                        0 <= j < i ==> table@[j] != samplerate);
                    if c < i {
                    } else if c > i {
                    }
                }
            }
            value = if i as u64 <= u32::MAX as u64 {
                i as u32
            } else {
                u32::MAX
            };
        } else {
            assert(!(exists|k: int| 0 <= k < table@.len() && table@[k] == samplerate));
            if sample_type == SampleType::Float32Iq || sample_type == SampleType::Int16Iq {
                value = value.wrapping_mul(2);
            }
            value = value / 1000;
        }
    }
    in_setter(Command::SetSamplerate, (value % 65536) as u16)
}

/// The LNA gain sent: clamped to [`LNA_GAIN_MAX`].
pub fn lna_gain_value(value: u8) -> (v: u16)
    ensures
        v == (if value > 14 {
            14
        } else {
            value
        }),
{
    if value > LNA_GAIN_MAX {
        LNA_GAIN_MAX as u16
    } else {
        value as u16
    }
}

/// The mixer or VGA gain sent: clamped to [`MIXER_VGA_GAIN_MAX`].
pub fn mixer_vga_gain_value(value: u8) -> (v: u16)
    ensures
        v == (if value > 15 {
            15
        } else {
            value
        }),
{
    if value > MIXER_VGA_GAIN_MAX {
        MIXER_VGA_GAIN_MAX as u16
    } else {
        value as u16
    }
}

/// Set the LNA gain (0-14, larger values clamp).
pub fn set_lna_gain_request(value: u8) -> (r: VendorRequest)
    ensures
        is_in(r, Command::SetLnaGain, NO_WVALUE, if value > 14 { 14 } else { value as u16 }, 1),
{
    in_setter(Command::SetLnaGain, lna_gain_value(value))
}

/// Set the mixer gain (0-15, larger values clamp).
pub fn set_mixer_gain_request(value: u8) -> (r: VendorRequest)
    ensures
        is_in(r, Command::SetMixerGain, NO_WVALUE, if value > 15 { 15 } else { value as u16 }, 1),
{
    in_setter(Command::SetMixerGain, mixer_vga_gain_value(value))
}

/// Set the VGA gain (0-15, larger values clamp).
pub fn set_vga_gain_request(value: u8) -> (r: VendorRequest)
    ensures
        is_in(r, Command::SetVgaGain, NO_WVALUE, if value > 15 { 15 } else { value as u16 }, 1),
{
    in_setter(Command::SetVgaGain, mixer_vga_gain_value(value))
}

/// Toggle the LNA AGC.
pub fn set_lna_agc_request(enabled: bool) -> (r: VendorRequest)
    ensures
        is_in(r, Command::SetLnaAgc, NO_WVALUE, if enabled { 1 } else { 0 }, 1),
{
    in_setter(Command::SetLnaAgc, if enabled { 1 } else { 0 })
}

/// Toggle the mixer AGC.
pub fn set_mixer_agc_request(enabled: bool) -> (r: VendorRequest)
    ensures
        is_in(r, Command::SetMixerAgc, NO_WVALUE, if enabled { 1 } else { 0 }, 1),
{
    in_setter(Command::SetMixerAgc, if enabled { 1 } else { 0 })
}

/// The two composite-gain profiles.
#[derive(Debug, Clone, Copy, PartialEq, Eq, Structural)]
pub enum GainProfile {
    /// The linearity tables.
    Linearity,
    /// The sensitivity tables.
    Sensitivity,
}

/// The table row a composite gain selects: the value clamped to 21,
/// then counted from the end of the table.
pub open spec fn composite_row(value: u8) -> int {
    21 - (if value > 21 {
        21
    } else {
        value as int
    })
}

/// The `(vga, mixer, lna)` gains of a profile's row.
pub open spec fn composite_gains_of(profile: GainProfile, row: int) -> (u8, u8, u8) {
    match profile {
        GainProfile::Linearity => (
            LINEARITY_VGA_GAINS@[row],
            LINEARITY_MIXER_GAINS@[row],
            LINEARITY_LNA_GAINS@[row],
        ),
        GainProfile::Sensitivity => (
            SENSITIVITY_VGA_GAINS@[row],
            SENSITIVITY_MIXER_GAINS@[row],
            SENSITIVITY_LNA_GAINS@[row],
        ),
    }
}

/// The gains a composite setting applies, as `(vga, mixer, lna)`.
pub fn composite_gains(value: u8, profile: GainProfile) -> (g: (u8, u8, u8))
    ensures
        g == composite_gains_of(profile, composite_row(value)),
{
    let clamped: usize = if value as usize > GAIN_COUNT - 1 {
        GAIN_COUNT - 1
    } else {
        value as usize
    };
    let idx = GAIN_COUNT - 1 - clamped;
    match profile {
        GainProfile::Linearity => (
            LINEARITY_VGA_GAINS[idx],
            LINEARITY_MIXER_GAINS[idx],
            LINEARITY_LNA_GAINS[idx],
        ),
        GainProfile::Sensitivity => (
            SENSITIVITY_VGA_GAINS[idx],
            SENSITIVITY_MIXER_GAINS[idx],
            SENSITIVITY_LNA_GAINS[idx],
        ),
    }
}

/// The sequence of a composite gain setting: both AGCs off, then the
/// row's VGA, mixer and LNA gains, in that order.
pub fn set_composite_gain(value: u8, profile: GainProfile) -> (rs: Vec<VendorRequest>)
    ensures
        rs@.len() == 5,
        is_in(rs@[0], Command::SetMixerAgc, NO_WVALUE, 0, 1),
        is_in(rs@[1], Command::SetLnaAgc, NO_WVALUE, 0, 1),
        ({
            let g = composite_gains_of(profile, composite_row(value));
            &&& is_in(rs@[2], Command::SetVgaGain, NO_WVALUE, if g.0 > 15 { 15 } else { g.0 as u16 }, 1)
            &&& is_in(rs@[3], Command::SetMixerGain, NO_WVALUE, if g.1 > 15 { 15 } else { g.1 as u16 }, 1)
            &&& is_in(rs@[4], Command::SetLnaGain, NO_WVALUE, if g.2 > 14 { 14 } else { g.2 as u16 }, 1)
        }),
{
    let (vga, mixer, lna) = composite_gains(value, profile);
    let mut rs: Vec<VendorRequest> = Vec::new();
    rs.push(set_mixer_agc_request(false));
    rs.push(set_lna_agc_request(false));
    rs.push(set_vga_gain_request(vga));
    rs.push(set_mixer_gain_request(mixer));
    rs.push(set_lna_gain_request(lna));
    rs
}

/// Set the linearity simplified gain (0-21).
pub fn set_linearity_gain(value: u8) -> (rs: Vec<VendorRequest>)
    ensures
        rs@.len() == 5,
        is_in(rs@[0], Command::SetMixerAgc, NO_WVALUE, 0, 1),
        is_in(rs@[1], Command::SetLnaAgc, NO_WVALUE, 0, 1),
        ({
            let g = composite_gains_of(GainProfile::Linearity, composite_row(value));
            &&& is_in(rs@[2], Command::SetVgaGain, NO_WVALUE, if g.0 > 15 { 15 } else { g.0 as u16 }, 1)
            &&& is_in(rs@[3], Command::SetMixerGain, NO_WVALUE, if g.1 > 15 { 15 } else { g.1 as u16 }, 1)
            &&& is_in(rs@[4], Command::SetLnaGain, NO_WVALUE, if g.2 > 14 { 14 } else { g.2 as u16 }, 1)
        }),
{
    set_composite_gain(value, GainProfile::Linearity)
}

/// Set the sensitivity simplified gain (0-21).
pub fn set_sensitivity_gain(value: u8) -> (rs: Vec<VendorRequest>)
    ensures
        rs@.len() == 5,
        is_in(rs@[0], Command::SetMixerAgc, NO_WVALUE, 0, 1),
        is_in(rs@[1], Command::SetLnaAgc, NO_WVALUE, 0, 1),
        ({
            let g = composite_gains_of(GainProfile::Sensitivity, composite_row(value));
            &&& is_in(rs@[2], Command::SetVgaGain, NO_WVALUE, if g.0 > 15 { 15 } else { g.0 as u16 }, 1)
            &&& is_in(rs@[3], Command::SetMixerGain, NO_WVALUE, if g.1 > 15 { 15 } else { g.1 as u16 }, 1)
            &&& is_in(rs@[4], Command::SetLnaGain, NO_WVALUE, if g.2 > 14 { 14 } else { g.2 as u16 }, 1)
        }),
{
    set_composite_gain(value, GainProfile::Sensitivity)
}

/// The `wIndex` of a GPIO request: `port << 5 | pin`.
pub open spec fn port_pin_of(port: GpioPort, pin: GpioPin) -> u16 {
    (port.code() * 32 + pin.code()) as u16
}

/// Pack a GPIO port and pin into `wIndex`.
pub fn port_pin(port: GpioPort, pin: GpioPin) -> (v: u16)
    ensures
        v == port_pin_of(port, pin),
{
    let p = port.as_u8();
    let n = pin.as_u8();
    assert((p << 5u8) | n == p * 32 + n) by (bit_vector)
        requires
            p < 8 && n < 32,
    ;
    ((p << 5) | n) as u16
}

/// Write a GPIO level (judged by [`check_empty`]).
pub fn gpio_write_request(port: GpioPort, pin: GpioPin, value: u8) -> (r: VendorRequest)
    ensures
        is_out(r, Command::GpioWrite, value as u16, port_pin_of(port, pin), Seq::empty()),
{
    vendor_out_empty(Command::GpioWrite, value as u16, port_pin(port, pin))
}

/// Read a GPIO level (one byte).
pub fn gpio_read_request(port: GpioPort, pin: GpioPin) -> (r: VendorRequest)
    ensures
        is_in(r, Command::GpioRead, NO_WVALUE, port_pin_of(port, pin), 1),
{
    vendor_in(Command::GpioRead, NO_WVALUE, port_pin(port, pin), 1)
}

/// Write a GPIO direction (0 = input, 1 = output).
pub fn gpiodir_write_request(port: GpioPort, pin: GpioPin, value: u8) -> (r: VendorRequest)
    ensures
        is_out(r, Command::GpiodirWrite, value as u16, port_pin_of(port, pin), Seq::empty()),
{
    vendor_out_empty(Command::GpiodirWrite, value as u16, port_pin(port, pin))
}

/// Read a GPIO direction (one byte).
pub fn gpiodir_read_request(port: GpioPort, pin: GpioPin) -> (r: VendorRequest)
    ensures
        is_in(r, Command::GpiodirRead, NO_WVALUE, port_pin_of(port, pin), 1),
{
    vendor_in(Command::GpiodirRead, NO_WVALUE, port_pin(port, pin), 1)
}

/// Toggle the bias tee: a GPIO write to port 1, pin 13.
pub fn set_rf_bias_request(enabled: bool) -> (r: VendorRequest)
    ensures
        is_out(r, Command::GpioWrite, if enabled { 1 } else { 0 }, 45, Seq::empty()),
{
    gpio_write_request(GpioPort::Port1, GpioPin::Pin13, if enabled { 1 } else { 0 })
}

/// Toggle 12-bit packed transfers; refused with [`Error::Busy`] while
/// streaming.
pub fn set_packing_request(streaming: bool, enabled: bool) -> (r: Result<VendorRequest, Error>)
    ensures
        streaming ==> r matches Err(Error::Busy),
        !streaming ==> (r matches Ok(q) && is_in(q, Command::SetPacking, NO_WVALUE, if enabled { 1 } else { 0 }, 1)),
{
    if streaming {
        return Err(Error::Busy);
    }
    Ok(in_setter(Command::SetPacking, if enabled { 1 } else { 0 }))
}

/// Switch the receiver mode (judged by [`check_empty`]).
pub fn set_receiver_mode_request(mode: ReceiverMode) -> (r: VendorRequest)
    ensures
        is_out(r, Command::ReceiverMode, mode.code() as u16, NO_WINDEX, Seq::empty()),
{
    vendor_out_empty(Command::ReceiverMode, mode.as_u8() as u16, NO_WINDEX)
}

/// Write an si5351c register.
pub fn si5351c_write_request(register: u8, value: u8) -> (r: VendorRequest)
    ensures
        is_out(r, Command::Si5351cWrite, value as u16, register as u16, Seq::empty()),
{
    vendor_out_empty(Command::Si5351cWrite, value as u16, register as u16)
}

/// Read an si5351c register (one byte).
pub fn si5351c_read_request(register: u8) -> (r: VendorRequest)
    ensures
        is_in(r, Command::Si5351cRead, NO_WVALUE, register as u16, 1),
{
    vendor_in(Command::Si5351cRead, NO_WVALUE, register as u16, 1)
}

/// Write an R820T register.
pub fn r820t_write_request(register: u8, value: u8) -> (r: VendorRequest)
    ensures
        is_out(r, Command::R820tWrite, value as u16, register as u16, Seq::empty()),
{
    vendor_out_empty(Command::R820tWrite, value as u16, register as u16)
}

/// Read an R820T register (one byte).
pub fn r820t_read_request(register: u8) -> (r: VendorRequest)
    ensures
        is_in(r, Command::R820tRead, NO_WVALUE, register as u16, 1),
{
    vendor_in(Command::R820tRead, NO_WVALUE, register as u16, 1)
}

/// Erase the whole SPI flash.
pub fn spiflash_erase_request() -> (r: VendorRequest)
    ensures
        is_out(r, Command::SpiflashErase, NO_WVALUE, NO_WINDEX, Seq::empty()),
{
    vendor_out_empty(Command::SpiflashErase, NO_WVALUE, NO_WINDEX)
}

/// Erase one SPI-flash sector.
pub fn spiflash_erase_sector_request(sector: u16) -> (r: VendorRequest)
    ensures
        is_out(r, Command::SpiflashEraseSector, sector, NO_WINDEX, Seq::empty()),
{
    vendor_out_empty(Command::SpiflashEraseSector, sector, NO_WINDEX)
}

/// The high half of a flash address (`address >> 16`, low 16 bits).
pub open spec fn address_high(address: u32) -> u16 {
    ((address / 65536) % 65536) as u16
}

/// The low half of a flash address (`address & 0xFFFF`).
pub open spec fn address_low(address: u32) -> u16 {
    (address % 65536) as u16
}

/// Write SPI flash: the address splits across `wValue` (high) and
/// `wIndex` (low). An address above [`SPIFLASH_MAX_ADDRESS`], or a
/// payload longer than 65535 bytes, is [`Error::InvalidParam`].
pub fn spiflash_write_request(address: u32, data: &[u8]) -> (r: Result<VendorRequest, Error>)
    ensures
        (address > SPIFLASH_MAX_ADDRESS || data@.len() > 65535) ==> r matches Err(Error::InvalidParam),
        !(address > SPIFLASH_MAX_ADDRESS || data@.len() > 65535) ==> (r matches Ok(q) && is_out(
            q,
            Command::SpiflashWrite,
            address_high(address),
            address_low(address),
            data@,
        )),
{
    if address > SPIFLASH_MAX_ADDRESS {
        return Err(Error::InvalidParam);
    }
    if data.len() > 65535 {
        return Err(Error::InvalidParam);
    }
    Ok(vendor_out(Command::SpiflashWrite, (address / 65536) as u16, (address % 65536) as u16, data))
}

/// Read `len` bytes of SPI flash (the address is not checked); a length
/// above 65535 is [`Error::InvalidParam`]. Judged by [`check_at_least`]
/// with `len`.
pub fn spiflash_read_request(address: u32, len: usize) -> (r: Result<VendorRequest, Error>)
    ensures
        len > 65535 ==> r matches Err(Error::InvalidParam),
        len <= 65535 ==> (r matches Ok(q) && is_in(
            q,
            Command::SpiflashRead,
            address_high(address),
            address_low(address),
            len as nat,
        )),
{
    if len > 65535 {
        return Err(Error::InvalidParam);
    }
    Ok(vendor_in(Command::SpiflashRead, ((address / 65536) % 65536) as u16, (address % 65536) as u16, len))
}

/// Read the board id: one byte.
pub fn board_id_request() -> (r: VendorRequest)
    ensures
        is_in(r, Command::BoardIdRead, NO_WVALUE, NO_WINDEX, 1),
{
    vendor_in(Command::BoardIdRead, NO_WVALUE, NO_WINDEX, 1)
}

/// Read the firmware version string: one byte less than
/// [`VERSION_LOCAL_SIZE`].
pub fn version_string_request() -> (r: VendorRequest)
    ensures
        is_in(r, Command::VersionStringRead, NO_WVALUE, NO_WINDEX, (VERSION_LOCAL_SIZE - 1) as nat),
{
    vendor_in(Command::VersionStringRead, NO_WVALUE, NO_WINDEX, VERSION_LOCAL_SIZE - 1)
}

/// Read the MCU part id and serial number: [`PARTID_SERIALNO_LEN`]
/// bytes.
pub fn partid_serialno_request() -> (r: VendorRequest)
    ensures
        is_in(r, Command::BoardPartIdSerialNoRead, NO_WVALUE, NO_WINDEX, PARTID_SERIALNO_LEN as nat),
{
    vendor_in(Command::BoardPartIdSerialNoRead, NO_WVALUE, NO_WINDEX, PARTID_SERIALNO_LEN)
}

/// The rate table assumed when the device cannot report its own.
pub const FALLBACK_SAMPLERATES: [u32; 2] = [10_000_000, 2_500_000];

/// Ask how many sample rates the device supports (a 4-byte reply).
pub fn samplerate_count_request() -> (r: VendorRequest)
    ensures
        is_in(r, Command::GetSamplerates, NO_WVALUE, NO_WINDEX, 4),
{
    vendor_in(Command::GetSamplerates, NO_WVALUE, NO_WINDEX, 4)
}

/// Ask for the `count` supported rates (four bytes each); the count
/// travels in `wIndex`.
pub fn samplerate_list_request(count: u16) -> (r: VendorRequest)
    ensures
        is_in(r, Command::GetSamplerates, NO_WVALUE, count, 4 * count as nat),
{
    vendor_in(Command::GetSamplerates, NO_WVALUE, count, 4 * count as usize)
}

/// The little-endian 32-bit words of `b`, a trailing partial word
/// left out.
pub open spec fn le_words(b: Seq<u8>) -> Seq<u32> {
    Seq::new(
        b.len() / 4,
        |k: int|
            (b[4 * k] + b[4 * k + 1] * 256 + b[4 * k + 2] * 65536 + b[4 * k + 3] * 16777216) as u32,
    )
}

/// The little-endian 32-bit words of a reply (a trailing partial word
/// is ignored).
pub fn decode_u32_list(bytes: &[u8]) -> (words: Vec<u32>)
    ensures
        words@ == le_words(bytes@),
        words@.len() == bytes@.len() / 4,
        forall|k: int|
            0 <= k < words@.len() ==> #[trigger] words@[k] == (bytes@[4 * k] + bytes@[4 * k + 1] * 256
                + bytes@[4 * k + 2] * 65536 + bytes@[4 * k + 3] * 16777216) as u32,
{
    let len = bytes.len();
    let n = len / 4;
    let mut words: Vec<u32> = Vec::new();
    let mut k: usize = 0;
    while k < n
        invariant
            len == bytes@.len(),
            n == bytes@.len() / 4,
            k <= n,
            words@.len() == k,
            forall|j: int|
                0 <= j < k ==> #[trigger] words@[j] == (bytes@[4 * j] + bytes@[4 * j + 1] * 256
                    + bytes@[4 * j + 2] * 65536 + bytes@[4 * j + 3] * 16777216) as u32,
        decreases n - k,
    {
        assert(4 * k + 3 < bytes@.len());
        let b0 = bytes[4 * k] as u32;
        let b1 = bytes[4 * k + 1] as u32;
        let b2 = bytes[4 * k + 2] as u32;
        let b3 = bytes[4 * k + 3] as u32;
        let w = b0 + b1 * 256 + b2 * 65536 + b3 * 16777216;
        words.push(w);
        k = k + 1;
    }
    assert(words@ =~= le_words(bytes@));
    words
}

/// How many rates to ask for once the count query has answered
/// (`None` when it failed): the reported count, when the reply holds a
/// whole word and the count is between 1 and 65535 (it travels in the
/// 16-bit `wIndex`). `None` keeps [`FALLBACK_SAMPLERATES`].
pub fn samplerate_list_len(count_reply: Option<&[u8]>) -> (n: Option<u16>)
    ensures
        match count_reply {
            None => n is None,
            Some(b) => if b@.len() >= 4 && 1 <= le_words(b@)[0] <= 65535 {
                n == Some(le_words(b@)[0] as u16)
            } else {
                n is None
            },
        },
{
    match count_reply {
        None => None,
        Some(b) => {
            let words = decode_u32_list(b);
            if words.len() == 0 {
                return None;
            }
            let count = words[0];
            if 1 <= count && count <= 65535 {
                Some(count as u16)
            } else {
                None
            }
        },
    }
}

/// The rate table a device keeps: the listed rates once the list query
/// has answered, else [`FALLBACK_SAMPLERATES`].
pub fn samplerates_from_reply(list_reply: Option<&[u8]>) -> (rates: Vec<u32>)
    ensures
        match list_reply {
            None => rates@ == FALLBACK_SAMPLERATES@,
            Some(b) => rates@ == le_words(b@),
        },
{
    match list_reply {
        None => {
            let v = vec![FALLBACK_SAMPLERATES[0], FALLBACK_SAMPLERATES[1]];
            assert(v@ =~= FALLBACK_SAMPLERATES@);
            v
        },
        Some(b) => decode_u32_list(b),
    }
}

/// The rates as reported for a sample type: the table itself for the
/// IQ types, each rate doubled (in 32-bit wrapping arithmetic) for the
/// real types, which run at twice the IQ rate.
pub fn samplerates_for_type(table: &[u32], sample_type: SampleType) -> (rates: Vec<u32>)
    ensures
        rates@.len() == table@.len(),
        forall|k: int|
            0 <= k < table@.len() ==> #[trigger] rates@[k] == if sample_type.spec_is_iq() {
                table@[k]
            } else {
                table@[k].wrapping_mul(2)
            },
{
    let iq = sample_type.is_iq();
    let mut rates: Vec<u32> = Vec::new();
    let mut k: usize = 0;
    while k < table.len()
        invariant
            k <= table@.len(),
            iq == sample_type.spec_is_iq(),
            rates@.len() == k,
            forall|j: int|
                0 <= j < k ==> #[trigger] rates@[j] == if iq {
                    table@[j]
                } else {
                    table@[j].wrapping_mul(2)
                },
        decreases table@.len() - k,
    {
        let r = table[k];
        rates.push(if iq { r } else { r.wrapping_mul(2) });
        k = k + 1;
    }
    rates
}

/// The GPIO `wIndex` names one pin: the port and the pin are read
/// back from it.
pub proof fn lemma_port_pin_decodes(port: GpioPort, pin: GpioPin)
    ensures
        port_pin_of(port, pin) / 32 == port.code(),
        port_pin_of(port, pin) % 32 == pin.code(),
        port_pin_of(port, pin) < 256,
{
}

/// A composite gain reads its own profile's three tables, at the row
/// counted from the end by the value clamped to 21: linearity reads
/// the linearity tables and sensitivity the sensitivity tables.
pub proof fn lemma_composite_gains_tables(value: u8)
    ensures
        ({
            let r = 21 - (if value > 21 {
                21int
            } else {
                value as int
            });
            &&& 0 <= r <= 21
            &&& composite_gains_of(GainProfile::Linearity, composite_row(value)) == (
                LINEARITY_VGA_GAINS@[r],
                LINEARITY_MIXER_GAINS@[r],
                LINEARITY_LNA_GAINS@[r],
            )
            &&& composite_gains_of(GainProfile::Sensitivity, composite_row(value)) == (
                SENSITIVITY_VGA_GAINS@[r],
                SENSITIVITY_MIXER_GAINS@[r],
                SENSITIVITY_LNA_GAINS@[r],
            )
        }),
{
}

/// How a sample-rate argument goes on the wire: a value below 1 MHz is
/// sent as it is; a rate found in the table is sent as its first
/// index (`u32::MAX` past that range); any other rate is sent in kHz,
/// doubled first (in 32-bit arithmetic) for every IQ sample type and
/// not for the real ones; the low 16 bits go out.
pub proof fn lemma_samplerate_value(samplerate: u32, table: Seq<u32>, sample_type: SampleType)
    ensures
        samplerate < 1_000_000 ==> samplerate_value(samplerate, table, sample_type) as int
            == samplerate as int % 65536,
        samplerate >= 1_000_000 && (forall|i: int| 0 <= i < table.len() ==> table[i] != samplerate)
            ==> samplerate_value(samplerate, table, sample_type) as int == (if sample_type.spec_is_iq() {
            (2 * samplerate as int) % 0x1_0000_0000 / 1000
        } else {
            samplerate as int / 1000
        }) % 65536,
        forall|i: int|
            0 <= i < table.len() && table[i] == samplerate && samplerate >= 1_000_000 && (forall|
                j: int,
            | 0 <= j < i ==> table[j] != samplerate) ==> samplerate_value(samplerate, table, sample_type)
                as int == (if i <= u32::MAX {
                i
            } else {
                u32::MAX as int
            }) % 65536,
{
    assert forall|i: int|
        0 <= i < table.len() && table[i] == samplerate && samplerate >= 1_000_000 && (forall|j: int|
            0 <= j < i ==> table[j] != samplerate) implies samplerate_value(
        samplerate,
        table,
        sample_type,
    ) as int == (if i <= u32::MAX {
        i
    } else {
        u32::MAX as int
    }) % 65536 by {
        assert(exists|k: int| 0 <= k < table.len() && table[k] == samplerate);
        let c = choose|k: int|
            0 <= k < table.len() && table[k] == samplerate && forall|j: int|
                0 <= j < k ==> table[j] != samplerate;
        assert(0 <= c < table.len() && table[c] == samplerate && forall|j: int|
            0 <= j < c ==> table[j] != samplerate);
        if c < i {
            assert(table[c] != samplerate);
        } else if c > i {
            assert(table[i] != samplerate);
        }
        assert(first_index_of(table, samplerate) == Some(i));
    }
}

} // verus!
