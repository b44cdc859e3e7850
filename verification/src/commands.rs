//! Wire-level constants and enums shared with the Airspy firmware.
//!
//! Every value here crosses the USB wire; the `as_u8` methods give the
//! byte each variant is encoded as.
use vstd::prelude::*;

verus! {

/// Highest vendor-request value.
pub const CMD_MAX: u8 = 27;

/// The samplerate-configuration commands pack extra flags above this
/// many bits of samplerate index.
pub const CONF_CMD_SHIFT_BIT: u8 = 3;

/// USB vendor requests shared between firmware and host.
#[derive(Debug, Clone, Copy, PartialEq, Eq, Structural)]
pub enum Command {
    /// Invalid request.
    Invalid,
    /// Set the receiver mode.
    ReceiverMode,
    /// Write an si5351c register.
    Si5351cWrite,
    /// Read an si5351c register.
    Si5351cRead,
    /// Write an R820T register.
    R820tWrite,
    /// Read an R820T register.
    R820tRead,
    /// Erase the SPI flash.
    SpiflashErase,
    /// Write the SPI flash.
    SpiflashWrite,
    /// Read the SPI flash.
    SpiflashRead,
    /// Read the board id.
    BoardIdRead,
    /// Read the firmware version string.
    VersionStringRead,
    /// Read the MCU part id and serial number.
    BoardPartIdSerialNoRead,
    /// Select the sample rate.
    SetSamplerate,
    /// Tune the receiver.
    SetFreq,
    /// Set the LNA gain.
    SetLnaGain,
    /// Set the mixer gain.
    SetMixerGain,
    /// Set the VGA gain.
    SetVgaGain,
    /// Toggle the LNA AGC.
    SetLnaAgc,
    /// Toggle the mixer AGC.
    SetMixerAgc,
    /// Microsoft OS descriptor vendor request.
    MsVendorCmd,
    /// Toggle the RF bias tee.
    SetRfBias,
    /// Write a GPIO level.
    GpioWrite,
    /// Read a GPIO level.
    GpioRead,
    /// Write a GPIO direction.
    GpiodirWrite,
    /// Read a GPIO direction.
    GpiodirRead,
    /// Query the supported sample rates.
    GetSamplerates,
    /// Toggle 12-bit packing.
    SetPacking,
    /// Erase one SPI flash sector.
    SpiflashEraseSector,
}

impl Command {
    /// The request byte of this command.
    pub open spec fn code(self) -> u8 {
        match self {
            Command::Invalid => 0u8,
            Command::ReceiverMode => 1u8,
            Command::Si5351cWrite => 2u8,
            Command::Si5351cRead => 3u8,
            Command::R820tWrite => 4u8,
            Command::R820tRead => 5u8,
            Command::SpiflashErase => 6u8,
            Command::SpiflashWrite => 7u8,
            Command::SpiflashRead => 8u8,
            Command::BoardIdRead => 9u8,
            Command::VersionStringRead => 10u8,
            Command::BoardPartIdSerialNoRead => 11u8,
            Command::SetSamplerate => 12u8,
            Command::SetFreq => 13u8,
            Command::SetLnaGain => 14u8,
            Command::SetMixerGain => 15u8,
            Command::SetVgaGain => 16u8,
            Command::SetLnaAgc => 17u8,
            Command::SetMixerAgc => 18u8,
            Command::MsVendorCmd => 19u8,
            Command::SetRfBias => 20u8,
            Command::GpioWrite => 21u8,
            Command::GpioRead => 22u8,
            Command::GpiodirWrite => 23u8,
            Command::GpiodirRead => 24u8,
            Command::GetSamplerates => 25u8,
            Command::SetPacking => 26u8,
            Command::SpiflashEraseSector => 27u8,
        }
    }

    /// The `bRequest` byte sent for this command.
    pub fn as_u8(self) -> (b: u8)
        ensures
            b == self.code(),
            b <= CMD_MAX,
    {
        match self {
            Command::Invalid => 0,
            Command::ReceiverMode => 1,
            Command::Si5351cWrite => 2,
            Command::Si5351cRead => 3,
            Command::R820tWrite => 4,
            Command::R820tRead => 5,
            Command::SpiflashErase => 6,
            Command::SpiflashWrite => 7,
            Command::SpiflashRead => 8,
            Command::BoardIdRead => 9,
            Command::VersionStringRead => 10,
            Command::BoardPartIdSerialNoRead => 11,
            Command::SetSamplerate => 12,
            Command::SetFreq => 13,
            Command::SetLnaGain => 14,
            Command::SetMixerGain => 15,
            Command::SetVgaGain => 16,
            Command::SetLnaAgc => 17,
            Command::SetMixerAgc => 18,
            Command::MsVendorCmd => 19,
            Command::SetRfBias => 20,
            Command::GpioWrite => 21,
            Command::GpioRead => 22,
            Command::GpiodirWrite => 23,
            Command::GpiodirRead => 24,
            Command::GetSamplerates => 25,
            Command::SetPacking => 26,
            Command::SpiflashEraseSector => 27,
        }
    }
}

/// Receiver mode.
#[derive(Debug, Clone, Copy, PartialEq, Eq, Structural)]
pub enum ReceiverMode {
    /// Receiver off.
    Off,
    /// Receiving.
    Rx,
}

impl ReceiverMode {
    /// The wire value of this mode.
    pub open spec fn code(self) -> u8 {
        match self {
            ReceiverMode::Off => 0u8,
            ReceiverMode::Rx => 1u8,
        }
    }

    /// The byte sent in `wValue` for this mode.
    pub fn as_u8(self) -> (b: u8)
        ensures
            b == self.code(),
    {
        match self {
            ReceiverMode::Off => 0,
            ReceiverMode::Rx => 1,
        }
    }
}

/// Output sample format.
#[derive(Debug, Clone, Copy, PartialEq, Eq, Structural)]
pub enum SampleType {
    /// 2 x 32-bit float per sample.
    Float32Iq,
    /// 1 x 32-bit float per sample.
    Float32Real,
    /// 2 x 16-bit int per sample.
    Int16Iq,
    /// 1 x 16-bit int per sample.
    Int16Real,
    /// 1 x 16-bit unsigned int per sample.
    Uint16Real,
    /// Raw packed samples from the device.
    Raw,
}

impl SampleType {
    /// Number of supported sample types.
    pub const COUNT: u8 = 6;

    /// The wire value of this sample type.
    pub open spec fn code(self) -> u8 {
        match self {
            SampleType::Float32Iq => 0u8,
            SampleType::Float32Real => 1u8,
            SampleType::Int16Iq => 2u8,
            SampleType::Int16Real => 3u8,
            SampleType::Uint16Real => 4u8,
            SampleType::Raw => 5u8,
        }
    }

    /// The numeric value of this sample type.
    pub fn as_u8(self) -> (b: u8)
        ensures
            b == self.code(),
            b < Self::COUNT,
    {
        match self {
            SampleType::Float32Iq => 0,
            SampleType::Float32Real => 1,
            SampleType::Int16Iq => 2,
            SampleType::Int16Real => 3,
            SampleType::Uint16Real => 4,
            SampleType::Raw => 5,
        }
    }

    /// Whether samples of this type are interleaved I/Q pairs.
    pub open spec fn spec_is_iq(self) -> bool {
        self == SampleType::Float32Iq || self == SampleType::Int16Iq
    }

    /// Whether samples of this type are interleaved I/Q pairs.
    #[verifier::when_used_as_spec(spec_is_iq)]
    pub fn is_iq(self) -> (b: bool)
        ensures
            b == self.spec_is_iq(),
    {
        match self {
            SampleType::Float32Iq | SampleType::Int16Iq => true,
            _ => false,
        }
    }
}

/// Board identifier.
#[derive(Debug, Clone, Copy, PartialEq, Eq, Structural)]
pub enum BoardId {
    /// The Airspy board.
    ProtoAirspy,
    /// An invalid board id.
    Invalid,
}

impl BoardId {
    /// The byte the device reports for this board id.
    pub open spec fn code(self) -> u8 {
        match self {
            BoardId::ProtoAirspy => 0u8,
            BoardId::Invalid => 0xFFu8,
        }
    }

    /// The board id byte of this variant.
    pub fn as_u8(self) -> (b: u8)
        ensures
            b == self.code(),
    {
        match self {
            BoardId::ProtoAirspy => 0,
            BoardId::Invalid => 0xFF,
        }
    }

    /// Decode a board id byte read from the device; `None` for values
    /// that name no known board.
    pub fn from_u8(value: u8) -> (r: Option<Self>)
        ensures
            r matches Some(id) ==> id.code() == value,
            r is None <==> (value != 0 && value != 0xFF),
    {
        match value {
            0 => Some(BoardId::ProtoAirspy),
            0xFF => Some(BoardId::Invalid),
            _ => None,
        }
    }

    /// The display name of the board.
    pub fn name(self) -> (s: &'static str)
        ensures
            self == BoardId::ProtoAirspy ==> s@ == "AIRSPY"@,
            self == BoardId::Invalid ==> s@ == "Invalid Board ID"@,
    {
        match self {
            BoardId::ProtoAirspy => "AIRSPY",
            BoardId::Invalid => "Invalid Board ID",
        }
    }
}

/// GPIO port, ports 0 to 7.
#[derive(Debug, Clone, Copy, PartialEq, Eq, Structural)]
pub enum GpioPort {
    /// Port 0.
    Port0,
    /// Port 1.
    Port1,
    /// Port 2.
    Port2,
    /// Port 3.
    Port3,
    /// Port 4.
    Port4,
    /// Port 5.
    Port5,
    /// Port 6.
    Port6,
    /// Port 7.
    Port7,
}

impl GpioPort {
    /// The port number.
    pub open spec fn code(self) -> u8 {
        match self {
            GpioPort::Port0 => 0u8,
            GpioPort::Port1 => 1u8,
            GpioPort::Port2 => 2u8,
            GpioPort::Port3 => 3u8,
            GpioPort::Port4 => 4u8,
            GpioPort::Port5 => 5u8,
            GpioPort::Port6 => 6u8,
            GpioPort::Port7 => 7u8,
        }
    }

    /// The port number of this port.
    pub fn as_u8(self) -> (b: u8)
        ensures
            b == self.code(),
            b < 8,
    {
        match self {
            GpioPort::Port0 => 0,
            GpioPort::Port1 => 1,
            GpioPort::Port2 => 2,
            GpioPort::Port3 => 3,
            GpioPort::Port4 => 4,
            GpioPort::Port5 => 5,
            GpioPort::Port6 => 6,
            GpioPort::Port7 => 7,
        }
    }

    /// The port with the given number, if there is one.
    pub fn from_u8(value: u8) -> (r: Option<Self>)
        ensures
            r is Some <==> value < 8,
            r matches Some(p) ==> p.code() == value,
    {
        match value {
            0 => Some(GpioPort::Port0),
            1 => Some(GpioPort::Port1),
            2 => Some(GpioPort::Port2),
            3 => Some(GpioPort::Port3),
            4 => Some(GpioPort::Port4),
            5 => Some(GpioPort::Port5),
            6 => Some(GpioPort::Port6),
            7 => Some(GpioPort::Port7),
            _ => None,
        }
    }
}

/// GPIO pin, pins 0 to 31.
#[derive(Debug, Clone, Copy, PartialEq, Eq, Structural)]
pub enum GpioPin {
    /// Pin 0.
    Pin0,
    /// Pin 1.
    Pin1,
    /// Pin 2.
    Pin2,
    /// Pin 3.
    Pin3,
    /// Pin 4.
    Pin4,
    /// Pin 5.
    Pin5,
    /// Pin 6.
    Pin6,
    /// Pin 7.
    Pin7,
    /// Pin 8.
    Pin8,
    /// Pin 9.
    Pin9,
    /// Pin 10.
    Pin10,
    /// Pin 11.
    Pin11,
    /// Pin 12.
    Pin12,
    /// Pin 13.
    Pin13,
    /// Pin 14.
    Pin14,
    /// Pin 15.
    Pin15,
    /// Pin 16.
    Pin16,
    /// Pin 17.
    Pin17,
    /// Pin 18.
    Pin18,
    /// Pin 19.
    Pin19,
    /// Pin 20.
    Pin20,
    /// Pin 21.
    Pin21,
    /// Pin 22.
    Pin22,
    /// Pin 23.
    Pin23,
    /// Pin 24.
    Pin24,
    /// Pin 25.
    Pin25,
    /// Pin 26.
    Pin26,
    /// Pin 27.
    Pin27,
    /// Pin 28.
    Pin28,
    /// Pin 29.
    Pin29,
    /// Pin 30.
    Pin30,
    /// Pin 31.
    Pin31,
}

impl GpioPin {
    /// The pin number.
    pub open spec fn code(self) -> u8 {
        match self {
            GpioPin::Pin0 => 0u8,
            GpioPin::Pin1 => 1u8,
            GpioPin::Pin2 => 2u8,
            GpioPin::Pin3 => 3u8,
            GpioPin::Pin4 => 4u8,
            GpioPin::Pin5 => 5u8,
            GpioPin::Pin6 => 6u8,
            GpioPin::Pin7 => 7u8,
            GpioPin::Pin8 => 8u8,
            GpioPin::Pin9 => 9u8,
            GpioPin::Pin10 => 10u8,
            GpioPin::Pin11 => 11u8,
            GpioPin::Pin12 => 12u8,
            GpioPin::Pin13 => 13u8,
            GpioPin::Pin14 => 14u8,
            GpioPin::Pin15 => 15u8,
            GpioPin::Pin16 => 16u8,
            GpioPin::Pin17 => 17u8,
            GpioPin::Pin18 => 18u8,
            GpioPin::Pin19 => 19u8,
            GpioPin::Pin20 => 20u8,
            GpioPin::Pin21 => 21u8,
            GpioPin::Pin22 => 22u8,
            GpioPin::Pin23 => 23u8,
            GpioPin::Pin24 => 24u8,
            GpioPin::Pin25 => 25u8,
            GpioPin::Pin26 => 26u8,
            GpioPin::Pin27 => 27u8,
            GpioPin::Pin28 => 28u8,
            GpioPin::Pin29 => 29u8,
            GpioPin::Pin30 => 30u8,
            GpioPin::Pin31 => 31u8,
        }
    }

    /// The pin number of this pin.
    pub fn as_u8(self) -> (b: u8)
        ensures
            b == self.code(),
            b < 32,
    {
        match self {
            GpioPin::Pin0 => 0,
            GpioPin::Pin1 => 1,
            GpioPin::Pin2 => 2,
            GpioPin::Pin3 => 3,
            GpioPin::Pin4 => 4,
            GpioPin::Pin5 => 5,
            GpioPin::Pin6 => 6,
            GpioPin::Pin7 => 7,
            GpioPin::Pin8 => 8,
            GpioPin::Pin9 => 9,
            GpioPin::Pin10 => 10,
            GpioPin::Pin11 => 11,
            GpioPin::Pin12 => 12,
            GpioPin::Pin13 => 13,
            GpioPin::Pin14 => 14,
            GpioPin::Pin15 => 15,
            GpioPin::Pin16 => 16,
            GpioPin::Pin17 => 17,
            GpioPin::Pin18 => 18,
            GpioPin::Pin19 => 19,
            GpioPin::Pin20 => 20,
            GpioPin::Pin21 => 21,
            GpioPin::Pin22 => 22,
            GpioPin::Pin23 => 23,
            GpioPin::Pin24 => 24,
            GpioPin::Pin25 => 25,
            GpioPin::Pin26 => 26,
            GpioPin::Pin27 => 27,
            GpioPin::Pin28 => 28,
            GpioPin::Pin29 => 29,
            GpioPin::Pin30 => 30,
            GpioPin::Pin31 => 31,
        }
    }

    /// The pin with the given number, if there is one.
    pub fn from_u8(value: u8) -> (r: Option<Self>)
        ensures
            r is Some <==> value < 32,
            r matches Some(p) ==> p.code() == value,
    {
        match value {
            0 => Some(GpioPin::Pin0),
            1 => Some(GpioPin::Pin1),
            2 => Some(GpioPin::Pin2),
            3 => Some(GpioPin::Pin3),
            4 => Some(GpioPin::Pin4),
            5 => Some(GpioPin::Pin5),
            6 => Some(GpioPin::Pin6),
            7 => Some(GpioPin::Pin7),
            8 => Some(GpioPin::Pin8),
            9 => Some(GpioPin::Pin9),
            10 => Some(GpioPin::Pin10),
            11 => Some(GpioPin::Pin11),
            12 => Some(GpioPin::Pin12),
            13 => Some(GpioPin::Pin13),
            14 => Some(GpioPin::Pin14),
            15 => Some(GpioPin::Pin15),
            16 => Some(GpioPin::Pin16),
            17 => Some(GpioPin::Pin17),
            18 => Some(GpioPin::Pin18),
            19 => Some(GpioPin::Pin19),
            20 => Some(GpioPin::Pin20),
            21 => Some(GpioPin::Pin21),
            22 => Some(GpioPin::Pin22),
            23 => Some(GpioPin::Pin23),
            24 => Some(GpioPin::Pin24),
            25 => Some(GpioPin::Pin25),
            26 => Some(GpioPin::Pin26),
            27 => Some(GpioPin::Pin27),
            28 => Some(GpioPin::Pin28),
            29 => Some(GpioPin::Pin29),
            30 => Some(GpioPin::Pin30),
            31 => Some(GpioPin::Pin31),
            _ => None,
        }
    }
}

/// Device configuration page.
#[derive(Debug, Clone, Copy, PartialEq, Eq, Structural)]
pub enum ConfigPage {
    /// The calibration page.
    Calibration,
}

impl ConfigPage {
    /// The page number.
    pub fn as_u8(self) -> (b: u8)
        ensures
            b == 0,
    {
        match self {
            ConfigPage::Calibration => 0,
        }
    }
}

} // verus!
