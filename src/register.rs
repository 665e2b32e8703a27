//! The register catalog of the TMP117: addresses, bit layouts and
//! capabilities of every register.
use vstd::prelude::*;

verus! {

/// Address of the temperature result register.
pub const TEMPERATURE_ADDR: u8 = 0x00;

/// Address of the configuration register.
pub const CONFIGURATION_ADDR: u8 = 0x01;

/// Address of the high limit register.
pub const HIGH_LIMIT_ADDR: u8 = 0x02;

/// Address of the low limit register.
pub const LOW_LIMIT_ADDR: u8 = 0x03;

/// Address of the EEPROM unlock register.
pub const EEPROM_ADDR: u8 = 0x04;

/// Address of the first user EEPROM word.
pub const UEEPROM1_ADDR: u8 = 0x05;

/// Address of the second user EEPROM word.
pub const UEEPROM2_ADDR: u8 = 0x06;

/// Address of the third user EEPROM word.
pub const UEEPROM3_ADDR: u8 = 0x07;

/// Address of the temperature offset register.
pub const TEMPERATURE_OFFSET_ADDR: u8 = 0x08;

/// Address of the device ID register.
pub const DEVICE_ID_ADDR: u8 = 0x0F;

/// The address of a register.
#[derive(Debug, Clone, Copy, PartialEq, Eq, Structural)]
pub struct Address(pub u8);

/// A single bit as a number.
pub open spec fn flag(b: bool) -> u16 {
    if b {
        1
    } else {
        0
    }
}

fn flag_exec(b: bool) -> (r: u16)
    ensures
        r == flag(b),
{
    if b {
        1
    } else {
        0
    }
}

/// Represent the data ready or alert pin select.
#[derive(Debug, Clone, Copy, PartialEq, Eq, Structural)]
pub enum AlertPinSelect {
    /// Alert pin reflects the status of the alert flag.
    Alert,
    /// Alert pin reflects the status of the data ready flag.
    DataReady,
}

impl AlertPinSelect {
    /// The bit pattern of the field.
    pub open spec fn spec_bits(self) -> u16 {
        match self {
            AlertPinSelect::Alert => 0,
            AlertPinSelect::DataReady => 1,
        }
    }

    /// The value held by a one-bit pattern.
    pub open spec fn spec_from_bits(v: u16) -> Self {
        if v == 0 {
            AlertPinSelect::Alert
        } else {
            AlertPinSelect::DataReady
        }
    }

    /// The bit pattern of the field.
    pub fn bits(self) -> (r: u16)
        ensures
            r == self.spec_bits(),
    {
        match self {
            AlertPinSelect::Alert => 0,
            AlertPinSelect::DataReady => 1,
        }
    }

    /// The value held by a one-bit pattern.
    pub fn from_bits(v: u16) -> (r: Self)
        requires
            v < 2,
        ensures
            r == Self::spec_from_bits(v),
            r.spec_bits() == v,
    {
        if v == 0 {
            AlertPinSelect::Alert
        } else {
            AlertPinSelect::DataReady
        }
    }
}

/// Possible polarities of the alert pin.
#[derive(Debug, Clone, Copy, PartialEq, Eq, Structural)]
pub enum Polarity {
    /// Polarity set to active low.
    ActiveLow,
    /// Polarity set to active high.
    ActiveHigh,
}

impl Polarity {
    /// The bit pattern of the field.
    pub open spec fn spec_bits(self) -> u16 {
        match self {
            Polarity::ActiveLow => 0,
            Polarity::ActiveHigh => 1,
        }
    }

    /// The value held by a one-bit pattern.
    pub open spec fn spec_from_bits(v: u16) -> Self {
        if v == 0 {
            Polarity::ActiveLow
        } else {
            Polarity::ActiveHigh
        }
    }

    /// The bit pattern of the field.
    pub fn bits(self) -> (r: u16)
        ensures
            r == self.spec_bits(),
    {
        match self {
            Polarity::ActiveLow => 0,
            Polarity::ActiveHigh => 1,
        }
    }

    /// The value held by a one-bit pattern.
    pub fn from_bits(v: u16) -> (r: Self)
        requires
            v < 2,
        ensures
            r == Self::spec_from_bits(v),
            r.spec_bits() == v,
    {
        if v == 0 {
            Polarity::ActiveLow
        } else {
            Polarity::ActiveHigh
        }
    }
}

/// Thermal or alert mode selection.
#[derive(Debug, Clone, Copy, PartialEq, Eq, Structural)]
pub enum TriggerMode {
    /// Alert mode.
    Alert,
    /// Thermal mode.
    Thermal,
}

impl TriggerMode {
    /// The bit pattern of the field.
    pub open spec fn spec_bits(self) -> u16 {
        match self {
            TriggerMode::Alert => 0,
            TriggerMode::Thermal => 1,
        }
    }

    /// The value held by a one-bit pattern.
    pub open spec fn spec_from_bits(v: u16) -> Self {
        if v == 0 {
            TriggerMode::Alert
        } else {
            TriggerMode::Thermal
        }
    }

    /// The bit pattern of the field.
    pub fn bits(self) -> (r: u16)
        ensures
            r == self.spec_bits(),
    {
        match self {
            TriggerMode::Alert => 0,
            TriggerMode::Thermal => 1,
        }
    }

    /// The value held by a one-bit pattern.
    pub fn from_bits(v: u16) -> (r: Self)
        requires
            v < 2,
        ensures
            r == Self::spec_from_bits(v),
            r.spec_bits() == v,
    {
        if v == 0 {
            TriggerMode::Alert
        } else {
            TriggerMode::Thermal
        }
    }
}

/// Conversion averaging modes. Determines the number of conversion results
/// that are collected and averaged before updating the temperature register.
/// The average is an accumulated average and not a running average.
#[derive(Debug, Clone, Copy, PartialEq, Eq, Structural)]
pub enum Average {
    /// No averaging.
    NoAverage,
    /// 8 averaged conversions.
    Avg8,
    /// 32 averaged conversions.
    Avg32,
    /// 64 averaged conversions.
    Avg64,
}

impl Average {
    /// The bit pattern of the field.
    pub open spec fn spec_bits(self) -> u16 {
        match self {
            Average::NoAverage => 0,
            Average::Avg8 => 1,
            Average::Avg32 => 2,
            Average::Avg64 => 3,
        }
    }

    /// The value held by a two-bit pattern.
    pub open spec fn spec_from_bits(v: u16) -> Self {
        if v == 0 {
            Average::NoAverage
        } else if v == 1 {
            Average::Avg8
        } else if v == 2 {
            Average::Avg32
        } else {
            Average::Avg64
        }
    }

    /// The bit pattern of the field.
    pub fn bits(self) -> (r: u16)
        ensures
            r == self.spec_bits(),
    {
        match self {
            Average::NoAverage => 0,
            Average::Avg8 => 1,
            Average::Avg32 => 2,
            Average::Avg64 => 3,
        }
    }

    /// The value held by a two-bit pattern.
    pub fn from_bits(v: u16) -> (r: Self)
        requires
            v < 4,
        ensures
            r == Self::spec_from_bits(v),
            r.spec_bits() == v,
    {
        if v == 0 {
            Average::NoAverage
        } else if v == 1 {
            Average::Avg8
        } else if v == 2 {
            Average::Avg32
        } else {
            Average::Avg64
        }
    }
}

impl Default for Average {
    fn default() -> (r: Self)
        ensures
            r == Average::NoAverage,
    {
        Average::NoAverage
    }
}

/// Conversion cycle. The cycle time also depends on the average selected;
/// each variant is named after its cycle time without averaging.
#[derive(Debug, Clone, Copy, PartialEq, Eq, Structural)]
pub enum Conversion {
    /// 15.5 ms cycle time without average.
    Ms15_5,
    /// 125 ms cycle time without average.
    Ms125,
    /// 250 ms cycle time without average.
    Ms250,
    /// 500 ms cycle time without average.
    Ms500,
    /// 1000 ms cycle time without average.
    Ms1000,
    /// 4000 ms cycle time without average.
    Ms4000,
    /// 8000 ms cycle time without average.
    Ms8000,
    /// 16000 ms cycle time without average.
    Ms16000,
}

impl Conversion {
    /// The bit pattern of the field.
    pub open spec fn spec_bits(self) -> u16 {
        match self {
            Conversion::Ms15_5 => 0,
            Conversion::Ms125 => 1,
            Conversion::Ms250 => 2,
            Conversion::Ms500 => 3,
            Conversion::Ms1000 => 4,
            Conversion::Ms4000 => 5,
            Conversion::Ms8000 => 6,
            Conversion::Ms16000 => 7,
        }
    }

    /// The value held by a three-bit pattern.
    pub open spec fn spec_from_bits(v: u16) -> Self {
        if v == 0 {
            Conversion::Ms15_5
        } else if v == 1 {
            Conversion::Ms125
        } else if v == 2 {
            Conversion::Ms250
        } else if v == 3 {
            Conversion::Ms500
        } else if v == 4 {
            Conversion::Ms1000
        } else if v == 5 {
            Conversion::Ms4000
        } else if v == 6 {
            Conversion::Ms8000
        } else {
            Conversion::Ms16000
        }
    }

    /// The bit pattern of the field.
    pub fn bits(self) -> (r: u16)
        ensures
            r == self.spec_bits(),
    {
        match self {
            Conversion::Ms15_5 => 0,
            Conversion::Ms125 => 1,
            Conversion::Ms250 => 2,
            Conversion::Ms500 => 3,
            Conversion::Ms1000 => 4,
            Conversion::Ms4000 => 5,
            Conversion::Ms8000 => 6,
            Conversion::Ms16000 => 7,
        }
    }

    /// The value held by a three-bit pattern.
    pub fn from_bits(v: u16) -> (r: Self)
        requires
            v < 8,
        ensures
            r == Self::spec_from_bits(v),
            r.spec_bits() == v,
    {
        if v == 0 {
            Conversion::Ms15_5
        } else if v == 1 {
            Conversion::Ms125
        } else if v == 2 {
            Conversion::Ms250
        } else if v == 3 {
            Conversion::Ms500
        } else if v == 4 {
            Conversion::Ms1000
        } else if v == 5 {
            Conversion::Ms4000
        } else if v == 6 {
            Conversion::Ms8000
        } else {
            Conversion::Ms16000
        }
    }
}

impl Default for Conversion {
    fn default() -> (r: Self)
        ensures
            r == Conversion::Ms15_5,
    {
        Conversion::Ms15_5
    }
}

/// Conversion mode. The pattern `0b10` is reserved and decodes to nothing.
#[derive(Debug, Clone, Copy, PartialEq, Eq, Structural)]
pub enum ConversionMode {
    /// Continuous conversion mode.
    Continuous,
    /// Shutdown conversion mode.
    Shutdown,
    /// One-shot conversion mode.
    OneShot,
}

impl ConversionMode {
    /// The bit pattern of the field.
    pub open spec fn spec_bits(self) -> u16 {
        match self {
            ConversionMode::Continuous => 0b00,
            ConversionMode::Shutdown => 0b01,
            ConversionMode::OneShot => 0b11,
        }
    }

    /// The value held by a two-bit pattern, if any.
    pub open spec fn spec_from_bits(v: u16) -> Option<Self> {
        if v == 0b00 {
            Some(ConversionMode::Continuous)
        } else if v == 0b01 {
            Some(ConversionMode::Shutdown)
        } else if v == 0b11 {
            Some(ConversionMode::OneShot)
        } else {
            None
        }
    }

    /// The bit pattern of the field.
    pub fn bits(self) -> (r: u16)
        ensures
            r == self.spec_bits(),
    {
        match self {
            ConversionMode::Continuous => 0b00,
            ConversionMode::Shutdown => 0b01,
            ConversionMode::OneShot => 0b11,
        }
    }

    /// The value held by a two-bit pattern; the reserved pattern `0b10` and
    /// anything wider than two bits give `None`.
    pub fn from_bits(v: u16) -> (r: Option<Self>)
        ensures
            r == Self::spec_from_bits(v),
            r is None <==> (v != 0 && v != 1 && v != 3),
            r matches Some(m) ==> m.spec_bits() == v,
    {
        if v == 0b00 {
            Some(ConversionMode::Continuous)
        } else if v == 0b01 {
            Some(ConversionMode::Shutdown)
        } else if v == 0b11 {
            Some(ConversionMode::OneShot)
        } else {
            None
        }
    }
}

/// Configuration register of the TMP117.
///
/// Fields from the least significant bit: one reserved bit, `reset`,
/// `dr_alert`, `polarity`, `trigger_mode`, two bits of `average`, three bits
/// of `conversion`, two bits of `mode`, then the status flags `eeprom_busy`,
/// `data_ready`, `low_alert` and `high_alert`.
#[derive(Debug, Clone, Copy, PartialEq, Eq, Structural)]
pub struct Configuration {
    /// Reserved bit, kept as read.
    pub reserved: bool,
    /// Software reset. When set, causes a reset lasting 2 ms. Reads back 0.
    pub reset: bool,
    /// Data ready or alert pin select bit.
    pub dr_alert: AlertPinSelect,
    /// Alert pin polarity.
    pub polarity: Polarity,
    /// Thermal or alert mode select.
    pub trigger_mode: TriggerMode,
    /// Average used for the conversion.
    pub average: Average,
    /// Conversion cycle.
    pub conversion: Conversion,
    /// Conversion mode.
    pub mode: ConversionMode,
    /// EEPROM busy flag, set while programming or at power-up. Read only.
    pub eeprom_busy: bool,
    /// Data ready flag: a conversion completed and the temperature register
    /// can be read. Cleared whenever the temperature or configuration
    /// register is read. Read only.
    pub data_ready: bool,
    /// Set when the result is below the low limit (alert mode); always 0 in
    /// thermal mode. Cleared when read. Read only.
    pub low_alert: bool,
    /// Set when the result is above the high limit. In alert mode it is
    /// cleared when read; in thermal mode when the result drops below the
    /// hysteresis. Read only.
    pub high_alert: bool,
}

/// The two-bit pattern of the conversion mode field of a configuration word.
pub open spec fn mode_bits(w: u16) -> u16 {
    (w >> 10u16) & 3
}

impl Configuration {
    /// The configuration word that holds these fields.
    pub open spec fn spec_word(self) -> u16 {
        flag(self.reserved) | (flag(self.reset) << 1u16) | (self.dr_alert.spec_bits() << 2u16) | (
        self.polarity.spec_bits() << 3u16) | (self.trigger_mode.spec_bits() << 4u16) | (
        self.average.spec_bits() << 5u16) | (self.conversion.spec_bits() << 7u16) | (
        self.mode.spec_bits() << 10u16) | (flag(self.eeprom_busy) << 12u16) | (flag(
            self.data_ready,
        ) << 13u16) | (flag(self.low_alert) << 14u16) | (flag(self.high_alert) << 15u16)
    }

    /// The fields held by a configuration word; `None` where the mode field
    /// holds the reserved pattern.
    pub open spec fn spec_decode(w: u16) -> Option<Configuration> {
        match ConversionMode::spec_from_bits(mode_bits(w)) {
            Some(mode) => Some(
                Configuration {
                    reserved: w & 1 == 1,
                    reset: (w >> 1u16) & 1 == 1,
                    dr_alert: AlertPinSelect::spec_from_bits((w >> 2u16) & 1),
                    polarity: Polarity::spec_from_bits((w >> 3u16) & 1),
                    trigger_mode: TriggerMode::spec_from_bits((w >> 4u16) & 1),
                    average: Average::spec_from_bits((w >> 5u16) & 3),
                    conversion: Conversion::spec_from_bits((w >> 7u16) & 7),
                    mode,
                    eeprom_busy: (w >> 12u16) & 1 == 1,
                    data_ready: (w >> 13u16) & 1 == 1,
                    low_alert: (w >> 14u16) & 1 == 1,
                    high_alert: (w >> 15u16) & 1 == 1,
                },
            ),
            None => None,
        }
    }

    /// The configuration word that holds these fields.
    pub fn to_bits(&self) -> (r: u16)
        ensures
            r == self.spec_word(),
    {
        flag_exec(self.reserved) | (flag_exec(self.reset) << 1u16) | (self.dr_alert.bits() << 2u16)
            | (self.polarity.bits() << 3u16) | (self.trigger_mode.bits() << 4u16) | (
        self.average.bits() << 5u16) | (self.conversion.bits() << 7u16) | (self.mode.bits()
            << 10u16) | (flag_exec(self.eeprom_busy) << 12u16) | (flag_exec(self.data_ready)
            << 13u16) | (flag_exec(self.low_alert) << 14u16) | (flag_exec(self.high_alert)
            << 15u16)
    }

    /// Decodes a configuration word. The reserved mode pattern `0b10` is
    /// rejected; every other word decodes to the fields that encode it back.
    pub fn from_bits(w: u16) -> (r: Option<Configuration>)
        ensures
            r == Self::spec_decode(w),
            r is None <==> mode_bits(w) == 0b10,
            r matches Some(c) ==> c.spec_word() == w,
    {
        proof {
            lemma_decode_word(w);
            assert((w >> 2u16) & 1 < 2 && (w >> 3u16) & 1 < 2 && (w >> 4u16) & 1 < 2 && (w >> 5u16)
                & 3 < 4 && (w >> 7u16) & 7 < 8 && mode_bits(w) < 4) by (bit_vector);
        }
        let mode = match ConversionMode::from_bits((w >> 10u16) & 3) {
            Some(m) => m,
            None => {
                return None;
            },
        };
        Some(
            Configuration {
                reserved: w & 1 == 1,
                reset: (w >> 1u16) & 1 == 1,
                dr_alert: AlertPinSelect::from_bits((w >> 2u16) & 1),
                polarity: Polarity::from_bits((w >> 3u16) & 1),
                trigger_mode: TriggerMode::from_bits((w >> 4u16) & 1),
                average: Average::from_bits((w >> 5u16) & 3),
                conversion: Conversion::from_bits((w >> 7u16) & 7),
                mode,
                eeprom_busy: (w >> 12u16) & 1 == 1,
                data_ready: (w >> 13u16) & 1 == 1,
                low_alert: (w >> 14u16) & 1 == 1,
                high_alert: (w >> 15u16) & 1 == 1,
            },
        )
    }
}

impl Configuration {
    /// Sets the software reset bit, leaving the other fields as they are.
    pub fn set_reset(&mut self, v: bool)
        ensures
            *final(self) == (Configuration { reset: v, ..*old(self) }),
    {
        self.reset = v;
    }

    /// Sets the alert pin select bit, leaving the other fields as they are.
    pub fn set_dr_alert(&mut self, v: AlertPinSelect)
        ensures
            *final(self) == (Configuration { dr_alert: v, ..*old(self) }),
    {
        self.dr_alert = v;
    }

    /// Sets the alert pin polarity, leaving the other fields as they are.
    pub fn set_polarity(&mut self, v: Polarity)
        ensures
            *final(self) == (Configuration { polarity: v, ..*old(self) }),
    {
        self.polarity = v;
    }

    /// Sets the thermal/alert mode select, leaving the other fields as they are.
    pub fn set_trigger_mode(&mut self, v: TriggerMode)
        ensures
            *final(self) == (Configuration { trigger_mode: v, ..*old(self) }),
    {
        self.trigger_mode = v;
    }

    /// Sets the averaging mode, leaving the other fields as they are.
    pub fn set_average(&mut self, v: Average)
        ensures
            *final(self) == (Configuration { average: v, ..*old(self) }),
    {
        self.average = v;
    }

    /// Sets the conversion cycle, leaving the other fields as they are.
    pub fn set_conversion(&mut self, v: Conversion)
        ensures
            *final(self) == (Configuration { conversion: v, ..*old(self) }),
    {
        self.conversion = v;
    }

    /// Sets the conversion mode, leaving the other fields as they are.
    pub fn set_mode(&mut self, v: ConversionMode)
        ensures
            *final(self) == (Configuration { mode: v, ..*old(self) }),
    {
        self.mode = v;
    }
}

proof fn lemma_flag_bit(v: u16)
    requires
        v < 2,
    ensures
        flag(v == 1) == v,
{
}

/// A word that decodes encodes back to itself.
proof fn lemma_decode_word(w: u16)
    ensures
        Configuration::spec_decode(w) matches Some(c) ==> c.spec_word() == w,
{
    let b0 = w & 1;
    let b1 = (w >> 1u16) & 1;
    let b2 = (w >> 2u16) & 1;
    let b3 = (w >> 3u16) & 1;
    let b4 = (w >> 4u16) & 1;
    let a = (w >> 5u16) & 3;
    let cv = (w >> 7u16) & 7;
    let m = (w >> 10u16) & 3;
    let b12 = (w >> 12u16) & 1;
    let b13 = (w >> 13u16) & 1;
    let b14 = (w >> 14u16) & 1;
    let b15 = (w >> 15u16) & 1;
    assert(b0 < 2 && b1 < 2 && b2 < 2 && b3 < 2 && b4 < 2 && a < 4 && cv < 8 && m < 4 && b12 < 2
        && b13 < 2 && b14 < 2 && b15 < 2) by (bit_vector)
        requires
            b0 == w & 1,
            b1 == (w >> 1u16) & 1,
            b2 == (w >> 2u16) & 1,
            b3 == (w >> 3u16) & 1,
            b4 == (w >> 4u16) & 1,
            a == (w >> 5u16) & 3,
            cv == (w >> 7u16) & 7,
            m == (w >> 10u16) & 3,
            b12 == (w >> 12u16) & 1,
            b13 == (w >> 13u16) & 1,
            b14 == (w >> 14u16) & 1,
            b15 == (w >> 15u16) & 1,
    ;
    assert(w == b0 | (b1 << 1u16) | (b2 << 2u16) | (b3 << 3u16) | (b4 << 4u16) | (a << 5u16) | (cv
        << 7u16) | (m << 10u16) | (b12 << 12u16) | (b13 << 13u16) | (b14 << 14u16) | (b15
        << 15u16)) by (bit_vector)
        requires
            b0 == w & 1,
            b1 == (w >> 1u16) & 1,
            b2 == (w >> 2u16) & 1,
            b3 == (w >> 3u16) & 1,
            b4 == (w >> 4u16) & 1,
            a == (w >> 5u16) & 3,
            cv == (w >> 7u16) & 7,
            m == (w >> 10u16) & 3,
            b12 == (w >> 12u16) & 1,
            b13 == (w >> 13u16) & 1,
            b14 == (w >> 14u16) & 1,
            b15 == (w >> 15u16) & 1,
    ;
    lemma_flag_bit(b0);
    lemma_flag_bit(b1);
    lemma_flag_bit(b12);
    lemma_flag_bit(b13);
    lemma_flag_bit(b14);
    lemma_flag_bit(b15);
}

/// Encoding a configuration and decoding the word gives back the same
/// fields, for every value of every field.
pub proof fn lemma_config_round_trip(c: Configuration)
    ensures
        Configuration::spec_decode(c.spec_word()) == Some(c),
{
    let b0 = flag(c.reserved);
    let b1 = flag(c.reset);
    let b2 = c.dr_alert.spec_bits();
    let b3 = c.polarity.spec_bits();
    let b4 = c.trigger_mode.spec_bits();
    let a = c.average.spec_bits();
    let cv = c.conversion.spec_bits();
    let m = c.mode.spec_bits();
    let b12 = flag(c.eeprom_busy);
    let b13 = flag(c.data_ready);
    let b14 = flag(c.low_alert);
    let b15 = flag(c.high_alert);
    let w = c.spec_word();
    assert(w & 1 == b0 && (w >> 1u16) & 1 == b1 && (w >> 2u16) & 1 == b2 && (w >> 3u16) & 1 == b3
        && (w >> 4u16) & 1 == b4 && (w >> 5u16) & 3 == a && (w >> 7u16) & 7 == cv && (w >> 10u16)
        & 3 == m && (w >> 12u16) & 1 == b12 && (w >> 13u16) & 1 == b13 && (w >> 14u16) & 1 == b14
        && (w >> 15u16) & 1 == b15) by (bit_vector)
        requires
            b0 < 2,
            b1 < 2,
            b2 < 2,
            b3 < 2,
            b4 < 2,
            a < 4,
            cv < 8,
            m < 4,
            b12 < 2,
            b13 < 2,
            b14 < 2,
            b15 < 2,
            w == b0 | (b1 << 1u16) | (b2 << 2u16) | (b3 << 3u16) | (b4 << 4u16) | (a << 5u16) | (cv
                << 7u16) | (m << 10u16) | (b12 << 12u16) | (b13 << 13u16) | (b14 << 14u16) | (b15
                << 15u16),
    ;
}

/// A register of the device: its address and how its word is read.
pub trait Register: Sized + Copy {
    /// The address of the register.
    spec fn reg_address() -> u8;

    /// The value that a word read from the register holds; `None` where the
    /// word holds a pattern that the register does not define.
    spec fn reg_decode(w: u16) -> Option<Self>;

    /// The word that holds this value.
    spec fn reg_word(&self) -> u16;

    /// The address of the register.
    fn address() -> (r: Address)
        ensures
            r.0 == Self::reg_address(),
    ;

    /// Decodes a word read from the register.
    fn try_from_word(w: u16) -> (r: Option<Self>)
        ensures
            r == Self::reg_decode(w),
            r matches Some(v) ==> v.reg_word() == w,
    ;

    /// The word that holds this value; it decodes back to the value.
    fn to_word(&self) -> (r: u16)
        ensures
            r == self.reg_word(),
            Self::reg_decode(r) == Some(*self),
    ;
}

/// A register that may be the target of a read-modify-write.
pub trait EditableRegister: Register {

}

/// A register that may be written with a value that was not read first.
pub trait WritableRegister: EditableRegister {

}

impl Register for Configuration {
    open spec fn reg_address() -> u8 {
        CONFIGURATION_ADDR
    }

    open spec fn reg_decode(w: u16) -> Option<Self> {
        Configuration::spec_decode(w)
    }

    open spec fn reg_word(&self) -> u16 {
        self.spec_word()
    }

    fn address() -> (r: Address) {
        Address(CONFIGURATION_ADDR)
    }

    fn try_from_word(w: u16) -> (r: Option<Self>) {
        Configuration::from_bits(w)
    }

    fn to_word(&self) -> (r: u16) {
        proof {
            lemma_config_round_trip(*self);
        }
        self.to_bits()
    }
}

impl EditableRegister for Configuration {

}

/// Temperature result register, in two's complement with one LSB equal to
/// 7.8125 m°C. After a reset it reads -256 °C until the first conversion,
/// averaging included, completes.
#[derive(Debug, Clone, Copy, PartialEq, Eq, Structural)]
pub struct Temperature(pub u16);

impl Register for Temperature {
    open spec fn reg_address() -> u8 {
        TEMPERATURE_ADDR
    }

    open spec fn reg_decode(w: u16) -> Option<Self> {
        Some(Temperature(w))
    }

    open spec fn reg_word(&self) -> u16 {
        self.0
    }

    fn address() -> (r: Address) {
        Address(TEMPERATURE_ADDR)
    }

    fn try_from_word(w: u16) -> (r: Option<Self>) {
        Some(Temperature(w))
    }

    fn to_word(&self) -> (r: u16) {
        self.0
    }
}

/// The two's complement value of a 16-bit word.
pub open spec fn signed(w: u16) -> int {
    if w < 0x8000 {
        w as int
    } else {
        w as int - 0x10000
    }
}

impl Temperature {
    /// The temperature in LSBs of 7.8125 m°C (1/128 °C).
    pub fn ticks(&self) -> (r: i16)
        ensures
            r as int == signed(self.0),
    {
        if self.0 < 0x8000 {
            self.0 as i16
        } else {
            (self.0 as i32 - 0x10000) as i16
        }
    }
}
/// High limit register, compared with the temperature result. Same format
/// as the temperature register. Loaded from the EEPROM at power-up and reset;
/// the factory default is 6000h.
#[derive(Debug, Clone, Copy, PartialEq, Eq, Structural)]
pub struct HighLimit(pub u16);

impl Register for HighLimit {
    open spec fn reg_address() -> u8 {
        HIGH_LIMIT_ADDR
    }

    open spec fn reg_decode(w: u16) -> Option<Self> {
        Some(HighLimit(w))
    }

    open spec fn reg_word(&self) -> u16 {
        self.0
    }

    fn address() -> (r: Address) {
        Address(HIGH_LIMIT_ADDR)
    }

    fn try_from_word(w: u16) -> (r: Option<Self>) {
        Some(HighLimit(w))
    }

    fn to_word(&self) -> (r: u16) {
        self.0
    }
}

impl EditableRegister for HighLimit {

}

impl WritableRegister for HighLimit {

}
/// Low limit register, compared with the temperature result. Same format as
/// the temperature register. Loaded from the EEPROM at power-up and reset;
/// the factory default is 8000h.
#[derive(Debug, Clone, Copy, PartialEq, Eq, Structural)]
pub struct LowLimit(pub u16);

impl Register for LowLimit {
    open spec fn reg_address() -> u8 {
        LOW_LIMIT_ADDR
    }

    open spec fn reg_decode(w: u16) -> Option<Self> {
        Some(LowLimit(w))
    }

    open spec fn reg_word(&self) -> u16 {
        self.0
    }

    fn address() -> (r: Address) {
        Address(LOW_LIMIT_ADDR)
    }

    fn try_from_word(w: u16) -> (r: Option<Self>) {
        Some(LowLimit(w))
    }

    fn to_word(&self) -> (r: u16) {
        self.0
    }
}

impl EditableRegister for LowLimit {

}

impl WritableRegister for LowLimit {

}
/// EEPROM unlock register: bit 14 mirrors the busy flag of the
/// configuration register, bit 15 unlocks the EEPROM for programming.
#[derive(Debug, Clone, Copy, PartialEq, Eq, Structural)]
pub struct EEPROM(pub u16);

impl Register for EEPROM {
    open spec fn reg_address() -> u8 {
        EEPROM_ADDR
    }

    open spec fn reg_decode(w: u16) -> Option<Self> {
        Some(EEPROM(w))
    }

    open spec fn reg_word(&self) -> u16 {
        self.0
    }

    fn address() -> (r: Address) {
        Address(EEPROM_ADDR)
    }

    fn try_from_word(w: u16) -> (r: Option<Self>) {
        Some(EEPROM(w))
    }

    fn to_word(&self) -> (r: u16) {
        self.0
    }
}

impl EditableRegister for EEPROM {

}

impl EEPROM {
    /// The EEPROM busy flag.
    pub fn busy(&self) -> (r: bool)
        ensures
            r == ((self.0 >> 14u16) & 1 == 1),
    {
        (self.0 >> 14u16) & 1 == 1
    }

    /// Whether the EEPROM is unlocked: while it is, writes to the registers
    /// program the EEPROM.
    pub fn unlock(&self) -> (r: bool)
        ensures
            r == ((self.0 >> 15u16) & 1 == 1),
    {
        (self.0 >> 15u16) & 1 == 1
    }
}
/// First user EEPROM word, a scratch pad backed by the EEPROM. It holds an ID
/// used for NIST traceability: do not reprogram it.
#[derive(Debug, Clone, Copy, PartialEq, Eq, Structural)]
pub struct UEEPROM1(pub u16);

impl Register for UEEPROM1 {
    open spec fn reg_address() -> u8 {
        UEEPROM1_ADDR
    }

    open spec fn reg_decode(w: u16) -> Option<Self> {
        Some(UEEPROM1(w))
    }

    open spec fn reg_word(&self) -> u16 {
        self.0
    }

    fn address() -> (r: Address) {
        Address(UEEPROM1_ADDR)
    }

    fn try_from_word(w: u16) -> (r: Option<Self>) {
        Some(UEEPROM1(w))
    }

    fn to_word(&self) -> (r: u16) {
        self.0
    }
}

impl EditableRegister for UEEPROM1 {

}

impl WritableRegister for UEEPROM1 {

}
/// Second user EEPROM word, a scratch pad backed by the EEPROM.
#[derive(Debug, Clone, Copy, PartialEq, Eq, Structural)]
pub struct UEEPROM2(pub u16);

impl Register for UEEPROM2 {
    open spec fn reg_address() -> u8 {
        UEEPROM2_ADDR
    }

    open spec fn reg_decode(w: u16) -> Option<Self> {
        Some(UEEPROM2(w))
    }

    open spec fn reg_word(&self) -> u16 {
        self.0
    }

    fn address() -> (r: Address) {
        Address(UEEPROM2_ADDR)
    }

    fn try_from_word(w: u16) -> (r: Option<Self>) {
        Some(UEEPROM2(w))
    }

    fn to_word(&self) -> (r: u16) {
        self.0
    }
}

impl EditableRegister for UEEPROM2 {

}

impl WritableRegister for UEEPROM2 {

}
/// Third user EEPROM word, a scratch pad backed by the EEPROM.
#[derive(Debug, Clone, Copy, PartialEq, Eq, Structural)]
pub struct UEEPROM3(pub u16);

impl Register for UEEPROM3 {
    open spec fn reg_address() -> u8 {
        UEEPROM3_ADDR
    }

    open spec fn reg_decode(w: u16) -> Option<Self> {
        Some(UEEPROM3(w))
    }

    open spec fn reg_word(&self) -> u16 {
        self.0
    }

    fn address() -> (r: Address) {
        Address(UEEPROM3_ADDR)
    }

    fn try_from_word(w: u16) -> (r: Option<Self>) {
        Some(UEEPROM3(w))
    }

    fn to_word(&self) -> (r: u16) {
        self.0
    }
}

impl EditableRegister for UEEPROM3 {

}

impl WritableRegister for UEEPROM3 {

}
/// Temperature offset register, added to the result after linearization.
/// Same format as the temperature register.
#[derive(Debug, Clone, Copy, PartialEq, Eq, Structural)]
pub struct TemperatureOffset(pub u16);

impl Register for TemperatureOffset {
    open spec fn reg_address() -> u8 {
        TEMPERATURE_OFFSET_ADDR
    }

    open spec fn reg_decode(w: u16) -> Option<Self> {
        Some(TemperatureOffset(w))
    }

    open spec fn reg_word(&self) -> u16 {
        self.0
    }

    fn address() -> (r: Address) {
        Address(TEMPERATURE_OFFSET_ADDR)
    }

    fn try_from_word(w: u16) -> (r: Option<Self>) {
        Some(TemperatureOffset(w))
    }

    fn to_word(&self) -> (r: u16) {
        self.0
    }
}

impl EditableRegister for TemperatureOffset {

}

impl WritableRegister for TemperatureOffset {

}
/// Device ID register: the device code in bits 0 to 11, the revision in bits
/// 12 to 15.
#[derive(Debug, Clone, Copy, PartialEq, Eq, Structural)]
pub struct DeviceID(pub u16);

impl Register for DeviceID {
    open spec fn reg_address() -> u8 {
        DEVICE_ID_ADDR
    }

    open spec fn reg_decode(w: u16) -> Option<Self> {
        Some(DeviceID(w))
    }

    open spec fn reg_word(&self) -> u16 {
        self.0
    }

    fn address() -> (r: Address) {
        Address(DEVICE_ID_ADDR)
    }

    fn try_from_word(w: u16) -> (r: Option<Self>) {
        Some(DeviceID(w))
    }

    fn to_word(&self) -> (r: u16) {
        self.0
    }
}

impl DeviceID {
    /// The device code, 0x117 for this device.
    pub fn device_id(&self) -> (r: u16)
        ensures
            r == self.0 & 0x0FFF,
    {
        self.0 & 0x0FFF
    }

    /// The revision number.
    pub fn revision(&self) -> (r: u8)
        ensures
            r as u16 == self.0 >> 12u16,
    {
        let v = self.0;
        proof {
            assert(v >> 12u16 < 16) by (bit_vector);
        }
        (v >> 12u16) as u8
    }
}

} // verus!
