//! Driver for the TMP117 digital temperature sensor.
//!
//! The register catalog, the bus framing and the mode state machine are
//! verified. The bus, the alert pin and the delay are ports that the user
//! supplies (see [`port`]). Every operation states, over the ghost
//! transcript of the bus, which transfers it made and how its result follows
//! from what the device replied.
use vstd::prelude::*;

pub mod error;
pub mod model;
pub mod port;
pub mod register;
pub mod tmp117_ll;

pub use error::Error;

use crate::error::ErrorLL;
use crate::port::{AlertWait, DelayMs, DummyWait, I2cBus};
use crate::register::{
    AlertPinSelect, Average, Configuration, HighLimit, LowLimit, TemperatureOffset,
    WritableRegister, HIGH_LIMIT_ADDR, LOW_LIMIT_ADDR, TEMPERATURE_OFFSET_ADDR, Conversion,
    ConversionMode, DeviceID, Polarity, Temperature, UEEPROM1,
    UEEPROM2, UEEPROM3, CONFIGURATION_ADDR, DEVICE_ID_ADDR, TEMPERATURE_ADDR, UEEPROM1_ADDR,
    UEEPROM2_ADDR, UEEPROM3_ADDR, signed,
};
use crate::tmp117_ll::{
    DeviceEvent, Tmp117LL, read_event, read_failure, write_event, write_failure,
};

verus! {

/// One LSB of the temperature registers is 1/128 °C (7.8125 m°C).
pub const TICKS_PER_CELSIUS: i32 = 128;

/// The types of alerts possible.
#[derive(Debug, Clone, Copy, PartialEq, Eq, Structural)]
pub enum Alert {
    /// No alert was triggered.
    NoAlert,
    /// A high alert was triggered.
    High,
    /// A low alert was triggered.
    Low,
    /// A high and a low alert were triggered.
    HighLow,
}

/// The alert that the two alert flags report.
pub open spec fn spec_classify(high: bool, low: bool) -> Alert {
    if high && low {
        Alert::HighLow
    } else if high {
        Alert::High
    } else if low {
        Alert::Low
    } else {
        Alert::NoAlert
    }
}

/// Classifies the alert flags of a configuration.
pub fn classify(config: &Configuration) -> (r: Alert)
    ensures
        r == spec_classify(config.high_alert, config.low_alert),
{
    if config.high_alert && config.low_alert {
        Alert::HighLow
    } else if config.high_alert {
        Alert::High
    } else if config.low_alert {
        Alert::Low
    } else {
        Alert::NoAlert
    }
}

/// Represents the ID of the device.
#[derive(Debug, Clone, Copy, PartialEq, Eq, Structural)]
pub struct Id {
    /// Should always be 0x117.
    pub device: u16,
    /// Depends on the revision of the device.
    pub revision: u8,
}

/// The operating mode that the driver has put the device in.
#[derive(Debug, Clone, Copy, PartialEq, Eq, Structural)]
pub enum Mode {
    /// Right after construction or a reset.
    Unknown,
    /// Idle.
    Shutdown,
    /// One conversion was started and its result was not read yet.
    OneShot,
    /// Converting repeatedly.
    Continuous,
}

/// Whether a conversion may be started from mode `m`: only where the
/// device is idle or in an unknown state.
pub open spec fn may_start(m: Mode) -> bool {
    m is Unknown || m is Shutdown
}

/// What the alert pin has been configured to report.
#[derive(Debug, Clone, Copy, PartialEq, Eq, Structural)]
pub enum AlertPinState {
    /// Not configured by the driver yet.
    Unconfigured,
    /// The pin reports the data ready flag.
    ConfiguredForDataReady,
    /// The pin reports the alert flags.
    ConfiguredForAlert,
}

/// The condition that a wait polls the configuration register for.
#[derive(Debug, Clone, Copy, PartialEq, Eq, Structural)]
pub enum Wait {
    /// The EEPROM is not busy.
    EepromIdle,
    /// A conversion result is ready.
    DataReady,
    /// An alert flag is set.
    AnyAlert,
}

/// Whether the configuration `c` ends a wait for `w`.
pub open spec fn satisfied(w: Wait, c: Configuration) -> bool {
    match w {
        Wait::EepromIdle => !c.eeprom_busy,
        Wait::DataReady => c.data_ready,
        Wait::AnyAlert => c.high_alert || c.low_alert,
    }
}

/// Reading the configuration register of the device at `a`, which held `c`.
pub open spec fn config_read(a: u8, c: Configuration) -> DeviceEvent {
    read_event(a, CONFIGURATION_ADDR, c.spec_word())
}

/// What a wait does before each read: one successful wait on the alert pin
/// where it uses the pin, nothing otherwise.
pub open spec fn pin_step(use_pin: bool) -> Seq<DeviceEvent> {
    if use_pin {
        seq![DeviceEvent::PinWait { ok: true }]
    } else {
        Seq::empty()
    }
}

/// The events of a wait that read the configurations `cs` one after the
/// other, each read preceded by a pin wait where the wait uses the pin.
pub open spec fn wait_reads(a: u8, use_pin: bool, cs: Seq<Configuration>) -> Seq<DeviceEvent>
    decreases cs.len(),
{
    if cs.len() == 0 {
        Seq::empty()
    } else {
        wait_reads(a, use_pin, cs.drop_last()) + pin_step(use_pin).push(config_read(a, cs.last()))
    }
}

/// The transfers of reading the configurations `cs` one after the other.
pub open spec fn config_reads(a: u8, cs: Seq<Configuration>) -> Seq<DeviceEvent> {
    wait_reads(a, false, cs)
}

/// `cs` are the configurations of a wait for `w` that succeeded: the last
/// one satisfies `w`, the ones before do not.
pub open spec fn poll_done(w: Wait, cs: Seq<Configuration>) -> bool {
    cs.len() >= 1 && satisfied(w, cs.last()) && forall|i: int|
        0 <= i < cs.len() - 1 ==> !satisfied(w, #[trigger] cs[i])
}

/// None of the configurations `cs` satisfies `w`.
pub open spec fn unmet(w: Wait, cs: Seq<Configuration>) -> bool {
    forall|i: int| 0 <= i < cs.len() ==> !satisfied(w, #[trigger] cs[i])
}

/// `after` is `before` followed by more events.
pub open spec fn extends(before: Seq<DeviceEvent>, after: Seq<DeviceEvent>) -> bool {
    before.len() <= after.len() && after.subrange(0, before.len() as int) == before
}

/// The events of `after` that follow `before`.
pub open spec fn added(before: Seq<DeviceEvent>, after: Seq<DeviceEvent>) -> Seq<DeviceEvent> {
    after.subrange(before.len() as int, after.len() as int)
}

/// `e` is a read of the configuration of the device at `a` that ended in
/// `err`: a failed transfer for a bus error, a word with the reserved mode
/// pattern for invalid data.
pub open spec fn config_read_failed<E>(a: u8, e: DeviceEvent, err: Error<E>) -> bool {
    match err {
        Error::Bus(_) => e == read_failure(a, CONFIGURATION_ADDR),
        Error::InvalidData => exists|w: u16|
            e == read_event(a, CONFIGURATION_ADDR, w) && Configuration::spec_decode(w) is None,
        _ => false,
    }
}

/// A wait for `w` on the device at `a`, allowed `limit` reads of the
/// configuration and using the pin where `use_pin`, made the events `s`
/// and ended with `r`, which holds the configuration that satisfied `w`.
/// It stops at the first read that satisfies `w`, at the first failed pin
/// wait or read, or after `limit` reads.
pub open spec fn wait_result<E>(
    a: u8,
    w: Wait,
    limit: u32,
    use_pin: bool,
    s: Seq<DeviceEvent>,
    r: Result<Configuration, Error<E>>,
) -> bool {
    match r {
        Ok(c) => exists|cs: Seq<Configuration>|
            poll_done(w, cs) && cs.last() == c && cs.len() <= limit && s == wait_reads(
                a,
                use_pin,
                cs,
            ),
        Err(err) => exists|cs: Seq<Configuration>|
            unmet(w, cs) && match err {
                Error::Timeout => cs.len() == limit && s == wait_reads(a, use_pin, cs),
                Error::AlertPin => use_pin && cs.len() < limit && s == wait_reads(
                    a,
                    use_pin,
                    cs,
                ).push(DeviceEvent::PinWait { ok: false }),
                _ => cs.len() < limit && exists|e: DeviceEvent|
                    config_read_failed(a, e, err) && s == (wait_reads(a, use_pin, cs) + pin_step(
                        use_pin,
                    )).push(e),
            },
    }
}

/// Whether the configuration `c` ends a wait for `w`.
fn is_satisfied(w: Wait, c: &Configuration) -> (r: bool)
    ensures
        r == satisfied(w, *c),
{
    match w {
        Wait::EepromIdle => !c.eeprom_busy,
        Wait::DataReady => c.data_ready,
        Wait::AnyAlert => c.high_alert || c.low_alert,
    }
}

/// `s` are the transfers of a wait, at most `limit` reads long, that saw
/// the EEPROM idle, then of writing `w` to the register at `reg`.
pub open spec fn idle_then_write(a: u8, limit: u32, s: Seq<DeviceEvent>, reg: u8, w: u16) -> bool {
    exists|cs: Seq<Configuration>|
        poll_done(Wait::EepromIdle, cs) && cs.len() <= limit && s == config_reads(a, cs).push(
            write_event(a, reg, w),
        )
}

/// Waiting for the EEPROM to be idle, then writing `w` to the register at
/// `reg`, made the transfers `s` and ended with `r`: the wait failed, or it
/// succeeded and the write failed, or both succeeded.
pub open spec fn idle_write_result<E>(
    a: u8,
    limit: u32,
    reg: u8,
    w: u16,
    s: Seq<DeviceEvent>,
    r: Result<(), Error<E>>,
) -> bool {
    match r {
        Ok(_) => idle_then_write(a, limit, s, reg, w),
        Err(err) => wait_result(a, Wait::EepromIdle, limit, false, s, Err::<Configuration, Error<E>>(err))
            || (err is Bus && exists|cs: Seq<Configuration>|
            poll_done(Wait::EepromIdle, cs) && cs.len() <= limit && s == config_reads(a, cs).push(
                write_failure(a, reg, w),
            )),
    }
}

/// `s` are the transfers of writing the three user EEPROM words `v`, each
/// one after a wait, at most `limit` reads long, that saw the EEPROM idle.
pub open spec fn eeprom_written(a: u8, limit: u32, s: Seq<DeviceEvent>, v: [u16; 3]) -> bool {
    exists|s1: Seq<DeviceEvent>, s2: Seq<DeviceEvent>, s3: Seq<DeviceEvent>|
        idle_then_write(a, limit, s1, UEEPROM1_ADDR, v[0]) && idle_then_write(
            a,
            limit,
            s2,
            UEEPROM2_ADDR,
            v[1],
        ) && idle_then_write(a, limit, s3, UEEPROM3_ADDR, v[2]) && s == s1 + s2 + s3
}

/// Writing the user EEPROM words `v` made the transfers `s` and ended with
/// `r`. On failure, the words before the failing one were each written
/// after an idle wait, and nothing follows the failing wait or write.
pub open spec fn eeprom_write_result<E>(
    a: u8,
    limit: u32,
    v: [u16; 3],
    s: Seq<DeviceEvent>,
    r: Result<(), Error<E>>,
) -> bool {
    match r {
        Ok(_) => eeprom_written(a, limit, s, v),
        Err(err) => idle_write_result(a, limit, UEEPROM1_ADDR, v[0], s, Err::<(), Error<E>>(err))
            || (exists|s1: Seq<DeviceEvent>, s2: Seq<DeviceEvent>|
            idle_then_write(a, limit, s1, UEEPROM1_ADDR, v[0]) && idle_write_result(
                a,
                limit,
                UEEPROM2_ADDR,
                v[1],
                s2,
                Err::<(), Error<E>>(err),
            ) && s == s1 + s2) || (exists|s1: Seq<DeviceEvent>, s2: Seq<DeviceEvent>, s3: Seq<DeviceEvent>|
            idle_then_write(a, limit, s1, UEEPROM1_ADDR, v[0]) && idle_then_write(
                a,
                limit,
                s2,
                UEEPROM2_ADDR,
                v[1],
            ) && idle_write_result(a, limit, UEEPROM3_ADDR, v[2], s3, Err::<(), Error<E>>(err))
                && s == s1 + s2 + s3),
    }
}

/// `s` are the transfers of reading the three user EEPROM words, which held
/// `v`.
pub open spec fn eeprom_read(a: u8, s: Seq<DeviceEvent>, v: [u16; 3]) -> bool {
    s == seq![
        read_event(a, UEEPROM1_ADDR, v[0]),
        read_event(a, UEEPROM2_ADDR, v[1]),
        read_event(a, UEEPROM3_ADDR, v[2]),
    ]
}

/// Reading the three user EEPROM words failed with `err` after the
/// transfers `s`: the reads stop at the first failed one.
pub open spec fn eeprom_read_failed<E>(a: u8, s: Seq<DeviceEvent>, err: Error<E>) -> bool {
    err is Bus && (s == seq![read_failure(a, UEEPROM1_ADDR)] || (exists|w0: u16|
        s == seq![read_event(a, UEEPROM1_ADDR, w0), read_failure(a, UEEPROM2_ADDR)]) || (exists|
        w0: u16,
        w1: u16,
    |
        s == seq![
            read_event(a, UEEPROM1_ADDR, w0),
            read_event(a, UEEPROM2_ADDR, w1),
            read_failure(a, UEEPROM3_ADDR),
        ]))
}

/// A read-modify-write of the configuration register that the driver makes.
#[derive(Debug, Clone, Copy, PartialEq, Eq, Structural)]
pub enum ConfigEdit {
    /// Set the mode to shutdown.
    Shutdown,
    /// Start one conversion with the given averaging; the pin is active low.
    OneShot(Average),
    /// Convert continuously with the given averaging and cycle; the pin is
    /// active low.
    Continuous(Average, Conversion),
    /// Trigger a software reset.
    Reset,
    /// Route the given signal to the alert pin, active low.
    Pin(AlertPinSelect),
}

/// The configuration that the edit `e` writes back after reading `c`.
pub open spec fn spec_apply(e: ConfigEdit, c: Configuration) -> Configuration {
    match e {
        ConfigEdit::Shutdown => Configuration { mode: ConversionMode::Shutdown, ..c },
        ConfigEdit::OneShot(avg) => Configuration {
            mode: ConversionMode::OneShot,
            polarity: Polarity::ActiveLow,
            average: avg,
            ..c
        },
        ConfigEdit::Continuous(avg, conv) => Configuration {
            mode: ConversionMode::Continuous,
            polarity: Polarity::ActiveLow,
            average: avg,
            conversion: conv,
            ..c
        },
        ConfigEdit::Reset => Configuration { reset: true, ..c },
        ConfigEdit::Pin(sel) => Configuration { dr_alert: sel, polarity: Polarity::ActiveLow, ..c },
    }
}

impl ConfigEdit {
    /// The configuration that this edit writes back after reading `c`.
    pub fn apply(self, c: Configuration) -> (r: Configuration)
        ensures
            r == spec_apply(self, c),
    {
        match self {
            ConfigEdit::Shutdown => Configuration { mode: ConversionMode::Shutdown, ..c },
            ConfigEdit::OneShot(avg) => Configuration {
                mode: ConversionMode::OneShot,
                polarity: Polarity::ActiveLow,
                average: avg,
                ..c
            },
            ConfigEdit::Continuous(avg, conv) => Configuration {
                mode: ConversionMode::Continuous,
                polarity: Polarity::ActiveLow,
                average: avg,
                conversion: conv,
                ..c
            },
            ConfigEdit::Reset => Configuration { reset: true, ..c },
            ConfigEdit::Pin(sel) => Configuration {
                dr_alert: sel,
                polarity: Polarity::ActiveLow,
                ..c
            },
        }
    }
}

/// `s` are the transfers of the edit `e`: the configuration is read, then
/// written back changed by `e`.
pub open spec fn edited(a: u8, s: Seq<DeviceEvent>, e: ConfigEdit) -> bool {
    exists|c: Configuration|
        s == seq![
            config_read(a, c),
            write_event(a, CONFIGURATION_ADDR, spec_apply(e, c).spec_word()),
        ]
}

/// The edit `e` made the transfers `s` and ended with `r`: the read failed
/// or held the reserved mode pattern, or the write back failed, or both
/// succeeded.
pub open spec fn edit_result<E>(a: u8, e: ConfigEdit, s: Seq<DeviceEvent>, r: Result<(), Error<E>>) -> bool {
    match r {
        Ok(_) => edited(a, s, e),
        Err(Error::Bus(_)) => s == seq![read_failure(a, CONFIGURATION_ADDR)] || exists|c: Configuration|
            s == seq![
                config_read(a, c),
                write_failure(a, CONFIGURATION_ADDR, spec_apply(e, c).spec_word()),
            ],
        Err(Error::InvalidData) => exists|w: u16|
            s == seq![read_event(a, CONFIGURATION_ADDR, w)] && Configuration::spec_decode(w) is None,
        Err(_) => false,
    }
}

/// The pin state in which the alert pin reports `sel`.
pub open spec fn pin_target(sel: AlertPinSelect) -> AlertPinState {
    match sel {
        AlertPinSelect::Alert => AlertPinState::ConfiguredForAlert,
        AlertPinSelect::DataReady => AlertPinState::ConfiguredForDataReady,
    }
}

/// What the alert pin reports once `sel` has been routed to it.
pub open spec fn pin_after(has_pin: bool, state: AlertPinState, sel: AlertPinSelect) -> AlertPinState {
    if has_pin {
        pin_target(sel)
    } else {
        state
    }
}

/// `s` are the transfers that route `sel` to the alert pin: an edit where a
/// pin is present and does not report `sel` yet, nothing otherwise.
pub open spec fn pin_selected(
    a: u8,
    has_pin: bool,
    state: AlertPinState,
    sel: AlertPinSelect,
    s: Seq<DeviceEvent>,
) -> bool {
    if has_pin && state != pin_target(sel) {
        edited(a, s, ConfigEdit::Pin(sel))
    } else {
        s.len() == 0
    }
}

/// Routing `sel` to the alert pin made the transfers `s` and ended with `r`.
pub open spec fn pin_result<E>(
    a: u8,
    has_pin: bool,
    state: AlertPinState,
    sel: AlertPinSelect,
    s: Seq<DeviceEvent>,
    r: Result<(), Error<E>>,
) -> bool {
    if has_pin && state != pin_target(sel) {
        edit_result(a, ConfigEdit::Pin(sel), s, r)
    } else {
        r is Ok && s.len() == 0
    }
}

/// Reading the temperature made the transfers `s` and ended with `r`.
pub open spec fn temp_result<E>(a: u8, s: Seq<DeviceEvent>, r: Result<i16, Error<E>>) -> bool {
    match r {
        Ok(t) => exists|w: u16| s == seq![read_event(a, TEMPERATURE_ADDR, w)] && t as int == signed(w),
        Err(Error::Bus(_)) => s == seq![read_failure(a, TEMPERATURE_ADDR)],
        Err(_) => false,
    }
}

/// `s` are the transfers of reading the configuration `c`, which reports a
/// result ready, then the temperature register, which held `w`.
pub open spec fn ready_then_temp(a: u8, s: Seq<DeviceEvent>, c: Configuration, w: u16) -> bool {
    c.data_ready && s == seq![config_read(a, c), read_event(a, TEMPERATURE_ADDR, w)]
}

/// Reading the temperature if the configuration reports it ready made the
/// transfers `s` and ended with `r`.
pub open spec fn ready_read_result<E>(a: u8, s: Seq<DeviceEvent>, r: Result<i16, Error<E>>) -> bool {
    match r {
        Ok(t) => exists|c: Configuration, w: u16| ready_then_temp(a, s, c, w) && t as int == signed(w),
        Err(Error::DataNotReady) => exists|c: Configuration|
            !c.data_ready && s == seq![config_read(a, c)],
        Err(err) => (exists|e: DeviceEvent| config_read_failed(a, e, err) && s == seq![e]) || (
        err is Bus && exists|c: Configuration|
            c.data_ready && s == seq![config_read(a, c), read_failure(a, TEMPERATURE_ADDR)]),
    }
}

/// Reading and classifying the alert flags made the transfers `s` and
/// ended with `r`.
pub open spec fn alert_read_result<E>(a: u8, s: Seq<DeviceEvent>, r: Result<Alert, Error<E>>) -> bool {
    match r {
        Ok(al) => exists|c: Configuration|
            s == seq![config_read(a, c)] && al == spec_classify(c.high_alert, c.low_alert),
        Err(err) => exists|e: DeviceEvent| config_read_failed(a, e, err) && s == seq![e],
    }
}

/// `s` are the transfers that start one conversion with averaging `avg`:
/// the pin is routed to report data ready (`s1`), then the configuration
/// is edited (`s2`).
pub open spec fn oneshot_started(
    a: u8,
    has_pin: bool,
    state: AlertPinState,
    avg: Average,
    s: Seq<DeviceEvent>,
) -> bool {
    exists|s1: Seq<DeviceEvent>, s2: Seq<DeviceEvent>|
        pin_selected(a, has_pin, state, AlertPinSelect::DataReady, s1) && edited(
            a,
            s2,
            ConfigEdit::OneShot(avg),
        ) && s == s1 + s2
}

/// Starting one conversion made the transfers `s` and ended with `r`.
pub open spec fn oneshot_start_result<E>(
    a: u8,
    has_pin: bool,
    state: AlertPinState,
    avg: Average,
    s: Seq<DeviceEvent>,
    r: Result<(), Error<E>>,
) -> bool {
    match r {
        Ok(_) => oneshot_started(a, has_pin, state, avg, s),
        Err(err) => pin_result(a, has_pin, state, AlertPinSelect::DataReady, s, Err::<(), Error<E>>(err))
            || exists|s1: Seq<DeviceEvent>, s2: Seq<DeviceEvent>|
            pin_selected(a, has_pin, state, AlertPinSelect::DataReady, s1) && edit_result(
                a,
                ConfigEdit::OneShot(avg),
                s2,
                Err::<(), Error<E>>(err),
            ) && s == s1 + s2,
    }
}

/// After the transfers `s1`, waiting for a result (with the pin where
/// `use_pin`) and reading the temperature made the events `s` and ended
/// with `r`.
pub open spec fn wait_then_temp<E>(
    a: u8,
    limit: u32,
    use_pin: bool,
    s1: Seq<DeviceEvent>,
    s: Seq<DeviceEvent>,
    r: Result<i16, Error<E>>,
) -> bool {
    match r {
        Ok(t) => exists|cs: Seq<Configuration>, w: u16|
            poll_done(Wait::DataReady, cs) && cs.len() <= limit && s == s1 + wait_reads(
                a,
                use_pin,
                cs,
            ).push(read_event(a, TEMPERATURE_ADDR, w)) && t as int == signed(w),
        Err(err) => (exists|s2: Seq<DeviceEvent>|
            wait_result(a, Wait::DataReady, limit, use_pin, s2, Err::<Configuration, Error<E>>(err))
                && s == s1 + s2) || (err is Bus && exists|cs: Seq<Configuration>|
            poll_done(Wait::DataReady, cs) && cs.len() <= limit && s == s1 + wait_reads(
                a,
                use_pin,
                cs,
            ).push(read_failure(a, TEMPERATURE_ADDR))),
    }
}

/// A one-shot conversion with averaging `avg` made the events `s` and
/// ended with `r`: it was started, waited for and read, each step only
/// after the one before succeeded.
pub open spec fn oneshot_result<E>(
    a: u8,
    has_pin: bool,
    state: AlertPinState,
    avg: Average,
    limit: u32,
    s: Seq<DeviceEvent>,
    r: Result<i16, Error<E>>,
) -> bool {
    match r {
        Ok(_) => exists|s1: Seq<DeviceEvent>|
            oneshot_started(a, has_pin, state, avg, s1) && wait_then_temp(a, limit, has_pin, s1, s, r),
        Err(err) => oneshot_start_result(a, has_pin, state, avg, s, Err::<(), Error<E>>(err)) || exists|
            s1: Seq<DeviceEvent>,
        | oneshot_started(a, has_pin, state, avg, s1) && wait_then_temp(a, limit, has_pin, s1, s, r),
    }
}

/// A reset made the events `s` and ended with `r`: after the reset edit
/// succeeded, one delay of 2 ms; no delay after a failed edit.
pub open spec fn reset_result<E>(a: u8, s: Seq<DeviceEvent>, r: Result<(), Error<E>>) -> bool {
    match r {
        Ok(_) => exists|s1: Seq<DeviceEvent>|
            edited(a, s1, ConfigEdit::Reset) && s == s1.push(DeviceEvent::Delay { ms: 2 }),
        Err(_) => edit_result(a, ConfigEdit::Reset, s, r),
    }
}

/// The configuration of continuous mode. The limits and the offset are
/// register words: two's complement in LSBs of 1/128 °C.
#[derive(Debug, Clone, Copy, PartialEq, Eq, Structural)]
pub struct ContinuousConfig {
    /// The average used.
    pub average: Average,
    /// The conversion cycle used.
    pub conversion: Conversion,
    /// The high limit written, if any; otherwise the register keeps its value.
    pub high: Option<u16>,
    /// The low limit written, if any; otherwise the register keeps its value.
    pub low: Option<u16>,
    /// The temperature offset written, if any; otherwise the register keeps
    /// its value.
    pub offset: Option<u16>,
}

impl Default for ContinuousConfig {
    fn default() -> (r: Self)
        ensures
            r == (ContinuousConfig {
                average: Average::NoAverage,
                conversion: Conversion::Ms15_5,
                high: None,
                low: None,
                offset: None,
            }),
    {
        ContinuousConfig {
            average: Average::NoAverage,
            conversion: Conversion::Ms15_5,
            high: None,
            low: None,
            offset: None,
        }
    }
}

/// The write of `v` to the register at `reg`, if there is a value.
pub open spec fn optional_write(a: u8, reg: u8, v: Option<u16>) -> Seq<DeviceEvent> {
    match v {
        Some(w) => seq![write_event(a, reg, w)],
        None => Seq::empty(),
    }
}

/// Writing `v` to the register at `reg`, if there is a value, made the
/// transfers `s` and ended with `r`.
pub open spec fn write_result<E>(a: u8, reg: u8, v: Option<u16>, s: Seq<DeviceEvent>, r: Result<(), Error<E>>) -> bool {
    match v {
        Some(w) => match r {
            Ok(_) => s == seq![write_event(a, reg, w)],
            Err(Error::Bus(_)) => s == seq![write_failure(a, reg, w)],
            Err(_) => false,
        },
        None => r is Ok && s.len() == 0,
    }
}

/// The writes of the limits and of the offset that `config` gives, in that
/// order.
pub open spec fn limit_writes(a: u8, config: ContinuousConfig) -> Seq<DeviceEvent> {
    optional_write(a, HIGH_LIMIT_ADDR, config.high) + optional_write(a, LOW_LIMIT_ADDR, config.low)
        + optional_write(a, TEMPERATURE_OFFSET_ADDR, config.offset)
}

/// `s` are the transfers that put the device in continuous mode with
/// `config`: the pin is routed to report data ready (`s1`), the limits and
/// offset are written, then the configuration is edited (`s2`).
pub open spec fn continuous_started(
    a: u8,
    has_pin: bool,
    state: AlertPinState,
    config: ContinuousConfig,
    s: Seq<DeviceEvent>,
) -> bool {
    exists|s1: Seq<DeviceEvent>, s2: Seq<DeviceEvent>|
        pin_selected(a, has_pin, state, AlertPinSelect::DataReady, s1) && edited(
            a,
            s2,
            ConfigEdit::Continuous(config.average, config.conversion),
        ) && s == s1 + limit_writes(a, config) + s2
}

/// Putting the device in continuous mode made the transfers `s` and ended
/// with `r`: on failure, the steps before the failing one succeeded and
/// nothing follows it.
pub open spec fn continuous_result<E>(
    a: u8,
    has_pin: bool,
    state: AlertPinState,
    config: ContinuousConfig,
    s: Seq<DeviceEvent>,
    r: Result<(), Error<E>>,
) -> bool {
    match r {
        Ok(_) => continuous_started(a, has_pin, state, config, s),
        Err(_) => pin_result(a, has_pin, state, AlertPinSelect::DataReady, s, r) || (exists|
            s1: Seq<DeviceEvent>,
            s2: Seq<DeviceEvent>,
        |
            pin_selected(a, has_pin, state, AlertPinSelect::DataReady, s1) && write_result(
                a,
                HIGH_LIMIT_ADDR,
                config.high,
                s2,
                r,
            ) && s == s1 + s2) || (exists|s1: Seq<DeviceEvent>, s2: Seq<DeviceEvent>|
            pin_selected(a, has_pin, state, AlertPinSelect::DataReady, s1) && write_result(
                a,
                LOW_LIMIT_ADDR,
                config.low,
                s2,
                r,
            ) && s == s1 + optional_write(a, HIGH_LIMIT_ADDR, config.high) + s2) || (exists|
            s1: Seq<DeviceEvent>,
            s2: Seq<DeviceEvent>,
        |
            pin_selected(a, has_pin, state, AlertPinSelect::DataReady, s1) && write_result(
                a,
                TEMPERATURE_OFFSET_ADDR,
                config.offset,
                s2,
                r,
            ) && s == s1 + optional_write(a, HIGH_LIMIT_ADDR, config.high) + optional_write(
                a,
                LOW_LIMIT_ADDR,
                config.low,
            ) + s2) || (exists|s1: Seq<DeviceEvent>, s2: Seq<DeviceEvent>|
            pin_selected(a, has_pin, state, AlertPinSelect::DataReady, s1) && edit_result(
                a,
                ConfigEdit::Continuous(config.average, config.conversion),
                s2,
                r,
            ) && s == s1 + limit_writes(a, config) + s2),
    }
}

/// In continuous mode, routing the pin to report data ready, waiting for a
/// result and reading it made the events `s` and ended with `r`.
pub open spec fn wait_temp_result<E>(
    a: u8,
    has_pin: bool,
    state: AlertPinState,
    limit: u32,
    s: Seq<DeviceEvent>,
    r: Result<i16, Error<E>>,
) -> bool {
    match r {
        Ok(_) => exists|s1: Seq<DeviceEvent>|
            pin_selected(a, has_pin, state, AlertPinSelect::DataReady, s1) && wait_then_temp(
                a,
                limit,
                has_pin,
                s1,
                s,
                r,
            ),
        Err(err) => pin_result(
            a,
            has_pin,
            state,
            AlertPinSelect::DataReady,
            s,
            Err::<(), Error<E>>(err),
        ) || exists|s1: Seq<DeviceEvent>|
            pin_selected(a, has_pin, state, AlertPinSelect::DataReady, s1) && wait_then_temp(
                a,
                limit,
                has_pin,
                s1,
                s,
                r,
            ),
    }
}

/// In continuous mode, routing the pin to report alerts and waiting for an
/// alert made the events `s` and ended with `r`.
pub open spec fn wait_alert_result<E>(
    a: u8,
    has_pin: bool,
    state: AlertPinState,
    limit: u32,
    s: Seq<DeviceEvent>,
    r: Result<Alert, Error<E>>,
) -> bool {
    match r {
        Ok(al) => exists|s1: Seq<DeviceEvent>, cs: Seq<Configuration>|
            pin_selected(a, has_pin, state, AlertPinSelect::Alert, s1) && poll_done(
                Wait::AnyAlert,
                cs,
            ) && cs.len() <= limit && s == s1 + wait_reads(a, has_pin, cs) && al == spec_classify(
                cs.last().high_alert,
                cs.last().low_alert,
            ),
        Err(err) => pin_result(a, has_pin, state, AlertPinSelect::Alert, s, Err::<(), Error<E>>(err))
            || exists|s1: Seq<DeviceEvent>, s2: Seq<DeviceEvent>|
            pin_selected(a, has_pin, state, AlertPinSelect::Alert, s1) && wait_result(
                a,
                Wait::AnyAlert,
                limit,
                has_pin,
                s2,
                Err::<Configuration, Error<E>>(err),
            ) && s == s1 + s2,
    }
}

proof fn lemma_extends_refl(s: Seq<DeviceEvent>)
    ensures
        extends(s, s),
        added(s, s) == Seq::<DeviceEvent>::empty(),
{
    assert(s.subrange(0, s.len() as int) =~= s);
    assert(added(s, s) =~= Seq::<DeviceEvent>::empty());
}

proof fn lemma_added_push(before: Seq<DeviceEvent>, mid: Seq<DeviceEvent>, e: DeviceEvent)
    requires
        extends(before, mid),
    ensures
        extends(before, mid.push(e)),
        added(before, mid.push(e)) == added(before, mid).push(e),
{
    assert(mid.push(e).subrange(0, before.len() as int) =~= mid.subrange(0, before.len() as int));
    assert(added(before, mid.push(e)) =~= added(before, mid).push(e));
}

proof fn lemma_added_trans(s1: Seq<DeviceEvent>, s2: Seq<DeviceEvent>, s3: Seq<DeviceEvent>)
    requires
        extends(s1, s2),
        extends(s2, s3),
    ensures
        extends(s1, s3),
        added(s1, s3) == added(s1, s2) + added(s2, s3),
{
    assert(s3.subrange(0, s1.len() as int) =~= s3.subrange(0, s2.len() as int).subrange(
        0,
        s1.len() as int,
    ));
    assert(added(s1, s3) =~= added(s1, s2) + added(s2, s3));
}

proof fn lemma_wait_reads_push(a: u8, use_pin: bool, cs: Seq<Configuration>, c: Configuration)
    ensures
        wait_reads(a, use_pin, cs.push(c)) == wait_reads(a, use_pin, cs) + pin_step(use_pin).push(
            config_read(a, c),
        ),
{
    assert(cs.push(c).drop_last() =~= cs);
}

/// The TMP117 driver. The alert pin is optional: without it the driver
/// polls the configuration register.
pub struct Tmp117<T, E, P> {
    tmp_ll: Tmp117LL<T, E>,
    alert: Option<P>,
    pin_state: AlertPinState,
    mode: Mode,
    poll_limit: u32,
}

impl<T, E, P> Tmp117<T, E, P> {
    /// Every transfer the driver made on the bus, oldest first.
    pub closed spec fn transcript(&self) -> Seq<DeviceEvent> {
        self.tmp_ll.transcript()
    }

    /// The 7-bit bus address of the device.
    pub closed spec fn address(&self) -> u8 {
        self.tmp_ll.address()
    }

    /// The mode the driver has put the device in.
    pub closed spec fn spec_mode(&self) -> Mode {
        self.mode
    }

    /// Whether an alert pin was supplied.
    pub closed spec fn has_pin(&self) -> bool {
        self.alert is Some
    }

    /// What the alert pin has been configured to report.
    pub closed spec fn spec_pin_state(&self) -> AlertPinState {
        self.pin_state
    }

    /// The most reads of the configuration register that one wait makes.
    pub closed spec fn spec_poll_limit(&self) -> u32 {
        self.poll_limit
    }

    /// The address, the pin and the poll limit are as in `other`.
    pub open spec fn same_base(&self, other: &Self) -> bool {
        self.address() == other.address() && self.has_pin() == other.has_pin()
            && self.spec_poll_limit() == other.spec_poll_limit()
    }

    /// Everything but the transcript and the mode is as in `other`.
    pub open spec fn same_setup(&self, other: &Self) -> bool {
        self.same_base(other) && self.spec_pin_state() == other.spec_pin_state()
    }

    /// Create a new driver from a low level driver and an optional alert pin.
    /// Waits make at most `u32::MAX` reads until
    /// [`with_poll_limit`](Self::with_poll_limit) says otherwise.
    pub fn new_from_ll(tmp_ll: Tmp117LL<T, E>, alert: Option<P>) -> (r: Self)
        ensures
            r.transcript() == tmp_ll.transcript(),
            r.address() == tmp_ll.address(),
            r.has_pin() == alert is Some,
            r.spec_pin_state() == AlertPinState::Unconfigured,
            r.spec_mode() == Mode::Unknown,
            r.spec_poll_limit() == u32::MAX,
    {
        Tmp117 {
            tmp_ll,
            alert,
            pin_state: AlertPinState::Unconfigured,
            mode: Mode::Unknown,
            poll_limit: u32::MAX,
        }
    }

    /// Create a new driver from a bus, the device's address and its alert
    /// pin.
    pub fn new_alert(i2c: T, addr: u8, alert: P) -> (r: Self)
        ensures
            r.transcript() == Seq::<DeviceEvent>::empty(),
            r.address() == addr,
            r.has_pin(),
            r.spec_pin_state() == AlertPinState::Unconfigured,
            r.spec_mode() == Mode::Unknown,
            r.spec_poll_limit() == u32::MAX,
    {
        Self::new_from_ll(Tmp117LL::new(i2c, addr), Some(alert))
    }

    /// Bounds every wait to `limit` reads of the configuration register;
    /// a wait that reaches it fails with [`Error::Timeout`].
    pub fn with_poll_limit(self, limit: u32) -> (r: Self)
        ensures
            r.transcript() == self.transcript(),
            r.address() == self.address(),
            r.has_pin() == self.has_pin(),
            r.spec_pin_state() == self.spec_pin_state(),
            r.spec_mode() == self.spec_mode(),
            r.spec_poll_limit() == limit,
    {
        Tmp117 { poll_limit: limit, ..self }
    }

    /// The mode the driver has put the device in.
    pub fn mode(&self) -> (r: Mode)
        ensures
            r == self.spec_mode(),
    {
        self.mode
    }

    /// What the alert pin has been configured to report.
    pub fn pin_state(&self) -> (r: AlertPinState)
        ensures
            r == self.spec_pin_state(),
    {
        self.pin_state
    }

    /// Gives back the low level driver.
    pub fn release(self) -> (r: Tmp117LL<T, E>)
        ensures
            r.transcript() == self.transcript(),
            r.address() == self.address(),
    {
        self.tmp_ll
    }
}

impl<T, E> Tmp117<T, E, DummyWait> {
    /// Create a new driver from a bus and the device's address, without an
    /// alert pin.
    pub fn new(i2c: T, addr: u8) -> (r: Self)
        ensures
            r.transcript() == Seq::<DeviceEvent>::empty(),
            r.address() == addr,
            !r.has_pin(),
            r.spec_pin_state() == AlertPinState::Unconfigured,
            r.spec_mode() == Mode::Unknown,
            r.spec_poll_limit() == u32::MAX,
    {
        Self::new_from_ll(Tmp117LL::new(i2c, addr), None)
    }
}

impl<T: I2cBus<E>, E, P: AlertWait> Tmp117<T, E, P> {
    /// Returns the ID of the device.
    pub fn id(&mut self) -> (r: Result<Id, Error<E>>)
        ensures
            final(self).same_setup(old(self)),
            final(self).spec_mode() == old(self).spec_mode(),
            extends(old(self).transcript(), final(self).transcript()),
            match r {
                Ok(id) => exists|w: u16|
                    added(old(self).transcript(), final(self).transcript()) == seq![
                        read_event(old(self).address(), DEVICE_ID_ADDR, w),
                    ] && id.device == w & 0x0FFF && id.revision as u16 == w >> 12u16,
                Err(err) => err is Bus && added(old(self).transcript(), final(self).transcript())
                    == seq![read_failure(old(self).address(), DEVICE_ID_ADDR)],
            },
    {
        let ghost t0 = self.transcript();
        proof {
            lemma_extends_refl(t0);
        }
        let res = self.tmp_ll.read::<DeviceID>();
        proof {
            lemma_added_push(t0, t0, self.transcript().last());
            assert(added(t0, self.transcript()) =~= seq![self.transcript().last()]);
        }
        match res {
            Ok(id) => {
                let r = Id { device: id.device_id(), revision: id.revision() };
                proof {
                    assert(added(t0, self.transcript()) =~= seq![
                        read_event(self.address(), DEVICE_ID_ADDR, id.0),
                    ]);
                    assert(r.device == id.0 & 0x0FFF && r.revision as u16 == id.0 >> 12u16);
                    assert(self.address() == old(self).address());
                }
                Ok(r)
            },
            Err(ErrorLL::Bus(e)) => Err(Error::Bus(e)),
            Err(ErrorLL::InvalidData) => Err(Error::InvalidData),
        }
    }

    /// Read the three user EEPROM words.
    pub fn read_eeprom(&mut self) -> (r: Result<[u16; 3], Error<E>>)
        ensures
            final(self).same_setup(old(self)),
            final(self).spec_mode() == old(self).spec_mode(),
            extends(old(self).transcript(), final(self).transcript()),
            match r {
                Ok(v) => eeprom_read(
                    old(self).address(),
                    added(old(self).transcript(), final(self).transcript()),
                    v,
                ),
                Err(err) => eeprom_read_failed(
                    old(self).address(),
                    added(old(self).transcript(), final(self).transcript()),
                    err,
                ),
            },
    {
        let ghost t0 = self.transcript();
        let ghost a = self.address();
        proof {
            lemma_extends_refl(t0);
        }
        let r1 = self.tmp_ll.read::<UEEPROM1>();
        let ghost t1 = self.transcript();
        proof {
            lemma_added_push(t0, t0, t1.last());
        }
        let u1 = match r1 {
            Ok(u) => u,
            Err(ErrorLL::Bus(e)) => {
                proof {
                    assert(added(t0, t1) =~= seq![read_failure(a, UEEPROM1_ADDR)]);
                }
                return Err(Error::Bus(e));
            },
            Err(ErrorLL::InvalidData) => {
                return Err(Error::InvalidData);
            },
        };
        let r2 = self.tmp_ll.read::<UEEPROM2>();
        let ghost t2 = self.transcript();
        proof {
            lemma_added_push(t0, t1, t2.last());
        }
        let u2 = match r2 {
            Ok(u) => u,
            Err(ErrorLL::Bus(e)) => {
                proof {
                    assert(added(t0, t2) =~= seq![
                        read_event(a, UEEPROM1_ADDR, u1.0),
                        read_failure(a, UEEPROM2_ADDR),
                    ]);
                }
                return Err(Error::Bus(e));
            },
            Err(ErrorLL::InvalidData) => {
                return Err(Error::InvalidData);
            },
        };
        let r3 = self.tmp_ll.read::<UEEPROM3>();
        let ghost t3 = self.transcript();
        proof {
            lemma_added_push(t0, t2, t3.last());
        }
        let u3 = match r3 {
            Ok(u) => u,
            Err(ErrorLL::Bus(e)) => {
                proof {
                    assert(added(t0, t3) =~= seq![
                        read_event(a, UEEPROM1_ADDR, u1.0),
                        read_event(a, UEEPROM2_ADDR, u2.0),
                        read_failure(a, UEEPROM3_ADDR),
                    ]);
                }
                return Err(Error::Bus(e));
            },
            Err(ErrorLL::InvalidData) => {
                return Err(Error::InvalidData);
            },
        };
        let v: [u16; 3] = [u1.0, u2.0, u3.0];
        proof {
            assert(added(t0, t3) =~= seq![
                read_event(a, UEEPROM1_ADDR, v[0]),
                read_event(a, UEEPROM2_ADDR, v[1]),
                read_event(a, UEEPROM3_ADDR, v[2]),
            ]);
        }
        Ok(v)
    }

    /// Reads the configuration until it satisfies `w`, at most
    /// `poll_limit` times. With `use_pin`, waits for the alert pin to go low
    /// before each read, and stops where the pin fails.
    fn wait_for(&mut self, w: Wait, use_pin: bool) -> (r: Result<Configuration, Error<E>>)
        requires
            use_pin ==> old(self).has_pin(),
        ensures
            final(self).same_setup(old(self)),
            final(self).spec_mode() == old(self).spec_mode(),
            extends(old(self).transcript(), final(self).transcript()),
            wait_result(
                old(self).address(),
                w,
                old(self).spec_poll_limit(),
                use_pin,
                added(old(self).transcript(), final(self).transcript()),
                r,
            ),
    {
        let ghost t0 = self.transcript();
        let ghost a = self.address();
        let ghost mut cs: Seq<Configuration> = Seq::empty();
        proof {
            lemma_extends_refl(t0);
            assert(wait_reads(a, use_pin, cs) =~= Seq::<DeviceEvent>::empty());
        }
        let mut count: u32 = 0;
        while count < self.poll_limit
            invariant
                self.same_setup(old(self)),
                self.spec_mode() == old(self).spec_mode(),
                a == old(self).address(),
                t0 == old(self).transcript(),
                use_pin ==> self.has_pin(),
                extends(t0, self.transcript()),
                added(t0, self.transcript()) == wait_reads(a, use_pin, cs),
                cs.len() == count,
                count <= self.poll_limit,
                unmet(w, cs),
            decreases self.poll_limit - count,
        {
            let ghost pre = self.transcript();
            if use_pin {
                let waited = match &mut self.alert {
                    Some(p) => p.wait_for_low(),
                    None => Ok(()),
                };
                let ok = waited.is_ok();
                self.tmp_ll.record(Ghost(DeviceEvent::PinWait { ok }));
                proof {
                    lemma_added_push(t0, pre, DeviceEvent::PinWait { ok });
                }
                if !ok {
                    return Err(Error::AlertPin);
                }
            }
            let ghost mid = self.transcript();
            proof {
                assert(added(t0, mid) =~= wait_reads(a, use_pin, cs) + pin_step(use_pin));
            }
            let res = self.tmp_ll.read::<Configuration>();
            proof {
                lemma_added_push(t0, mid, self.transcript().last());
            }
            let c = match res {
                Ok(c) => c,
                Err(ErrorLL::Bus(e)) => {
                    proof {
                        let ev = read_failure(a, CONFIGURATION_ADDR);
                        assert(config_read_failed(a, ev, Error::<E>::Bus(e)));
                    }
                    return Err(Error::Bus(e));
                },
                Err(ErrorLL::InvalidData) => {
                    proof {
                        let ev = self.transcript().last();
                        assert(config_read_failed(a, ev, Error::<E>::InvalidData));
                    }
                    return Err(Error::InvalidData);
                },
            };
            let ghost prev = cs;
            proof {
                lemma_wait_reads_push(a, use_pin, cs, c);
                cs = cs.push(c);
                assert(forall|i: int| 0 <= i < prev.len() ==> cs[i] == prev[i]);
            }
            if is_satisfied(w, &c) {
                proof {
                    assert(poll_done(w, cs));
                }
                return Ok(c);
            }
            count = count + 1;
        }
        Err(Error::Timeout)
    }

    /// Waits until the EEPROM is not busy.
    fn wait_eeprom(&mut self) -> (r: Result<Configuration, Error<E>>)
        ensures
            final(self).same_setup(old(self)),
            final(self).spec_mode() == old(self).spec_mode(),
            extends(old(self).transcript(), final(self).transcript()),
            wait_result(
                old(self).address(),
                Wait::EepromIdle,
                old(self).spec_poll_limit(),
                false,
                added(old(self).transcript(), final(self).transcript()),
                r,
            ),
    {
        self.wait_for(Wait::EepromIdle, false)
    }

    /// Waits until the EEPROM is not busy, then writes `v`.
    fn wait_and_write<R: WritableRegister>(&mut self, v: R) -> (r: Result<(), Error<E>>)
        ensures
            final(self).same_setup(old(self)),
            final(self).spec_mode() == old(self).spec_mode(),
            extends(old(self).transcript(), final(self).transcript()),
            idle_write_result(
                old(self).address(),
                old(self).spec_poll_limit(),
                R::reg_address(),
                v.reg_word(),
                added(old(self).transcript(), final(self).transcript()),
                r,
            ),
    {
        let ghost t0 = self.transcript();
        let ghost a = self.address();
        let ghost limit = self.spec_poll_limit();
        let waited = self.wait_eeprom();
        let ghost t1 = self.transcript();
        match waited {
            Ok(_) => {},
            Err(e) => {
                return Err(e);
            },
        }
        let written = self.tmp_ll.write(v);
        proof {
            let cs = choose|cs: Seq<Configuration>|
                poll_done(Wait::EepromIdle, cs) && cs.last() == waited->Ok_0 && cs.len() <= limit
                    && added(t0, t1) == wait_reads(a, false, cs);
            lemma_added_push(t0, t1, self.transcript().last());
            if written is Ok {
                assert(added(t0, self.transcript()) == config_reads(a, cs).push(
                    write_event(a, R::reg_address(), v.reg_word()),
                ));
            } else {
                assert(added(t0, self.transcript()) == config_reads(a, cs).push(
                    write_failure(a, R::reg_address(), v.reg_word()),
                ));
            }
        }
        match written {
            Ok(()) => Ok(()),
            Err(ErrorLL::Bus(e)) => Err(Error::Bus(e)),
            Err(ErrorLL::InvalidData) => Err(Error::InvalidData),
        }
    }

    /// Writes the three user EEPROM words. Before each word it waits until
    /// the EEPROM is not busy, since programming the previous one sets the
    /// busy flag again. It stops at the first failure.
    pub fn write_eeprom(&mut self, values: [u16; 3]) -> (r: Result<(), Error<E>>)
        ensures
            final(self).same_setup(old(self)),
            final(self).spec_mode() == old(self).spec_mode(),
            extends(old(self).transcript(), final(self).transcript()),
            eeprom_write_result(
                old(self).address(),
                old(self).spec_poll_limit(),
                values,
                added(old(self).transcript(), final(self).transcript()),
                r,
            ),
    {
        let ghost t0 = self.transcript();
        let ghost a = self.address();
        let ghost limit = self.spec_poll_limit();
        let r1 = self.wait_and_write(UEEPROM1(values[0]));
        let ghost t1 = self.transcript();
        if r1.is_err() {
            return r1;
        }
        let r2 = self.wait_and_write(UEEPROM2(values[1]));
        let ghost t2 = self.transcript();
        proof {
            lemma_added_trans(t0, t1, t2);
        }
        if r2.is_err() {
            proof {
                let s1 = added(t0, t1);
                let s2 = added(t1, t2);
                assert(idle_then_write(a, limit, s1, UEEPROM1_ADDR, values[0]));
                assert(idle_write_result(a, limit, UEEPROM2_ADDR, values[1], s2, r2));
            }
            return r2;
        }
        let r3 = self.wait_and_write(UEEPROM3(values[2]));
        let ghost t3 = self.transcript();
        proof {
            lemma_added_trans(t0, t2, t3);
            let s1 = added(t0, t1);
            let s2 = added(t1, t2);
            let s3 = added(t2, t3);
            assert(added(t0, t3) == s1 + s2 + s3);
            assert(idle_then_write(a, limit, s1, UEEPROM1_ADDR, values[0]));
            assert(idle_then_write(a, limit, s2, UEEPROM2_ADDR, values[1]));
            assert(idle_write_result(a, limit, UEEPROM3_ADDR, values[2], s3, r3));
        }
        r3
    }

    /// Read-modify-write of the configuration register.
    fn edit_config(&mut self, e: ConfigEdit) -> (r: Result<(), Error<E>>)
        ensures
            final(self).same_setup(old(self)),
            final(self).spec_mode() == old(self).spec_mode(),
            extends(old(self).transcript(), final(self).transcript()),
            edit_result(
                old(self).address(),
                e,
                added(old(self).transcript(), final(self).transcript()),
                r,
            ),
    {
        let ghost t0 = self.transcript();
        let ghost a = self.address();
        let update = (move |c: Configuration| -> (r: Configuration)
            ensures
                r == spec_apply(e, c),
            { e.apply(c) });
        let res = self.tmp_ll.edit(update);
        proof {
            lemma_extends_refl(t0);
            let t = self.transcript();
            match res {
                Ok((x, y)) => {
                    lemma_added_push(t0, t0, config_read(a, x));
                    lemma_added_push(t0, t0.push(config_read(a, x)), t.last());
                    assert(added(t0, t) =~= seq![
                        config_read(a, x),
                        write_event(a, CONFIGURATION_ADDR, spec_apply(e, x).spec_word()),
                    ]);
                },
                Err(ErrorLL::InvalidData) => {
                    lemma_added_push(t0, t0, t.last());
                    assert(added(t0, t) =~= seq![t.last()]);
                },
                Err(ErrorLL::Bus(_)) => {
                    if t == t0.push(read_failure(a, CONFIGURATION_ADDR)) {
                        lemma_added_push(t0, t0, t.last());
                        assert(added(t0, t) =~= seq![read_failure(a, CONFIGURATION_ADDR)]);
                    } else {
                        let (x, y) = choose|x: Configuration, y: Configuration|
                            update.ensures((x,), y) && Configuration::spec_decode(x.spec_word())
                                == Some(x) && t == t0.push(
                                read_event(a, CONFIGURATION_ADDR, x.spec_word()),
                            ).push(write_failure(a, CONFIGURATION_ADDR, y.spec_word()));
                        lemma_added_push(t0, t0, config_read(a, x));
                        lemma_added_push(t0, t0.push(config_read(a, x)), t.last());
                        assert(added(t0, t) =~= seq![
                            config_read(a, x),
                            write_failure(a, CONFIGURATION_ADDR, spec_apply(e, x).spec_word()),
                        ]);
                    }
                },
            }
        }
        match res {
            Ok(_) => Ok(()),
            Err(ErrorLL::Bus(err)) => Err(Error::Bus(err)),
            Err(ErrorLL::InvalidData) => Err(Error::InvalidData),
        }
    }

    /// Routes `sel` to the alert pin, unless there is no pin or it already
    /// reports `sel`. The configuration is edited at most once per change of
    /// what the pin reports.
    fn select_pin(&mut self, sel: AlertPinSelect) -> (r: Result<(), Error<E>>)
        ensures
            final(self).same_base(old(self)),
            final(self).spec_mode() == old(self).spec_mode(),
            extends(old(self).transcript(), final(self).transcript()),
            pin_result(
                old(self).address(),
                old(self).has_pin(),
                old(self).spec_pin_state(),
                sel,
                added(old(self).transcript(), final(self).transcript()),
                r,
            ),
            final(self).spec_pin_state() == if r is Ok {
                pin_after(old(self).has_pin(), old(self).spec_pin_state(), sel)
            } else {
                old(self).spec_pin_state()
            },
    {
        let ghost t0 = self.transcript();
        proof {
            lemma_extends_refl(t0);
        }
        if self.alert.is_none() {
            return Ok(());
        }
        let target = match sel {
            AlertPinSelect::Alert => AlertPinState::ConfiguredForAlert,
            AlertPinSelect::DataReady => AlertPinState::ConfiguredForDataReady,
        };
        if self.pin_state == target {
            return Ok(());
        }
        match self.edit_config(ConfigEdit::Pin(sel)) {
            Ok(()) => {},
            Err(err) => {
                return Err(err);
            },
        }
        self.pin_state = target;
        Ok(())
    }

    /// Puts the device in shutdown. Legal in every mode.
    pub fn set_shutdown(&mut self) -> (r: Result<(), Error<E>>)
        ensures
            final(self).same_setup(old(self)),
            extends(old(self).transcript(), final(self).transcript()),
            edit_result(
                old(self).address(),
                ConfigEdit::Shutdown,
                added(old(self).transcript(), final(self).transcript()),
                r,
            ),
            final(self).spec_mode() == if r is Ok {
                Mode::Shutdown
            } else {
                old(self).spec_mode()
            },
    {
        match self.edit_config(ConfigEdit::Shutdown) {
            Ok(()) => {},
            Err(err) => {
                return Err(err);
            },
        }
        self.mode = Mode::Shutdown;
        Ok(())
    }

    /// Starts one conversion with the given averaging, without waiting for
    /// it. Legal in the unknown and shutdown modes only; elsewhere it fails
    /// with [`Error::InvalidState`] and makes no transfer. Where an alert pin
    /// is present it is first routed to report data ready.
    pub fn set_oneshot(&mut self, average: Average) -> (r: Result<(), Error<E>>)
        ensures
            final(self).same_base(old(self)),
            extends(old(self).transcript(), final(self).transcript()),
            r is Err && r->Err_0 is InvalidState <==> !may_start(old(self).spec_mode()),
            !may_start(old(self).spec_mode()) ==> final(self).transcript() == old(self).transcript()
                && final(self).spec_pin_state() == old(self).spec_pin_state(),
            may_start(old(self).spec_mode()) ==> oneshot_start_result(
                old(self).address(),
                old(self).has_pin(),
                old(self).spec_pin_state(),
                average,
                added(old(self).transcript(), final(self).transcript()),
                r,
            ),
            r is Ok ==> final(self).spec_mode() == Mode::OneShot && final(self).spec_pin_state()
                == pin_after(old(self).has_pin(), old(self).spec_pin_state(), AlertPinSelect::DataReady),
            r is Err ==> final(self).spec_mode() == old(self).spec_mode(),
    {
        let ghost t0 = self.transcript();
        let ghost a = self.address();
        proof {
            lemma_extends_refl(t0);
        }
        match self.mode {
            Mode::Unknown | Mode::Shutdown => {},
            _ => {
                return Err(Error::InvalidState);
            },
        }
        let r1 = self.select_pin(AlertPinSelect::DataReady);
        let ghost t1 = self.transcript();
        match r1 {
            Ok(()) => {},
            Err(err) => {
                return Err(err);
            },
        }
        let r2 = self.edit_config(ConfigEdit::OneShot(average));
        proof {
            lemma_added_trans(t0, t1, self.transcript());
            let s1 = added(t0, t1);
            let s2 = added(t1, self.transcript());
            assert(pin_selected(a, old(self).has_pin(), old(self).spec_pin_state(), AlertPinSelect::DataReady, s1));
            assert(edit_result(a, ConfigEdit::OneShot(average), s2, r2));
            assert(added(t0, self.transcript()) == s1 + s2);
        }
        match r2 {
            Ok(()) => {},
            Err(err) => {
                return Err(err);
            },
        }
        self.mode = Mode::OneShot;
        Ok(())
    }

    /// Reads the temperature register.
    fn read_temp_raw(&mut self) -> (r: Result<i16, Error<E>>)
        ensures
            final(self).same_setup(old(self)),
            final(self).spec_mode() == old(self).spec_mode(),
            extends(old(self).transcript(), final(self).transcript()),
            temp_result(
                old(self).address(),
                added(old(self).transcript(), final(self).transcript()),
                r,
            ),
    {
        let ghost t0 = self.transcript();
        proof {
            lemma_extends_refl(t0);
        }
        let res = self.tmp_ll.read::<Temperature>();
        proof {
            lemma_added_push(t0, t0, self.transcript().last());
            assert(added(t0, self.transcript()) =~= seq![self.transcript().last()]);
        }
        match res {
            Ok(temp) => {
                proof {
                    assert(added(t0, self.transcript()) =~= seq![
                        read_event(self.address(), TEMPERATURE_ADDR, temp.0),
                    ]);
                }
                Ok(temp.ticks())
            },
            Err(ErrorLL::Bus(err)) => Err(Error::Bus(err)),
            Err(ErrorLL::InvalidData) => Err(Error::InvalidData),
        }
    }

    /// Reads the configuration, then, where it reports a result ready, the
    /// temperature; fails with [`Error::DataNotReady`] otherwise.
    fn read_if_ready(&mut self) -> (r: Result<i16, Error<E>>)
        ensures
            final(self).same_setup(old(self)),
            final(self).spec_mode() == old(self).spec_mode(),
            extends(old(self).transcript(), final(self).transcript()),
            ready_read_result(
                old(self).address(),
                added(old(self).transcript(), final(self).transcript()),
                r,
            ),
    {
        let ghost t0 = self.transcript();
        let ghost a = self.address();
        proof {
            lemma_extends_refl(t0);
        }
        let res = self.tmp_ll.read::<Configuration>();
        let ghost t1 = self.transcript();
        proof {
            lemma_added_push(t0, t0, t1.last());
            assert(added(t0, t1) =~= seq![t1.last()]);
        }
        let config = match res {
            Ok(c) => c,
            Err(ErrorLL::Bus(err)) => {
                proof {
                    assert(config_read_failed(a, t1.last(), Error::<E>::Bus(err)));
                }
                return Err(Error::Bus(err));
            },
            Err(ErrorLL::InvalidData) => {
                proof {
                    assert(config_read_failed(a, t1.last(), Error::<E>::InvalidData));
                }
                return Err(Error::InvalidData);
            },
        };
        proof {
            assert(added(t0, t1) =~= seq![config_read(a, config)]);
        }
        if !config.data_ready {
            return Err(Error::DataNotReady);
        }
        let res = self.read_temp_raw();
        proof {
            lemma_added_trans(t0, t1, self.transcript());
            let s2 = added(t1, self.transcript());
            match res {
                Ok(t) => {
                    let w = choose|w: u16|
                        s2 == seq![read_event(a, TEMPERATURE_ADDR, w)] && t as int == signed(w);
                    assert(added(t0, self.transcript()) =~= seq![
                        config_read(a, config),
                        read_event(a, TEMPERATURE_ADDR, w),
                    ]);
                    assert(ready_then_temp(a, added(t0, self.transcript()), config, w));
                },
                Err(_) => {
                    assert(added(t0, self.transcript()) =~= seq![
                        config_read(a, config),
                        read_failure(a, TEMPERATURE_ADDR),
                    ]);
                },
            }
        }
        res
    }

    /// Reads the result of the conversion started by
    /// [`set_oneshot`](Self::set_oneshot) without waiting: fails with
    /// [`Error::DataNotReady`] while the configuration does not report it
    /// ready, and the driver stays in one-shot mode. Once the result is
    /// read the driver is in shutdown, as the device is. Outside one-shot
    /// mode it fails with [`Error::InvalidState`] and makes no transfer.
    pub fn read_once(&mut self) -> (r: Result<i16, Error<E>>)
        ensures
            final(self).same_setup(old(self)),
            extends(old(self).transcript(), final(self).transcript()),
            r is Err && r->Err_0 is InvalidState <==> !(old(self).spec_mode() is OneShot),
            !(old(self).spec_mode() is OneShot) ==> final(self).transcript() == old(
                self).transcript(),
            old(self).spec_mode() is OneShot ==> ready_read_result(
                old(self).address(),
                added(old(self).transcript(), final(self).transcript()),
                r,
            ),
            final(self).spec_mode() == if r is Ok {
                Mode::Shutdown
            } else {
                old(self).spec_mode()
            },
    {
        proof {
            lemma_extends_refl(self.transcript());
        }
        match self.mode {
            Mode::OneShot => {},
            _ => {
                return Err(Error::InvalidState);
            },
        }
        let res = self.read_if_ready();
        match res {
            Ok(t) => {
                self.mode = Mode::Shutdown;
                Ok(t)
            },
            Err(err) => Err(err),
        }
    }

    /// Waits until a conversion result is ready: on the alert pin where it
    /// has been routed to report data ready, by polling otherwise.
    fn wait_for_data(&mut self) -> (r: Result<Configuration, Error<E>>)
        ensures
            final(self).same_setup(old(self)),
            final(self).spec_mode() == old(self).spec_mode(),
            extends(old(self).transcript(), final(self).transcript()),
            wait_result(
                old(self).address(),
                Wait::DataReady,
                old(self).spec_poll_limit(),
                old(self).has_pin() && old(self).spec_pin_state()
                    == AlertPinState::ConfiguredForDataReady,
                added(old(self).transcript(), final(self).transcript()),
                r,
            ),
    {
        let use_pin = self.alert.is_some() && self.pin_state
            == AlertPinState::ConfiguredForDataReady;
        self.wait_for(Wait::DataReady, use_pin)
    }

    /// Starts one conversion with the given averaging, waits for its result
    /// and returns it in LSBs of 1/128 °C. The device returns to shutdown by
    /// itself, and so does the driver. Legal in the unknown and shutdown
    /// modes only; elsewhere it fails with [`Error::InvalidState`] and makes
    /// no transfer.
    pub fn oneshot(&mut self, average: Average) -> (r: Result<i16, Error<E>>)
        ensures
            final(self).same_base(old(self)),
            extends(old(self).transcript(), final(self).transcript()),
            r is Err && r->Err_0 is InvalidState <==> !may_start(old(self).spec_mode()),
            !may_start(old(self).spec_mode()) ==> final(self).transcript() == old(
                self).transcript(),
            may_start(old(self).spec_mode()) ==> oneshot_result(
                old(self).address(),
                old(self).has_pin(),
                old(self).spec_pin_state(),
                average,
                old(self).spec_poll_limit(),
                added(old(self).transcript(), final(self).transcript()),
                r,
            ),
            r is Ok ==> final(self).spec_mode() == Mode::Shutdown && final(self).spec_pin_state()
                == pin_after(old(self).has_pin(), old(self).spec_pin_state(), AlertPinSelect::DataReady),
    {
        let ghost t0 = self.transcript();
        let ghost a = self.address();
        let ghost limit = self.spec_poll_limit();
        let ghost has_pin = self.has_pin();
        let ghost state = self.spec_pin_state();
        let started = self.set_oneshot(average);
        let ghost t1 = self.transcript();
        match started {
            Ok(()) => {},
            Err(err) => {
                return Err(err);
            },
        }
        let ghost s1 = added(t0, t1);
        let waited = self.wait_for_data();
        let ghost t2 = self.transcript();
        proof {
            lemma_added_trans(t0, t1, t2);
            assert((self.has_pin() && self.spec_pin_state() == AlertPinState::ConfiguredForDataReady)
                == has_pin);
        }
        match waited {
            Ok(_) => {},
            Err(err) => {
                proof {
                    let s2 = added(t1, t2);
                    assert(wait_result(a, Wait::DataReady, limit, has_pin, s2, Err::<Configuration, Error<E>>(err)));
                    assert(wait_then_temp(a, limit, has_pin, s1, added(t0, t2), Err::<i16, Error<E>>(err)));
                }
                return Err(err);
            },
        }
        let res = self.read_temp_raw();
        proof {
            let t3 = self.transcript();
            lemma_added_trans(t0, t2, t3);
            let cs = choose|cs: Seq<Configuration>|
                poll_done(Wait::DataReady, cs) && cs.last() == waited->Ok_0 && cs.len() <= limit
                    && added(t1, t2) == wait_reads(a, has_pin, cs);
            if res is Ok {
                let t = res->Ok_0;
                {
                    let w = choose|w: u16|
                        added(t2, t3) == seq![read_event(a, TEMPERATURE_ADDR, w)] && t as int
                            == signed(w);
                    assert(added(t0, t3) =~= s1 + wait_reads(a, has_pin, cs).push(
                        read_event(a, TEMPERATURE_ADDR, w),
                    ));
                    assert(wait_then_temp(a, limit, has_pin, s1, added(t0, t3), res));
                }
            } else {
                assert(added(t0, t3) =~= s1 + wait_reads(a, has_pin, cs).push(
                    read_failure(a, TEMPERATURE_ADDR),
                ));
                assert(wait_then_temp(a, limit, has_pin, s1, added(t0, t3), res));
            }
        }
        match res {
            Ok(t) => {
                self.mode = Mode::Shutdown;
                Ok(t)
            },
            Err(err) => Err(err),
        }
    }

    /// Resets the device: sets the reset bit, then waits 2 ms for the
    /// device to settle. The device reloads its defaults, so the driver
    /// forgets the mode and what the alert pin reports. Where the reset
    /// edit fails there is no delay.
    pub fn reset<D: DelayMs>(&mut self, delay: &mut D) -> (r: Result<(), Error<E>>)
        ensures
            final(self).same_base(old(self)),
            extends(old(self).transcript(), final(self).transcript()),
            reset_result(
                old(self).address(),
                added(old(self).transcript(), final(self).transcript()),
                r,
            ),
            r is Ok ==> final(self).spec_mode() == Mode::Unknown && final(self).spec_pin_state()
                == AlertPinState::Unconfigured,
            r is Err ==> final(self).spec_mode() == old(self).spec_mode() && final(
                self).spec_pin_state() == old(self).spec_pin_state(),
    {
        let ghost t0 = self.transcript();
        match self.edit_config(ConfigEdit::Reset) {
            Ok(()) => {},
            Err(err) => {
                return Err(err);
            },
        }
        let ghost t1 = self.transcript();
        let settle: u32 = 2;
        delay.delay_ms(settle);
        self.tmp_ll.record(Ghost(DeviceEvent::Delay { ms: settle }));
        proof {
            lemma_added_push(t0, t1, DeviceEvent::Delay { ms: 2 });
        }
        self.mode = Mode::Unknown;
        self.pin_state = AlertPinState::Unconfigured;
        Ok(())
    }

    /// Reads the configuration and classifies its alert flags.
    fn check_alert(&mut self) -> (r: Result<Alert, Error<E>>)
        ensures
            final(self).same_setup(old(self)),
            final(self).spec_mode() == old(self).spec_mode(),
            extends(old(self).transcript(), final(self).transcript()),
            alert_read_result(
                old(self).address(),
                added(old(self).transcript(), final(self).transcript()),
                r,
            ),
    {
        let ghost t0 = self.transcript();
        let ghost a = self.address();
        proof {
            lemma_extends_refl(t0);
        }
        let res = self.tmp_ll.read::<Configuration>();
        let ghost t1 = self.transcript();
        proof {
            lemma_added_push(t0, t0, t1.last());
            assert(added(t0, t1) =~= seq![t1.last()]);
        }
        match res {
            Ok(c) => {
                proof {
                    assert(added(t0, t1) =~= seq![config_read(a, c)]);
                }
                Ok(classify(&c))
            },
            Err(ErrorLL::Bus(err)) => {
                proof {
                    assert(config_read_failed(a, t1.last(), Error::<E>::Bus(err)));
                }
                Err(Error::Bus(err))
            },
            Err(ErrorLL::InvalidData) => {
                proof {
                    assert(config_read_failed(a, t1.last(), Error::<E>::InvalidData));
                }
                Err(Error::InvalidData)
            },
        }
    }

    /// Waits until an alert flag is set and classifies the flags: on the
    /// alert pin where it has been routed to report alerts, by polling
    /// otherwise. Either way each wake of the pin is checked by reading the
    /// flags.
    fn wait_for_alert(&mut self) -> (r: Result<Alert, Error<E>>)
        ensures
            final(self).same_setup(old(self)),
            final(self).spec_mode() == old(self).spec_mode(),
            extends(old(self).transcript(), final(self).transcript()),
            match r {
                Ok(al) => exists|cs: Seq<Configuration>|
                    poll_done(Wait::AnyAlert, cs) && cs.len() <= old(self).spec_poll_limit()
                        && added(old(self).transcript(), final(self).transcript()) == wait_reads(
                        old(self).address(),
                        old(self).has_pin() && old(self).spec_pin_state()
                            == AlertPinState::ConfiguredForAlert,
                        cs,
                    ) && al == spec_classify(cs.last().high_alert, cs.last().low_alert),
                Err(err) => wait_result(
                    old(self).address(),
                    Wait::AnyAlert,
                    old(self).spec_poll_limit(),
                    old(self).has_pin() && old(self).spec_pin_state()
                        == AlertPinState::ConfiguredForAlert,
                    added(old(self).transcript(), final(self).transcript()),
                    Err::<Configuration, Error<E>>(err),
                ),
            },
    {
        let use_pin = self.alert.is_some() && self.pin_state == AlertPinState::ConfiguredForAlert;
        let ghost t0 = self.transcript();
        let ghost a = self.address();
        let ghost limit = self.spec_poll_limit();
        let res = self.wait_for(Wait::AnyAlert, use_pin);
        match res {
            Ok(c) => {
                let al = classify(&c);
                proof {
                    let cs = choose|cs: Seq<Configuration>|
                        poll_done(Wait::AnyAlert, cs) && cs.last() == c && cs.len() <= limit
                            && added(t0, self.transcript()) == wait_reads(a, use_pin, cs);
                    assert(al == spec_classify(cs.last().high_alert, cs.last().low_alert));
                }
                Ok(al)
            },
            Err(err) => Err(err),
        }
    }

    /// Writes `v` to its register where there is a value.
    fn write_optional<R: WritableRegister>(&mut self, v: Option<R>) -> (r: Result<(), Error<E>>)
        ensures
            final(self).same_setup(old(self)),
            final(self).spec_mode() == old(self).spec_mode(),
            extends(old(self).transcript(), final(self).transcript()),
            write_result(
                old(self).address(),
                R::reg_address(),
                match v {
                    Some(x) => Some(x.reg_word()),
                    None => None,
                },
                added(old(self).transcript(), final(self).transcript()),
                r,
            ),
    {
        let ghost t0 = self.transcript();
        proof {
            lemma_extends_refl(t0);
        }
        match v {
            Some(x) => {
                let res = self.tmp_ll.write(x);
                proof {
                    lemma_added_push(t0, t0, self.transcript().last());
                    assert(added(t0, self.transcript()) =~= seq![self.transcript().last()]);
                }
                match res {
                    Ok(()) => Ok(()),
                    Err(ErrorLL::Bus(err)) => Err(Error::Bus(err)),
                    Err(ErrorLL::InvalidData) => Err(Error::InvalidData),
                }
            },
            None => Ok(()),
        }
    }

    /// Puts the device in continuous mode: routes the alert pin to report
    /// data ready, writes the limits and the offset that `config` gives,
    /// then sets the mode, the averaging and the conversion cycle. It stops
    /// at the first failure.
    fn set_continuous(&mut self, config: ContinuousConfig) -> (r: Result<(), Error<E>>)
        ensures
            final(self).same_base(old(self)),
            extends(old(self).transcript(), final(self).transcript()),
            continuous_result(
                old(self).address(),
                old(self).has_pin(),
                old(self).spec_pin_state(),
                config,
                added(old(self).transcript(), final(self).transcript()),
                r,
            ),
            r is Ok ==> final(self).spec_mode() == Mode::Continuous && final(self).spec_pin_state()
                == pin_after(old(self).has_pin(), old(self).spec_pin_state(), AlertPinSelect::DataReady),
            r is Err ==> final(self).spec_mode() == old(self).spec_mode(),
    {
        let ghost t0 = self.transcript();
        let ghost a = self.address();
        let ghost has_pin = self.has_pin();
        let ghost state = self.spec_pin_state();
        let r0 = self.select_pin(AlertPinSelect::DataReady);
        let ghost t1 = self.transcript();
        if r0.is_err() {
            return r0;
        }
        let ghost s1 = added(t0, t1);
        let ghost oh = optional_write(a, HIGH_LIMIT_ADDR, config.high);
        let ghost ol = optional_write(a, LOW_LIMIT_ADDR, config.low);
        let ghost oo = optional_write(a, TEMPERATURE_OFFSET_ADDR, config.offset);
        let high = match config.high {
            Some(v) => Some(HighLimit(v)),
            None => None,
        };
        let r1 = self.write_optional(high);
        let ghost t2 = self.transcript();
        proof {
            lemma_added_trans(t0, t1, t2);
            assert(write_result(a, HIGH_LIMIT_ADDR, config.high, added(t1, t2), r1));
            if r1 is Ok {
                assert(added(t1, t2) =~= oh);
            }
        }
        if r1.is_err() {
            return r1;
        }
        let low = match config.low {
            Some(v) => Some(LowLimit(v)),
            None => None,
        };
        let r2 = self.write_optional(low);
        let ghost t3 = self.transcript();
        proof {
            lemma_added_trans(t0, t2, t3);
            assert(write_result(a, LOW_LIMIT_ADDR, config.low, added(t2, t3), r2));
            assert(added(t0, t2) == s1 + oh);
            if r2 is Ok {
                assert(added(t2, t3) =~= ol);
            }
        }
        if r2.is_err() {
            return r2;
        }
        let offset = match config.offset {
            Some(v) => Some(TemperatureOffset(v)),
            None => None,
        };
        let r3 = self.write_optional(offset);
        let ghost t4 = self.transcript();
        proof {
            lemma_added_trans(t0, t3, t4);
            assert(write_result(a, TEMPERATURE_OFFSET_ADDR, config.offset, added(t3, t4), r3));
            assert(added(t0, t3) == s1 + oh + ol);
            if r3 is Ok {
                assert(added(t3, t4) =~= oo);
            }
        }
        if r3.is_err() {
            return r3;
        }
        let r4 = self.edit_config(ConfigEdit::Continuous(config.average, config.conversion));
        let ghost t5 = self.transcript();
        proof {
            lemma_added_trans(t0, t4, t5);
            assert(limit_writes(a, config) == oh + ol + oo);
            assert(added(t0, t4) =~= s1 + limit_writes(a, config));
            assert(edit_result(a, ConfigEdit::Continuous(config.average, config.conversion), added(t4, t5), r4));
        }
        if r4.is_err() {
            return r4;
        }
        self.mode = Mode::Continuous;
        Ok(())
    }

    /// Puts the device in continuous mode with `config` and hands back the
    /// handler through which it is used until [`shutdown`](ContinuousHandler::shutdown).
    /// Legal in the unknown and shutdown modes only; elsewhere it fails with
    /// [`Error::InvalidState`] and makes no transfer. On failure the driver
    /// is handed back with the error.
    pub fn continuous(self, config: ContinuousConfig) -> (r: Result<
        ContinuousHandler<T, E, P>,
        (Self, Error<E>),
    >)
        ensures
            match r {
                Ok(h) => may_start(self.spec_mode()) && h.driver().same_base(&self)
                    && h.driver().spec_mode() == Mode::Continuous && h.driver().spec_pin_state()
                    == pin_after(self.has_pin(), self.spec_pin_state(), AlertPinSelect::DataReady)
                    && extends(self.transcript(), h.driver().transcript()) && continuous_started(
                    self.address(),
                    self.has_pin(),
                    self.spec_pin_state(),
                    config,
                    added(self.transcript(), h.driver().transcript()),
                ),
                Err((d, Error::InvalidState)) => !may_start(self.spec_mode()) && d == self,
                Err((d, err)) => may_start(self.spec_mode()) && d.same_base(&self) && d.spec_mode()
                    == self.spec_mode() && extends(self.transcript(), d.transcript())
                    && continuous_result(
                    self.address(),
                    self.has_pin(),
                    self.spec_pin_state(),
                    config,
                    added(self.transcript(), d.transcript()),
                    Err::<(), Error<E>>(err),
                ),
            },
    {
        match self.mode {
            Mode::Unknown | Mode::Shutdown => {},
            _ => {
                return Err((self, Error::InvalidState));
            },
        }
        let mut d = self;
        match d.set_continuous(config) {
            Ok(()) => Ok(ContinuousHandler { tmp117: d }),
            Err(err) => Err((d, err)),
        }
    }
}

/// Handler for the continuous mode. It owns the driver while the device
/// converts continuously.
pub struct ContinuousHandler<T, E, P> {
    tmp117: Tmp117<T, E, P>,
}

impl<T, E, P> ContinuousHandler<T, E, P> {
    /// The driver, in continuous mode.
    pub closed spec fn driver(&self) -> Tmp117<T, E, P> {
        self.tmp117
    }

    /// Gives back the driver without a transfer; the device keeps
    /// converting and the driver stays in continuous mode, where only
    /// [`set_shutdown`](Tmp117::set_shutdown) and the EEPROM and ID
    /// operations are legal.
    pub fn release(self) -> (r: Tmp117<T, E, P>)
        ensures
            r == self.driver(),
    {
        self.tmp117
    }
}

impl<T: I2cBus<E>, E, P: AlertWait> ContinuousHandler<T, E, P> {
    /// Reads the temperature in LSBs of 1/128 °C; fails with
    /// [`Error::DataNotReady`] where the configuration does not report a
    /// result ready.
    pub fn read_temp(&mut self) -> (r: Result<i16, Error<E>>)
        ensures
            final(self).driver().same_setup(&old(self).driver()),
            final(self).driver().spec_mode() == old(self).driver().spec_mode(),
            extends(old(self).driver().transcript(), final(self).driver().transcript()),
            ready_read_result(
                old(self).driver().address(),
                added(old(self).driver().transcript(), final(self).driver().transcript()),
                r,
            ),
    {
        self.tmp117.read_if_ready()
    }

    /// Waits for a result to be ready, then reads the temperature in LSBs
    /// of 1/128 °C. Where an alert pin is present it is first routed to
    /// report data ready, and the wait blocks on it before each read.
    pub fn wait_temp(&mut self) -> (r: Result<i16, Error<E>>)
        ensures
            final(self).driver().same_base(&old(self).driver()),
            final(self).driver().spec_mode() == old(self).driver().spec_mode(),
            extends(old(self).driver().transcript(), final(self).driver().transcript()),
            wait_temp_result(
                old(self).driver().address(),
                old(self).driver().has_pin(),
                old(self).driver().spec_pin_state(),
                old(self).driver().spec_poll_limit(),
                added(old(self).driver().transcript(), final(self).driver().transcript()),
                r,
            ),
            r is Ok ==> final(self).driver().spec_pin_state() == pin_after(
                old(self).driver().has_pin(),
                old(self).driver().spec_pin_state(),
                AlertPinSelect::DataReady,
            ),
    {
        let ghost d0 = self.tmp117;
        let ghost t0 = d0.transcript();
        let ghost a = d0.address();
        let ghost limit = d0.spec_poll_limit();
        let ghost has_pin = d0.has_pin();
        let r0 = self.tmp117.select_pin(AlertPinSelect::DataReady);
        let ghost t1 = self.tmp117.transcript();
        match r0 {
            Ok(()) => {},
            Err(err) => {
                return Err(err);
            },
        }
        let ghost s1 = added(t0, t1);
        proof {
            assert(pin_selected(a, has_pin, d0.spec_pin_state(), AlertPinSelect::DataReady, s1));
        }
        let waited = self.tmp117.wait_for_data();
        let ghost t2 = self.tmp117.transcript();
        proof {
            lemma_added_trans(t0, t1, t2);
            assert((self.tmp117.has_pin() && self.tmp117.spec_pin_state()
                == AlertPinState::ConfiguredForDataReady) == has_pin);
        }
        match waited {
            Ok(_) => {},
            Err(err) => {
                proof {
                    let s2 = added(t1, t2);
                    assert(wait_result(a, Wait::DataReady, limit, has_pin, s2, Err::<Configuration, Error<E>>(err)));
                    assert(wait_then_temp(a, limit, has_pin, s1, added(t0, t2), Err::<i16, Error<E>>(err)));
                }
                return Err(err);
            },
        }
        let res = self.tmp117.read_temp_raw();
        proof {
            let t3 = self.tmp117.transcript();
            lemma_added_trans(t0, t2, t3);
            let cs = choose|cs: Seq<Configuration>|
                poll_done(Wait::DataReady, cs) && cs.last() == waited->Ok_0 && cs.len() <= limit
                    && added(t1, t2) == wait_reads(a, has_pin, cs);
            if res is Ok {
                let t = res->Ok_0;
                {
                    let w = choose|w: u16|
                        added(t2, t3) == seq![read_event(a, TEMPERATURE_ADDR, w)] && t as int
                            == signed(w);
                    assert(added(t0, t3) =~= s1 + wait_reads(a, has_pin, cs).push(
                        read_event(a, TEMPERATURE_ADDR, w),
                    ));
                    assert(wait_then_temp(a, limit, has_pin, s1, added(t0, t3), res));
                }
            } else {
                assert(added(t0, t3) =~= s1 + wait_reads(a, has_pin, cs).push(
                    read_failure(a, TEMPERATURE_ADDR),
                ));
                assert(wait_then_temp(a, limit, has_pin, s1, added(t0, t3), res));
            }
        }
        res
    }

    /// Checks whether an alert was triggered since the last read of the
    /// flags.
    pub fn get_alert(&mut self) -> (r: Result<Alert, Error<E>>)
        ensures
            final(self).driver().same_setup(&old(self).driver()),
            final(self).driver().spec_mode() == old(self).driver().spec_mode(),
            extends(old(self).driver().transcript(), final(self).driver().transcript()),
            alert_read_result(
                old(self).driver().address(),
                added(old(self).driver().transcript(), final(self).driver().transcript()),
                r,
            ),
    {
        self.tmp117.check_alert()
    }

    /// Waits for an alert and returns it; never returns [`Alert::NoAlert`].
    /// Where an alert pin is present it is first routed to report alerts,
    /// and the wait blocks on it before each read of the flags.
    pub fn wait_alert(&mut self) -> (r: Result<Alert, Error<E>>)
        ensures
            final(self).driver().same_base(&old(self).driver()),
            final(self).driver().spec_mode() == old(self).driver().spec_mode(),
            extends(old(self).driver().transcript(), final(self).driver().transcript()),
            wait_alert_result(
                old(self).driver().address(),
                old(self).driver().has_pin(),
                old(self).driver().spec_pin_state(),
                old(self).driver().spec_poll_limit(),
                added(old(self).driver().transcript(), final(self).driver().transcript()),
                r,
            ),
            r is Ok ==> r->Ok_0 != Alert::NoAlert && final(self).driver().spec_pin_state()
                == pin_after(
                old(self).driver().has_pin(),
                old(self).driver().spec_pin_state(),
                AlertPinSelect::Alert,
            ),
    {
        let ghost d0 = self.tmp117;
        let ghost t0 = d0.transcript();
        let ghost a = d0.address();
        let ghost limit = d0.spec_poll_limit();
        let ghost has_pin = d0.has_pin();
        let r0 = self.tmp117.select_pin(AlertPinSelect::Alert);
        let ghost t1 = self.tmp117.transcript();
        match r0 {
            Ok(()) => {},
            Err(err) => {
                return Err(err);
            },
        }
        let res = self.tmp117.wait_for_alert();
        proof {
            let t2 = self.tmp117.transcript();
            lemma_added_trans(t0, t1, t2);
            let s1 = added(t0, t1);
            assert((self.tmp117.has_pin() && self.tmp117.spec_pin_state()
                == AlertPinState::ConfiguredForAlert) == has_pin);
            if res is Ok {
                let al = res->Ok_0;
                {
                    let cs = choose|cs: Seq<Configuration>|
                        poll_done(Wait::AnyAlert, cs) && cs.len() <= limit && added(t1, t2)
                            == wait_reads(a, has_pin, cs) && al == spec_classify(
                            cs.last().high_alert,
                            cs.last().low_alert,
                        );
                    assert(added(t0, t2) == s1 + wait_reads(a, has_pin, cs));
                }
            } else {
                assert(added(t0, t2) == s1 + added(t1, t2));
            }
        }
        res
    }

    /// Puts the device in shutdown and hands back the driver. On failure the
    /// handler is handed back with the error.
    pub fn shutdown(self) -> (r: Result<Tmp117<T, E, P>, (Self, Error<E>)>)
        ensures
            match r {
                Ok(d) => d.same_setup(&self.driver()) && d.spec_mode() == Mode::Shutdown && extends(
                    self.driver().transcript(),
                    d.transcript(),
                ) && edited(
                    self.driver().address(),
                    added(self.driver().transcript(), d.transcript()),
                    ConfigEdit::Shutdown,
                ),
                Err((h, err)) => h.driver().same_setup(&self.driver()) && h.driver().spec_mode()
                    == self.driver().spec_mode() && extends(
                    self.driver().transcript(),
                    h.driver().transcript(),
                ) && edit_result(
                    self.driver().address(),
                    ConfigEdit::Shutdown,
                    added(self.driver().transcript(), h.driver().transcript()),
                    Err::<(), Error<E>>(err),
                ),
            },
    {
        let mut d = self.tmp117;
        match d.set_shutdown() {
            Ok(()) => Ok(d),
            Err(err) => Err((ContinuousHandler { tmp117: d }, err)),
        }
    }
}

} // verus!
