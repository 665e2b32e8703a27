use tmp117::port::{AlertWait, DelayMs, I2cBus};
use tmp117::register::{Average, Conversion};
use tmp117::{Alert, AlertPinState, ContinuousConfig, Error, Mode, Tmp117};

#[derive(Debug, Clone, Copy, PartialEq, Eq)]
struct BusFault;

const ADDR: u8 = 0x48;
const BUSY: u16 = 1 << 12;
const READY: u16 = 1 << 13;
const LOW: u16 = 1 << 14;
const HIGH: u16 = 1 << 15;

/// A register file with scripted status flags.
struct MockBus {
    regs: [u16; 16],
    busy_reads_per_write: u32,
    busy_left: u32,
    always_busy: bool,
    config_flags: Vec<u16>,
    config_reads: u32,
    writes: Vec<Vec<u8>>,
    fail_all: bool,
}

impl MockBus {
    fn new() -> MockBus {
        let mut regs = [0u16; 16];
        regs[0x01] = 0x0220;
        regs[0x0F] = 0x1117;
        MockBus {
            regs,
            busy_reads_per_write: 0,
            busy_left: 0,
            always_busy: false,
            config_flags: Vec::new(),
            config_reads: 0,
            writes: Vec::new(),
            fail_all: false,
        }
    }
}

impl I2cBus<BusFault> for MockBus {
    fn write(&mut self, address: u8, bytes: &[u8]) -> Result<(), BusFault> {
        assert_eq!(address, ADDR);
        if self.fail_all {
            return Err(BusFault);
        }
        assert_eq!(bytes.len(), 3);
        self.writes.push(bytes.to_vec());
        let reg = bytes[0] as usize;
        self.regs[reg] = u16::from_be_bytes([bytes[1], bytes[2]]);
        if (0x05..=0x07).contains(&reg) {
            self.busy_left = self.busy_reads_per_write;
        }
        Ok(())
    }

    fn write_read(&mut self, address: u8, bytes: &[u8]) -> Result<[u8; 2], BusFault> {
        assert_eq!(address, ADDR);
        if self.fail_all {
            return Err(BusFault);
        }
        assert_eq!(bytes.len(), 1);
        let reg = bytes[0] as usize;
        let mut w = self.regs[reg];
        if reg == 0x01 {
            self.config_reads += 1;
            w &= 0x0FFF;
            if !self.config_flags.is_empty() {
                w |= self.config_flags.remove(0);
            }
            if self.always_busy || self.busy_left > 0 {
                w |= BUSY;
                self.busy_left = self.busy_left.saturating_sub(1);
            }
        }
        Ok(w.to_be_bytes())
    }
}

struct CountingDelay {
    total_ms: u32,
}

impl DelayMs for CountingDelay {
    fn delay_ms(&mut self, ms: u32) {
        self.total_ms += ms;
    }
}

struct MockPin {
    waits: u32,
}

impl AlertWait for MockPin {
    fn wait_for_low(&mut self) -> Result<(), ()> {
        self.waits += 1;
        Ok(())
    }
}

struct BrokenPin;

impl AlertWait for BrokenPin {
    fn wait_for_low(&mut self) -> Result<(), ()> {
        Err(())
    }
}

fn config_word(bus: &MockBus) -> u16 {
    bus.regs[0x01]
}

#[test]
fn eeprom_write_then_read_round_trip() {
    let mut bus = MockBus::new();
    bus.busy_reads_per_write = 3;
    let mut tmp = Tmp117::new(bus, ADDR).with_poll_limit(100);
    let values = [0x1234, 0xBEEF, 0x0001];
    assert_eq!(tmp.write_eeprom(values), Ok(()));
    assert_eq!(tmp.read_eeprom(), Ok(values));
    let bus = tmp.release().release();
    // One idle read before the first word, then four reads (three busy) before each other word.
    assert_eq!(bus.config_reads, 1 + 4 + 4);
    assert_eq!(bus.writes, vec![vec![0x05, 0x12, 0x34], vec![0x06, 0xBE, 0xEF], vec![0x07, 0x00, 0x01]]);
}

#[test]
fn eeprom_write_bounded_when_busy_never_clears() {
    let mut bus = MockBus::new();
    bus.always_busy = true;
    let mut tmp = Tmp117::new(bus, ADDR).with_poll_limit(10);
    assert_eq!(tmp.write_eeprom([1, 2, 3]), Err(Error::Timeout));
    let bus = tmp.release().release();
    assert_eq!(bus.config_reads, 10);
    assert!(bus.writes.is_empty());
}

#[test]
fn eeprom_write_zero_poll_limit_times_out_at_once() {
    let mut tmp = Tmp117::new(MockBus::new(), ADDR).with_poll_limit(0);
    assert_eq!(tmp.write_eeprom([1, 2, 3]), Err(Error::Timeout));
    assert_eq!(tmp.release().release().config_reads, 0);
}

#[test]
fn oneshot_read_once_not_ready_then_ready() {
    let mut bus = MockBus::new();
    bus.regs[0x00] = 0x0C80;
    // The edit's read, then the first poll (not ready), then the second poll (ready).
    bus.config_flags = vec![0, 0, READY];
    let mut tmp = Tmp117::new(bus, ADDR);
    assert_eq!(tmp.set_oneshot(Average::Avg8), Ok(()));
    assert_eq!(tmp.mode(), Mode::OneShot);
    assert_eq!(tmp.read_once(), Err(Error::DataNotReady));
    assert_eq!(tmp.mode(), Mode::OneShot);
    assert_eq!(tmp.read_once(), Ok(3200));
    assert_eq!(tmp.mode(), Mode::Shutdown);
    assert_eq!(tmp.read_once(), Err(Error::InvalidState));
    let bus = tmp.release().release();
    // mode OneShot (0b11), average Avg8 (0b01), polarity active low.
    assert_eq!((config_word(&bus) >> 10) & 3, 0b11);
    assert_eq!((config_word(&bus) >> 5) & 3, 0b01);
    assert_eq!((config_word(&bus) >> 3) & 1, 0);
}

#[test]
fn oneshot_blocking_polls_until_ready() {
    let mut bus = MockBus::new();
    bus.regs[0x00] = 0xFF00;
    bus.config_flags = vec![0, 0, 0, READY];
    let mut tmp = Tmp117::new(bus, ADDR);
    assert_eq!(tmp.oneshot(Average::NoAverage), Ok(-256));
    assert_eq!(tmp.mode(), Mode::Shutdown);
    assert_eq!(tmp.release().release().config_reads, 4);
}

#[test]
fn oneshot_times_out_without_ready() {
    let mut tmp = Tmp117::new(MockBus::new(), ADDR).with_poll_limit(5);
    assert_eq!(tmp.oneshot(Average::NoAverage), Err(Error::Timeout));
    assert_eq!(tmp.mode(), Mode::OneShot);
    assert_eq!(tmp.oneshot(Average::NoAverage), Err(Error::InvalidState));
    assert_eq!(tmp.set_shutdown(), Ok(()));
    assert_eq!(tmp.mode(), Mode::Shutdown);
}

#[test]
fn invalid_mode_bits_rejected() {
    let mut bus = MockBus::new();
    bus.regs[0x01] = 0b10 << 10;
    let mut tmp = Tmp117::new(bus, ADDR);
    assert_eq!(tmp.set_shutdown(), Err(Error::InvalidData));
    assert_eq!(tmp.oneshot(Average::NoAverage), Err(Error::InvalidData));
}

#[test]
fn bus_errors_propagate() {
    let mut bus = MockBus::new();
    bus.fail_all = true;
    let mut tmp = Tmp117::new(bus, ADDR);
    assert_eq!(tmp.id(), Err(Error::Bus(BusFault)));
    assert_eq!(tmp.read_eeprom(), Err(Error::Bus(BusFault)));
    assert_eq!(tmp.write_eeprom([0, 0, 0]), Err(Error::Bus(BusFault)));
    assert_eq!(tmp.set_shutdown(), Err(Error::Bus(BusFault)));
}

#[test]
fn device_id() {
    let mut tmp = Tmp117::new(MockBus::new(), ADDR);
    let id = tmp.id().unwrap();
    assert_eq!(id.device, 0x117);
    assert_eq!(id.revision, 1);
}

#[test]
fn reset_sets_bit_and_waits() {
    let mut tmp = Tmp117::new(MockBus::new(), ADDR);
    let mut delay = CountingDelay { total_ms: 0 };
    assert_eq!(tmp.set_shutdown(), Ok(()));
    assert_eq!(tmp.reset(&mut delay), Ok(()));
    assert_eq!(delay.total_ms, 2);
    assert_eq!(tmp.mode(), Mode::Unknown);
    let bus = tmp.release().release();
    assert_eq!(config_word(&bus) & 0b10, 0b10);
}

#[test]
fn continuous_mode_writes_limits_and_reads() {
    let mut bus = MockBus::new();
    bus.regs[0x00] = 0x0100;
    bus.config_flags = vec![0, 0, 0, READY, HIGH | LOW, 0, LOW];
    let config = ContinuousConfig {
        average: Average::Avg32,
        conversion: Conversion::Ms1000,
        high: Some(0x1900),
        low: None,
        offset: Some(0xFF80),
    };
    let tmp = Tmp117::new(bus, ADDR);
    let mut handler = match tmp.continuous(config) {
        Ok(h) => h,
        Err(_) => panic!("continuous mode was refused"),
    };
    assert_eq!(handler.read_temp(), Err(Error::DataNotReady));
    assert_eq!(handler.wait_temp(), Ok(256));
    assert_eq!(handler.get_alert(), Ok(Alert::HighLow));
    assert_eq!(handler.wait_alert(), Ok(Alert::Low));
    let tmp = match handler.shutdown() {
        Ok(t) => t,
        Err(_) => panic!("shutdown failed"),
    };
    assert_eq!(tmp.mode(), Mode::Shutdown);
    let bus = tmp.release().release();
    assert_eq!(bus.writes[0], vec![0x02, 0x19, 0x00]);
    assert_eq!(bus.writes[1], vec![0x08, 0xFF, 0x80]);
    assert_eq!(bus.regs[0x02], 0x1900);
    assert_eq!(bus.regs[0x03], 0);
    // The continuous edit: mode 0b00, average 0b10, conversion 0b100.
    let edit = &bus.writes[2];
    let w = u16::from_be_bytes([edit[1], edit[2]]);
    assert_eq!((w >> 10) & 3, 0b00);
    assert_eq!((w >> 5) & 3, 0b10);
    assert_eq!((w >> 7) & 7, 0b100);
    assert_eq!((config_word(&bus) >> 10) & 3, 0b01);
}

#[test]
fn continuous_refused_in_oneshot_mode() {
    let mut tmp = Tmp117::new(MockBus::new(), ADDR);
    assert_eq!(tmp.set_oneshot(Average::NoAverage), Ok(()));
    match tmp.continuous(ContinuousConfig::default()) {
        Ok(_) => panic!("continuous mode from one-shot"),
        Err((t, e)) => {
            assert_eq!(e, Error::InvalidState);
            assert_eq!(t.mode(), Mode::OneShot);
        }
    }
}

#[test]
fn pin_configured_once_per_signal() {
    let mut bus = MockBus::new();
    bus.regs[0x00] = 0x0080;
    bus.config_flags = vec![0, 0, READY, 0, READY];
    let tmp = Tmp117::new_alert(bus, ADDR, MockPin { waits: 0 });
    assert_eq!(tmp.pin_state(), AlertPinState::Unconfigured);
    let mut handler = match tmp.continuous(ContinuousConfig::default()) {
        Ok(h) => h,
        Err(_) => panic!("continuous mode was refused"),
    };
    assert_eq!(handler.wait_temp(), Ok(128));
    assert_eq!(handler.wait_temp(), Ok(128));
    let tmp = match handler.shutdown() {
        Ok(t) => t,
        Err(_) => panic!("shutdown failed"),
    };
    assert_eq!(tmp.pin_state(), AlertPinState::ConfiguredForDataReady);
    let bus = tmp.release().release();
    // Pin edit, continuous edit, shutdown edit: the pin was routed once.
    assert_eq!(bus.writes.len(), 3);
    let pin_edit = u16::from_be_bytes([bus.writes[0][1], bus.writes[0][2]]);
    assert_eq!((pin_edit >> 2) & 1, 1);
}

#[test]
fn alert_pin_failure_reported() {
    let tmp = Tmp117::new_alert(MockBus::new(), ADDR, BrokenPin);
    let mut handler = match tmp.continuous(ContinuousConfig::default()) {
        Ok(h) => h,
        Err(_) => panic!("continuous mode was refused"),
    };
    assert_eq!(handler.wait_alert(), Err(Error::AlertPin));
    assert_eq!(handler.wait_temp(), Err(Error::AlertPin));
    let bus = handler.release().release().release();
    // Only the edits read the configuration: routing for data ready, the
    // continuous edit, routing for alerts, routing for data ready again.
    // No read follows a failed pin wait.
    assert_eq!(bus.config_reads, 4);
}

#[test]
fn failed_reset_makes_no_delay() {
    let mut bus = MockBus::new();
    bus.fail_all = true;
    let mut tmp = Tmp117::new(bus, ADDR);
    let mut delay = CountingDelay { total_ms: 0 };
    assert_eq!(tmp.reset(&mut delay), Err(Error::Bus(BusFault)));
    assert_eq!(delay.total_ms, 0);
    assert_eq!(tmp.mode(), Mode::Unknown);
}

#[test]
fn wait_alert_bounded_without_alert() {
    let tmp = Tmp117::new(MockBus::new(), ADDR).with_poll_limit(7);
    let mut handler = match tmp.continuous(ContinuousConfig::default()) {
        Ok(h) => h,
        Err(_) => panic!("continuous mode was refused"),
    };
    assert_eq!(handler.get_alert(), Ok(Alert::NoAlert));
    assert_eq!(handler.wait_alert(), Err(Error::Timeout));
}
