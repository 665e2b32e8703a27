use tmp117::register::{
    AlertPinSelect, Average, Configuration, Conversion, ConversionMode, DeviceID, Polarity,
    Register, Temperature, TriggerMode, EEPROM,
};
use tmp117::{classify, Alert};

fn config(average: Average, conversion: Conversion, mode: ConversionMode) -> Configuration {
    Configuration {
        reserved: false,
        reset: false,
        dr_alert: AlertPinSelect::Alert,
        polarity: Polarity::ActiveLow,
        trigger_mode: TriggerMode::Alert,
        average,
        conversion,
        mode,
        eeprom_busy: false,
        data_ready: false,
        low_alert: false,
        high_alert: false,
    }
}

#[test]
fn config_round_trip_all_average_and_conversion() {
    let averages = [Average::NoAverage, Average::Avg8, Average::Avg32, Average::Avg64];
    let conversions = [
        Conversion::Ms15_5,
        Conversion::Ms125,
        Conversion::Ms250,
        Conversion::Ms500,
        Conversion::Ms1000,
        Conversion::Ms4000,
        Conversion::Ms8000,
        Conversion::Ms16000,
    ];
    let modes = [ConversionMode::Continuous, ConversionMode::Shutdown, ConversionMode::OneShot];
    for a in averages {
        for c in conversions {
            for m in modes {
                let cfg = config(a, c, m);
                let w = cfg.to_bits();
                assert_eq!(Configuration::from_bits(w), Some(cfg));
            }
        }
    }
}

#[test]
fn config_bit_positions() {
    let mut cfg = config(Average::Avg64, Conversion::Ms16000, ConversionMode::OneShot);
    assert_eq!(cfg.to_bits(), (0b11 << 5) | (0b111 << 7) | (0b11 << 10));
    cfg.set_dr_alert(AlertPinSelect::DataReady);
    cfg.set_polarity(Polarity::ActiveHigh);
    cfg.set_trigger_mode(TriggerMode::Thermal);
    cfg.set_reset(true);
    assert_eq!(cfg.to_bits() & 0x1F, 0b11110);
    let flags = Configuration::from_bits(0xF000 | (0b01 << 10)).unwrap();
    assert!(flags.eeprom_busy && flags.data_ready && flags.low_alert && flags.high_alert);
    assert_eq!(flags.mode, ConversionMode::Shutdown);
}

#[test]
fn config_every_valid_word_round_trips() {
    for w in 0..=u16::MAX {
        match Configuration::from_bits(w) {
            Some(c) => assert_eq!(c.to_bits(), w),
            None => assert_eq!((w >> 10) & 3, 0b10),
        }
    }
}

#[test]
fn conversion_mode_reserved_pattern_rejected() {
    assert_eq!(ConversionMode::from_bits(0b10), None);
    assert_eq!(ConversionMode::from_bits(0b00), Some(ConversionMode::Continuous));
    assert_eq!(ConversionMode::from_bits(0b01), Some(ConversionMode::Shutdown));
    assert_eq!(ConversionMode::from_bits(0b11), Some(ConversionMode::OneShot));
    assert_eq!(Configuration::from_bits(0b10 << 10), None);
    assert_eq!(Configuration::try_from_word(0b10 << 10), None);
}

#[test]
fn temperature_decode() {
    let neg = Temperature(0xFF00);
    assert_eq!(neg.ticks(), -256);
    let celsius = neg.ticks() as f32 * 0.0078125;
    assert!(celsius < 0.0);
    assert_eq!(celsius, -2.0);
    assert_eq!(Temperature(0x0000).ticks(), 0);
    assert_eq!(Temperature(0x0000).ticks() as f32 * 0.0078125, 0.0);
    assert_eq!(Temperature(0x8000).ticks(), -32768);
    assert_eq!(Temperature(0x7FFF).ticks(), 32767);
    assert_eq!(Temperature(0x0C80).ticks(), 3200);
}

#[test]
fn alert_classification_exhaustive() {
    let mut c = config(Average::NoAverage, Conversion::Ms15_5, ConversionMode::Continuous);
    let cases = [
        (true, true, Alert::HighLow),
        (true, false, Alert::High),
        (false, true, Alert::Low),
        (false, false, Alert::NoAlert),
    ];
    for (high, low, expected) in cases {
        c.high_alert = high;
        c.low_alert = low;
        assert_eq!(classify(&c), expected);
    }
}

#[test]
fn device_id_fields() {
    let id = DeviceID(0x1117);
    assert_eq!(id.device_id(), 0x117);
    assert_eq!(id.revision(), 1);
    let e = EEPROM(0x4000);
    assert!(e.busy());
    assert!(!e.unlock());
    assert_eq!(<DeviceID as Register>::address().0, 0x0F);
    assert_eq!(<EEPROM as Register>::address().0, 0x04);
}
