use tmp117::error::{Error, ErrorLL};
use tmp117::port::I2cBus;
use tmp117::register::{Configuration, ConversionMode, HighLimit, Temperature, UEEPROM2};
use tmp117::tmp117_ll::Tmp117LL;

#[derive(Debug, Clone, Copy, PartialEq, Eq)]
struct Fault;

struct Regs {
    regs: [u16; 16],
    sent: Vec<Vec<u8>>,
}

impl I2cBus<Fault> for Regs {
    fn write(&mut self, address: u8, bytes: &[u8]) -> Result<(), Fault> {
        assert_eq!(address, 0x49);
        self.sent.push(bytes.to_vec());
        self.regs[bytes[0] as usize] = u16::from_be_bytes([bytes[1], bytes[2]]);
        Ok(())
    }

    fn write_read(&mut self, address: u8, bytes: &[u8]) -> Result<[u8; 2], Fault> {
        assert_eq!(address, 0x49);
        self.sent.push(bytes.to_vec());
        Ok(self.regs[bytes[0] as usize].to_be_bytes())
    }
}

#[test]
fn low_level_frames_big_endian() {
    let mut ll = Tmp117LL::new(Regs { regs: [0; 16], sent: Vec::new() }, 0x49);
    assert_eq!(ll.addr(), 0x49);
    assert_eq!(ll.write(HighLimit(0xABCD)), Ok(()));
    assert_eq!(ll.read::<HighLimit>(), Ok(HighLimit(0xABCD)));
    assert_eq!(ll.write_word(0x06, 0x0102), Ok(()));
    assert_eq!(ll.read::<UEEPROM2>(), Ok(UEEPROM2(0x0102)));
    assert_eq!(ll.read_word(0x00), Ok(0));
    let bus = ll.release();
    assert_eq!(bus.sent[0], vec![0x02, 0xAB, 0xCD]);
    assert_eq!(bus.sent[1], vec![0x02]);
    assert_eq!(bus.sent[2], vec![0x06, 0x01, 0x02]);
    assert_eq!(bus.sent[3], vec![0x06]);
    assert_eq!(bus.sent[4], vec![0x00]);
}

#[test]
fn low_level_edit_and_invalid_data() {
    let mut regs = [0u16; 16];
    regs[0x00] = 0x1234;
    regs[0x01] = 0x0400;
    let mut ll = Tmp117LL::new(Regs { regs, sent: Vec::new() }, 0x49);
    assert_eq!(ll.read::<Temperature>(), Ok(Temperature(0x1234)));
    let (before, after) = ll
        .edit(|mut c: Configuration| {
            c.set_mode(ConversionMode::OneShot);
            c
        })
        .unwrap();
    assert_eq!(before.mode, ConversionMode::Shutdown);
    assert_eq!(after.mode, ConversionMode::OneShot);
    assert_eq!(ll.read::<Configuration>().unwrap().to_bits(), 0x0C00);
    assert_eq!(ll.write_word(0x01, 0x0800), Ok(()));
    assert_eq!(ll.read::<Configuration>(), Err(ErrorLL::InvalidData));
}

#[test]
fn low_level_errors_convert() {
    assert_eq!(Error::from(ErrorLL::Bus(7u8)), Error::Bus(7u8));
    assert_eq!(Error::<u8>::from(ErrorLL::InvalidData), Error::InvalidData);
}
