//! The low level driver: reads, writes and edits single registers over the
//! bus, and keeps a ghost transcript of every transfer it made.
use core::marker::PhantomData;
use vstd::prelude::*;

use crate::error::ErrorLL;
use crate::port::I2cBus;
use crate::register::{EditableRegister, Register, WritableRegister};

verus! {

/// One step of the driver's dealings with the device, as the driver made
/// it: a transfer on the bus, a wait on the alert pin, or a delay.
pub enum DeviceEvent {
    /// `bytes` were written to the device at `address`.
    Write { address: u8, bytes: Seq<u8> },
    /// `bytes` were written to the device at `address`, which replied `reply`.
    WriteRead { address: u8, bytes: Seq<u8>, reply: Seq<u8> },
    /// A transfer of `bytes` to the device at `address` failed.
    Failed { address: u8, bytes: Seq<u8> },
    /// The driver waited for the alert pin to go low; `ok` is false where
    /// the pin reported a failure.
    PinWait { ok: bool },
    /// The driver blocked for `ms` milliseconds.
    Delay { ms: u32 },
}

/// The two bytes of a word, most significant first.
pub open spec fn be_bytes(w: u16) -> Seq<u8> {
    seq![(w >> 8u16) as u8, (w & 0xff) as u8]
}

/// Reading the register at `reg` of the device at `address`, which held `w`:
/// the register address is sent alone and the word comes back big-endian.
pub open spec fn read_event(address: u8, reg: u8, w: u16) -> DeviceEvent {
    DeviceEvent::WriteRead { address, bytes: seq![reg], reply: be_bytes(w) }
}

/// Writing `w` to the register at `reg` of the device at `address`: the
/// register address, then the word big-endian, in one transfer.
pub open spec fn write_event(address: u8, reg: u8, w: u16) -> DeviceEvent {
    DeviceEvent::Write { address, bytes: seq![reg] + be_bytes(w) }
}

/// A failed read of the register at `reg` of the device at `address`.
pub open spec fn read_failure(address: u8, reg: u8) -> DeviceEvent {
    DeviceEvent::Failed { address, bytes: seq![reg] }
}

/// A failed write of `w` to the register at `reg` of the device at
/// `address`.
pub open spec fn write_failure(address: u8, reg: u8, w: u16) -> DeviceEvent {
    DeviceEvent::Failed { address, bytes: seq![reg] + be_bytes(w) }
}

/// The word that two bytes hold, most significant first.
pub open spec fn word_of(hi: u8, lo: u8) -> u16 {
    ((hi as u16) << 8u16) | (lo as u16)
}

/// The two bytes of a word give the word back, so that a read or a write
/// event determines its word.
pub proof fn lemma_be_bytes_word(w: u16)
    ensures
        be_bytes(w).len() == 2,
        word_of(be_bytes(w)[0], be_bytes(w)[1]) == w,
        forall|a: u8, reg: u8, v: u16| read_event(a, reg, v) == read_event(a, reg, w) ==> v == w,
        forall|a: u8, reg: u8, v: u16| write_event(a, reg, v) == write_event(a, reg, w) ==> v == w,
{
    let hi = (w >> 8u16) as u8;
    let lo = (w & 0xff) as u8;
    assert(((hi as u16) << 8u16) | (lo as u16) == w) by (bit_vector)
        requires
            hi == (w >> 8u16) as u8,
            lo == (w & 0xff) as u8,
    ;
    assert forall|a: u8, reg: u8, v: u16| read_event(a, reg, v) == read_event(a, reg, w) implies v
        == w by {
        let vh = (v >> 8u16) as u8;
        let vl = (v & 0xff) as u8;
        assert(be_bytes(v)[0] == be_bytes(w)[0] && be_bytes(v)[1] == be_bytes(w)[1]);
        assert(((vh as u16) << 8u16) | (vl as u16) == v) by (bit_vector)
            requires
                vh == (v >> 8u16) as u8,
                vl == (v & 0xff) as u8,
        ;
    }
    assert forall|a: u8, reg: u8, v: u16| write_event(a, reg, v) == write_event(a, reg, w) implies v
        == w by {
        let vh = (v >> 8u16) as u8;
        let vl = (v & 0xff) as u8;
        let bv = seq![reg] + be_bytes(v);
        let bw = seq![reg] + be_bytes(w);
        assert(bv[1] == bw[1] && bv[2] == bw[2]);
        assert(((vh as u16) << 8u16) | (vl as u16) == v) by (bit_vector)
            requires
                vh == (v >> 8u16) as u8,
                vl == (v & 0xff) as u8,
        ;
    }
}

/// The low level driver of the TMP117. Reads, writes and edits the
/// registers directly via the bus.
pub struct Tmp117LL<T, E> {
    i2c: T,
    addr: u8,
    log: Ghost<Seq<DeviceEvent>>,
    e: PhantomData<E>,
}

impl<T, E> Tmp117LL<T, E> {
    /// The 7-bit bus address of the device.
    pub closed spec fn address(&self) -> u8 {
        self.addr
    }

    /// Every transfer made so far, oldest first.
    pub closed spec fn transcript(&self) -> Seq<DeviceEvent> {
        self.log@
    }

    /// Creates a new instance from a bus and the device's address.
    pub fn new(i2c: T, addr: u8) -> (r: Self)
        ensures
            r.address() == addr,
            r.transcript() == Seq::<DeviceEvent>::empty(),
    {
        Self { i2c, addr, log: Ghost(Seq::empty()), e: PhantomData }
    }

    /// The 7-bit bus address of the device.
    pub fn addr(&self) -> (r: u8)
        ensures
            r == self.address(),
    {
        self.addr
    }

    /// Gives back the bus.
    pub fn release(self) -> (r: T) {
        self.i2c
    }
}

impl<T: I2cBus<E>, E> Tmp117LL<T, E> {
    /// Reads the word held by the register at `reg`.
    pub fn read_word(&mut self, reg: u8) -> (r: Result<u16, E>)
        ensures
            final(self).address() == old(self).address(),
            match r {
                Ok(w) => final(self).transcript() == old(self).transcript().push(
                    read_event(old(self).address(), reg, w),
                ),
                Err(_) => final(self).transcript() == old(self).transcript().push(
                    read_failure(old(self).address(), reg),
                ),
            },
    {
        let request: [u8; 1] = [reg];
        match self.i2c.write_read(self.addr, &request) {
            Ok(reply) => {
                let hi = reply[0];
                let lo = reply[1];
                let w: u16 = ((hi as u16) << 8u16) | (lo as u16);
                proof {
                    assert((w >> 8u16) as u8 == hi && (w & 0xff) as u8 == lo) by (bit_vector)
                        requires
                            w == ((hi as u16) << 8u16) | (lo as u16),
                    ;
                    assert(reply@ =~= be_bytes(w));
                    assert(request@ =~= seq![reg]);
                    self.log@ = self.log@.push(read_event(self.addr, reg, w));
                }
                Ok(w)
            },
            Err(e) => {
                proof {
                    assert(request@ =~= seq![reg]);
                    self.log@ = self.log@.push(read_failure(self.addr, reg));
                }
                Err(e)
            },
        }
    }

    /// Writes `w` to the register at `reg`.
    pub fn write_word(&mut self, reg: u8, w: u16) -> (r: Result<(), E>)
        ensures
            final(self).address() == old(self).address(),
            match r {
                Ok(_) => final(self).transcript() == old(self).transcript().push(
                    write_event(old(self).address(), reg, w),
                ),
                Err(_) => final(self).transcript() == old(self).transcript().push(
                    write_failure(old(self).address(), reg, w),
                ),
            },
    {
        let packet: [u8; 3] = [reg, (w >> 8u16) as u8, (w & 0xff) as u8];
        let result = self.i2c.write(self.addr, &packet);
        proof {
            assert(packet@ =~= seq![reg] + be_bytes(w));
        }
        match result {
            Ok(()) => {
                proof {
                    self.log@ = self.log@.push(write_event(self.addr, reg, w));
                }
                Ok(())
            },
            Err(e) => {
                proof {
                    self.log@ = self.log@.push(write_failure(self.addr, reg, w));
                }
                Err(e)
            },
        }
    }

    /// Reads a register and decodes its word.
    pub fn read<R: Register>(&mut self) -> (r: Result<R, ErrorLL<E>>)
        ensures
            final(self).address() == old(self).address(),
            match r {
                Ok(v) => final(self).transcript() == old(self).transcript().push(
                    read_event(old(self).address(), R::reg_address(), v.reg_word()),
                ) && R::reg_decode(v.reg_word()) == Some(v),
                Err(ErrorLL::InvalidData) => exists|w: u16|
                    final(self).transcript() == old(self).transcript().push(
                        read_event(old(self).address(), R::reg_address(), w),
                    ) && R::reg_decode(w) is None,
                Err(ErrorLL::Bus(_)) => final(self).transcript() == old(self).transcript().push(
                    read_failure(old(self).address(), R::reg_address()),
                ),
            },
    {
        let address = R::address();
        match self.read_word(address.0) {
            Ok(w) => match R::try_from_word(w) {
                Some(v) => Ok(v),
                None => Err(ErrorLL::InvalidData),
            },
            Err(e) => Err(ErrorLL::Bus(e)),
        }
    }

    /// Writes a value to a writable register.
    pub fn write<R: WritableRegister>(&mut self, v: R) -> (r: Result<(), ErrorLL<E>>)
        ensures
            final(self).address() == old(self).address(),
            match r {
                Ok(_) => final(self).transcript() == old(self).transcript().push(
                    write_event(old(self).address(), R::reg_address(), v.reg_word()),
                ),
                Err(ErrorLL::InvalidData) => false,
                Err(ErrorLL::Bus(_)) => final(self).transcript() == old(self).transcript().push(
                    write_failure(old(self).address(), R::reg_address(), v.reg_word()),
                ),
            },
    {
        let address = R::address();
        let w = v.to_word();
        match self.write_word(address.0, w) {
            Ok(()) => Ok(()),
            Err(e) => Err(ErrorLL::Bus(e)),
        }
    }

    /// Read-modify-write of an editable register: reads its value `x`, then
    /// writes `f(x)` back. Returns both. Not atomic with respect to the
    /// device.
    pub fn edit<R: EditableRegister, F: FnOnce(R) -> R>(&mut self, f: F) -> (r: Result<
        (R, R),
        ErrorLL<E>,
    >)
        requires
            forall|x: R| f.requires((x,)),
        ensures
            final(self).address() == old(self).address(),
            match r {
                Ok((x, y)) => f.ensures((x,), y) && final(self).transcript() == old(
                    self,
                ).transcript().push(
                    read_event(old(self).address(), R::reg_address(), x.reg_word()),
                ).push(write_event(old(self).address(), R::reg_address(), y.reg_word()))
                    && R::reg_decode(x.reg_word()) == Some(x),
                Err(ErrorLL::InvalidData) => exists|w: u16|
                    final(self).transcript() == old(self).transcript().push(
                        read_event(old(self).address(), R::reg_address(), w),
                    ) && R::reg_decode(w) is None,
                Err(ErrorLL::Bus(_)) => final(self).transcript() == old(self).transcript().push(
                    read_failure(old(self).address(), R::reg_address()),
                ) || exists|x: R, y: R|
                    f.ensures((x,), y) && R::reg_decode(x.reg_word()) == Some(x) && final(
                        self).transcript() == old(self).transcript().push(
                        read_event(old(self).address(), R::reg_address(), x.reg_word()),
                    ).push(write_failure(old(self).address(), R::reg_address(), y.reg_word())),
            },
    {
        let x: R = match self.read() {
            Ok(x) => x,
            Err(e) => {
                return Err(e);
            },
        };
        let y = f(x);
        let address = R::address();
        let w = y.to_word();
        match self.write_word(address.0, w) {
            Ok(()) => Ok((x, y)),
            Err(e) => Err(ErrorLL::Bus(e)),
        }
    }

    /// Notes in the transcript a step that the driver took outside the bus.
    pub(crate) fn record(&mut self, e: Ghost<DeviceEvent>)
        requires
            e@ is PinWait || e@ is Delay,
        ensures
            final(self).address() == old(self).address(),
            final(self).transcript() == old(self).transcript().push(e@),
    {
        proof {
            self.log@ = self.log@.push(e@);
        }
    }
}

} // verus!
