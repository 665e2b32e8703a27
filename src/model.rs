//! A model of the device's user EEPROM words, against which the EEPROM
//! operations are shown to round-trip.
use vstd::prelude::*;

use crate::register::{Configuration, CONFIGURATION_ADDR, UEEPROM1_ADDR, UEEPROM2_ADDR, UEEPROM3_ADDR};
use crate::tmp117_ll::{DeviceEvent, lemma_be_bytes_word, read_event, word_of, write_event};
use crate::error::Error;
use crate::{
    Wait, config_read, config_reads, eeprom_read, eeprom_write_result, eeprom_written,
    idle_then_write, idle_write_result, poll_done, wait_reads, wait_result,
};

verus! {

/// Whether `reg` is the address of a user EEPROM word.
pub open spec fn is_user_word(reg: u8) -> bool {
    reg == UEEPROM1_ADDR || reg == UEEPROM2_ADDR || reg == UEEPROM3_ADDR
}

/// The user words of the device at `a` after the transfer `e`, where they
/// were `mem` before: a write to one of them stores its word.
pub open spec fn after_event(a: u8, mem: Map<u8, u16>, e: DeviceEvent) -> Map<u8, u16> {
    match e {
        DeviceEvent::Write { address, bytes } => if address == a && bytes.len() == 3 && is_user_word(
            bytes[0],
        ) {
            mem.insert(bytes[0], word_of(bytes[1], bytes[2]))
        } else {
            mem
        },
        _ => mem,
    }
}

/// A device at `a` whose user words are `mem` could have answered `e`: a
/// read of a user word returned the word stored.
pub open spec fn answers(a: u8, mem: Map<u8, u16>, e: DeviceEvent) -> bool {
    match e {
        DeviceEvent::WriteRead { address, bytes, reply } => address == a && bytes.len() == 1
            && is_user_word(bytes[0]) ==> reply.len() == 2 && mem.contains_key(bytes[0])
            && word_of(reply[0], reply[1]) == mem[bytes[0]],
        _ => true,
    }
}

/// The user words after the transfers `s`, starting from `mem`.
pub open spec fn replay(a: u8, mem: Map<u8, u16>, s: Seq<DeviceEvent>) -> Map<u8, u16>
    decreases s.len(),
{
    if s.len() == 0 {
        mem
    } else {
        replay(a, after_event(a, mem, s[0]), s.drop_first())
    }
}

/// A device at `a` whose user words start as `mem` could have answered
/// every transfer of `s`.
pub open spec fn consistent(a: u8, mem: Map<u8, u16>, s: Seq<DeviceEvent>) -> bool
    decreases s.len(),
{
    s.len() == 0 || (answers(a, mem, s[0]) && consistent(a, after_event(a, mem, s[0]), s.drop_first()))
}

proof fn lemma_append(a: u8, mem: Map<u8, u16>, s1: Seq<DeviceEvent>, s2: Seq<DeviceEvent>)
    ensures
        replay(a, mem, s1 + s2) == replay(a, replay(a, mem, s1), s2),
        consistent(a, mem, s1 + s2) == (consistent(a, mem, s1) && consistent(
            a,
            replay(a, mem, s1),
            s2,
        )),
    decreases s1.len(),
{
    if s1.len() == 0 {
        assert(s1 + s2 =~= s2);
    } else {
        assert((s1 + s2).drop_first() =~= s1.drop_first() + s2);
        assert((s1 + s2)[0] == s1[0]);
        lemma_append(a, after_event(a, mem, s1[0]), s1.drop_first(), s2);
    }
}

proof fn lemma_single(a: u8, mem: Map<u8, u16>, e: DeviceEvent)
    ensures
        replay(a, mem, seq![e]) == after_event(a, mem, e),
        consistent(a, mem, seq![e]) == answers(a, mem, e),
{
    let empty = Seq::<DeviceEvent>::empty();
    assert(seq![e].drop_first() =~= empty);
    assert(replay(a, after_event(a, mem, e), empty) == after_event(a, mem, e));
    assert(consistent(a, after_event(a, mem, e), empty));
}

/// The reads of the configurations `cs` are one transfer each, in order.
pub proof fn lemma_config_reads_index(a: u8, cs: Seq<Configuration>)
    ensures
        config_reads(a, cs).len() == cs.len(),
        forall|i: int| 0 <= i < cs.len() ==> #[trigger] config_reads(a, cs)[i] == config_read(a, cs[i]),
    decreases cs.len(),
{
    if cs.len() > 0 {
        lemma_config_reads_index(a, cs.drop_last());
        let s = config_reads(a, cs);
        let prev = config_reads(a, cs.drop_last());
        assert(s == prev + Seq::<DeviceEvent>::empty().push(config_read(a, cs.last())));
        assert forall|i: int| 0 <= i < cs.len() implies #[trigger] s[i] == config_read(a, cs[i]) by {
            if i < cs.len() - 1 {
                assert(s[i] == prev[i]);
            }
        }
    }
}

proof fn lemma_config_reads_keep(a: u8, mem: Map<u8, u16>, cs: Seq<Configuration>)
    ensures
        replay(a, mem, config_reads(a, cs)) == mem,
        consistent(a, mem, config_reads(a, cs)),
    decreases cs.len(),
{
    if cs.len() > 0 {
        let prev = config_reads(a, cs.drop_last());
        let e = config_read(a, cs.last());
        assert(config_reads(a, cs) == prev + seq![e]) by {
            assert(Seq::<DeviceEvent>::empty().push(e) =~= seq![e]);
        }
        lemma_config_reads_keep(a, mem, cs.drop_last());
        lemma_append(a, mem, prev, seq![e]);
        lemma_single(a, mem, e);
    }
}

proof fn lemma_idle_write(a: u8, limit: u32, mem: Map<u8, u16>, s: Seq<DeviceEvent>, reg: u8, w: u16)
    requires
        idle_then_write(a, limit, s, reg, w),
        is_user_word(reg),
    ensures
        replay(a, mem, s) == mem.insert(reg, w),
        consistent(a, mem, s),
{
    let cs = choose|cs: Seq<Configuration>|
        poll_done(Wait::EepromIdle, cs) && cs.len() <= limit && s == config_reads(a, cs).push(
            write_event(a, reg, w),
        );
    let e = write_event(a, reg, w);
    assert(s == config_reads(a, cs) + seq![e]);
    lemma_config_reads_keep(a, mem, cs);
    lemma_append(a, mem, config_reads(a, cs), seq![e]);
    lemma_single(a, mem, e);
    lemma_be_bytes_word(w);
}

proof fn lemma_read_word(a: u8, mem: Map<u8, u16>, reg: u8, w: u16)
    requires
        is_user_word(reg),
        answers(a, mem, read_event(a, reg, w)),
    ensures
        mem.contains_key(reg) && mem[reg] == w,
{
    lemma_be_bytes_word(w);
}

/// Round trip of the user EEPROM: on a device whose user words answer
/// every read with the word last written to them, reading the three words
/// right after writing `v` gives back `v`. `s_write` and `s_read` are the
/// transfers of a successful `write_eeprom(v)` and `read_eeprom()`.
pub proof fn lemma_eeprom_round_trip(
    a: u8,
    limit: u32,
    mem: Map<u8, u16>,
    v: [u16; 3],
    s_write: Seq<DeviceEvent>,
    s_read: Seq<DeviceEvent>,
    got: [u16; 3],
)
    requires
        eeprom_written(a, limit, s_write, v),
        eeprom_read(a, s_read, got),
        consistent(a, mem, s_write + s_read),
    ensures
        got == v,
{
    let (s1, s2, s3) = choose|s1: Seq<DeviceEvent>, s2: Seq<DeviceEvent>, s3: Seq<DeviceEvent>|
        idle_then_write(a, limit, s1, UEEPROM1_ADDR, v[0]) && idle_then_write(
            a,
            limit,
            s2,
            UEEPROM2_ADDR,
            v[1],
        ) && idle_then_write(a, limit, s3, UEEPROM3_ADDR, v[2]) && s_write == s1 + s2 + s3;
    let m1 = mem.insert(UEEPROM1_ADDR, v[0]);
    let m2 = m1.insert(UEEPROM2_ADDR, v[1]);
    let m3 = m2.insert(UEEPROM3_ADDR, v[2]);
    lemma_idle_write(a, limit, mem, s1, UEEPROM1_ADDR, v[0]);
    lemma_idle_write(a, limit, m1, s2, UEEPROM2_ADDR, v[1]);
    lemma_idle_write(a, limit, m2, s3, UEEPROM3_ADDR, v[2]);
    lemma_append(a, mem, s1, s2);
    lemma_append(a, mem, s1 + s2, s3);
    lemma_append(a, mem, s_write, s_read);
    assert(replay(a, mem, s_write) == m3);
    let e1 = read_event(a, UEEPROM1_ADDR, got[0]);
    let e2 = read_event(a, UEEPROM2_ADDR, got[1]);
    let e3 = read_event(a, UEEPROM3_ADDR, got[2]);
    assert(s_read == seq![e1] + seq![e2] + seq![e3]);
    lemma_append(a, m3, seq![e1], seq![e2] + seq![e3]);
    assert(seq![e1] + seq![e2] + seq![e3] == seq![e1] + (seq![e2] + seq![e3]));
    lemma_single(a, m3, e1);
    lemma_append(a, m3, seq![e2], seq![e3]);
    lemma_single(a, m3, e2);
    lemma_single(a, m3, e3);
    lemma_read_word(a, m3, UEEPROM1_ADDR, got[0]);
    lemma_read_word(a, m3, UEEPROM2_ADDR, got[1]);
    lemma_read_word(a, m3, UEEPROM3_ADDR, got[2]);
    assert(got@ =~= v@);
}

/// Whether every read of the configuration in `s` reports the EEPROM busy.
pub open spec fn always_busy(a: u8, s: Seq<DeviceEvent>) -> bool {
    forall|c: Configuration| #[trigger] s.contains(config_read(a, c)) ==> c.eeprom_busy
}

proof fn lemma_idle_step_not_busy(a: u8, limit: u32, s1: Seq<DeviceEvent>, reg: u8, w: u16, s: Seq<DeviceEvent>)
    requires
        idle_then_write(a, limit, s1, reg, w),
        s1.len() <= s.len(),
        s.subrange(0, s1.len() as int) == s1,
    ensures
        !always_busy(a, s),
{
    let cs = choose|cs: Seq<Configuration>|
        poll_done(Wait::EepromIdle, cs) && cs.len() <= limit && s1 == config_reads(a, cs).push(
            write_event(a, reg, w),
        );
    lemma_config_reads_index(a, cs);
    let i = cs.len() - 1;
    assert(s1[i] == config_read(a, cs.last()));
    assert(s[i] == s.subrange(0, s1.len() as int)[i]);
    assert(s.contains(config_read(a, cs.last())));
}

/// An EEPROM write against a device whose busy flag never clears: where
/// every read of the configuration reports the EEPROM busy, `write_eeprom`
/// fails, writes no word, and reads the configuration at most `limit`
/// times. `s` and `r` are its transfers and its result.
pub proof fn lemma_busy_eeprom_write<E>(
    a: u8,
    limit: u32,
    v: [u16; 3],
    s: Seq<DeviceEvent>,
    r: Result<(), Error<E>>,
)
    requires
        eeprom_write_result(a, limit, v, s, r),
        always_busy(a, s),
    ensures
        r is Err,
        s.len() <= limit,
        forall|i: int| 0 <= i < s.len() ==> !(s[i] is Write),
{
    match r {
        Ok(_) => {
            let (s1, s2, s3) = choose|s1: Seq<DeviceEvent>, s2: Seq<DeviceEvent>, s3: Seq<DeviceEvent>|
                idle_then_write(a, limit, s1, UEEPROM1_ADDR, v[0]) && idle_then_write(
                    a,
                    limit,
                    s2,
                    UEEPROM2_ADDR,
                    v[1],
                ) && idle_then_write(a, limit, s3, UEEPROM3_ADDR, v[2]) && s == s1 + s2 + s3;
            assert(s.subrange(0, s1.len() as int) =~= s1);
            lemma_idle_step_not_busy(a, limit, s1, UEEPROM1_ADDR, v[0], s);
        },
        Err(err) => {
            if exists|s1: Seq<DeviceEvent>, s2: Seq<DeviceEvent>|
                idle_then_write(a, limit, s1, UEEPROM1_ADDR, v[0]) && idle_write_result(
                    a,
                    limit,
                    UEEPROM2_ADDR,
                    v[1],
                    s2,
                    Err::<(), Error<E>>(err),
                ) && s == s1 + s2 {
                let (s1, s2) = choose|s1: Seq<DeviceEvent>, s2: Seq<DeviceEvent>|
                    idle_then_write(a, limit, s1, UEEPROM1_ADDR, v[0]) && idle_write_result(
                        a,
                        limit,
                        UEEPROM2_ADDR,
                        v[1],
                        s2,
                        Err::<(), Error<E>>(err),
                    ) && s == s1 + s2;
                assert(s.subrange(0, s1.len() as int) =~= s1);
                lemma_idle_step_not_busy(a, limit, s1, UEEPROM1_ADDR, v[0], s);
            } else if exists|s1: Seq<DeviceEvent>, s2: Seq<DeviceEvent>, s3: Seq<DeviceEvent>|
                idle_then_write(a, limit, s1, UEEPROM1_ADDR, v[0]) && idle_then_write(
                    a,
                    limit,
                    s2,
                    UEEPROM2_ADDR,
                    v[1],
                ) && idle_write_result(a, limit, UEEPROM3_ADDR, v[2], s3, Err::<(), Error<E>>(err))
                    && s == s1 + s2 + s3 {
                let (s1, s2, s3) = choose|s1: Seq<DeviceEvent>, s2: Seq<DeviceEvent>, s3: Seq<DeviceEvent>|
                    idle_then_write(a, limit, s1, UEEPROM1_ADDR, v[0]) && idle_then_write(
                        a,
                        limit,
                        s2,
                        UEEPROM2_ADDR,
                        v[1],
                    ) && idle_write_result(a, limit, UEEPROM3_ADDR, v[2], s3, Err::<(), Error<E>>(err))
                        && s == s1 + s2 + s3;
                assert(s.subrange(0, s1.len() as int) =~= s1);
                lemma_idle_step_not_busy(a, limit, s1, UEEPROM1_ADDR, v[0], s);
            } else {
                assert(idle_write_result(a, limit, UEEPROM1_ADDR, v[0], s, Err::<(), Error<E>>(err)));
                if wait_result(a, Wait::EepromIdle, limit, false, s, Err::<Configuration, Error<E>>(err)) {
                    let cs = choose|cs: Seq<Configuration>|
                        crate::unmet(Wait::EepromIdle, cs) && match err {
                            Error::Timeout => cs.len() == limit && s == wait_reads(a, false, cs),
                            Error::AlertPin => false && cs.len() < limit,
                            _ => cs.len() < limit && exists|e: DeviceEvent|
                                crate::config_read_failed(a, e, err) && s == (wait_reads(a, false, cs)
                                    + crate::pin_step(false)).push(e),
                        };
                    lemma_config_reads_index(a, cs);
                    let reads = config_reads(a, cs);
                    if !(err is Timeout) {
                        let e = choose|e: DeviceEvent|
                            crate::config_read_failed(a, e, err) && s == (wait_reads(a, false, cs)
                                + crate::pin_step(false)).push(e);
                        assert(reads + crate::pin_step(false) =~= reads);
                        assert(forall|i: int| 0 <= i < reads.len() ==> s[i] == reads[i]);
                        assert(!(e is Write));
                    }
                } else {
                    let cs = choose|cs: Seq<Configuration>|
                        poll_done(Wait::EepromIdle, cs) && cs.len() <= limit && s == config_reads(
                            a,
                            cs,
                        ).push(crate::tmp117_ll::write_failure(a, UEEPROM1_ADDR, v[0]));
                    lemma_config_reads_index(a, cs);
                    let i = cs.len() - 1;
                    assert(s[i] == config_read(a, cs.last()));
                    assert(s.contains(config_read(a, cs.last())));
                }
            }
        },
    }
}

} // verus!
