//! The shared register bank: coils, discrete inputs, holding registers and
//! input registers, each with a fixed capacity, kept in rmodbus's storage.

use rmodbus::server::context::ModbusContext;
use rmodbus::server::storage::ModbusStorage;
use rmodbus::ErrorKind;
use vstd::prelude::*;

verus! {

#[verifier::external_type_specification]
pub struct ExModbusStorage<const C: usize, const D: usize, const I: usize, const H: usize>(
    ModbusStorage<C, D, I, H>,
);

#[verifier::external_type_specification]
pub struct ExErrorKind(ErrorKind);

/// An address at or past the end of the bank it names.
#[derive(Debug, Clone, Copy, PartialEq, Eq, Structural)]
pub enum StoreError {
    OutOfRange,
}

/// The 32-bit value held by two adjacent registers, the first one holding
/// the high half.
pub open spec fn composite(hi: u16, lo: u16) -> int {
    hi as int * 0x10000 + lo as int
}

/// Relies on `ModbusStorage::new`: every bank starts cleared.
#[verifier::external_body]
fn empty_storage<const C: usize, const D: usize, const I: usize, const H: usize>() -> (r:
    ModbusStorage<C, D, I, H>)
    ensures
        r.coils@ == Seq::new(C as nat, |i: int| false),
        r.discretes@ == Seq::new(D as nat, |i: int| false),
        r.inputs@ == Seq::new(I as nat, |i: int| 0u16),
        r.holdings@ == Seq::new(H as nat, |i: int| 0u16),
{
    ModbusStorage::new()
}

/// Relies on `ModbusContext::get_holding` of `ModbusStorage`: the register,
/// or an error past the end of the bank.
#[verifier::external_body]
fn storage_get_holding<const C: usize, const D: usize, const I: usize, const H: usize>(
    s: &ModbusStorage<C, D, I, H>,
    reg: u16,
) -> (r: Result<u16, ErrorKind>)
    ensures
        r is Ok <==> reg < H,
        r is Ok ==> r->Ok_0 == s.holdings@[reg as int],
{
    s.get_holding(reg)
}

/// Relies on `ModbusContext::get_input` of `ModbusStorage`.
#[verifier::external_body]
fn storage_get_input<const C: usize, const D: usize, const I: usize, const H: usize>(
    s: &ModbusStorage<C, D, I, H>,
    reg: u16,
) -> (r: Result<u16, ErrorKind>)
    ensures
        r is Ok <==> reg < I,
        r is Ok ==> r->Ok_0 == s.inputs@[reg as int],
{
    s.get_input(reg)
}

/// Relies on `ModbusContext::set_holding` of `ModbusStorage`: one register
/// changes, or nothing past the end of the bank.
#[verifier::external_body]
fn storage_set_holding<const C: usize, const D: usize, const I: usize, const H: usize>(
    s: &mut ModbusStorage<C, D, I, H>,
    reg: u16,
    value: u16,
) -> (r: Result<(), ErrorKind>)
    ensures
        reg < H ==> r is Ok && final(s).holdings@ == old(s).holdings@.update(reg as int, value),
        reg >= H ==> r is Err && final(s).holdings@ == old(s).holdings@,
        final(s).inputs@ == old(s).inputs@,
        final(s).coils@ == old(s).coils@,
        final(s).discretes@ == old(s).discretes@,
{
    s.set_holding(reg, value)
}

/// Relies on `ModbusContext::set_input` of `ModbusStorage`.
#[verifier::external_body]
fn storage_set_input<const C: usize, const D: usize, const I: usize, const H: usize>(
    s: &mut ModbusStorage<C, D, I, H>,
    reg: u16,
    value: u16,
) -> (r: Result<(), ErrorKind>)
    ensures
        reg < I ==> r is Ok && final(s).inputs@ == old(s).inputs@.update(reg as int, value),
        reg >= I ==> r is Err && final(s).inputs@ == old(s).inputs@,
        final(s).holdings@ == old(s).holdings@,
        final(s).coils@ == old(s).coils@,
        final(s).discretes@ == old(s).discretes@,
{
    s.set_input(reg, value)
}

/// Relies on `ModbusContext::get_holdings_as_u32` of `ModbusStorage`: the
/// register at `reg` is the high half, the one after it the low half.
#[verifier::external_body]
fn storage_get_holdings_u32<const C: usize, const D: usize, const I: usize, const H: usize>(
    s: &ModbusStorage<C, D, I, H>,
    reg: u16,
) -> (r: Result<u32, ErrorKind>)
    ensures
        r is Ok <==> reg + 1 < H,
        r is Ok ==> r->Ok_0 == composite(s.holdings@[reg as int], s.holdings@[reg + 1]),
{
    s.get_holdings_as_u32(reg)
}

/// Relies on `ModbusContext::get_inputs_as_u32` of `ModbusStorage`.
#[verifier::external_body]
fn storage_get_inputs_u32<const C: usize, const D: usize, const I: usize, const H: usize>(
    s: &ModbusStorage<C, D, I, H>,
    reg: u16,
) -> (r: Result<u32, ErrorKind>)
    ensures
        r is Ok <==> reg + 1 < I,
        r is Ok ==> r->Ok_0 == composite(s.inputs@[reg as int], s.inputs@[reg + 1]),
{
    s.get_inputs_as_u32(reg)
}

/// Relies on `ModbusContext::set_holdings_from_u32` of `ModbusStorage`: the
/// high half goes to `reg`, the low half to `reg + 1`.
#[verifier::external_body]
fn storage_set_holdings_u32<const C: usize, const D: usize, const I: usize, const H: usize>(
    s: &mut ModbusStorage<C, D, I, H>,
    reg: u16,
    value: u32,
) -> (r: Result<(), ErrorKind>)
    ensures
        r is Ok <==> reg + 1 < H,
        r is Ok ==> final(s).holdings@ == old(s).holdings@.update(
            reg as int,
            (value / 0x10000) as u16,
        ).update(reg + 1, (value % 0x10000) as u16),
        r is Err ==> final(s).holdings@ == old(s).holdings@,
        final(s).inputs@ == old(s).inputs@,
        final(s).coils@ == old(s).coils@,
        final(s).discretes@ == old(s).discretes@,
{
    s.set_holdings_from_u32(reg, value)
}

/// Relies on `ModbusContext::set_inputs_from_u32` of `ModbusStorage`.
#[verifier::external_body]
fn storage_set_inputs_u32<const C: usize, const D: usize, const I: usize, const H: usize>(
    s: &mut ModbusStorage<C, D, I, H>,
    reg: u16,
    value: u32,
) -> (r: Result<(), ErrorKind>)
    ensures
        r is Ok <==> reg + 1 < I,
        r is Ok ==> final(s).inputs@ == old(s).inputs@.update(
            reg as int,
            (value / 0x10000) as u16,
        ).update(reg + 1, (value % 0x10000) as u16),
        r is Err ==> final(s).inputs@ == old(s).inputs@,
        final(s).holdings@ == old(s).holdings@,
        final(s).coils@ == old(s).coils@,
        final(s).discretes@ == old(s).discretes@,
{
    s.set_inputs_from_u32(reg, value)
}

/// The register that two bytes hold, the first one being the high byte.
pub open spec fn word_of(hi: u8, lo: u8) -> u16 {
    (hi as int * 0x100 + lo as int) as u16
}

/// Holding registers after `bytes` were written from `reg` on, two bytes per
/// register in big-endian order.
pub open spec fn written_words(regs: Seq<u16>, reg: int, bytes: Seq<u8>) -> Seq<u16> {
    Seq::new(
        regs.len(),
        |k: int|
            if reg <= k < reg + bytes.len() / 2 {
                word_of(bytes[2 * (k - reg)], bytes[2 * (k - reg) + 1])
            } else {
                regs[k]
            },
    )
}

/// Relies on `ModbusContext::set_holdings_from_u8` of `ModbusStorage`: an
/// even number of bytes fills registers from `reg` on, or nothing changes
/// when they would run past the end of the bank.
#[verifier::external_body]
fn storage_set_holdings_bytes<const C: usize, const D: usize, const I: usize, const H: usize>(
    s: &mut ModbusStorage<C, D, I, H>,
    reg: u16,
    bytes: &[u8],
) -> (r: Result<(), ErrorKind>)
    requires
        bytes@.len() % 2 == 0,
    ensures
        r is Ok <==> reg + bytes@.len() / 2 <= H,
        r is Ok ==> final(s).holdings@ == written_words(old(s).holdings@, reg as int, bytes@),
        r is Err ==> final(s).holdings@ == old(s).holdings@,
        final(s).inputs@ == old(s).inputs@,
        final(s).coils@ == old(s).coils@,
        final(s).discretes@ == old(s).discretes@,
{
    s.set_holdings_from_u8(reg, bytes)
}

/// The register bank shared by the protocol engines. Every access names a
/// bank and an address; an address past the bank's capacity is an error,
/// never a panic.
pub struct RegisterStore<const C: usize, const D: usize, const I: usize, const H: usize> {
    regs: ModbusStorage<C, D, I, H>,
}

impl<const C: usize, const D: usize, const I: usize, const H: usize> RegisterStore<C, D, I, H> {
    /// The holding registers, read-write from the bus.
    pub closed spec fn holdings(&self) -> Seq<u16> {
        self.regs.holdings@
    }

    /// The input registers, read-only from the bus.
    pub closed spec fn inputs(&self) -> Seq<u16> {
        self.regs.inputs@
    }

    /// The coils.
    pub closed spec fn coils(&self) -> Seq<bool> {
        self.regs.coils@
    }

    /// The discrete inputs.
    pub closed spec fn discretes(&self) -> Seq<bool> {
        self.regs.discretes@
    }

    pub proof fn lemma_lengths(&self)
        ensures
            self.holdings().len() == H,
            self.inputs().len() == I,
            self.coils().len() == C,
            self.discretes().len() == D,
    {
    }

    /// A bank with every register cleared.
    pub fn new() -> (r: Self)
        ensures
            r.holdings() == Seq::new(H as nat, |i: int| 0u16),
            r.inputs() == Seq::new(I as nat, |i: int| 0u16),
            r.coils() == Seq::new(C as nat, |i: int| false),
            r.discretes() == Seq::new(D as nat, |i: int| false),
    {
        RegisterStore { regs: empty_storage() }
    }

    /// The rmodbus storage itself, for the frame processing of the RTU server.
    pub fn storage(&self) -> (r: &ModbusStorage<C, D, I, H>)
        ensures
            r.holdings@ == self.holdings(),
            r.inputs@ == self.inputs(),
            r.coils@ == self.coils(),
            r.discretes@ == self.discretes(),
    {
        &self.regs
    }

    /// The rmodbus storage itself, for writes of the RTU server.
    pub fn storage_mut(&mut self) -> (r: &mut ModbusStorage<C, D, I, H>)
        ensures
            r.holdings@ == old(self).holdings(),
            r.inputs@ == old(self).inputs(),
            r.coils@ == old(self).coils(),
            r.discretes@ == old(self).discretes(),
            final(self).holdings() == final(r).holdings@,
            final(self).inputs() == final(r).inputs@,
            final(self).coils() == final(r).coils@,
            final(self).discretes() == final(r).discretes@,
    {
        &mut self.regs
    }

    pub fn get_holding(&self, addr: u16) -> (r: Result<u16, StoreError>)
        ensures
            addr < H ==> r == Ok::<u16, StoreError>(self.holdings()[addr as int]),
            addr >= H ==> r == Err::<u16, StoreError>(StoreError::OutOfRange),
    {
        match storage_get_holding(&self.regs, addr) {
            Ok(v) => Ok(v),
            Err(_) => Err(StoreError::OutOfRange),
        }
    }

    pub fn get_input(&self, addr: u16) -> (r: Result<u16, StoreError>)
        ensures
            addr < I ==> r == Ok::<u16, StoreError>(self.inputs()[addr as int]),
            addr >= I ==> r == Err::<u16, StoreError>(StoreError::OutOfRange),
    {
        match storage_get_input(&self.regs, addr) {
            Ok(v) => Ok(v),
            Err(_) => Err(StoreError::OutOfRange),
        }
    }

    pub fn set_holding(&mut self, addr: u16, value: u16) -> (r: Result<(), StoreError>)
        ensures
            addr < H ==> r is Ok && final(self).holdings() == old(self).holdings().update(
                addr as int,
                value,
            ),
            addr >= H ==> r == Err::<(), StoreError>(StoreError::OutOfRange)
                && final(self).holdings() == old(self).holdings(),
            final(self).inputs() == old(self).inputs(),
            final(self).coils() == old(self).coils(),
            final(self).discretes() == old(self).discretes(),
    {
        match storage_set_holding(&mut self.regs, addr, value) {
            Ok(()) => Ok(()),
            Err(_) => Err(StoreError::OutOfRange),
        }
    }

    pub fn set_input(&mut self, addr: u16, value: u16) -> (r: Result<(), StoreError>)
        ensures
            addr < I ==> r is Ok && final(self).inputs() == old(self).inputs().update(
                addr as int,
                value,
            ),
            addr >= I ==> r == Err::<(), StoreError>(StoreError::OutOfRange)
                && final(self).inputs() == old(self).inputs(),
            final(self).holdings() == old(self).holdings(),
            final(self).coils() == old(self).coils(),
            final(self).discretes() == old(self).discretes(),
    {
        match storage_set_input(&mut self.regs, addr, value) {
            Ok(()) => Ok(()),
            Err(_) => Err(StoreError::OutOfRange),
        }
    }

    /// The 32-bit value of the holding registers `addr` (high half) and
    /// `addr + 1` (low half), read as one snapshot.
    pub fn get_holdings_u32(&self, addr: u16) -> (r: Result<u32, StoreError>)
        ensures
            addr + 1 < H ==> r is Ok && r->Ok_0 == composite(
                self.holdings()[addr as int],
                self.holdings()[addr + 1],
            ),
            addr + 1 >= H ==> r == Err::<u32, StoreError>(StoreError::OutOfRange),
    {
        match storage_get_holdings_u32(&self.regs, addr) {
            Ok(v) => Ok(v),
            Err(_) => Err(StoreError::OutOfRange),
        }
    }

    /// The 32-bit value of the input registers `addr` (high half) and
    /// `addr + 1` (low half), read as one snapshot.
    pub fn get_inputs_u32(&self, addr: u16) -> (r: Result<u32, StoreError>)
        ensures
            addr + 1 < I ==> r is Ok && r->Ok_0 == composite(
                self.inputs()[addr as int],
                self.inputs()[addr + 1],
            ),
            addr + 1 >= I ==> r == Err::<u32, StoreError>(StoreError::OutOfRange),
    {
        match storage_get_inputs_u32(&self.regs, addr) {
            Ok(v) => Ok(v),
            Err(_) => Err(StoreError::OutOfRange),
        }
    }

    /// Writes the high half of `value` to holding register `addr` and the
    /// low half to `addr + 1`, as one update.
    pub fn set_holdings_u32(&mut self, addr: u16, value: u32) -> (r: Result<(), StoreError>)
        ensures
            addr + 1 < H ==> r is Ok && final(self).holdings() == old(self).holdings().update(
                addr as int,
                (value / 0x10000) as u16,
            ).update(addr + 1, (value % 0x10000) as u16),
            addr + 1 >= H ==> r == Err::<(), StoreError>(StoreError::OutOfRange)
                && final(self).holdings() == old(self).holdings(),
            final(self).inputs() == old(self).inputs(),
            final(self).coils() == old(self).coils(),
            final(self).discretes() == old(self).discretes(),
    {
        match storage_set_holdings_u32(&mut self.regs, addr, value) {
            Ok(()) => Ok(()),
            Err(_) => Err(StoreError::OutOfRange),
        }
    }

    /// Writes the high half of `value` to input register `addr` and the low
    /// half to `addr + 1`, as one update.
    pub fn set_inputs_u32(&mut self, addr: u16, value: u32) -> (r: Result<(), StoreError>)
        ensures
            addr + 1 < I ==> r is Ok && final(self).inputs() == old(self).inputs().update(
                addr as int,
                (value / 0x10000) as u16,
            ).update(addr + 1, (value % 0x10000) as u16),
            addr + 1 >= I ==> r == Err::<(), StoreError>(StoreError::OutOfRange)
                && final(self).inputs() == old(self).inputs(),
            final(self).holdings() == old(self).holdings(),
            final(self).coils() == old(self).coils(),
            final(self).discretes() == old(self).discretes(),
    {
        match storage_set_inputs_u32(&mut self.regs, addr, value) {
            Ok(()) => Ok(()),
            Err(_) => Err(StoreError::OutOfRange),
        }
    }

    /// Writes big-endian byte pairs to the holding registers from `addr` on;
    /// nothing changes when they would run past the end of the bank.
    pub fn set_holdings_from_bytes(&mut self, addr: u16, bytes: &[u8]) -> (r: Result<
        (),
        StoreError,
    >)
        requires
            bytes@.len() % 2 == 0,
        ensures
            addr + bytes@.len() / 2 <= H ==> r is Ok && final(self).holdings() == written_words(
                old(self).holdings(),
                addr as int,
                bytes@,
            ),
            addr + bytes@.len() / 2 > H ==> r == Err::<(), StoreError>(StoreError::OutOfRange)
                && final(self).holdings() == old(self).holdings(),
            final(self).inputs() == old(self).inputs(),
            final(self).coils() == old(self).coils(),
            final(self).discretes() == old(self).discretes(),
    {
        match storage_set_holdings_bytes(&mut self.regs, addr, bytes) {
            Ok(()) => Ok(()),
            Err(_) => Err(StoreError::OutOfRange),
        }
    }
}

/// A single register written with `set_holding` (or `set_input`) at an
/// address inside the bank reads back as the value written, and no other
/// register changes.
pub proof fn lemma_set_then_get(before: Seq<u16>, after: Seq<u16>, addr: u16, value: u16)
    requires
        addr < before.len(),
        after == before.update(addr as int, value),
    ensures
        after[addr as int] == value,
        after.len() == before.len(),
        forall|k: int| 0 <= k < before.len() && k != addr ==> after[k] == before[k],
{
}

/// A 32-bit value written with `set_holdings_u32` (or `set_inputs_u32`) at
/// an address whose successor is inside the bank reads back through two
/// 16-bit reads, the register at `addr` giving the high half.
pub proof fn lemma_u32_round_trip(before: Seq<u16>, after: Seq<u16>, addr: u16, value: u32)
    requires
        addr + 1 < before.len(),
        after == before.update(addr as int, (value / 0x10000) as u16).update(
            addr + 1,
            (value % 0x10000) as u16,
        ),
    ensures
        composite(after[addr as int], after[addr + 1]) == value,
        after[addr as int] == value / 0x10000,
        after[addr + 1] == value % 0x10000,
{
}

/// Registers after a run of whole 32-bit writes, each an (address, value)
/// pair applied as one update; a write whose pair of registers does not fit
/// the bank changes nothing.
pub open spec fn after_u32_writes(regs: Seq<u16>, writes: Seq<(int, u32)>) -> Seq<u16>
    decreases writes.len(),
{
    if writes.len() == 0 {
        regs
    } else {
        let prev = after_u32_writes(regs, writes.drop_last());
        let (b, v) = writes.last();
        if 0 <= b && b + 1 < prev.len() {
            prev.update(b, (v / 0x10000) as u16).update(b + 1, (v % 0x10000) as u16)
        } else {
            prev
        }
    }
}

/// The 32-bit value that a run of writes leaves at `addr`: the last one
/// written there, or what the registers held before.
pub open spec fn last_u32_at(regs: Seq<u16>, addr: int, writes: Seq<(int, u32)>) -> int
    decreases writes.len(),
{
    if writes.len() == 0 {
        composite(regs[addr], regs[addr + 1])
    } else if writes.last().0 == addr {
        writes.last().1 as int
    } else {
        last_u32_at(regs, addr, writes.drop_last())
    }
}

/// No torn 32-bit value: whatever the order in which the engines' whole
/// 32-bit writes are serialized, when every write that touches the pair at
/// `addr` is a write of that pair, a 32-bit read of `addr` sees both halves
/// of one single write (the last one), never a mix of two.
pub proof fn lemma_no_torn_u32(regs: Seq<u16>, addr: int, writes: Seq<(int, u32)>)
    requires
        0 <= addr,
        addr + 1 < regs.len(),
        forall|i: int|
            0 <= i < writes.len() ==> #[trigger] writes[i].0 == addr || writes[i].0 + 1 < addr
                || writes[i].0 > addr + 1,
    ensures
        after_u32_writes(regs, writes).len() == regs.len(),
        composite(
            after_u32_writes(regs, writes)[addr],
            after_u32_writes(regs, writes)[addr + 1],
        ) == last_u32_at(regs, addr, writes),
    decreases writes.len(),
{
    if writes.len() > 0 {
        let init = writes.drop_last();
        assert forall|i: int| 0 <= i < init.len() implies #[trigger] init[i].0 == addr
            || init[i].0 + 1 < addr || init[i].0 > addr + 1 by {
            assert(init[i] == writes[i]);
        }
        lemma_no_torn_u32(regs, addr, init);
        assert(writes[writes.len() - 1] == writes.last());
    }
}

} // verus!
