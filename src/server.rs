//! The Modbus RTU slave server: one received request is parsed, served
//! against the register bank, and answered when it asks for a reply. The
//! caller reads the request from the line with idle framing and writes the
//! reply back.

use crate::store::{word_of, RegisterStore};
use rmodbus::server::storage::ModbusStorage;
use rmodbus::server::ModbusFrame;
use rmodbus::{ErrorKind, ModbusProto};
use vstd::prelude::*;

verus! {

/// The size of the frame buffer that the caller receives a request into.
pub const MODBUS_BUF_SIZE: usize = 256;

#[derive(Debug, Clone, Copy)]
pub enum Error {
    /// rmodbus rejected the request or failed to serve it.
    ModbusProcess(ErrorKind),
}

/// What rmodbus makes of an RTU request addressed to `unit`: whether it must
/// be processed, whether it only reads, and whether it asks for a reply; or
/// `None` when it rejects the frame.
pub uninterp spec fn rtu_request_flags(unit: u8, request: Seq<u8>) -> Option<(bool, bool, bool)>;

/// The reply that rmodbus builds for a read request served from these banks,
/// or `None` when serving it fails.
pub uninterp spec fn rtu_read_reply(
    unit: u8,
    request: Seq<u8>,
    coils: Seq<bool>,
    discretes: Seq<bool>,
    inputs: Seq<u16>,
    holdings: Seq<u16>,
) -> Option<Seq<u8>>;

/// The banks (coils, discretes, inputs, holdings) after rmodbus served a
/// write request on these banks, and its reply, or `None` when serving it
/// failed.
pub uninterp spec fn rtu_write_outcome(
    unit: u8,
    request: Seq<u8>,
    coils: Seq<bool>,
    discretes: Seq<bool>,
    inputs: Seq<u16>,
    holdings: Seq<u16>,
) -> (Seq<bool>, Seq<bool>, Seq<u16>, Seq<u16>, Option<Seq<u8>>);

/// The reply that rmodbus finalizes for a request that needs no processing
/// (an exception reply), or `None` when it fails.
pub uninterp spec fn rtu_plain_reply(unit: u8, request: Seq<u8>) -> Option<Seq<u8>>;

/// A bulk write (function `0x0F` or `0x10`) addressed to `unit` or broadcast
/// whose byte count is 249 or more: rmodbus adds 7 to that count as a byte
/// while parsing it, which overflows.
pub open spec fn bulk_count_overflows(unit: u8, request: Seq<u8>) -> bool {
    &&& request.len() >= 7
    &&& request[0] == unit || request[0] == 0 || request[0] == 255
    &&& request[1] == 0x0F || request[1] == 0x10
    &&& request[6] >= 249
}

/// Relies on `ModbusFrame::parse` (RTU, after `ModbusFrame::new`): the
/// frame's processing, read-only and reply flags, of which the first and
/// the last are set only on a frame with a function byte. A bulk write whose
/// byte count overflows rmodbus's arithmetic is left out.
#[verifier::external_body]
fn parse_rtu_request(unit: u8, request: &[u8]) -> (r: Result<(bool, bool, bool), ErrorKind>)
    requires
        !bulk_count_overflows(unit, request@),
    ensures
        r is Ok <==> rtu_request_flags(unit, request@) is Some,
        r is Ok ==> r->Ok_0 == rtu_request_flags(unit, request@)->Some_0,
        r is Ok && (r->Ok_0.0 || r->Ok_0.2) ==> request@.len() >= 2,
{
    let mut response: Vec<u8> = Vec::new();
    let mut frame = ModbusFrame::new(unit, request, ModbusProto::Rtu, &mut response);
    frame.parse()?;
    Ok((frame.processing_required, frame.readonly, frame.response_required))
}

/// Relies on `ModbusFrame::process_read` (after `new` and `parse`, then
/// `finalize_response`): the reply to a read request.
#[verifier::external_body]
fn rtu_read<const C: usize, const D: usize, const I: usize, const H: usize>(
    unit: u8,
    request: &[u8],
    storage: &ModbusStorage<C, D, I, H>,
) -> (r: Result<Vec<u8>, ErrorKind>)
    requires
        rtu_request_flags(unit, request@) matches Some((true, true, _)),
    ensures
        r is Ok <==> rtu_read_reply(
            unit,
            request@,
            storage.coils@,
            storage.discretes@,
            storage.inputs@,
            storage.holdings@,
        ) is Some,
        r is Ok ==> r->Ok_0@ == rtu_read_reply(
            unit,
            request@,
            storage.coils@,
            storage.discretes@,
            storage.inputs@,
            storage.holdings@,
        )->Some_0,
{
    let mut response: Vec<u8> = Vec::new();
    let mut frame = ModbusFrame::new(unit, request, ModbusProto::Rtu, &mut response);
    frame.parse()?;
    frame.process_read(storage)?;
    frame.finalize_response()?;
    Ok(response)
}

/// The holding registers after rmodbus served a single-register write
/// (function `0x06`): the register that bytes 2-3 name takes the value of
/// bytes 4-5 when it is inside the bank, and nothing changes otherwise.
pub open spec fn single_write_holdings(request: Seq<u8>, holdings: Seq<u16>) -> Seq<u16> {
    let reg = request[2] as int * 0x100 + request[3] as int;
    if reg < holdings.len() {
        holdings.update(reg, word_of(request[4], request[5]))
    } else {
        holdings
    }
}

/// Relies on `ModbusFrame::process_write` (after `new` and `parse`, then
/// `finalize_response`): the banks after the write, and its reply. A
/// single-register write (`0x06`) sets that one holding register through
/// `set_holding`, or nothing past the end of the bank.
#[verifier::external_body]
fn rtu_write<const C: usize, const D: usize, const I: usize, const H: usize>(
    unit: u8,
    request: &[u8],
    storage: &mut ModbusStorage<C, D, I, H>,
) -> (r: Result<Vec<u8>, ErrorKind>)
    requires
        rtu_request_flags(unit, request@) matches Some((true, false, _)),
    ensures
        ({
            let o = rtu_write_outcome(
                unit,
                request@,
                old(storage).coils@,
                old(storage).discretes@,
                old(storage).inputs@,
                old(storage).holdings@,
            );
            &&& final(storage).coils@ == o.0
            &&& final(storage).discretes@ == o.1
            &&& final(storage).inputs@ == o.2
            &&& final(storage).holdings@ == o.3
            &&& r is Ok <==> o.4 is Some
            &&& r is Ok ==> r->Ok_0@ == o.4->Some_0
        }),
        request@.len() >= 6 && request@[1] == 0x06 ==> {
            &&& final(storage).holdings@ == single_write_holdings(request@, old(storage).holdings@)
            &&& final(storage).coils@ == old(storage).coils@
            &&& final(storage).discretes@ == old(storage).discretes@
            &&& final(storage).inputs@ == old(storage).inputs@
        },
{
    let mut response: Vec<u8> = Vec::new();
    let mut frame = ModbusFrame::new(unit, request, ModbusProto::Rtu, &mut response);
    frame.parse()?;
    frame.process_write(storage)?;
    frame.finalize_response()?;
    Ok(response)
}

/// Relies on `ModbusFrame::finalize_response` (after `new` and `parse`):
/// the exception reply to a request that needs no processing. rmodbus adds
/// `0x80` to the function byte, which overflows for a byte of `0x80` or more,
/// so such requests are left out; the parse it repeats is one that returned.
#[verifier::external_body]
fn rtu_finalize(unit: u8, request: &[u8]) -> (r: Result<Vec<u8>, ErrorKind>)
    requires
        rtu_request_flags(unit, request@) is Some,
        request@.len() >= 2 && request@[1] < 0x80,
    ensures
        r is Ok <==> rtu_plain_reply(unit, request@) is Some,
        r is Ok ==> r->Ok_0@ == rtu_plain_reply(unit, request@)->Some_0,
{
    let mut response: Vec<u8> = Vec::new();
    let mut frame = ModbusFrame::new(unit, request, ModbusProto::Rtu, &mut response);
    frame.parse()?;
    frame.finalize_response()?;
    Ok(response)
}

/// The banks are as they were.
pub open spec fn banks_unchanged<const C: usize, const D: usize, const I: usize, const H: usize>(
    before: RegisterStore<C, D, I, H>,
    after: RegisterStore<C, D, I, H>,
) -> bool {
    &&& after.coils() == before.coils()
    &&& after.discretes() == before.discretes()
    &&& after.inputs() == before.inputs()
    &&& after.holdings() == before.holdings()
}

/// `r` is an `Ok` whose reply is `reply` when one is required, and nothing
/// otherwise.
pub open spec fn replies(r: Result<Option<Vec<u8>>, Error>, required: bool, reply: Seq<u8>) -> bool {
    &&& r is Ok
    &&& required ==> r->Ok_0 is Some && r->Ok_0->Some_0@ == reply
    &&& !required ==> r->Ok_0 is None
}

/// Serves one RTU request addressed to `unit` against the register bank.
///
/// A request that rmodbus rejects is an error and changes nothing, and so is
/// a bulk write whose byte count rmodbus cannot parse (`FrameBroken`). A
/// single-register write (`0x06`) sets that holding register when it is
/// inside the bank. A read is served from the banks and
/// changes nothing; a write changes them as rmodbus serves it. A request
/// that needs no processing changes nothing. A reply comes back exactly when
/// the request asks for one.
pub fn serve<const C: usize, const D: usize, const I: usize, const H: usize>(
    unit: u8,
    request: &[u8],
    store: &mut RegisterStore<C, D, I, H>,
) -> (r: Result<Option<Vec<u8>>, Error>)
    ensures
        bulk_count_overflows(unit, request@) ==> r == Err::<Option<Vec<u8>>, Error>(
            Error::ModbusProcess(ErrorKind::FrameBroken),
        ) && banks_unchanged(*old(store), *final(store)),
        !bulk_count_overflows(unit, request@) && request@.len() >= 6 && request@[1] == 0x06
            && (rtu_request_flags(unit, request@) matches Some((true, false, _))) ==> {
            &&& final(store).holdings() == single_write_holdings(request@, old(store).holdings())
            &&& final(store).coils() == old(store).coils()
            &&& final(store).discretes() == old(store).discretes()
            &&& final(store).inputs() == old(store).inputs()
        },
        !bulk_count_overflows(unit, request@) ==> match rtu_request_flags(unit, request@) {
            None => r is Err && banks_unchanged(*old(store), *final(store)),
            Some((processing, readonly, required)) => if processing && readonly {
                &&& banks_unchanged(*old(store), *final(store))
                &&& match rtu_read_reply(
                    unit,
                    request@,
                    old(store).coils(),
                    old(store).discretes(),
                    old(store).inputs(),
                    old(store).holdings(),
                ) {
                    None => r is Err,
                    Some(reply) => replies(r, required, reply),
                }
            } else if processing {
                let o = rtu_write_outcome(
                    unit,
                    request@,
                    old(store).coils(),
                    old(store).discretes(),
                    old(store).inputs(),
                    old(store).holdings(),
                );
                &&& final(store).coils() == o.0
                &&& final(store).discretes() == o.1
                &&& final(store).inputs() == o.2
                &&& final(store).holdings() == o.3
                &&& match o.4 {
                    None => r is Err,
                    Some(reply) => replies(r, required, reply),
                }
            } else {
                &&& banks_unchanged(*old(store), *final(store))
                &&& !required ==> r == Ok::<Option<Vec<u8>>, Error>(None)
                &&& required && request@[1] >= 0x80 ==> r == Err::<Option<Vec<u8>>, Error>(
                    Error::ModbusProcess(ErrorKind::IllegalFunction),
                )
                &&& required && request@[1] < 0x80 ==> match rtu_plain_reply(unit, request@) {
                    None => r is Err,
                    Some(reply) => replies(r, true, reply),
                }
            },
        },
{
    if request.len() >= 7 && (request[0] == unit || request[0] == 0 || request[0] == 255)
        && (request[1] == 0x0F || request[1] == 0x10) && request[6] >= 249 {
        return Err(Error::ModbusProcess(ErrorKind::FrameBroken));
    }
    let (processing, readonly, required) = match parse_rtu_request(unit, request) {
        Ok(flags) => flags,
        Err(e) => return Err(Error::ModbusProcess(e)),
    };
    if processing {
        let reply = if readonly {
            rtu_read(unit, request, store.storage())
        } else {
            rtu_write(unit, request, store.storage_mut())
        };
        match reply {
            Ok(bytes) => if required {
                Ok(Some(bytes))
            } else {
                Ok(None)
            },
            Err(e) => Err(Error::ModbusProcess(e)),
        }
    } else if required {
        if request[1] >= 0x80 {
            return Err(Error::ModbusProcess(ErrorKind::IllegalFunction));
        }
        match rtu_finalize(unit, request) {
            Ok(bytes) => Ok(Some(bytes)),
            Err(e) => Err(Error::ModbusProcess(e)),
        }
    } else {
        Ok(None)
    }
}

} // verus!
