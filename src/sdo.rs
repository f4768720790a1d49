//! Expedited SDO transfers: the command, response and abort vocabularies, and
//! the handling of one SDO request against the register bank.

use crate::frame::CanFrame;
use crate::store::{composite, word_of, written_words, RegisterStore, StoreError};
use vstd::prelude::*;

verus! {

/// The command byte of an SDO request.
#[derive(Debug, Clone, Copy, PartialEq, Eq, PartialOrd, Ord, Structural)]
pub enum SdoCmd {
    Unknown,
    ReadAny,
    Read1B,
    Read2b,
    Read4b,
    Write1B,
    Write2b,
    Write4b,
}

pub open spec fn sdo_cmd_of(value: u8) -> SdoCmd {
    if value == 0x40 {
        SdoCmd::ReadAny
    } else if value == 0x4F {
        SdoCmd::Read1B
    } else if value == 0x4B {
        SdoCmd::Read2b
    } else if value == 0x43 {
        SdoCmd::Read4b
    } else if value == 0x2F {
        SdoCmd::Write1B
    } else if value == 0x2B {
        SdoCmd::Write2b
    } else if value == 0x23 {
        SdoCmd::Write4b
    } else {
        SdoCmd::Unknown
    }
}

pub open spec fn sdo_cmd_byte(cmd: SdoCmd) -> u8 {
    match cmd {
        SdoCmd::ReadAny => 0x40,
        SdoCmd::Read1B => 0x4F,
        SdoCmd::Read2b => 0x4B,
        SdoCmd::Read4b => 0x43,
        SdoCmd::Write1B => 0x2F,
        SdoCmd::Write2b => 0x2B,
        SdoCmd::Write4b => 0x23,
        SdoCmd::Unknown => 0xff,
    }
}

impl From<u8> for SdoCmd {
    fn from(value: u8) -> (r: SdoCmd)
        ensures
            r == sdo_cmd_of(value),
    {
        match value {
            0x40 => SdoCmd::ReadAny,
            0x4F => SdoCmd::Read1B,
            0x4B => SdoCmd::Read2b,
            0x43 => SdoCmd::Read4b,
            0x2F => SdoCmd::Write1B,
            0x2B => SdoCmd::Write2b,
            0x23 => SdoCmd::Write4b,
            _ => SdoCmd::Unknown,
        }
    }
}

impl vstd::std_specs::convert::FromSpecImpl<u8> for SdoCmd {
    open spec fn obeys_from_spec() -> bool {
        true
    }

    open spec fn from_spec(v: u8) -> SdoCmd {
        sdo_cmd_of(v)
    }
}

impl From<SdoCmd> for u8 {
    fn from(cmd: SdoCmd) -> (r: u8)
        ensures
            r == sdo_cmd_byte(cmd),
    {
        match cmd {
            SdoCmd::ReadAny => 0x40,
            SdoCmd::Read1B => 0x4F,
            SdoCmd::Read2b => 0x4B,
            SdoCmd::Read4b => 0x43,
            SdoCmd::Write1B => 0x2F,
            SdoCmd::Write2b => 0x2B,
            SdoCmd::Write4b => 0x23,
            SdoCmd::Unknown => 0xff,
        }
    }
}

impl vstd::std_specs::convert::FromSpecImpl<SdoCmd> for u8 {
    open spec fn obeys_from_spec() -> bool {
        true
    }

    open spec fn from_spec(v: SdoCmd) -> u8 {
        sdo_cmd_byte(v)
    }
}

/// The command byte of an SDO response.
#[derive(Debug, Clone, Copy, PartialEq, Eq, PartialOrd, Ord, Structural)]
pub enum SdoResponse {
    Unknown,
    Read1B,
    Read2B,
    Read4B,
    WriteSuccess,
    Error,
}

pub open spec fn sdo_response_of(value: u8) -> SdoResponse {
    if value == 0x4F {
        SdoResponse::Read1B
    } else if value == 0x4B {
        SdoResponse::Read2B
    } else if value == 0x43 {
        SdoResponse::Read4B
    } else if value == 0x60 {
        SdoResponse::WriteSuccess
    } else if value == 0x80 {
        SdoResponse::Error
    } else {
        SdoResponse::Unknown
    }
}

pub open spec fn sdo_response_byte(resp: SdoResponse) -> u8 {
    match resp {
        SdoResponse::Read1B => 0x4F,
        SdoResponse::Read2B => 0x4B,
        SdoResponse::Read4B => 0x43,
        SdoResponse::WriteSuccess => 0x60,
        SdoResponse::Error => 0x80,
        SdoResponse::Unknown => 0xff,
    }
}

impl From<u8> for SdoResponse {
    fn from(value: u8) -> (r: SdoResponse)
        ensures
            r == sdo_response_of(value),
    {
        match value {
            0x4F => SdoResponse::Read1B,
            0x4B => SdoResponse::Read2B,
            0x43 => SdoResponse::Read4B,
            0x60 => SdoResponse::WriteSuccess,
            0x80 => SdoResponse::Error,
            _ => SdoResponse::Unknown,
        }
    }
}

impl vstd::std_specs::convert::FromSpecImpl<u8> for SdoResponse {
    open spec fn obeys_from_spec() -> bool {
        true
    }

    open spec fn from_spec(v: u8) -> SdoResponse {
        sdo_response_of(v)
    }
}

impl From<SdoResponse> for u8 {
    fn from(resp: SdoResponse) -> (r: u8)
        ensures
            r == sdo_response_byte(resp),
    {
        match resp {
            SdoResponse::Read1B => 0x4F,
            SdoResponse::Read2B => 0x4B,
            SdoResponse::Read4B => 0x43,
            SdoResponse::WriteSuccess => 0x60,
            SdoResponse::Error => 0x80,
            SdoResponse::Unknown => 0xff,
        }
    }
}

impl vstd::std_specs::convert::FromSpecImpl<SdoResponse> for u8 {
    open spec fn obeys_from_spec() -> bool {
        true
    }

    open spec fn from_spec(v: SdoResponse) -> u8 {
        sdo_response_byte(v)
    }
}

/// The reason carried by an SDO abort frame.
#[derive(Debug, Clone, Copy, PartialEq, Eq, PartialOrd, Ord, Structural)]
pub enum SdoAbortCode {
    InvalidCommand,
    InvalidQuery,
    InvalidSubindex,
    ReadError,
    InvalidData,
    NotImplemented,
    /// Any other code, kept as it came.
    Unknown(u32),
}

pub open spec fn abort_code_of(value: u32) -> SdoAbortCode {
    if value == 1 {
        SdoAbortCode::InvalidCommand
    } else if value == 2 {
        SdoAbortCode::InvalidQuery
    } else if value == 3 {
        SdoAbortCode::InvalidSubindex
    } else if value == 4 {
        SdoAbortCode::ReadError
    } else if value == 5 {
        SdoAbortCode::InvalidData
    } else if value == 0xff {
        SdoAbortCode::NotImplemented
    } else {
        SdoAbortCode::Unknown(value)
    }
}

pub open spec fn abort_code_value(code: SdoAbortCode) -> u32 {
    match code {
        SdoAbortCode::InvalidCommand => 1,
        SdoAbortCode::InvalidQuery => 2,
        SdoAbortCode::InvalidSubindex => 3,
        SdoAbortCode::ReadError => 4,
        SdoAbortCode::InvalidData => 5,
        SdoAbortCode::NotImplemented => 0xff,
        SdoAbortCode::Unknown(v) => v,
    }
}

impl From<u32> for SdoAbortCode {
    fn from(value: u32) -> (r: SdoAbortCode)
        ensures
            r == abort_code_of(value),
    {
        match value {
            1 => SdoAbortCode::InvalidCommand,
            2 => SdoAbortCode::InvalidQuery,
            3 => SdoAbortCode::InvalidSubindex,
            4 => SdoAbortCode::ReadError,
            5 => SdoAbortCode::InvalidData,
            0xff => SdoAbortCode::NotImplemented,
            unknown => SdoAbortCode::Unknown(unknown),
        }
    }
}

impl vstd::std_specs::convert::FromSpecImpl<u32> for SdoAbortCode {
    open spec fn obeys_from_spec() -> bool {
        true
    }

    open spec fn from_spec(v: u32) -> SdoAbortCode {
        abort_code_of(v)
    }
}

impl From<SdoAbortCode> for u32 {
    fn from(code: SdoAbortCode) -> (r: u32)
        ensures
            r == abort_code_value(code),
    {
        match code {
            SdoAbortCode::InvalidCommand => 1,
            SdoAbortCode::InvalidQuery => 2,
            SdoAbortCode::InvalidSubindex => 3,
            SdoAbortCode::ReadError => 4,
            SdoAbortCode::InvalidData => 5,
            SdoAbortCode::NotImplemented => 0xff,
            SdoAbortCode::Unknown(unknown_code) => unknown_code,
        }
    }
}

impl vstd::std_specs::convert::FromSpecImpl<SdoAbortCode> for u32 {
    open spec fn obeys_from_spec() -> bool {
        true
    }

    open spec fn from_spec(v: SdoAbortCode) -> u32 {
        abort_code_value(v)
    }
}

/// The register bank that the sub-index byte of a request selects.
#[derive(Debug, Clone, Copy, PartialEq, Eq, PartialOrd, Ord, Structural)]
pub enum SubIndex {
    Coil,
    Discrete,
    Holding,
    Input,
    Unknown(u8),
}

pub open spec fn sub_index_of(value: u8) -> SubIndex {
    if value == 0 {
        SubIndex::Coil
    } else if value == 1 {
        SubIndex::Discrete
    } else if value == 2 {
        SubIndex::Holding
    } else if value == 3 {
        SubIndex::Input
    } else {
        SubIndex::Unknown(value)
    }
}

impl From<u8> for SubIndex {
    fn from(value: u8) -> (r: SubIndex)
        ensures
            r == sub_index_of(value),
    {
        match value {
            0 => SubIndex::Coil,
            1 => SubIndex::Discrete,
            2 => SubIndex::Holding,
            3 => SubIndex::Input,
            _ => SubIndex::Unknown(value),
        }
    }
}

impl vstd::std_specs::convert::FromSpecImpl<u8> for SubIndex {
    open spec fn obeys_from_spec() -> bool {
        true
    }

    open spec fn from_spec(v: u8) -> SubIndex {
        sub_index_of(v)
    }
}

/// Identifier offset of SDO responses; a node answers on `0x580 + node_id`.
pub const SDO_RESPONSE_BASE: u16 = 0x580;

/// Identifier offset of SDO requests; a node listens on `0x600 + node_id`.
pub const SDO_REQUEST_BASE: u16 = 0x600;

/// Position of the two index bytes and of the sub-index byte in a request.
const INDEX: usize = 1;
const INDEX_END: usize = 2;
const SUB_INDEX: usize = 3;
/// Position of the first payload byte.
const DATA: usize = 4;

/// Why an SDO request could not be answered with a response frame.
#[derive(Debug, Clone, Copy, PartialEq, Eq, Structural)]
pub enum Error {
    NotEnoughData,
    SdoAbort(SdoAbortCode),
}

/// The two bytes of `v`, high byte first.
pub open spec fn be16_bytes(v: u16) -> Seq<u8> {
    seq![(v / 0x100) as u8, (v % 0x100) as u8]
}

/// The four bytes of `v`, high byte first.
pub open spec fn be32_bytes(v: u32) -> Seq<u8> {
    seq![
        (v / 0x1000000) as u8,
        ((v / 0x10000) % 0x100) as u8,
        ((v / 0x100) % 0x100) as u8,
        (v % 0x100) as u8,
    ]
}

/// The register address that a request names: its index bytes, big-endian.
pub open spec fn sdo_index(data: Seq<u8>) -> int {
    data[1] as int * 0x100 + data[2] as int
}

/// The head of a reply: a response code, then the request's index and
/// sub-index bytes.
pub open spec fn reply_head(code: SdoResponse, data: Seq<u8>) -> Seq<u8> {
    seq![sdo_response_byte(code), data[1], data[2], data[3]]
}

/// The abort frame for a request: response code `Error`, the echoed index and
/// sub-index bytes, and the abort code big-endian. A request too short to
/// carry an index is answered with zeros and `InvalidQuery`.
pub open spec fn abort_reply(data: Seq<u8>, code: SdoAbortCode) -> Seq<u8> {
    if data.len() >= 4 {
        reply_head(SdoResponse::Error, data) + be32_bytes(abort_code_value(code))
    } else {
        seq![0x80u8, 0u8, 0u8, 0u8] + be32_bytes(abort_code_value(SdoAbortCode::InvalidQuery))
    }
}

/// A 16-bit read of register `idx` of the bank that `sub` selects.
pub open spec fn read16_result(sub: SubIndex, idx: int, hold: Seq<u16>, inp: Seq<u16>) -> Result<
    u16,
    SdoAbortCode,
> {
    match sub {
        SubIndex::Holding => if idx < hold.len() {
            Ok(hold[idx])
        } else {
            Err(SdoAbortCode::ReadError)
        },
        SubIndex::Input => if idx < inp.len() {
            Ok(inp[idx])
        } else {
            Err(SdoAbortCode::ReadError)
        },
        SubIndex::Unknown(_) => Err(SdoAbortCode::InvalidSubindex),
        _ => Err(SdoAbortCode::NotImplemented),
    }
}

/// A 32-bit read of registers `idx` (high half) and `idx + 1` (low half) of
/// the bank that `sub` selects.
pub open spec fn read32_result(sub: SubIndex, idx: int, hold: Seq<u16>, inp: Seq<u16>) -> Result<
    u32,
    SdoAbortCode,
> {
    match sub {
        SubIndex::Holding => if idx + 1 < hold.len() {
            Ok(composite(hold[idx], hold[idx + 1]) as u32)
        } else {
            Err(SdoAbortCode::ReadError)
        },
        SubIndex::Input => if idx + 1 < inp.len() {
            Ok(composite(inp[idx], inp[idx + 1]) as u32)
        } else {
            Err(SdoAbortCode::ReadError)
        },
        SubIndex::Unknown(_) => Err(SdoAbortCode::InvalidSubindex),
        _ => Err(SdoAbortCode::NotImplemented),
    }
}

/// A write of `width` payload bytes to the holding registers: only the
/// holding bank takes writes, the payload must be there, and the registers
/// it fills must be inside the bank.
pub open spec fn write_result(data: Seq<u8>, width: int, hold: Seq<u16>) -> Result<
    Seq<u8>,
    SdoAbortCode,
> {
    if sub_index_of(data[3]) != SubIndex::Holding {
        Err(SdoAbortCode::InvalidSubindex)
    } else if data.len() < 4 + width {
        Err(SdoAbortCode::InvalidData)
    } else if sdo_index(data) + width / 2 > hold.len() {
        Err(SdoAbortCode::ReadError)
    } else {
        Ok(data.subrange(4, 4 + width))
    }
}

/// What a request asks for: the reply bytes on success, or the abort code.
pub open spec fn sdo_result(data: Seq<u8>, hold: Seq<u16>, inp: Seq<u16>) -> Result<
    Seq<u8>,
    SdoAbortCode,
> {
    if data.len() < 4 {
        Err(SdoAbortCode::InvalidQuery)
    } else {
        let idx = sdo_index(data);
        let sub = sub_index_of(data[3]);
        match sdo_cmd_of(data[0]) {
            SdoCmd::Unknown => Err(SdoAbortCode::InvalidCommand),
            SdoCmd::ReadAny => Err(SdoAbortCode::InvalidQuery),
            SdoCmd::Read2b => match read16_result(sub, idx, hold, inp) {
                Ok(v) => Ok(reply_head(SdoResponse::Read4B, data) + be16_bytes(v)),
                Err(c) => Err(c),
            },
            SdoCmd::Read4b => match read32_result(sub, idx, hold, inp) {
                Ok(v) => Ok(reply_head(SdoResponse::Read4B, data) + be32_bytes(v)),
                Err(c) => Err(c),
            },
            SdoCmd::Write2b => match write_result(data, 2, hold) {
                Ok(b) => Ok(reply_head(SdoResponse::WriteSuccess, data) + b),
                Err(c) => Err(c),
            },
            SdoCmd::Write4b => match write_result(data, 4, hold) {
                Ok(b) => Ok(reply_head(SdoResponse::WriteSuccess, data) + b),
                Err(c) => Err(c),
            },
            _ => Err(SdoAbortCode::NotImplemented),
        }
    }
}

/// The payload of the one frame sent back for a request.
pub open spec fn sdo_reply(data: Seq<u8>, hold: Seq<u16>, inp: Seq<u16>) -> Seq<u8> {
    match sdo_result(data, hold, inp) {
        Ok(b) => b,
        Err(c) => abort_reply(data, c),
    }
}

/// The holding registers after a request: a successful write changes the
/// registers it names, anything else leaves them as they were.
pub open spec fn sdo_holdings_after(data: Seq<u8>, hold: Seq<u16>, inp: Seq<u16>) -> Seq<u16> {
    if sdo_result(data, hold, inp) is Ok && data.len() >= 4 && (sdo_cmd_of(data[0])
        == SdoCmd::Write2b || sdo_cmd_of(data[0]) == SdoCmd::Write4b) {
        written_words(
            hold,
            sdo_index(data),
            data.subrange(4, if sdo_cmd_of(data[0]) == SdoCmd::Write2b {
                6
            } else {
                8
            }),
        )
    } else {
        hold
    }
}

/// Appends the two bytes of `v`, high byte first.
fn push_be16(out: &mut Vec<u8>, v: u16)
    ensures
        final(out)@ == old(out)@ + be16_bytes(v),
{
    out.push((v / 0x100) as u8);
    out.push((v % 0x100) as u8);
}

/// Appends the four bytes of `v`, high byte first.
fn push_be32(out: &mut Vec<u8>, v: u32)
    ensures
        final(out)@ == old(out)@ + be32_bytes(v),
{
    out.push((v / 0x1000000) as u8);
    out.push(((v / 0x10000) % 0x100) as u8);
    out.push(((v / 0x100) % 0x100) as u8);
    out.push((v % 0x100) as u8);
}

/// A request carries at least the command, index and sub-index bytes.
pub fn check_header_data(data: &[u8]) -> (r: Result<(), Error>)
    ensures
        r is Ok <==> data@.len() >= 4,
        r is Err ==> r == Err::<(), Error>(Error::NotEnoughData),
{
    if data.len() < 4 {
        return Err(Error::NotEnoughData);
    }
    Ok(())
}

/// The register address that the index bytes of a request name.
fn request_index(data: &[u8]) -> (r: u16)
    requires
        data@.len() >= 4,
    ensures
        r == sdo_index(data@),
{
    data[INDEX] as u16 * 0x100 + data[INDEX_END] as u16
}

/// The reply head for `code`: the response byte, then the request's index and
/// sub-index bytes.
fn new_reply_head(code: SdoResponse, data: &[u8]) -> (r: Vec<u8>)
    requires
        data@.len() >= 4,
    ensures
        r@ == reply_head(code, data@),
{
    let mut v: Vec<u8> = Vec::new();
    v.push(u8::from(code));
    v.push(data[INDEX]);
    v.push(data[INDEX_END]);
    v.push(data[SUB_INDEX]);
    v
}

/// The frame sent back on the node's response identifier.
fn new_data_frame(node_id: u8, response_data: Vec<u8>) -> (r: CanFrame)
    requires
        response_data@.len() <= 8,
    ensures
        r.id == SDO_RESPONSE_BASE + node_id,
        r.data@ == response_data@,
        r.wf(),
{
    CanFrame { id: SDO_RESPONSE_BASE + node_id as u16, data: response_data }
}

/// The abort frame for `data` with `abort_code`.
pub fn create_sdo_abort_response(data: &[u8], node_id: u8, abort_code: SdoAbortCode) -> (r:
    CanFrame)
    ensures
        r.id == SDO_RESPONSE_BASE + node_id,
        r.data@ == abort_reply(data@, abort_code),
        r.wf(),
{
    let mut response_data: Vec<u8>;
    if check_header_data(data).is_ok() {
        response_data = new_reply_head(SdoResponse::Error, data);
        push_be32(&mut response_data, u32::from(abort_code));
    } else {
        response_data = Vec::new();
        response_data.push(u8::from(SdoResponse::Error));
        response_data.push(0);
        response_data.push(0);
        response_data.push(0);
        push_be32(&mut response_data, u32::from(SdoAbortCode::InvalidQuery));
    }
    new_data_frame(node_id, response_data)
}

/// The abort frame for a request whose command byte is not one of the known
/// commands.
pub fn handle_unknown_command(data: &[u8], node_id: u8) -> (r: CanFrame)
    ensures
        r.id == SDO_RESPONSE_BASE + node_id,
        r.data@ == abort_reply(data@, SdoAbortCode::InvalidCommand),
        r.wf(),
{
    create_sdo_abort_response(data, node_id, SdoAbortCode::InvalidCommand)
}

/// The abort frame for a command that is known but not served.
pub fn create_not_implemented_response(data: &[u8], node_id: u8) -> (r: CanFrame)
    ensures
        r.id == SDO_RESPONSE_BASE + node_id,
        r.data@ == abort_reply(data@, SdoAbortCode::NotImplemented),
        r.wf(),
{
    create_sdo_abort_response(data, node_id, SdoAbortCode::NotImplemented)
}

/// A 16-bit read of the register that a request names.
pub fn read_u16<const C: usize, const D: usize, const I: usize, const H: usize>(
    data: &[u8],
    storage: &RegisterStore<C, D, I, H>,
) -> (r: Result<u16, SdoAbortCode>)
    requires
        data@.len() >= 4,
    ensures
        r == read16_result(
            sub_index_of(data@[3]),
            sdo_index(data@),
            storage.holdings(),
            storage.inputs(),
        ),
{
    proof {
        storage.lemma_lengths();
    }
    let reg = request_index(data);
    match SubIndex::from(data[SUB_INDEX]) {
        SubIndex::Holding => match storage.get_holding(reg) {
            Ok(v) => Ok(v),
            Err(StoreError::OutOfRange) => Err(SdoAbortCode::ReadError),
        },
        SubIndex::Input => match storage.get_input(reg) {
            Ok(v) => Ok(v),
            Err(StoreError::OutOfRange) => Err(SdoAbortCode::ReadError),
        },
        SubIndex::Unknown(_) => Err(SdoAbortCode::InvalidSubindex),
        _ => Err(SdoAbortCode::NotImplemented),
    }
}

/// A 32-bit read of the registers that a request names, the first one
/// giving the high half.
pub fn read_u32<const C: usize, const D: usize, const I: usize, const H: usize>(
    data: &[u8],
    storage: &RegisterStore<C, D, I, H>,
) -> (r: Result<u32, SdoAbortCode>)
    requires
        data@.len() >= 4,
    ensures
        r == read32_result(
            sub_index_of(data@[3]),
            sdo_index(data@),
            storage.holdings(),
            storage.inputs(),
        ),
{
    proof {
        storage.lemma_lengths();
    }
    let reg = request_index(data);
    match SubIndex::from(data[SUB_INDEX]) {
        SubIndex::Holding => match storage.get_holdings_u32(reg) {
            Ok(v) => Ok(v),
            Err(StoreError::OutOfRange) => Err(SdoAbortCode::ReadError),
        },
        SubIndex::Input => match storage.get_inputs_u32(reg) {
            Ok(v) => Ok(v),
            Err(StoreError::OutOfRange) => Err(SdoAbortCode::ReadError),
        },
        SubIndex::Unknown(_) => Err(SdoAbortCode::InvalidSubindex),
        _ => Err(SdoAbortCode::NotImplemented),
    }
}

/// Writes `width` payload bytes of a request to the holding registers.
fn write_bytes<const C: usize, const D: usize, const I: usize, const H: usize>(
    data: &[u8],
    width: usize,
    storage: &mut RegisterStore<C, D, I, H>,
) -> (r: Result<(), SdoAbortCode>)
    requires
        data@.len() >= 4,
        width == 2 || width == 4,
    ensures
        r is Ok <==> write_result(data@, width as int, old(storage).holdings()) is Ok,
        r is Err ==> r->Err_0 == write_result(data@, width as int, old(storage).holdings())->Err_0,
        r is Ok ==> final(storage).holdings() == written_words(
            old(storage).holdings(),
            sdo_index(data@),
            data@.subrange(4, 4 + width as int),
        ),
        r is Err ==> final(storage).holdings() == old(storage).holdings(),
        final(storage).inputs() == old(storage).inputs(),
        final(storage).coils() == old(storage).coils(),
        final(storage).discretes() == old(storage).discretes(),
{
    proof {
        storage.lemma_lengths();
    }
    match SubIndex::from(data[SUB_INDEX]) {
        SubIndex::Holding => {
            if data.len() < DATA + width {
                return Err(SdoAbortCode::InvalidData);
            }
            let reg = request_index(data);
            let payload = slice_range(data, DATA, DATA + width);
            match storage.set_holdings_from_bytes(reg, payload.as_slice()) {
                Ok(()) => Ok(()),
                Err(StoreError::OutOfRange) => Err(SdoAbortCode::ReadError),
            }
        },
        _ => Err(SdoAbortCode::InvalidSubindex),
    }
}

/// Writes the 2-byte payload of a request to the holding register it
/// names, and gives the value written.
pub fn write_u16<const C: usize, const D: usize, const I: usize, const H: usize>(
    data: &[u8],
    storage: &mut RegisterStore<C, D, I, H>,
) -> (r: Result<u16, SdoAbortCode>)
    requires
        data@.len() >= 4,
    ensures
        match write_result(data@, 2, old(storage).holdings()) {
            Ok(b) => r == Ok::<u16, SdoAbortCode>(word_of(b[0], b[1]))
                && final(storage).holdings() == written_words(
                old(storage).holdings(),
                sdo_index(data@),
                b,
            ),
            Err(c) => r == Err::<u16, SdoAbortCode>(c) && final(storage).holdings() == old(
                storage,
            ).holdings(),
        },
        final(storage).inputs() == old(storage).inputs(),
        final(storage).coils() == old(storage).coils(),
        final(storage).discretes() == old(storage).discretes(),
{
    write_bytes(data, 2, storage)?;
    Ok(data[DATA] as u16 * 0x100 + data[DATA + 1] as u16)
}

/// Writes the 4-byte payload of a request to the two holding registers it
/// names, high half first, and gives the value written.
pub fn write_u32<const C: usize, const D: usize, const I: usize, const H: usize>(
    data: &[u8],
    storage: &mut RegisterStore<C, D, I, H>,
) -> (r: Result<u32, SdoAbortCode>)
    requires
        data@.len() >= 4,
    ensures
        match write_result(data@, 4, old(storage).holdings()) {
            Ok(b) => r == Ok::<u32, SdoAbortCode>(
                composite(word_of(b[0], b[1]), word_of(b[2], b[3])) as u32,
            ) && final(storage).holdings() == written_words(
                old(storage).holdings(),
                sdo_index(data@),
                b,
            ),
            Err(c) => r == Err::<u32, SdoAbortCode>(c) && final(storage).holdings() == old(
                storage,
            ).holdings(),
        },
        final(storage).inputs() == old(storage).inputs(),
        final(storage).coils() == old(storage).coils(),
        final(storage).discretes() == old(storage).discretes(),
{
    write_bytes(data, 4, storage)?;
    let hi = data[DATA] as u32 * 0x100 + data[DATA + 1] as u32;
    let lo = data[DATA + 2] as u32 * 0x100 + data[DATA + 3] as u32;
    Ok(hi * 0x10000 + lo)
}

/// The bytes of `data` from `from` up to `to`.
fn slice_range(data: &[u8], from: usize, to: usize) -> (r: Vec<u8>)
    requires
        from <= to <= data@.len(),
    ensures
        r@ == data@.subrange(from as int, to as int),
{
    let mut v: Vec<u8> = Vec::new();
    let mut i: usize = from;
    while i < to
        invariant
            from <= i <= to,
            to <= data@.len(),
            v@ == data@.subrange(from as int, i as int),
        decreases to - i,
    {
        v.push(data[i]);
        i = i + 1;
    }
    v
}

/// Answers a 2-byte or 4-byte read request; any other command is an invalid
/// query. Both widths are answered with the 4-byte read response code.
pub fn handle_read_command<const C: usize, const D: usize, const I: usize, const H: usize>(
    cmd: SdoCmd,
    data: &[u8],
    node_id: u8,
    storage: &RegisterStore<C, D, I, H>,
) -> (r: Result<CanFrame, Error>)
    ensures
        data@.len() < 4 ==> r == Err::<CanFrame, Error>(Error::SdoAbort(SdoAbortCode::InvalidQuery)),
        data@.len() >= 4 && cmd != SdoCmd::Read2b && cmd != SdoCmd::Read4b ==> r == Err::<
            CanFrame,
            Error,
        >(Error::SdoAbort(SdoAbortCode::InvalidQuery)),
        data@.len() >= 4 && cmd == SdoCmd::Read2b ==> match read16_result(
            sub_index_of(data@[3]),
            sdo_index(data@),
            storage.holdings(),
            storage.inputs(),
        ) {
            Ok(v) => r is Ok && r->Ok_0.data@ == reply_head(SdoResponse::Read4B, data@)
                + be16_bytes(v),
            Err(c) => r == Err::<CanFrame, Error>(Error::SdoAbort(c)),
        },
        data@.len() >= 4 && cmd == SdoCmd::Read4b ==> match read32_result(
            sub_index_of(data@[3]),
            sdo_index(data@),
            storage.holdings(),
            storage.inputs(),
        ) {
            Ok(v) => r is Ok && r->Ok_0.data@ == reply_head(SdoResponse::Read4B, data@)
                + be32_bytes(v),
            Err(c) => r == Err::<CanFrame, Error>(Error::SdoAbort(c)),
        },
        r is Ok ==> r->Ok_0.id == SDO_RESPONSE_BASE + node_id && r->Ok_0.wf(),
{
    if check_header_data(data).is_err() {
        return Err(Error::SdoAbort(SdoAbortCode::InvalidQuery));
    }
    let mut response_data = new_reply_head(SdoResponse::Read4B, data);
    match cmd {
        SdoCmd::Read2b => {
            match read_u16(data, storage) {
                Ok(v) => push_be16(&mut response_data, v),
                Err(e) => return Err(Error::SdoAbort(e)),
            }
        },
        SdoCmd::Read4b => {
            match read_u32(data, storage) {
                Ok(v) => push_be32(&mut response_data, v),
                Err(e) => return Err(Error::SdoAbort(e)),
            }
        },
        _ => {
            return Err(Error::SdoAbort(SdoAbortCode::InvalidQuery));
        },
    }
    Ok(new_data_frame(node_id, response_data))
}

/// Answers a 2-byte or 4-byte write request by writing the holding
/// registers and echoing the payload; any other command is an invalid query.
pub fn handle_write_command<const C: usize, const D: usize, const I: usize, const H: usize>(
    cmd: SdoCmd,
    data: &[u8],
    node_id: u8,
    storage: &mut RegisterStore<C, D, I, H>,
) -> (r: Result<CanFrame, Error>)
    ensures
        data@.len() < 4 ==> r == Err::<CanFrame, Error>(Error::SdoAbort(SdoAbortCode::InvalidQuery)),
        data@.len() >= 4 && cmd != SdoCmd::Write2b && cmd != SdoCmd::Write4b ==> r == Err::<
            CanFrame,
            Error,
        >(Error::SdoAbort(SdoAbortCode::InvalidQuery)),
        data@.len() >= 4 && (cmd == SdoCmd::Write2b || cmd == SdoCmd::Write4b) ==> {
            let width: int = if cmd == SdoCmd::Write2b {
                2
            } else {
                4
            };
            match write_result(data@, width, old(storage).holdings()) {
                Ok(b) => r is Ok && r->Ok_0.data@ == reply_head(SdoResponse::WriteSuccess, data@)
                    + b && final(storage).holdings() == written_words(
                    old(storage).holdings(),
                    sdo_index(data@),
                    b,
                ),
                Err(c) => r == Err::<CanFrame, Error>(Error::SdoAbort(c)),
            }
        },
        r is Err ==> final(storage).holdings() == old(storage).holdings(),
        r is Ok ==> r->Ok_0.id == SDO_RESPONSE_BASE + node_id && r->Ok_0.wf(),
        final(storage).inputs() == old(storage).inputs(),
        final(storage).coils() == old(storage).coils(),
        final(storage).discretes() == old(storage).discretes(),
{
    if check_header_data(data).is_err() {
        return Err(Error::SdoAbort(SdoAbortCode::InvalidQuery));
    }
    let width: usize = match cmd {
        SdoCmd::Write2b => match write_u16(data, storage) {
            Ok(_) => 2,
            Err(e) => return Err(Error::SdoAbort(e)),
        },
        SdoCmd::Write4b => match write_u32(data, storage) {
            Ok(_) => 4,
            Err(e) => return Err(Error::SdoAbort(e)),
        },
        _ => {
            return Err(Error::SdoAbort(SdoAbortCode::InvalidQuery));
        },
    };
    let mut response_data = new_reply_head(SdoResponse::WriteSuccess, data);
    let mut payload = slice_range(data, DATA, DATA + width);
    response_data.append(&mut payload);
    Ok(new_data_frame(node_id, response_data))
}

proof fn lemma_be16_of_word(a: u8, b: u8)
    ensures
        be16_bytes(word_of(a, b)) == seq![a, b],
{
    assert((a as int * 0x100 + b as int) / 0x100 == a) by (nonlinear_arith);
    assert((a as int * 0x100 + b as int) % 0x100 == b) by (nonlinear_arith);
    assert(be16_bytes(word_of(a, b)) =~= seq![a, b]);
}

proof fn lemma_be32_of_words(a: u8, b: u8, c: u8, d: u8)
    ensures
        be32_bytes(composite(word_of(a, b), word_of(c, d)) as u32) == seq![a, b, c, d],
{
    let v: int = a as int * 0x1000000 + b as int * 0x10000 + c as int * 0x100 + d as int;
    assert(composite(word_of(a, b), word_of(c, d)) == v);
    assert(v / 0x1000000 == a) by (nonlinear_arith)
        requires
            v == a as int * 0x1000000 + b as int * 0x10000 + c as int * 0x100 + d as int,
            0 <= b < 0x100,
            0 <= c < 0x100,
            0 <= d < 0x100,
    ;
    assert((v / 0x10000) % 0x100 == b) by (nonlinear_arith)
        requires
            v == a as int * 0x1000000 + b as int * 0x10000 + c as int * 0x100 + d as int,
            0 <= a < 0x100,
            0 <= b < 0x100,
            0 <= c < 0x100,
            0 <= d < 0x100,
    ;
    assert((v / 0x100) % 0x100 == c) by (nonlinear_arith)
        requires
            v == a as int * 0x1000000 + b as int * 0x10000 + c as int * 0x100 + d as int,
            0 <= a < 0x100,
            0 <= b < 0x100,
            0 <= c < 0x100,
            0 <= d < 0x100,
    ;
    assert(v % 0x100 == d) by (nonlinear_arith)
        requires
            v == a as int * 0x1000000 + b as int * 0x10000 + c as int * 0x100 + d as int,
            0 <= a < 0x100,
            0 <= b < 0x100,
            0 <= c < 0x100,
            0 <= d < 0x100,
    ;
    assert(be32_bytes(v as u32) =~= seq![a, b, c, d]);
}

/// A 2-byte or 4-byte read of a holding or input register at or past the
/// end of its bank is answered with a `ReadError` abort frame, and changes
/// nothing.
pub proof fn lemma_read_past_end_aborts(data: Seq<u8>, hold: Seq<u16>, inp: Seq<u16>)
    requires
        data.len() >= 4,
        data[0] == 0x4B || data[0] == 0x43,
        data[3] == 2 || data[3] == 3,
        sdo_index(data) >= (if data[3] == 2 {
            hold.len()
        } else {
            inp.len()
        }),
    ensures
        sdo_reply(data, hold, inp) == abort_reply(data, SdoAbortCode::ReadError),
        sdo_reply(data, hold, inp) == seq![0x80u8, data[1], data[2], data[3]] + seq![
            0u8,
            0u8,
            0u8,
            4u8,
        ],
        sdo_holdings_after(data, hold, inp) == hold,
{
    assert(be32_bytes(4) =~= seq![0u8, 0u8, 0u8, 4u8]);
}

/// A request shorter than four bytes is answered with an `InvalidQuery`
/// abort frame whose index and sub-index bytes are zero, and changes nothing.
pub proof fn lemma_short_request_aborts(data: Seq<u8>, hold: Seq<u16>, inp: Seq<u16>)
    requires
        data.len() < 4,
    ensures
        sdo_reply(data, hold, inp) == abort_reply(data, SdoAbortCode::InvalidQuery),
        sdo_reply(data, hold, inp) == seq![0x80u8, 0u8, 0u8, 0u8, 0u8, 0u8, 0u8, 2u8],
        sdo_holdings_after(data, hold, inp) == hold,
{
    assert(be32_bytes(2) =~= seq![0u8, 0u8, 0u8, 2u8]);
    assert(seq![0x80u8, 0u8, 0u8, 0u8] + seq![0u8, 0u8, 0u8, 2u8] =~= seq![
        0x80u8,
        0u8,
        0u8,
        0u8,
        0u8,
        0u8,
        0u8,
        2u8,
    ]);
}

/// A 2-byte write (`0x2B`) to a holding register inside the bank succeeds,
/// and a 2-byte read (`0x4B`) of the same index then answers with the bytes
/// just written.
pub proof fn lemma_write2_then_read2(
    write: Seq<u8>,
    read: Seq<u8>,
    hold: Seq<u16>,
    inp: Seq<u16>,
)
    requires
        write.len() >= 6,
        read.len() >= 4,
        write[0] == 0x2B,
        read[0] == 0x4B,
        write[3] == 2,
        read[3] == 2,
        read[1] == write[1],
        read[2] == write[2],
        sdo_index(write) < hold.len(),
    ensures
        sdo_result(write, hold, inp) is Ok,
        sdo_reply(read, sdo_holdings_after(write, hold, inp), inp).subrange(4, 6) == write.subrange(
            4,
            6,
        ),
{
    let idx = sdo_index(write);
    let after = sdo_holdings_after(write, hold, inp);
    assert(after[idx] == word_of(write[4], write[5]));
    lemma_be16_of_word(write[4], write[5]);
    assert(sdo_reply(read, after, inp) == reply_head(SdoResponse::Read4B, read) + be16_bytes(
        after[idx],
    ));
    assert(sdo_reply(read, after, inp).subrange(4, 6) =~= write.subrange(4, 6));
}

/// A 4-byte write (`0x23`) to two holding registers inside the bank
/// succeeds, and a 4-byte read (`0x43`) of the same index then answers with
/// the bytes just written.
pub proof fn lemma_write4_then_read4(
    write: Seq<u8>,
    read: Seq<u8>,
    hold: Seq<u16>,
    inp: Seq<u16>,
)
    requires
        write.len() >= 8,
        read.len() >= 4,
        write[0] == 0x23,
        read[0] == 0x43,
        write[3] == 2,
        read[3] == 2,
        read[1] == write[1],
        read[2] == write[2],
        sdo_index(write) + 1 < hold.len(),
    ensures
        sdo_result(write, hold, inp) is Ok,
        sdo_reply(read, sdo_holdings_after(write, hold, inp), inp).subrange(4, 8) == write.subrange(
            4,
            8,
        ),
{
    let idx = sdo_index(write);
    let after = sdo_holdings_after(write, hold, inp);
    assert(after[idx] == word_of(write[4], write[5]));
    assert(after[idx + 1] == word_of(write[6], write[7]));
    lemma_be32_of_words(write[4], write[5], write[6], write[7]);
    assert(sdo_reply(read, after, inp) == reply_head(SdoResponse::Read4B, read) + be32_bytes(
        composite(after[idx], after[idx + 1]) as u32,
    ));
    assert(sdo_reply(read, after, inp).subrange(4, 8) =~= write.subrange(4, 8));
}

/// A 16-bit read (`Read2b`) of a holding or input register inside its bank,
/// after a single-register write of `value` there, gives `value`.
pub proof fn lemma_read16_after_set(
    sub: SubIndex,
    hold: Seq<u16>,
    inp: Seq<u16>,
    addr: u16,
    value: u16,
)
    requires
        sub == SubIndex::Holding ==> addr < hold.len(),
        sub == SubIndex::Input ==> addr < inp.len(),
        sub == SubIndex::Holding || sub == SubIndex::Input,
    ensures
        sub == SubIndex::Holding ==> read16_result(
            sub,
            addr as int,
            hold.update(addr as int, value),
            inp,
        ) == Ok::<u16, SdoAbortCode>(value),
        sub == SubIndex::Input ==> read16_result(
            sub,
            addr as int,
            hold,
            inp.update(addr as int, value),
        ) == Ok::<u16, SdoAbortCode>(value),
{
}

/// After a 32-bit write of `value` to holding registers `addr` and
/// `addr + 1` inside the bank, two 16-bit reads give its high half at `addr`
/// and its low half at `addr + 1`, which rebuild `value`.
pub proof fn lemma_read16_halves_after_u32(hold: Seq<u16>, inp: Seq<u16>, addr: u16, value: u32)
    requires
        addr + 1 < hold.len(),
    ensures
        ({
            let after = hold.update(addr as int, (value / 0x10000) as u16).update(
                addr + 1,
                (value % 0x10000) as u16,
            );
            let hi = read16_result(SubIndex::Holding, addr as int, after, inp);
            let lo = read16_result(SubIndex::Holding, addr + 1, after, inp);
            &&& hi is Ok && lo is Ok
            &&& composite(hi->Ok_0, lo->Ok_0) == value
        }),
{
    let after = hold.update(addr as int, (value / 0x10000) as u16).update(
        addr + 1,
        (value % 0x10000) as u16,
    );
    crate::store::lemma_u32_round_trip(hold, after, addr, value);
}

/// A 32-bit read (`Read4b`) of holding registers `addr`, `addr + 1` after
/// any run of whole 32-bit writes, where every write touching the pair is a
/// write of the pair, gives the last value written there (or the value held
/// before), never halves of two different writes.
pub proof fn lemma_read32_not_torn(
    hold: Seq<u16>,
    inp: Seq<u16>,
    addr: u16,
    writes: Seq<(int, u32)>,
)
    requires
        addr + 1 < hold.len(),
        forall|i: int|
            0 <= i < writes.len() ==> #[trigger] writes[i].0 == addr || writes[i].0 + 1 < addr
                || writes[i].0 > addr + 1,
    ensures
        read32_result(
            SubIndex::Holding,
            addr as int,
            crate::store::after_u32_writes(hold, writes),
            inp,
        ) == Ok::<u32, SdoAbortCode>(crate::store::last_u32_at(hold, addr as int, writes) as u32),
{
    crate::store::lemma_no_torn_u32(hold, addr as int, writes);
}

} // verus!
