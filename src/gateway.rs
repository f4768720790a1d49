//! The CAN side of the node: SDO requests are answered against the register
//! bank, RPDO payloads are handed to the caller, and queued TPDOs are framed
//! for sending. The caller waits on the bus and the TPDO queue, whichever is
//! ready first, and hands the outcome over as one event.

use crate::frame::{CanFrame, CanId};
use crate::pdo::{pdo_cob_id, RPDO, TPDO};
use crate::sdo::{
    create_not_implemented_response, create_sdo_abort_response, handle_read_command,
    handle_unknown_command, handle_write_command, sdo_holdings_after, sdo_reply,
    Error as SdoError, SdoAbortCode, SdoCmd, SDO_REQUEST_BASE, SDO_RESPONSE_BASE,
};
use crate::store::RegisterStore;
use embassy_stm32::can::enums::BusError;
use rmodbus::ErrorKind;
use vstd::prelude::*;

verus! {

#[verifier::external_type_specification]
#[verifier::external_body]
pub struct ExBusError(BusError);

/// Identifier offsets of the four RPDO channels.
pub const RPDO0_BASE: u16 = 0x200;
pub const RPDO1_BASE: u16 = 0x300;
pub const RPDO2_BASE: u16 = 0x400;
pub const RPDO3_BASE: u16 = 0x500;

#[derive(Debug)]
pub enum Error {
    /// The register bank failed.
    StorageError(ErrorKind),
    /// Receiving from the bus failed.
    BusError(BusError),
    /// An RPDO whose payload is not eight bytes long.
    IncorrectDataLength,
}

/// What woke the gateway up.
#[derive(Debug)]
pub enum Event {
    /// A frame arrived.
    Received(CanId, Vec<u8>),
    /// Receiving a frame failed.
    ReceiveFailed(BusError),
    /// A TPDO was taken from the outbound queue.
    Outbound(TPDO),
}

/// What the caller is to do after one event: send a frame, and hand an RPDO
/// payload on.
#[derive(Debug, Clone)]
pub struct Step {
    pub transmit: Option<CanFrame>,
    pub rpdo: Option<RPDO>,
}

/// The RPDO payload of an eight-byte frame.
pub open spec fn rpdo_bytes(p: RPDO) -> Seq<u8> {
    match p {
        RPDO::RPDO0(b) => b@,
        RPDO::RPDO1(b) => b@,
        RPDO::RPDO2(b) => b@,
        RPDO::RPDO3(b) => b@,
    }
}

/// Which of the four RPDO channels, if any, a standard identifier is for.
pub open spec fn rpdo_channel(node_id: u8, id: u16) -> Option<int> {
    if id == RPDO0_BASE + node_id {
        Some(0)
    } else if id == RPDO1_BASE + node_id {
        Some(1)
    } else if id == RPDO2_BASE + node_id {
        Some(2)
    } else if id == RPDO3_BASE + node_id {
        Some(3)
    } else {
        None
    }
}

pub open spec fn rpdo_number(p: RPDO) -> int {
    match p {
        RPDO::RPDO0(_) => 0,
        RPDO::RPDO1(_) => 1,
        RPDO::RPDO2(_) => 2,
        RPDO::RPDO3(_) => 3,
    }
}

/// The gateway of one CAN node.
pub struct CanServer {
    node_id: u8,
}

impl CanServer {
    pub closed spec fn node(&self) -> u8 {
        self.node_id
    }

    pub fn new(node_id: u8) -> (r: Self)
        ensures
            r.node() == node_id,
    {
        CanServer { node_id }
    }

    pub fn set_node_id(&mut self, node_id: u8)
        ensures
            final(self).node() == node_id,
    {
        self.node_id = node_id;
    }

    pub fn node_id(&self) -> (r: u8)
        ensures
            r == self.node(),
    {
        self.node_id
    }

    /// Handles one event. A received SDO request is answered with exactly
    /// one frame; an RPDO is handed on; a TPDO is framed for sending; other
    /// frames are ignored.
    pub fn update<const C: usize, const D: usize, const I: usize, const H: usize>(
        &self,
        event: Event,
        storage: &mut RegisterStore<C, D, I, H>,
    ) -> (r: Result<Step, Error>)
        ensures
            match event {
                Event::Received(id, data) => self.frame_outcome(
                    id,
                    data@,
                    *old(storage),
                    *final(storage),
                    r,
                ),
                Event::ReceiveFailed(e) => r == Err::<Step, Error>(Error::BusError(e))
                    && final(storage).holdings() == old(storage).holdings(),
                Event::Outbound(t) => r is Ok && r->Ok_0.rpdo is None
                    && r->Ok_0.transmit is Some && r->Ok_0.transmit->Some_0.id == pdo_cob_id(
                    self.node() as int,
                    t.number_spec() as int,
                ) && r->Ok_0.transmit->Some_0.data@ == t.payload()
                    && final(storage).holdings() == old(storage).holdings(),
            },
            final(storage).inputs() == old(storage).inputs(),
            final(storage).coils() == old(storage).coils(),
            final(storage).discretes() == old(storage).discretes(),
    {
        match event {
            Event::Received(id, data) => self.on_frame(id, data.as_slice(), storage),
            Event::ReceiveFailed(e) => Err(Error::BusError(e)),
            Event::Outbound(tpdo) => Ok(
                Step { transmit: Some(tpdo.frame(self.node_id)), rpdo: None },
            ),
        }
    }

    /// What handling a received frame amounts to: the outcome `r`, and the
    /// register bank going from `before` to `after`.
    pub open spec fn frame_outcome<const C: usize, const D: usize, const I: usize, const H: usize>(
        &self,
        id: CanId,
        data: Seq<u8>,
        before: RegisterStore<C, D, I, H>,
        after: RegisterStore<C, D, I, H>,
        r: Result<Step, Error>,
    ) -> bool {
        match id {
            CanId::Standard(raw) => if raw == SDO_REQUEST_BASE + self.node() {
                &&& r is Ok
                &&& r->Ok_0.rpdo is None
                &&& r->Ok_0.transmit is Some
                &&& r->Ok_0.transmit->Some_0.id == SDO_RESPONSE_BASE + self.node()
                &&& r->Ok_0.transmit->Some_0.data@ == sdo_reply(
                    data,
                    before.holdings(),
                    before.inputs(),
                )
                &&& after.holdings() == sdo_holdings_after(
                    data,
                    before.holdings(),
                    before.inputs(),
                )
            } else if rpdo_channel(self.node(), raw) is Some {
                &&& after.holdings() == before.holdings()
                &&& data.len() == 8 ==> r is Ok && r->Ok_0.transmit is None && r->Ok_0.rpdo is Some
                    && rpdo_number(r->Ok_0.rpdo->Some_0) == rpdo_channel(self.node(), raw)->Some_0
                    && rpdo_bytes(r->Ok_0.rpdo->Some_0) == data
                &&& data.len() != 8 ==> r == Err::<Step, Error>(Error::IncorrectDataLength)
            } else {
                &&& after.holdings() == before.holdings()
                &&& r is Ok && r->Ok_0.transmit is None && r->Ok_0.rpdo is None
            },
            CanId::Extended(_) => {
                &&& after.holdings() == before.holdings()
                &&& r is Ok && r->Ok_0.transmit is None && r->Ok_0.rpdo is None
            },
        }
    }

    /// Handles one received frame.
    pub fn on_frame<const C: usize, const D: usize, const I: usize, const H: usize>(
        &self,
        id: CanId,
        data: &[u8],
        storage: &mut RegisterStore<C, D, I, H>,
    ) -> (r: Result<Step, Error>)
        ensures
            self.frame_outcome(id, data@, *old(storage), *final(storage), r),
            final(storage).inputs() == old(storage).inputs(),
            final(storage).coils() == old(storage).coils(),
            final(storage).discretes() == old(storage).discretes(),
    {
        match id {
            CanId::Standard(raw) => {
                let node = self.node_id as u16;
                if raw == SDO_REQUEST_BASE + node {
                    let frame = self.process_sdo(data, storage);
                    Ok(Step { transmit: Some(frame), rpdo: None })
                } else if raw == RPDO0_BASE + node {
                    let b = rpdo_payload(data)?;
                    Ok(Step { transmit: None, rpdo: Some(RPDO::RPDO0(b)) })
                } else if raw == RPDO1_BASE + node {
                    let b = rpdo_payload(data)?;
                    Ok(Step { transmit: None, rpdo: Some(RPDO::RPDO1(b)) })
                } else if raw == RPDO2_BASE + node {
                    let b = rpdo_payload(data)?;
                    Ok(Step { transmit: None, rpdo: Some(RPDO::RPDO2(b)) })
                } else if raw == RPDO3_BASE + node {
                    let b = rpdo_payload(data)?;
                    Ok(Step { transmit: None, rpdo: Some(RPDO::RPDO3(b)) })
                } else {
                    Ok(Step { transmit: None, rpdo: None })
                }
            },
            CanId::Extended(_) => Ok(Step { transmit: None, rpdo: None }),
        }
    }

    /// Answers one SDO request: a response frame, or an abort frame that
    /// says why the request failed. The gateway never stops on a bad request.
    pub fn process_sdo<const C: usize, const D: usize, const I: usize, const H: usize>(
        &self,
        data: &[u8],
        storage: &mut RegisterStore<C, D, I, H>,
    ) -> (r: CanFrame)
        ensures
            r.id == SDO_RESPONSE_BASE + self.node(),
            r.wf(),
            r.data@ == sdo_reply(data@, old(storage).holdings(), old(storage).inputs()),
            final(storage).holdings() == sdo_holdings_after(
                data@,
                old(storage).holdings(),
                old(storage).inputs(),
            ),
            final(storage).inputs() == old(storage).inputs(),
            final(storage).coils() == old(storage).coils(),
            final(storage).discretes() == old(storage).discretes(),
    {
        let node_id = self.node_id;
        if data.len() < 4 {
            return create_sdo_abort_response(data, node_id, SdoAbortCode::InvalidQuery);
        }
        let cmd = SdoCmd::from(data[0]);
        let res = match cmd {
            SdoCmd::Unknown => Ok(handle_unknown_command(data, node_id)),
            SdoCmd::ReadAny | SdoCmd::Read2b | SdoCmd::Read4b => handle_read_command(
                cmd,
                data,
                node_id,
                storage,
            ),
            SdoCmd::Write2b | SdoCmd::Write4b => handle_write_command(cmd, data, node_id, storage),
            _ => Ok(create_not_implemented_response(data, node_id)),
        };
        match res {
            Ok(frame) => frame,
            Err(SdoError::SdoAbort(e)) => create_sdo_abort_response(data, node_id, e),
            Err(SdoError::NotEnoughData) => create_sdo_abort_response(
                data,
                node_id,
                SdoAbortCode::InvalidQuery,
            ),
        }
    }
}

/// The eight bytes of an RPDO frame.
fn rpdo_payload(data: &[u8]) -> (r: Result<[u8; 8], Error>)
    ensures
        data@.len() == 8 ==> r is Ok && r->Ok_0@ == data@,
        data@.len() != 8 ==> r == Err::<[u8; 8], Error>(Error::IncorrectDataLength),
{
    if data.len() != 8 {
        return Err(Error::IncorrectDataLength);
    }
    let b = [data[0], data[1], data[2], data[3], data[4], data[5], data[6], data[7]];
    proof {
        assert(b@ =~= data@);
    }
    Ok(b)
}

} // verus!
