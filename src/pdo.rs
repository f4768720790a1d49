//! Process data objects: the four received payload channels, queued outbound
//! messages, and the identifier that a PDO number maps to.

use crate::frame::{CanFrame, FrameError, MAX_DATA_LEN, MAX_STANDARD_ID};
use vstd::prelude::*;

verus! {

/// An eight-byte payload received on one of a node's four RPDO identifiers.
#[derive(Debug, Clone, Copy)]
pub enum RPDO {
    RPDO0([u8; 8]),
    RPDO1([u8; 8]),
    RPDO2([u8; 8]),
    RPDO3([u8; 8]),
}

/// The CAN identifier of PDO `pdo_number` of node `node_id`: PDOs go in
/// groups of four identifiers `0x100` apart, starting at `0x180 + node_id`,
/// and each further group of four moves up by one.
pub open spec fn pdo_cob_id(node_id: int, pdo_number: int) -> int {
    node_id + pdo_number / 4 + 0x180 + (pdo_number % 4) * 0x100
}

/// The CAN identifier of PDO `pdo_number` of node `node_id`.
pub fn cob_id(node_id: u8, pdo_number: u16) -> (r: u16)
    ensures
        r == pdo_cob_id(node_id as int, pdo_number as int),
{
    (node_id as u16 + (pdo_number / 4)) + 0x180 + (pdo_number % 4) * 0x100
}

/// The frame that carries `data` as PDO `pdo_number` of node `node_id`.
pub fn create_pdo_frame(node_id: u8, pdo_number: u16, data: &[u8]) -> (r: Result<
    CanFrame,
    FrameError,
>)
    requires
        pdo_cob_id(node_id as int, pdo_number as int) <= MAX_STANDARD_ID,
    ensures
        data@.len() <= MAX_DATA_LEN ==> r is Ok && r->Ok_0.id == pdo_cob_id(
            node_id as int,
            pdo_number as int,
        ) && r->Ok_0.data@ == data@,
        data@.len() > MAX_DATA_LEN ==> r == Err::<CanFrame, FrameError>(
            FrameError::InvalidDataLength,
        ),
{
    CanFrame::new_data(cob_id(node_id, pdo_number), data)
}

/// An outbound PDO waiting to be sent: its number and up to eight bytes.
#[derive(Debug, Clone, Copy)]
pub struct TPDO {
    number: u8,
    size: usize,
    data: [u8; 8],
}

impl TPDO {
    pub closed spec fn number_spec(&self) -> u8 {
        self.number
    }

    /// The bytes that the PDO carries.
    pub closed spec fn payload(&self) -> Seq<u8> {
        self.data@.subrange(0, self.size as int)
    }

    /// The payload fits a classic frame.
    #[verifier::type_invariant]
    spec fn inv(&self) -> bool {
        self.size <= MAX_DATA_LEN
    }

    /// A PDO numbered `number` carrying `data`; more than eight bytes do not
    /// fit a classic frame.
    pub fn new(number: u8, data: &[u8]) -> (r: Result<TPDO, FrameError>)
        ensures
            data@.len() <= MAX_DATA_LEN ==> r is Ok && r->Ok_0.number_spec()
                == number && r->Ok_0.payload() == data@,
            data@.len() > MAX_DATA_LEN ==> r == Err::<TPDO, FrameError>(
                FrameError::InvalidDataLength,
            ),
    {
        if data.len() > MAX_DATA_LEN {
            return Err(FrameError::InvalidDataLength);
        }
        let mut bytes = [0u8; 8];
        let mut i: usize = 0;
        while i < data.len()
            invariant
                i <= data@.len() <= 8,
                bytes@.len() == 8,
                bytes@.subrange(0, i as int) == data@.subrange(0, i as int),
            decreases data@.len() - i,
        {
            bytes[i] = data[i];
            proof {
                assert(bytes@.subrange(0, i + 1) =~= data@.subrange(0, i + 1));
            }
            i = i + 1;
        }
        proof {
            assert(data@.subrange(0, data@.len() as int) =~= data@);
        }
        Ok(TPDO { number, size: data.len(), data: bytes })
    }

    pub fn number(&self) -> (r: u8)
        ensures
            r == self.number_spec(),
    {
        self.number
    }

    /// The frame that sends this PDO for node `node_id`.
    pub fn frame(&self, node_id: u8) -> (r: CanFrame)
        ensures
            r.id == pdo_cob_id(node_id as int, self.number_spec() as int),
            r.data@ == self.payload(),
            r.wf(),
    {
        proof {
            use_type_invariant(self);
        }
        let id = cob_id(node_id, self.number as u16);
        let mut data: Vec<u8> = Vec::new();
        let mut i: usize = 0;
        while i < self.size
            invariant
                i <= self.size <= 8,
                self.data@.len() == 8,
                data@ == self.data@.subrange(0, i as int),
            decreases self.size - i,
        {
            data.push(self.data[i]);
            i = i + 1;
        }
        CanFrame { id, data }
    }
}

} // verus!
