//! Classic CAN data frames with standard (11-bit) identifiers.

use vstd::prelude::*;

verus! {

/// The largest standard identifier.
pub const MAX_STANDARD_ID: u16 = 0x7FF;

/// The largest payload of a classic CAN data frame.
pub const MAX_DATA_LEN: usize = 8;

/// Why a frame could not be built.
#[derive(Debug, Clone, Copy, PartialEq, Eq, Structural)]
pub enum FrameError {
    /// The identifier does not fit in 11 bits.
    InvalidId,
    /// The payload is longer than eight bytes.
    InvalidDataLength,
}

/// The identifier of a received frame.
#[derive(Debug, Clone, Copy, PartialEq, Eq, Structural)]
pub enum CanId {
    /// An 11-bit identifier.
    Standard(u16),
    /// A 29-bit identifier.
    Extended(u32),
}

/// A classic CAN data frame with a standard identifier.
#[derive(Debug, Clone)]
pub struct CanFrame {
    pub id: u16,
    pub data: Vec<u8>,
}

impl CanFrame {
    /// The identifier fits in 11 bits and the payload in eight bytes.
    pub open spec fn wf(&self) -> bool {
        &&& self.id <= MAX_STANDARD_ID
        &&& self.data@.len() <= MAX_DATA_LEN
    }

    /// A data frame with identifier `id` carrying a copy of `data`.
    pub fn new_data(id: u16, data: &[u8]) -> (r: Result<CanFrame, FrameError>)
        ensures
            id > MAX_STANDARD_ID ==> r == Err::<CanFrame, FrameError>(FrameError::InvalidId),
            id <= MAX_STANDARD_ID && data@.len() > MAX_DATA_LEN ==> r == Err::<
                CanFrame,
                FrameError,
            >(FrameError::InvalidDataLength),
            id <= MAX_STANDARD_ID && data@.len() <= MAX_DATA_LEN ==> r is Ok && r->Ok_0.id == id
                && r->Ok_0.data@ == data@,
    {
        if id > MAX_STANDARD_ID {
            return Err(FrameError::InvalidId);
        }
        if data.len() > MAX_DATA_LEN {
            return Err(FrameError::InvalidDataLength);
        }
        Ok(CanFrame { id, data: slice_to_vec(data) })
    }
}

/// A vector holding the bytes of `data`, in order.
pub fn slice_to_vec(data: &[u8]) -> (r: Vec<u8>)
    ensures
        r@ == data@,
{
    let mut v: Vec<u8> = Vec::new();
    let mut i: usize = 0;
    while i < data.len()
        invariant
            i <= data@.len(),
            v@ == data@.subrange(0, i as int),
        decreases data@.len() - i,
    {
        v.push(data[i]);
        i = i + 1;
    }
    v
}

} // verus!
