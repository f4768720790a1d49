use fieldbus_gateway::frame::CanFrame;
use fieldbus_gateway::gateway::CanServer;
use fieldbus_gateway::sdo::{
    check_header_data, create_sdo_abort_response, read_u16, read_u32, write_u16, write_u32, Error, SdoAbortCode, SdoCmd, SdoResponse,
    SubIndex,
};
use fieldbus_gateway::store::RegisterStore;

type Store = RegisterStore<4, 4, 8, 8>;

fn sdo(store: &mut Store, data: &[u8]) -> CanFrame {
    CanServer::new(5).process_sdo(data, store)
}

#[test]
fn command_bytes_map_both_ways() {
    let pairs = [
        (0x40u8, SdoCmd::ReadAny),
        (0x4F, SdoCmd::Read1B),
        (0x4B, SdoCmd::Read2b),
        (0x43, SdoCmd::Read4b),
        (0x2F, SdoCmd::Write1B),
        (0x2B, SdoCmd::Write2b),
        (0x23, SdoCmd::Write4b),
    ];
    for (b, c) in pairs {
        assert_eq!(SdoCmd::from(b), c);
        assert_eq!(u8::from(c), b);
    }
    assert_eq!(SdoCmd::from(0x00), SdoCmd::Unknown);
    assert_eq!(u8::from(SdoCmd::Unknown), 0xff);
}

#[test]
fn response_bytes_map_both_ways() {
    let pairs = [
        (0x4Fu8, SdoResponse::Read1B),
        (0x4B, SdoResponse::Read2B),
        (0x43, SdoResponse::Read4B),
        (0x60, SdoResponse::WriteSuccess),
        (0x80, SdoResponse::Error),
    ];
    for (b, r) in pairs {
        assert_eq!(SdoResponse::from(b), r);
        assert_eq!(u8::from(r), b);
    }
    assert_eq!(SdoResponse::from(0x12), SdoResponse::Unknown);
}

#[test]
fn abort_codes_map_both_ways() {
    let pairs = [
        (1u32, SdoAbortCode::InvalidCommand),
        (2, SdoAbortCode::InvalidQuery),
        (3, SdoAbortCode::InvalidSubindex),
        (4, SdoAbortCode::ReadError),
        (5, SdoAbortCode::InvalidData),
        (0xff, SdoAbortCode::NotImplemented),
    ];
    for (v, c) in pairs {
        assert_eq!(SdoAbortCode::from(v), c);
        assert_eq!(u32::from(c), v);
    }
    assert_eq!(SdoAbortCode::from(0x0601_0000), SdoAbortCode::Unknown(0x0601_0000));
    assert_eq!(u32::from(SdoAbortCode::Unknown(77)), 77);
}

#[test]
fn sub_index_bytes() {
    assert_eq!(SubIndex::from(0), SubIndex::Coil);
    assert_eq!(SubIndex::from(1), SubIndex::Discrete);
    assert_eq!(SubIndex::from(2), SubIndex::Holding);
    assert_eq!(SubIndex::from(3), SubIndex::Input);
    assert_eq!(SubIndex::from(9), SubIndex::Unknown(9));
}

#[test]
fn header_needs_four_bytes() {
    assert_eq!(check_header_data(&[0x40, 0, 1]), Err(Error::NotEnoughData));
    assert_eq!(check_header_data(&[0x40, 0, 1, 2]), Ok(()));
}

#[test]
fn read2_holding_answers_with_read4_code() {
    let mut s = Store::new();
    s.set_holding(3, 0xABCD).unwrap();
    let f = sdo(&mut s, &[0x4B, 0x00, 0x03, 0x02]);
    assert_eq!(f.id, 0x585);
    assert_eq!(f.data, vec![0x43, 0x00, 0x03, 0x02, 0xAB, 0xCD]);
}

#[test]
fn read4_input_is_big_endian_high_register_first() {
    let mut s = Store::new();
    s.set_inputs_u32(4, 0x0102_0304).unwrap();
    let f = sdo(&mut s, &[0x43, 0x00, 0x04, 0x03]);
    assert_eq!(f.data, vec![0x43, 0x00, 0x04, 0x03, 0x01, 0x02, 0x03, 0x04]);
}

#[test]
fn read_past_end_aborts_with_read_error() {
    let mut s = Store::new();
    let f = sdo(&mut s, &[0x4B, 0x00, 0x08, 0x02]);
    assert_eq!(f.id, 0x585);
    assert_eq!(f.data, vec![0x80, 0x00, 0x08, 0x02, 0, 0, 0, 4]);
    let f = sdo(&mut s, &[0x43, 0x00, 0x07, 0x03]);
    assert_eq!(f.data, vec![0x80, 0x00, 0x07, 0x03, 0, 0, 0, 4]);
    let f = sdo(&mut s, &[0x43, 0xFF, 0xFF, 0x02, 1, 2, 3, 4]);
    assert_eq!(f.data, vec![0x80, 0xFF, 0xFF, 0x02, 0, 0, 0, 4]);
}

#[test]
fn short_request_aborts_with_invalid_query() {
    let mut s = Store::new();
    for data in [&[][..], &[0x4B][..], &[0x2B, 0, 1][..], &[0x99, 0][..]] {
        let f = sdo(&mut s, data);
        assert_eq!(f.id, 0x585);
        assert_eq!(f.data, vec![0x80, 0, 0, 0, 0, 0, 0, 2]);
    }
    let f = create_sdo_abort_response(&[0x40], 7, SdoAbortCode::ReadError);
    assert_eq!(f.id, 0x587);
    assert_eq!(f.data, vec![0x80, 0, 0, 0, 0, 0, 0, 2]);
}

#[test]
fn unknown_command_aborts_with_invalid_command() {
    let mut s = Store::new();
    let f = sdo(&mut s, &[0x11, 0x00, 0x01, 0x02]);
    assert_eq!(f.data, vec![0x80, 0x00, 0x01, 0x02, 0, 0, 0, 1]);
}

#[test]
fn read_any_is_an_invalid_query() {
    let mut s = Store::new();
    let f = sdo(&mut s, &[0x40, 0x00, 0x01, 0x02]);
    assert_eq!(f.data, vec![0x80, 0x00, 0x01, 0x02, 0, 0, 0, 2]);
}

#[test]
fn one_byte_commands_are_not_implemented() {
    let mut s = Store::new();
    let f = sdo(&mut s, &[0x4F, 0x00, 0x01, 0x02]);
    assert_eq!(f.data, vec![0x80, 0x00, 0x01, 0x02, 0, 0, 0, 0xFF]);
    let f = sdo(&mut s, &[0x2F, 0x00, 0x01, 0x02, 9, 0, 0, 0]);
    assert_eq!(f.data, vec![0x80, 0x00, 0x01, 0x02, 0, 0, 0, 0xFF]);
    assert_eq!(s.get_holding(1), Ok(0));
}

#[test]
fn bank_selection_errors() {
    let mut s = Store::new();
    let f = sdo(&mut s, &[0x4B, 0x00, 0x01, 0x07]);
    assert_eq!(f.data, vec![0x80, 0x00, 0x01, 0x07, 0, 0, 0, 3]);
    let f = sdo(&mut s, &[0x4B, 0x00, 0x01, 0x00]);
    assert_eq!(f.data, vec![0x80, 0x00, 0x01, 0x00, 0, 0, 0, 0xFF]);
    let f = sdo(&mut s, &[0x2B, 0x00, 0x01, 0x03, 1, 2]);
    assert_eq!(f.data, vec![0x80, 0x00, 0x01, 0x03, 0, 0, 0, 3]);
    assert_eq!(s.get_input(1), Ok(0));
}

#[test]
fn write_without_payload_is_invalid_data() {
    let mut s = Store::new();
    let f = sdo(&mut s, &[0x2B, 0x00, 0x01, 0x02, 1]);
    assert_eq!(f.data, vec![0x80, 0x00, 0x01, 0x02, 0, 0, 0, 5]);
    let f = sdo(&mut s, &[0x23, 0x00, 0x01, 0x02, 1, 2, 3]);
    assert_eq!(f.data, vec![0x80, 0x00, 0x01, 0x02, 0, 0, 0, 5]);
    assert_eq!(s.get_holding(1), Ok(0));
}

#[test]
fn write_past_end_aborts_and_changes_nothing() {
    let mut s = Store::new();
    let f = sdo(&mut s, &[0x23, 0x00, 0x07, 0x02, 1, 2, 3, 4]);
    assert_eq!(f.data, vec![0x80, 0x00, 0x07, 0x02, 0, 0, 0, 4]);
    assert_eq!(s.get_holding(7), Ok(0));
}

#[test]
fn write2_then_read2_returns_value() {
    let mut s = Store::new();
    let f = sdo(&mut s, &[0x2B, 0x00, 0x02, 0x02, 0x12, 0x34]);
    assert_eq!(f.data, vec![0x60, 0x00, 0x02, 0x02, 0x12, 0x34]);
    assert_eq!(s.get_holding(2), Ok(0x1234));
    let f = sdo(&mut s, &[0x4B, 0x00, 0x02, 0x02]);
    assert_eq!(f.data, vec![0x43, 0x00, 0x02, 0x02, 0x12, 0x34]);
}

#[test]
fn write4_then_read4_returns_value() {
    let mut s = Store::new();
    let f = sdo(&mut s, &[0x23, 0x00, 0x05, 0x02, 0xDE, 0xAD, 0xBE, 0xEF]);
    assert_eq!(f.data, vec![0x60, 0x00, 0x05, 0x02, 0xDE, 0xAD, 0xBE, 0xEF]);
    assert_eq!(s.get_holdings_u32(5), Ok(0xDEAD_BEEF));
    let f = sdo(&mut s, &[0x43, 0x00, 0x05, 0x02]);
    assert_eq!(f.data, vec![0x43, 0x00, 0x05, 0x02, 0xDE, 0xAD, 0xBE, 0xEF]);
}

#[test]
fn public_reads_and_writes() {
    let mut s = Store::new();
    assert_eq!(write_u16(&[0x2B, 0, 1, 2, 0xAB, 0xCD], &mut s), Ok(0xABCD));
    assert_eq!(read_u16(&[0x4B, 0, 1, 2], &s), Ok(0xABCD));
    assert_eq!(write_u32(&[0x23, 0, 4, 2, 1, 2, 3, 4], &mut s), Ok(0x0102_0304));
    assert_eq!(read_u16(&[0x4B, 0, 4, 2], &s), Ok(0x0102));
    assert_eq!(read_u16(&[0x4B, 0, 5, 2], &s), Ok(0x0304));
    assert_eq!(read_u32(&[0x43, 0, 4, 2], &s), Ok(0x0102_0304));
    assert_eq!(write_u16(&[0x2B, 0, 1, 3, 1, 2], &mut s), Err(SdoAbortCode::InvalidSubindex));
    assert_eq!(write_u32(&[0x23, 0, 1, 2, 1, 2], &mut s), Err(SdoAbortCode::InvalidData));
    assert_eq!(read_u32(&[0x43, 0, 7, 3], &s), Err(SdoAbortCode::ReadError));
    assert_eq!(read_u16(&[0x4B, 0, 0, 1], &s), Err(SdoAbortCode::NotImplemented));
}
