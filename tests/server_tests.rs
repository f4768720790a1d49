use fieldbus_gateway::server::{serve, Error};
use fieldbus_gateway::store::RegisterStore;
use rmodbus::client::ModbusRequest;
use rmodbus::{ErrorKind, ModbusProto};

type Store = RegisterStore<8, 8, 8, 8>;

fn request(unit: u8) -> ModbusRequest {
    ModbusRequest::new(unit, ModbusProto::Rtu)
}

#[test]
fn read_holdings_is_answered_from_the_bank() {
    let mut s = Store::new();
    s.set_holding(2, 0x1234).unwrap();
    s.set_holding(3, 0x5678).unwrap();
    let mut req = request(7);
    let mut frame = Vec::new();
    req.generate_get_holdings(2, 2, &mut frame).unwrap();
    let reply = serve(7, &frame, &mut s).unwrap().unwrap();
    let mut values: Vec<u16> = Vec::new();
    req.parse_u16(&reply, &mut values).unwrap();
    assert_eq!(values, vec![0x1234, 0x5678]);
    assert_eq!(s.get_holding(2), Ok(0x1234));
}

#[test]
fn read_inputs_is_answered() {
    let mut s = Store::new();
    s.set_input(0, 99).unwrap();
    let mut req = request(7);
    let mut frame = Vec::new();
    req.generate_get_inputs(0, 1, &mut frame).unwrap();
    let reply = serve(7, &frame, &mut s).unwrap().unwrap();
    let mut values: Vec<u16> = Vec::new();
    req.parse_u16(&reply, &mut values).unwrap();
    assert_eq!(values, vec![99]);
}

#[test]
fn write_holding_changes_the_bank_and_echoes() {
    let mut s = Store::new();
    let mut req = request(7);
    let mut frame = Vec::new();
    req.generate_set_holding(5, 0xBEEF, &mut frame).unwrap();
    let reply = serve(7, &frame, &mut s).unwrap().unwrap();
    assert_eq!(s.get_holding(5), Ok(0xBEEF));
    assert_eq!(reply, frame);
    req.parse_ok(&reply).unwrap();
}

#[test]
fn broadcast_write_changes_the_bank_without_reply() {
    let mut s = Store::new();
    let mut req = request(0);
    let mut frame = Vec::new();
    req.generate_set_holdings_bulk(1, &[10, 20], &mut frame).unwrap();
    assert!(serve(7, &frame, &mut s).unwrap().is_none());
    assert_eq!(s.get_holding(1), Ok(10));
    assert_eq!(s.get_holding(2), Ok(20));
}

#[test]
fn other_unit_is_ignored() {
    let mut s = Store::new();
    let mut frame = Vec::new();
    request(9).generate_set_holding(1, 5, &mut frame).unwrap();
    assert!(serve(7, &frame, &mut s).unwrap().is_none());
    assert_eq!(s.get_holding(1), Ok(0));
}

#[test]
fn read_past_end_gets_an_exception_reply() {
    let mut s = Store::new();
    let mut req = request(7);
    let mut frame = Vec::new();
    req.generate_get_holdings(7, 2, &mut frame).unwrap();
    let reply = serve(7, &frame, &mut s).unwrap().unwrap();
    assert_eq!(&reply[..3], &[7, 0x83, 0x02]);
    assert_eq!(req.parse_ok(&reply), Err(ErrorKind::IllegalDataAddress));
}

#[test]
fn unknown_function_gets_an_exception_reply() {
    let mut s = Store::new();
    let reply = serve(7, &[7, 0x2B, 0, 0], &mut s).unwrap().unwrap();
    assert_eq!(&reply[..3], &[7, 0x2B + 0x80, 0x01]);
    let r = serve(7, &[7, 0x90, 0, 0], &mut s);
    assert!(matches!(r, Err(Error::ModbusProcess(ErrorKind::IllegalFunction))));
}

#[test]
fn broken_frames_are_errors_and_change_nothing() {
    let mut s = Store::new();
    let mut frame = Vec::new();
    request(7).generate_set_holding(1, 5, &mut frame).unwrap();
    let last = frame.len() - 1;
    frame[last] ^= 0xFF;
    let r = serve(7, &frame, &mut s);
    assert!(matches!(r, Err(Error::ModbusProcess(ErrorKind::FrameCRCError))));
    assert_eq!(s.get_holding(1), Ok(0));
    assert!(matches!(serve(7, &[], &mut s), Err(Error::ModbusProcess(_))));
    assert!(serve(7, &[0u8; 257], &mut s).unwrap().is_none());
}

#[test]
fn bulk_write_with_oversized_byte_count_is_broken() {
    let mut s = Store::new();
    for unit in [7u8, 0, 255] {
        for func in [0x0Fu8, 0x10] {
            let r = serve(7, &[unit, func, 0, 0, 0, 1, 250], &mut s);
            assert!(matches!(r, Err(Error::ModbusProcess(ErrorKind::FrameBroken))));
        }
    }
    let r = serve(7, &[9, 0x10, 0, 0, 0, 1, 250], &mut s);
    assert!(r.unwrap().is_none());
    assert_eq!(s.get_holding(0), Ok(0));
}

#[test]
fn single_write_past_end_changes_nothing() {
    let mut s = Store::new();
    let mut req = request(7);
    let mut frame = Vec::new();
    req.generate_set_holding(8, 1, &mut frame).unwrap();
    let reply = serve(7, &frame, &mut s).unwrap().unwrap();
    assert_eq!(&reply[..3], &[7, 0x86, 0x02]);
    for a in 0..8u16 {
        assert_eq!(s.get_holding(a), Ok(0));
    }
}
