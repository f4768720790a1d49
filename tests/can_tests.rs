use embassy_stm32::can::enums::BusError;
use fieldbus_gateway::frame::{CanFrame, CanId, FrameError};
use fieldbus_gateway::gateway::{CanServer, Error, Event};
use fieldbus_gateway::pdo::{cob_id, create_pdo_frame, RPDO, TPDO};
use fieldbus_gateway::store::RegisterStore;

type Store = RegisterStore<4, 4, 8, 8>;

#[test]
fn cob_id_spans_all_four_groups() {
    assert_eq!(cob_id(5, 0), 0x185);
    assert_eq!(cob_id(5, 1), 0x285);
    assert_eq!(cob_id(5, 2), 0x385);
    assert_eq!(cob_id(5, 3), 0x485);
    assert_eq!(cob_id(5, 4), 0x186);
    assert_eq!(cob_id(5, 7), 0x486);
    assert_eq!(cob_id(0x7F, 9), 0x7F + 2 + 0x180 + 0x100);
}

#[test]
fn pdo_frame_carries_payload() {
    let f = create_pdo_frame(5, 1, &[1, 2, 3]).unwrap();
    assert_eq!(f.id, 0x285);
    assert_eq!(f.data, vec![1, 2, 3]);
    assert_eq!(create_pdo_frame(5, 1, &[0; 9]).unwrap_err(), FrameError::InvalidDataLength);
}

#[test]
fn frame_limits() {
    assert_eq!(CanFrame::new_data(0x800, &[]).unwrap_err(), FrameError::InvalidId);
    assert_eq!(CanFrame::new_data(0x7FF, &[0; 9]).unwrap_err(), FrameError::InvalidDataLength);
    assert_eq!(CanFrame::new_data(0x7FF, &[7; 8]).unwrap().data, vec![7; 8]);
}

#[test]
fn tpdo_new_and_frame() {
    let t = TPDO::new(6, &[9, 8, 7, 6, 5]).unwrap();
    assert_eq!(t.number(), 6);
    let f = t.frame(0x10);
    assert_eq!(f.id, 0x10 + 1 + 0x180 + 0x200);
    assert_eq!(f.data, vec![9, 8, 7, 6, 5]);
    assert_eq!(TPDO::new(0, &[0; 9]).unwrap_err(), FrameError::InvalidDataLength);
    assert_eq!(TPDO::new(0, &[]).unwrap().frame(1).data, Vec::<u8>::new());
}

#[test]
fn gateway_routes_rpdos() {
    let srv = CanServer::new(5);
    let mut s = Store::new();
    let bytes = vec![1, 2, 3, 4, 5, 6, 7, 8];
    for (id, n) in [(0x205u16, 0), (0x305, 1), (0x405, 2), (0x505, 3)] {
        let step = srv.on_frame(CanId::Standard(id), &bytes, &mut s).unwrap();
        assert!(step.transmit.is_none());
        let got = match step.rpdo.unwrap() {
            RPDO::RPDO0(b) => (0, b),
            RPDO::RPDO1(b) => (1, b),
            RPDO::RPDO2(b) => (2, b),
            RPDO::RPDO3(b) => (3, b),
        };
        assert_eq!(got, (n, [1, 2, 3, 4, 5, 6, 7, 8]));
    }
}

#[test]
fn gateway_rejects_short_rpdo() {
    let srv = CanServer::new(5);
    let mut s = Store::new();
    let r = srv.on_frame(CanId::Standard(0x305), &[1, 2, 3], &mut s);
    assert!(matches!(r, Err(Error::IncorrectDataLength)));
}

#[test]
fn gateway_ignores_other_frames() {
    let srv = CanServer::new(5);
    let mut s = Store::new();
    let step = srv.on_frame(CanId::Standard(0x206), &[0; 8], &mut s).unwrap();
    assert!(step.transmit.is_none() && step.rpdo.is_none());
    let step = srv.on_frame(CanId::Extended(0x605), &[0x4B, 0, 0, 2], &mut s).unwrap();
    assert!(step.transmit.is_none() && step.rpdo.is_none());
}

#[test]
fn gateway_answers_sdo_on_response_id() {
    let srv = CanServer::new(5);
    let mut s = Store::new();
    let step = srv
        .update(Event::Received(CanId::Standard(0x605), vec![0x2B, 0, 1, 2, 0, 42]), &mut s)
        .unwrap();
    let f = step.transmit.unwrap();
    assert_eq!(f.id, 0x585);
    assert_eq!(f.data, vec![0x60, 0, 1, 2, 0, 42]);
    assert_eq!(s.get_holding(1), Ok(42));
    assert!(step.rpdo.is_none());
}

#[test]
fn gateway_keeps_running_after_bad_sdo() {
    let srv = CanServer::new(5);
    let mut s = Store::new();
    let step = srv.update(Event::Received(CanId::Standard(0x605), vec![0x4B]), &mut s).unwrap();
    assert_eq!(step.transmit.unwrap().data, vec![0x80, 0, 0, 0, 0, 0, 0, 2]);
}

#[test]
fn gateway_sends_queued_tpdo() {
    let srv = CanServer::new(5);
    let mut s = Store::new();
    let t = TPDO::new(4, &[0xAA, 0xBB]).unwrap();
    let step = srv.update(Event::Outbound(t), &mut s).unwrap();
    let f = step.transmit.unwrap();
    assert_eq!(f.id, 0x186);
    assert_eq!(f.data, vec![0xAA, 0xBB]);
}

#[test]
fn gateway_reports_bus_error() {
    let srv = CanServer::new(5);
    let mut s = Store::new();
    let r = srv.update(Event::ReceiveFailed(BusError::Crc), &mut s);
    assert!(matches!(r, Err(Error::BusError(BusError::Crc))));
}

#[test]
fn gateway_node_id_can_change() {
    let mut srv = CanServer::new(5);
    srv.set_node_id(9);
    assert_eq!(srv.node_id(), 9);
    let mut s = Store::new();
    let step = srv.on_frame(CanId::Standard(0x609), &[0x4B, 0, 0, 2], &mut s).unwrap();
    assert_eq!(step.transmit.unwrap().id, 0x589);
}

#[test]
fn interleaved_engines_never_see_torn_values() {
    let srv = CanServer::new(5);
    let mut s = Store::new();
    let written = [0x0000_0000u32, 0xFFFF_0000, 0x0000_FFFF, 0x1234_5678];
    for (n, v) in written.iter().enumerate() {
        if n % 2 == 0 {
            s.set_holdings_u32(2, *v).unwrap();
        } else {
            let b = v.to_be_bytes();
            let data = vec![0x23, 0x00, 0x02, 0x02, b[0], b[1], b[2], b[3]];
            srv.update(Event::Received(CanId::Standard(0x605), data), &mut s).unwrap();
        }
        let f = srv.process_sdo(&[0x43, 0x00, 0x02, 0x02], &mut s);
        assert_eq!(f.data[4..].to_vec(), v.to_be_bytes().to_vec());
        assert_eq!(s.get_holdings_u32(2), Ok(*v));
    }
}
