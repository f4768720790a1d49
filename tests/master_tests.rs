use fieldbus_gateway::master::{
    Action, Encoder, EncoderConfig, Error, LinkEvent, ModbusSlaves, SlaveNumber,
};
use rmodbus::server::storage::ModbusStorage;
use rmodbus::server::ModbusFrame;
use embassy_stm32::usart::Error as UartFault;
use rmodbus::{ErrorKind, ModbusProto};

/// The reply that a slave holding `holdings` gives to `request`.
fn slave_reply(unit: u8, holdings: &[u16], request: &[u8]) -> Vec<u8> {
    let mut storage: ModbusStorage<1, 1, 1, 400> = ModbusStorage::new();
    for (i, v) in holdings.iter().enumerate() {
        storage.holdings[i] = *v;
    }
    let mut response: Vec<u8> = Vec::new();
    let mut frame = ModbusFrame::new(unit, request, ModbusProto::Rtu, &mut response);
    frame.parse().unwrap();
    if frame.processing_required {
        if frame.readonly {
            frame.process_read(&storage).unwrap();
        } else {
            frame.process_write(&mut storage).unwrap();
        }
    }
    assert!(frame.response_required);
    frame.finalize_response().unwrap();
    response
}

fn wanted(zero_point: u16, shaft_diameter: u16, node_id: u16) -> EncoderConfig {
    EncoderConfig { zero_point, shaft_diameter, node_id }
}

#[test]
fn poll_request_reads_seven_registers() {
    let mut e = Encoder::new(0x21, SlaveNumber::Slave0);
    let req = e.begin(wanted(0, 0, 0x21));
    assert_eq!(req.len(), 8);
    assert_eq!(&req[..6], &[0x21, 0x03, 0x00, 0x00, 0x00, 0x07]);
}

#[test]
fn poll_without_differences_returns_measurements() {
    let mut e = Encoder::new(1, SlaveNumber::Slave0);
    let regs = [100, 5, 7, 20, 30, 40, 50];
    let req = e.begin(wanted(20, 30, 1));
    let reply = slave_reply(1, &regs, &req);
    match e.step(LinkEvent::Reply(reply)) {
        Action::Done(r) => assert_eq!(r, Ok([100, 5, 7, 40, 50])),
        Action::Send(_) => panic!("no write expected"),
    }
}

#[test]
fn zero_point_difference_takes_one_write() {
    let mut e = Encoder::new(1, SlaveNumber::Slave0);
    let regs = [1, 2, 3, 10, 30, 6, 7];
    let req = e.begin(wanted(20, 30, 1));
    let reply = slave_reply(1, &regs, &req);
    let write = match e.step(LinkEvent::Reply(reply)) {
        Action::Send(f) => f,
        Action::Done(r) => panic!("write expected, got {:?}", r),
    };
    assert_eq!(&write[..9], &[1, 0x10, 0x00, 0x03, 0x00, 0x01, 0x02, 0x00, 20]);
    let ack = slave_reply(1, &regs, &write);
    match e.step(LinkEvent::Reply(ack)) {
        Action::Done(r) => assert_eq!(r, Ok([1, 2, 3, 6, 7])),
        Action::Send(_) => panic!("only one write expected"),
    }
}

#[test]
fn writes_use_slave_offset_and_node_id_last() {
    let mut e = Encoder::new(1, SlaveNumber::Slave2);
    let regs = [0, 0, 0, 20, 31, 0, 0];
    let req = e.begin(wanted(20, 30, 9));
    let reply = slave_reply(1, &regs, &req);
    let first = match e.step(LinkEvent::Reply(reply)) {
        Action::Send(f) => f,
        Action::Done(r) => panic!("write expected, got {:?}", r),
    };
    assert_eq!(&first[..9], &[1, 0x10, 0x00, 24, 0x00, 0x01, 0x02, 0x00, 30]);
    let second = match e.step(LinkEvent::Reply(vec![0; 8])) {
        Action::Send(f) => f,
        Action::Done(r) => panic!("write expected, got {:?}", r),
    };
    assert_eq!(&second[..9], &[1, 0x10, 0x01, 0x0E, 0x00, 0x01, 0x02, 0x00, 9]);
    match e.step(LinkEvent::Reply(vec![0; 8])) {
        Action::Done(r) => assert_eq!(r, Ok([0, 0, 0, 0, 0])),
        Action::Send(_) => panic!("no more writes expected"),
    }
    assert_eq!(e.node_id(), 9);
}

#[test]
fn timeout_ends_the_cycle() {
    let mut e = Encoder::new(1, SlaveNumber::Slave0);
    e.begin(wanted(0, 0, 1));
    match e.step(LinkEvent::TimedOut) {
        Action::Done(r) => assert_eq!(r, Err(Error::Timeout)),
        Action::Send(_) => panic!("cycle must end"),
    }
}

#[test]
fn timeout_during_write_ends_the_cycle() {
    let mut e = Encoder::new(1, SlaveNumber::Slave0);
    let regs = [0, 0, 0, 1, 0, 0, 0];
    let req = e.begin(wanted(0, 0, 1));
    let reply = slave_reply(1, &regs, &req);
    assert!(matches!(e.step(LinkEvent::Reply(reply)), Action::Send(_)));
    match e.step(LinkEvent::TimedOut) {
        Action::Done(r) => assert_eq!(r, Err(Error::Timeout)),
        Action::Send(_) => panic!("cycle must end"),
    }
}

#[test]
fn link_failure_ends_the_cycle() {
    let mut e = Encoder::new(1, SlaveNumber::Slave0);
    e.begin(wanted(0, 0, 1));
    match e.step(LinkEvent::Failed(UartFault::Noise)) {
        Action::Done(r) => assert_eq!(r, Err(Error::UartError(UartFault::Noise))),
        Action::Send(_) => panic!("cycle must end"),
    }
}

#[test]
fn garbage_reply_is_a_parse_error() {
    let five = vec![1, 3, 0, 0, 0];
    let mut e = Encoder::new(1, SlaveNumber::Slave0);
    e.begin(wanted(0, 0, 1));
    match e.step(LinkEvent::Reply(five)) {
        Action::Done(r) => assert_eq!(r, Err(Error::ParseError(ErrorKind::FrameBroken))),
        Action::Send(_) => panic!("cycle must end"),
    }
    for bad in [vec![], vec![1, 3, 0, 0, 0, 0], vec![1, 3, 14, 0, 0, 0, 0, 0, 0]] {
        let mut e = Encoder::new(1, SlaveNumber::Slave0);
        e.begin(wanted(0, 0, 1));
        match e.step(LinkEvent::Reply(bad)) {
            Action::Done(r) => assert!(matches!(r, Err(Error::ParseError(_)))),
            Action::Send(_) => panic!("cycle must end"),
        }
    }
}

#[test]
fn reply_from_other_unit_is_a_parse_error() {
    let mut e = Encoder::new(1, SlaveNumber::Slave0);
    e.begin(wanted(0, 0, 1));
    let other = Encoder::new(2, SlaveNumber::Slave0).begin(wanted(0, 0, 2));
    let reply = slave_reply(2, &[0; 7], &other);
    match e.step(LinkEvent::Reply(reply)) {
        Action::Done(r) => assert_eq!(r, Err(Error::ParseError(ErrorKind::FrameBroken))),
        Action::Send(_) => panic!("cycle must end"),
    }
}

#[test]
fn slave_numbers_and_pairs() {
    for n in 0..8u8 {
        assert_eq!(u8::from(SlaveNumber::from(n)), n);
    }
    assert_eq!(SlaveNumber::from(8), SlaveNumber::Slave0);
    let p = ModbusSlaves::from(0x0002_0001u32);
    assert_eq!(p, ModbusSlaves(1, 2));
    assert_eq!(u32::from(p), 0x0002_0001);
}

#[test]
fn single_register_exchanges() {
    let mut e = Encoder::new(3, SlaveNumber::Slave1);
    let req = e.zero_point_request();
    assert_eq!(&req[..6], &[3, 0x03, 0x00, 0x03, 0x00, 0x01]);
    let mut regs = [0u16; 400];
    regs[3] = 77;
    let reply = slave_reply(3, &regs, &req);
    assert_eq!(e.read_register_reply(LinkEvent::Reply(reply)), Ok(77));
    assert_eq!(e.read_register_reply(LinkEvent::TimedOut), Err(Error::Timeout));
    assert!(matches!(e.read_register_reply(LinkEvent::Reply(vec![3, 3])), Err(Error::ParseError(_))));
    regs[250] = 3;
    let reply = slave_reply(3, &regs, &e.node_id_request());
    assert_eq!(e.read_register_reply(LinkEvent::Reply(reply)), Ok(3));
    let w = e.set_shaft_diameter_request(12);
    assert_eq!(&w[..9], &[3, 0x10, 0x00, 14, 0x00, 0x01, 0x02, 0x00, 12]);
    assert_eq!(e.write_reply(LinkEvent::Reply(vec![])), Ok(()));
    assert_eq!(e.write_reply(LinkEvent::Failed(UartFault::Framing)), Err(Error::UartError(UartFault::Framing)));
    let w = e.set_node_id_request(4);
    assert_eq!(&w[..4], &[3, 0x10, 0x01, 0x04]);
    let w = e.set_zero_point_request(5);
    assert_eq!(&w[..4], &[3, 0x10, 0x00, 13]);
    assert_eq!(e.node_id_written(4, LinkEvent::TimedOut), Err(Error::Timeout));
    assert_eq!(e.node_id(), 3);
    assert_eq!(e.node_id_written(4, LinkEvent::Reply(vec![])), Ok(()));
    assert_eq!(e.node_id(), 4);
    assert_eq!(e.shaft_diameter_request()[0], 4);
}
