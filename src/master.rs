//! The Modbus RTU master side: polling one remote rotary-encoder slave and
//! bringing its configuration registers to the values wanted.
//!
//! One poll cycle is a short run of request/reply exchanges. The caller owns
//! the serial link and the timer: it sends the frame that [`Encoder::begin`]
//! or [`Encoder::step`] hands out, races the reply against its timeout, and
//! hands the outcome back to [`Encoder::step`] until a cycle result comes.

use rmodbus::client::ModbusRequest;
use rmodbus::consts::ModbusFunction;
use embassy_stm32::usart::Error as UartFault;
use rmodbus::{ErrorKind, ModbusProto};
use vstd::prelude::*;

verus! {

#[verifier::external_type_specification]
#[verifier::external_body]
pub struct ExUsartError(UartFault);

/// Holding registers of the encoder slave.
pub const ROTATION_ANGLE: u16 = 0;
pub const ROTATION_ANGLE_F: u16 = 1;
pub const CURRENT_COUNTER: u16 = 2;
pub const ZERO_POINT: u16 = 3;
pub const SHAFT_DIAMETER: u16 = 4;
pub const LINEAR_SPEED: u16 = 5;
pub const ROTATION_FRQ: u16 = 6;
pub const NODE_ID: u16 = 250;

/// Registers read by one poll, from `ROTATION_ANGLE` on.
pub const REGS_COUNT: u16 = 7;

/// Register numbers of one logical slave are this far from the next one's.
pub const SLAVE_STRIDE: u16 = 10;

/// The frame of an RTU "read holding registers" request.
pub uninterp spec fn read_holdings_frame(unit: u8, reg: u16, count: u16) -> Seq<u8>;

/// The frame of an RTU "write holding registers" request for one register.
pub uninterp spec fn write_holding_frame(unit: u8, reg: u16, value: u16) -> Seq<u8>;

/// The register values that an RTU reply to a read of `count` holding
/// registers from `unit` carries, or `None` when rmodbus rejects the reply.
pub uninterp spec fn holdings_reply(unit: u8, count: u16, reply: Seq<u8>) -> Option<Seq<u16>>;

/// Relies on `ModbusRequest::generate_get_holdings` (RTU): unit, function
/// `0x03`, register and count big-endian, then the CRC.
#[verifier::external_body]
fn read_holdings_request(unit: u8, reg: u16, count: u16) -> (r: Vec<u8>)
    ensures
        r@ == read_holdings_frame(unit, reg, count),
        r@.len() == 8,
        r@.subrange(0, 6) == seq![
            unit,
            0x03u8,
            (reg / 0x100) as u8,
            (reg % 0x100) as u8,
            (count / 0x100) as u8,
            (count % 0x100) as u8,
        ],
{
    let mut request: Vec<u8> = Vec::new();
    let _ = ModbusRequest::new(unit, ModbusProto::Rtu).generate_get_holdings(
        reg,
        count,
        &mut request,
    );
    request
}

/// Relies on `ModbusRequest::generate_set_holdings_bulk` (RTU) with one
/// value: unit, function `0x10`, register, count 1, byte count 2, the value
/// big-endian, then the CRC.
#[verifier::external_body]
fn write_holding_request(unit: u8, reg: u16, value: u16) -> (r: Vec<u8>)
    ensures
        r@ == write_holding_frame(unit, reg, value),
        r@.len() == 11,
        r@.subrange(0, 9) == seq![
            unit,
            0x10u8,
            (reg / 0x100) as u8,
            (reg % 0x100) as u8,
            0u8,
            1u8,
            2u8,
            (value / 0x100) as u8,
            (value % 0x100) as u8,
        ],
{
    let mut request: Vec<u8> = Vec::new();
    let _ = ModbusRequest::new(unit, ModbusProto::Rtu).generate_set_holdings_bulk(
        reg,
        &[value],
        &mut request,
    );
    request
}

/// Relies on `ModbusRequest::parse_u16` for a read of `count` holding
/// registers (RTU): the values, at most `count` of them, or an error. A
/// five-byte reply would make rmodbus index an empty payload, so it is left
/// out.
#[verifier::external_body]
fn parse_holdings_reply(unit: u8, count: u16, reply: &[u8]) -> (r: Result<Vec<u16>, ErrorKind>)
    requires
        reply@.len() != 5,
    ensures
        r is Ok <==> holdings_reply(unit, count, reply@) is Some,
        r is Ok ==> r->Ok_0@ == holdings_reply(unit, count, reply@)->Some_0,
        r is Ok ==> r->Ok_0@.len() <= count,
{
    let mut request = ModbusRequest::new(unit, ModbusProto::Rtu);
    request.func = ModbusFunction::GetHoldings;
    request.count = count;
    let mut values: Vec<u16> = Vec::new();
    request.parse_u16(reply, &mut values).map(|_| values)
}

/// Two slave addresses packed in one 32-bit value, the first in the low half.
#[derive(Debug, Clone, Copy, PartialEq, Eq, Structural)]
pub struct ModbusSlaves(pub u16, pub u16);

impl From<u32> for ModbusSlaves {
    fn from(value: u32) -> (r: ModbusSlaves)
        ensures
            r == ModbusSlaves((value % 0x10000) as u16, (value / 0x10000) as u16),
    {
        ModbusSlaves((value % 0x10000) as u16, (value / 0x10000) as u16)
    }
}

impl vstd::std_specs::convert::FromSpecImpl<u32> for ModbusSlaves {
    open spec fn obeys_from_spec() -> bool {
        true
    }

    open spec fn from_spec(v: u32) -> ModbusSlaves {
        ModbusSlaves((v % 0x10000) as u16, (v / 0x10000) as u16)
    }
}

impl From<ModbusSlaves> for u32 {
    fn from(value: ModbusSlaves) -> (r: u32)
        ensures
            r == value.0 as int + value.1 as int * 0x10000,
    {
        value.0 as u32 + value.1 as u32 * 0x10000
    }
}

impl vstd::std_specs::convert::FromSpecImpl<ModbusSlaves> for u32 {
    open spec fn obeys_from_spec() -> bool {
        true
    }

    open spec fn from_spec(v: ModbusSlaves) -> u32 {
        (v.0 as int + v.1 as int * 0x10000) as u32
    }
}

/// Which of up to eight logical slaves sharing one bus segment is meant.
#[derive(Debug, Clone, Copy, PartialEq, Eq, Structural)]
pub enum SlaveNumber {
    Slave0,
    Slave1,
    Slave2,
    Slave3,
    Slave4,
    Slave5,
    Slave6,
    Slave7,
}

pub open spec fn slave_number_value(s: SlaveNumber) -> u8 {
    match s {
        SlaveNumber::Slave0 => 0,
        SlaveNumber::Slave1 => 1,
        SlaveNumber::Slave2 => 2,
        SlaveNumber::Slave3 => 3,
        SlaveNumber::Slave4 => 4,
        SlaveNumber::Slave5 => 5,
        SlaveNumber::Slave6 => 6,
        SlaveNumber::Slave7 => 7,
    }
}

/// Numbers past seven fall back to the first slave.
pub open spec fn slave_number_of(value: u8) -> SlaveNumber {
    if value == 1 {
        SlaveNumber::Slave1
    } else if value == 2 {
        SlaveNumber::Slave2
    } else if value == 3 {
        SlaveNumber::Slave3
    } else if value == 4 {
        SlaveNumber::Slave4
    } else if value == 5 {
        SlaveNumber::Slave5
    } else if value == 6 {
        SlaveNumber::Slave6
    } else if value == 7 {
        SlaveNumber::Slave7
    } else {
        SlaveNumber::Slave0
    }
}

impl From<u8> for SlaveNumber {
    fn from(value: u8) -> (r: SlaveNumber)
        ensures
            r == slave_number_of(value),
    {
        match value {
            0 => SlaveNumber::Slave0,
            1 => SlaveNumber::Slave1,
            2 => SlaveNumber::Slave2,
            3 => SlaveNumber::Slave3,
            4 => SlaveNumber::Slave4,
            5 => SlaveNumber::Slave5,
            6 => SlaveNumber::Slave6,
            7 => SlaveNumber::Slave7,
            _ => SlaveNumber::Slave0,
        }
    }
}

impl vstd::std_specs::convert::FromSpecImpl<u8> for SlaveNumber {
    open spec fn obeys_from_spec() -> bool {
        true
    }

    open spec fn from_spec(v: u8) -> SlaveNumber {
        slave_number_of(v)
    }
}

impl From<SlaveNumber> for u8 {
    fn from(value: SlaveNumber) -> (r: u8)
        ensures
            r == slave_number_value(value),
    {
        match value {
            SlaveNumber::Slave0 => 0,
            SlaveNumber::Slave1 => 1,
            SlaveNumber::Slave2 => 2,
            SlaveNumber::Slave3 => 3,
            SlaveNumber::Slave4 => 4,
            SlaveNumber::Slave5 => 5,
            SlaveNumber::Slave6 => 6,
            SlaveNumber::Slave7 => 7,
        }
    }
}

impl vstd::std_specs::convert::FromSpecImpl<SlaveNumber> for u8 {
    open spec fn obeys_from_spec() -> bool {
        true
    }

    open spec fn from_spec(v: SlaveNumber) -> u8 {
        slave_number_value(v)
    }
}

#[derive(Debug, Clone, Copy, PartialEq, Eq)]
pub enum Error {
    /// No reply came within the timeout.
    Timeout,
    /// The serial link failed.
    UartError(UartFault),
    /// The reply was not a well-formed answer to the request.
    ParseError(ErrorKind),
}

/// `r` failed on a reply that was not a well-formed answer.
pub open spec fn parse_failed<T>(r: Result<T, Error>) -> bool {
    r matches Err(Error::ParseError(_))
}

/// How one exchange on the serial link ended.
#[derive(Debug)]
pub enum LinkEvent {
    /// The line went idle after these bytes.
    Reply(Vec<u8>),
    /// The timeout elapsed first.
    TimedOut,
    /// Reading or writing failed.
    Failed(UartFault),
}

/// The configuration that the slave is brought to.
#[derive(Debug, Clone, Copy, PartialEq, Eq, Structural)]
pub struct EncoderConfig {
    pub zero_point: u16,
    pub shaft_diameter: u16,
    pub node_id: u16,
}

/// One configuration register to write.
#[derive(Debug, Clone, Copy, PartialEq, Eq, Structural)]
pub struct ConfigWrite {
    pub reg: u16,
    pub value: u16,
}

/// What the caller does next.
#[derive(Debug)]
pub enum Action {
    /// Send this frame and report how the exchange ended.
    Send(Vec<u8>),
    /// The cycle is over: the five measurements, or why it failed.
    Done(Result<[u16; 5], Error>),
}

/// Where a cycle stands.
#[derive(Debug, Clone, Copy, PartialEq, Eq, Structural)]
pub enum Phase {
    Idle,
    Polling,
    Writing,
}

/// Register `reg` of logical slave `slave`.
pub open spec fn slave_reg(reg: u16, slave: SlaveNumber) -> u16 {
    (reg + slave_number_value(slave) * SLAVE_STRIDE) as u16
}

/// The measurements among the polled registers: rotation angle, its
/// fractional part, the counter, the linear speed and the rotation frequency.
pub open spec fn telemetry_of(values: Seq<u16>) -> Seq<u16> {
    seq![values[0], values[1], values[2], values[5], values[6]]
}

/// The writes that bring the slave to `wanted`, in order: zero point, shaft
/// diameter, then the node id, each only where it differs from what the
/// slave reported (the node id being the one the slave answered to).
pub open spec fn config_writes(
    values: Seq<u16>,
    node_id: u16,
    slave: SlaveNumber,
    wanted: EncoderConfig,
) -> Seq<ConfigWrite> {
    let zp = if values[3] != wanted.zero_point {
        seq![ConfigWrite { reg: slave_reg(ZERO_POINT, slave), value: wanted.zero_point }]
    } else {
        Seq::empty()
    };
    let sd = if values[4] != wanted.shaft_diameter {
        seq![ConfigWrite { reg: slave_reg(SHAFT_DIAMETER, slave), value: wanted.shaft_diameter }]
    } else {
        Seq::empty()
    };
    let id = if node_id != wanted.node_id {
        seq![ConfigWrite { reg: slave_reg(NODE_ID, slave), value: wanted.node_id }]
    } else {
        Seq::empty()
    };
    zp + sd + id
}

/// The unit address that a node id is sent as.
pub open spec fn unit_of(node_id: u16) -> u8 {
    (node_id % 0x100) as u8
}

/// The values of a poll reply, when rmodbus takes it and it carries all the
/// polled registers.
pub open spec fn poll_values(node_id: u16, reply: Seq<u8>) -> Option<Seq<u16>> {
    if reply.len() == 5 {
        None
    } else {
        match holdings_reply(unit_of(node_id), REGS_COUNT, reply) {
            Some(v) => if v.len() == REGS_COUNT {
                Some(v)
            } else {
                None
            },
            None => None,
        }
    }
}

/// The error that a failed exchange ends a cycle with.
pub open spec fn link_error(event: LinkEvent) -> Error {
    match event {
        LinkEvent::Failed(e) => Error::UartError(e),
        _ => Error::Timeout,
    }
}

/// When the slave reports every configuration value as wanted but the zero
/// point, the cycle makes exactly one write: the zero point register of its
/// logical slave.
pub proof fn lemma_only_zero_point_differs(
    values: Seq<u16>,
    node_id: u16,
    slave: SlaveNumber,
    wanted: EncoderConfig,
)
    requires
        values.len() == REGS_COUNT,
        values[ZERO_POINT as int] != wanted.zero_point,
        values[SHAFT_DIAMETER as int] == wanted.shaft_diameter,
        node_id == wanted.node_id,
    ensures
        config_writes(values, node_id, slave, wanted) == seq![
            ConfigWrite { reg: slave_reg(ZERO_POINT, slave), value: wanted.zero_point },
        ],
{
    assert(config_writes(values, node_id, slave, wanted) =~= seq![
        ConfigWrite { reg: slave_reg(ZERO_POINT, slave), value: wanted.zero_point },
    ]);
}

/// The poller of one encoder slave.
pub struct Encoder {
    node_id: u16,
    slave: SlaveNumber,
    phase: Phase,
    wanted: EncoderConfig,
    telemetry: [u16; 5],
    writes: Vec<ConfigWrite>,
    next: usize,
}

impl Encoder {
    /// The node id that requests are addressed to.
    pub closed spec fn node(&self) -> u16 {
        self.node_id
    }

    pub closed spec fn slave_spec(&self) -> SlaveNumber {
        self.slave
    }

    pub closed spec fn phase_spec(&self) -> Phase {
        self.phase
    }

    /// The configuration wanted in the running cycle.
    pub closed spec fn wanted_spec(&self) -> EncoderConfig {
        self.wanted
    }

    /// The measurements of the running cycle's poll.
    pub closed spec fn telemetry_spec(&self) -> Seq<u16> {
        self.telemetry@
    }

    /// The configuration writes of the running cycle still to be answered,
    /// the first of them being the one in flight.
    pub closed spec fn pending(&self) -> Seq<ConfigWrite> {
        self.writes@.subrange(self.next as int, self.writes@.len() as int)
    }

    pub closed spec fn wf(&self) -> bool {
        &&& self.next <= self.writes@.len()
        &&& self.phase == Phase::Writing ==> self.next < self.writes@.len()
    }

    /// How many more exchanges the running cycle can take at most.
    pub open spec fn exchanges_left(&self) -> nat {
        match self.phase_spec() {
            Phase::Idle => 0,
            Phase::Polling => 4,
            Phase::Writing => self.pending().len(),
        }
    }

    /// A poller of the slave with node id `node_id`, the logical slave
    /// `slave` on its bus segment.
    pub fn new(node_id: u16, slave: SlaveNumber) -> (r: Self)
        ensures
            r.wf(),
            r.node() == node_id,
            r.slave_spec() == slave,
            r.phase_spec() == Phase::Idle,
    {
        Encoder {
            node_id,
            slave,
            phase: Phase::Idle,
            wanted: EncoderConfig { zero_point: 0, shaft_diameter: 0, node_id },
            telemetry: [0u16; 5],
            writes: Vec::new(),
            next: 0,
        }
    }

    pub fn node_id(&self) -> (r: u16)
        ensures
            r == self.node(),
    {
        self.node_id
    }

    /// Takes the outcome of the exchange that set the slave's node id to
    /// `node_id` (the frame of `set_node_id_request`): when the slave
    /// answered, the poller addresses it by the new id from then on;
    /// otherwise it keeps the old id and the exchange's error comes back.
    pub fn node_id_written(&mut self, node_id: u16, event: LinkEvent) -> (r: Result<(), Error>)
        ensures
            event is Reply ==> r is Ok && final(self).node() == node_id,
            !(event is Reply) ==> r == Err::<(), Error>(link_error(event)) && final(self).node()
                == old(self).node(),
            final(self).slave_spec() == old(self).slave_spec(),
            final(self).phase_spec() == old(self).phase_spec(),
            final(self).pending() == old(self).pending(),
            final(self).wanted_spec() == old(self).wanted_spec(),
            final(self).telemetry_spec() == old(self).telemetry_spec(),
            final(self).wf() == old(self).wf(),
    {
        match event {
            LinkEvent::Reply(_) => {
                self.node_id = node_id;
                Ok(())
            },
            LinkEvent::TimedOut => Err(Error::Timeout),
            LinkEvent::Failed(e) => Err(Error::UartError(e)),
        }
    }

    /// The frame that reads holding register `reg` of the slave.
    pub fn read_register_request(&self, reg: u16) -> (r: Vec<u8>)
        ensures
            r@ == read_holdings_frame(unit_of(self.node()), reg, 1),
    {
        read_holdings_request((self.node_id % 0x100) as u8, reg, 1)
    }

    /// The frame that reads the zero point.
    pub fn zero_point_request(&self) -> (r: Vec<u8>)
        ensures
            r@ == read_holdings_frame(unit_of(self.node()), ZERO_POINT, 1),
    {
        self.read_register_request(ZERO_POINT)
    }

    /// The frame that reads the shaft diameter.
    pub fn shaft_diameter_request(&self) -> (r: Vec<u8>)
        ensures
            r@ == read_holdings_frame(unit_of(self.node()), SHAFT_DIAMETER, 1),
    {
        self.read_register_request(SHAFT_DIAMETER)
    }

    /// The frame that reads the node id the slave keeps.
    pub fn node_id_request(&self) -> (r: Vec<u8>)
        ensures
            r@ == read_holdings_frame(unit_of(self.node()), NODE_ID, 1),
    {
        self.read_register_request(NODE_ID)
    }

    /// The value that the reply to a one-register read carries.
    pub fn read_register_reply(&self, event: LinkEvent) -> (r: Result<u16, Error>)
        ensures
            !(event is Reply) ==> r == Err::<u16, Error>(link_error(event)),
            event is Reply ==> {
                let reply = event->Reply_0@;
                if reply.len() != 5 && holdings_reply(unit_of(self.node()), 1, reply) is Some
                    && holdings_reply(unit_of(self.node()), 1, reply)->Some_0.len() == 1 {
                    r == Ok::<u16, Error>(holdings_reply(unit_of(self.node()), 1, reply)->Some_0[0])
                } else {
                    parse_failed(r)
                }
            },
    {
        let reply = match event {
            LinkEvent::Reply(bytes) => bytes,
            LinkEvent::TimedOut => return Err(Error::Timeout),
            LinkEvent::Failed(e) => return Err(Error::UartError(e)),
        };
        if reply.len() == 5 {
            return Err(Error::ParseError(ErrorKind::FrameBroken));
        }
        match parse_holdings_reply((self.node_id % 0x100) as u8, 1, reply.as_slice()) {
            Ok(values) => if values.len() == 1 {
                Ok(values[0])
            } else {
                Err(Error::ParseError(ErrorKind::FrameBroken))
            },
            Err(e) => Err(Error::ParseError(e)),
        }
    }

    /// The frame that writes configuration register `reg` of this logical
    /// slave.
    fn write_register_request(&self, reg: u16, value: u16) -> (r: Vec<u8>)
        requires
            reg <= NODE_ID,
        ensures
            r@ == write_holding_frame(unit_of(self.node()), slave_reg(reg, self.slave_spec()), value),
    {
        let offset: u16 = u8::from(self.slave) as u16 * SLAVE_STRIDE;
        write_holding_request((self.node_id % 0x100) as u8, reg + offset, value)
    }

    /// The frame that sets the zero point.
    pub fn set_zero_point_request(&self, zero_point: u16) -> (r: Vec<u8>)
        ensures
            r@ == write_holding_frame(
                unit_of(self.node()),
                slave_reg(ZERO_POINT, self.slave_spec()),
                zero_point,
            ),
    {
        self.write_register_request(ZERO_POINT, zero_point)
    }

    /// The frame that sets the shaft diameter.
    pub fn set_shaft_diameter_request(&self, shaft_diameter: u16) -> (r: Vec<u8>)
        ensures
            r@ == write_holding_frame(
                unit_of(self.node()),
                slave_reg(SHAFT_DIAMETER, self.slave_spec()),
                shaft_diameter,
            ),
    {
        self.write_register_request(SHAFT_DIAMETER, shaft_diameter)
    }

    /// The frame that gives the slave a new node id.
    pub fn set_node_id_request(&self, node_id: u16) -> (r: Vec<u8>)
        ensures
            r@ == write_holding_frame(
                unit_of(self.node()),
                slave_reg(NODE_ID, self.slave_spec()),
                node_id,
            ),
    {
        self.write_register_request(NODE_ID, node_id)
    }

    /// Whether a write exchange went through: any reply counts.
    pub fn write_reply(&self, event: LinkEvent) -> (r: Result<(), Error>)
        ensures
            event is Reply ==> r is Ok,
            !(event is Reply) ==> r == Err::<(), Error>(link_error(event)),
    {
        match event {
            LinkEvent::Reply(_) => Ok(()),
            LinkEvent::TimedOut => Err(Error::Timeout),
            LinkEvent::Failed(e) => Err(Error::UartError(e)),
        }
    }

    /// Starts a cycle that polls the slave and brings it to `wanted`: the
    /// frame returned reads the seven measurement and configuration
    /// registers.
    pub fn begin(&mut self, wanted: EncoderConfig) -> (r: Vec<u8>)
        requires
            old(self).wf(),
        ensures
            final(self).wf(),
            r@ == read_holdings_frame(unit_of(old(self).node()), ROTATION_ANGLE, REGS_COUNT),
            final(self).phase_spec() == Phase::Polling,
            final(self).wanted_spec() == wanted,
            final(self).node() == old(self).node(),
            final(self).slave_spec() == old(self).slave_spec(),
    {
        self.phase = Phase::Polling;
        self.wanted = wanted;
        self.writes = Vec::new();
        self.next = 0;
        read_holdings_request((self.node_id % 0x100) as u8, ROTATION_ANGLE, REGS_COUNT)
    }

    /// The frame that sends configuration write `w`.
    fn write_frame(&self, w: ConfigWrite) -> (r: Vec<u8>)
        ensures
            r@ == write_holding_frame(unit_of(self.node()), w.reg, w.value),
    {
        write_holding_request((self.node_id % 0x100) as u8, w.reg, w.value)
    }

    /// Ends the cycle with `result`.
    fn finish(&mut self, result: Result<[u16; 5], Error>) -> (r: Action)
        ensures
            r == Action::Done(result),
            final(self).phase_spec() == Phase::Idle,
            final(self).wanted_spec() == old(self).wanted_spec(),
            final(self).telemetry_spec() == old(self).telemetry_spec(),
            final(self).node() == old(self).node(),
            final(self).slave_spec() == old(self).slave_spec(),
            final(self).wf(),
    {
        self.phase = Phase::Idle;
        self.writes = Vec::new();
        self.next = 0;
        Action::Done(result)
    }

    /// Takes the outcome of the exchange in flight and says what comes next.
    ///
    /// A timeout or a link failure ends the cycle with that error. A poll
    /// reply that does not carry the seven registers ends it with
    /// `ParseError`. Otherwise each configuration register that differs from
    /// the wanted value gets one write exchange, in turn; any reply to a
    /// write counts as done, and a node id write readdresses the poller.
    /// After the last write, or at once when nothing differs, the cycle ends
    /// with the five measurements. Every step leaves fewer exchanges to go.
    pub fn step(&mut self, event: LinkEvent) -> (r: Action)
        requires
            old(self).wf(),
            old(self).phase_spec() != Phase::Idle,
        ensures
            final(self).wf(),
            final(self).slave_spec() == old(self).slave_spec(),
            final(self).wanted_spec() == old(self).wanted_spec(),
            r is Send ==> final(self).exchanges_left() < old(self).exchanges_left(),
            r is Done <==> final(self).phase_spec() == Phase::Idle,
            !(event is Reply) ==> r == Action::Done(Err(link_error(event)))
                && final(self).node() == old(self).node(),
            event is Reply && old(self).phase_spec() == Phase::Polling ==> {
                let reply = event->Reply_0@;
                match poll_values(old(self).node(), reply) {
                    None => r is Done && parse_failed(r->Done_0) && final(self).node()
                        == old(self).node(),
                    Some(v) => {
                        let ws = config_writes(
                            v,
                            old(self).node(),
                            old(self).slave_spec(),
                            old(self).wanted_spec(),
                        );
                        &&& final(self).node() == old(self).node()
                        &&& final(self).telemetry_spec() == telemetry_of(v)
                        &&& ws.len() == 0 ==> r is Done && r->Done_0 is Ok && r->Done_0->Ok_0@
                            == telemetry_of(v)
                        &&& ws.len() > 0 ==> r is Send && r->Send_0@
                            == write_holding_frame(unit_of(old(self).node()), ws[0].reg, ws[0].value)
                            && final(self).pending() == ws
                    },
                }
            },
            event is Reply && old(self).phase_spec() == Phase::Writing ==> {
                let w = old(self).pending()[0];
                let node = if w.reg == slave_reg(NODE_ID, old(self).slave_spec()) {
                    w.value
                } else {
                    old(self).node()
                };
                &&& final(self).node() == node
                &&& old(self).pending().len() == 1 ==> r is Done && r->Done_0 is Ok && r->Done_0->Ok_0@
                    == old(self).telemetry_spec()
                &&& old(self).pending().len() > 1 ==> r is Send && r->Send_0@
                    == write_holding_frame(
                    unit_of(old(self).node()),
                    old(self).pending()[1].reg,
                    old(self).pending()[1].value,
                ) && final(self).pending() == old(self).pending().drop_first()
                    && final(self).telemetry_spec() == old(self).telemetry_spec()
            },
    {
        let reply = match event {
            LinkEvent::Reply(bytes) => bytes,
            LinkEvent::TimedOut => return self.finish(Err(Error::Timeout)),
            LinkEvent::Failed(e) => return self.finish(Err(Error::UartError(e))),
        };
        match self.phase {
            Phase::Polling => self.on_poll_reply(reply),
            _ => self.on_write_reply(),
        }
    }

    fn on_poll_reply(&mut self, reply: Vec<u8>) -> (r: Action)
        requires
            old(self).wf(),
            old(self).phase_spec() == Phase::Polling,
        ensures
            final(self).wf(),
            final(self).slave_spec() == old(self).slave_spec(),
            final(self).wanted_spec() == old(self).wanted_spec(),
            final(self).node() == old(self).node(),
            r is Send ==> final(self).exchanges_left() < old(self).exchanges_left(),
            r is Done <==> final(self).phase_spec() == Phase::Idle,
            match poll_values(old(self).node(), reply@) {
                None => r is Done && parse_failed(r->Done_0),
                Some(v) => {
                    let ws = config_writes(
                        v,
                        old(self).node(),
                        old(self).slave_spec(),
                        old(self).wanted_spec(),
                    );
                    &&& final(self).telemetry_spec() == telemetry_of(v)
                    &&& ws.len() == 0 ==> r is Done && r->Done_0 is Ok && r->Done_0->Ok_0@ == telemetry_of(v)
                    &&& ws.len() > 0 ==> r is Send && r->Send_0@ == write_holding_frame(
                        unit_of(old(self).node()),
                        ws[0].reg,
                        ws[0].value,
                    ) && final(self).pending() == ws
                },
            },
    {
        if reply.len() == 5 {
            return self.finish(Err(Error::ParseError(ErrorKind::FrameBroken)));
        }
        let values = match parse_holdings_reply(
            (self.node_id % 0x100) as u8,
            REGS_COUNT,
            reply.as_slice(),
        ) {
            Ok(v) => v,
            Err(e) => return self.finish(Err(Error::ParseError(e))),
        };
        if values.len() != REGS_COUNT as usize {
            return self.finish(Err(Error::ParseError(ErrorKind::FrameBroken)));
        }
        let telemetry = [values[0], values[1], values[2], values[5], values[6]];
        proof {
            assert(telemetry@ =~= telemetry_of(values@));
        }
        self.telemetry = telemetry;
        let offset: u16 = u8::from(self.slave) as u16 * SLAVE_STRIDE;
        let mut writes: Vec<ConfigWrite> = Vec::new();
        if values[ZERO_POINT as usize] != self.wanted.zero_point {
            writes.push(ConfigWrite { reg: ZERO_POINT + offset, value: self.wanted.zero_point });
        }
        if values[SHAFT_DIAMETER as usize] != self.wanted.shaft_diameter {
            writes.push(
                ConfigWrite { reg: SHAFT_DIAMETER + offset, value: self.wanted.shaft_diameter },
            );
        }
        if self.node_id != self.wanted.node_id {
            writes.push(ConfigWrite { reg: NODE_ID + offset, value: self.wanted.node_id });
        }
        proof {
            assert(writes@ =~= config_writes(values@, self.node_id, self.slave, self.wanted));
        }
        if writes.len() == 0 {
            return self.finish(Ok(telemetry));
        }
        let first = writes[0];
        self.writes = writes;
        self.next = 0;
        self.phase = Phase::Writing;
        proof {
            assert(self.pending() =~= self.writes@);
        }
        let f = self.write_frame(first);
        Action::Send(f)
    }

    fn on_write_reply(&mut self) -> (r: Action)
        requires
            old(self).wf(),
            old(self).phase_spec() == Phase::Writing,
        ensures
            final(self).wf(),
            final(self).slave_spec() == old(self).slave_spec(),
            final(self).wanted_spec() == old(self).wanted_spec(),
            r is Send ==> final(self).exchanges_left() < old(self).exchanges_left(),
            r is Done <==> final(self).phase_spec() == Phase::Idle,
            ({
                let w = old(self).pending()[0];
                let node = if w.reg == slave_reg(NODE_ID, old(self).slave_spec()) {
                    w.value
                } else {
                    old(self).node()
                };
                &&& final(self).node() == node
                &&& old(self).pending().len() == 1 ==> r is Done && r->Done_0 is Ok && r->Done_0->Ok_0@
                    == old(self).telemetry_spec()
                &&& old(self).pending().len() > 1 ==> r is Send && r->Send_0@
                    == write_holding_frame(
                    unit_of(old(self).node()),
                    old(self).pending()[1].reg,
                    old(self).pending()[1].value,
                ) && final(self).pending() == old(self).pending().drop_first()
                    && final(self).telemetry_spec() == old(self).telemetry_spec()
            }),
    {
        let done = self.writes[self.next];
        let has_next = self.writes.len() - self.next > 1;
        let next_frame = if has_next {
            Some(self.write_frame(self.writes[self.next + 1]))
        } else {
            None
        };
        let node_reg: u16 = NODE_ID + u8::from(self.slave) as u16 * SLAVE_STRIDE;
        if done.reg == node_reg {
            self.node_id = done.value;
        }
        match next_frame {
            Some(f) => {
                self.next = self.next + 1;
                proof {
                    assert(self.pending() =~= old(self).pending().drop_first());
                }
                Action::Send(f)
            },
            None => {
                let t = self.telemetry;
                self.finish(Ok(t))
            },
        }
    }
}

} // verus!
