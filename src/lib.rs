//! Register bank and protocol engines of a fieldbus I/O node: a Modbus RTU
//! slave server, a Modbus RTU encoder poller and a CANopen-style SDO/PDO
//! gateway over one shared bank of Modbus registers.

pub mod chunk;
pub mod frame;
pub mod gateway;
pub mod input;
pub mod master;
pub mod pdo;
pub mod sdo;
pub mod server;
pub mod store;
