//! The logic of a relay board with an addressable status LED, a Modbus TCP
//! server for its coils and a bus of temperature sensors.

pub mod led;
pub mod modbus;
pub mod temperature;
