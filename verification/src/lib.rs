//! Protocol core of a wireless sensor/actuator gateway: a radio-module API
//! frame codec, a Modbus payload codec, a task model, typed sample decoding,
//! and a device registry that correlates outbound requests with inbound
//! responses and persists the device table.

pub mod device;
pub mod errors;
pub mod message;
pub mod modbus;
pub mod packet;
pub mod samples;
pub mod task;
