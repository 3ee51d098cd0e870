//! The decision logic of a Modbus/TCP temperature gateway: which Modbus
//! input registers map to which 1-Wire thermometer, how a reading is laid out
//! over two registers, how the discovered thermometers are ordered, how the
//! Wi-Fi station keeps itself connected, and how its MAC address is shown.
pub mod registers;
pub mod sensors;
pub mod wifi;
