use sensor_modbus::registers::{
    encode_readings, finish_read, plan_read, reply_from_readings, Exception, ModbusRequest,
    SensorError, SensorQuery, SensorReply,
};

#[test]
fn even_window_names_whole_thermometers() {
    assert_eq!(
        plan_read(&ModbusRequest::ReadInputRegisters(4, 6)),
        Ok(SensorQuery { start: 2, end: 5 })
    );
    assert_eq!(
        plan_read(&ModbusRequest::ReadInputRegisters(0, 2)),
        Ok(SensorQuery { start: 0, end: 1 })
    );
}

#[test]
fn empty_window_is_accepted() {
    assert_eq!(
        plan_read(&ModbusRequest::ReadInputRegisters(8, 0)),
        Ok(SensorQuery { start: 4, end: 4 })
    );
}

#[test]
fn largest_even_window_does_not_overflow() {
    assert_eq!(
        plan_read(&ModbusRequest::ReadInputRegisters(65534, 65534)),
        Ok(SensorQuery { start: 32767, end: 65534 })
    );
}

#[test]
fn odd_address_is_illegal_data_address() {
    assert_eq!(
        plan_read(&ModbusRequest::ReadInputRegisters(3, 2)),
        Err(Exception::IllegalDataAddress)
    );
}

#[test]
fn odd_count_is_illegal_data_address() {
    assert_eq!(
        plan_read(&ModbusRequest::ReadInputRegisters(2, 3)),
        Err(Exception::IllegalDataAddress)
    );
}

#[test]
fn other_function_is_illegal_function() {
    assert_eq!(plan_read(&ModbusRequest::Other), Err(Exception::IllegalFunction));
}

#[test]
fn reading_is_split_high_word_first() {
    let bits = 22.5f32.to_bits();
    assert_eq!(bits, 0x41B4_0000);
    assert_eq!(encode_readings(&vec![bits]), vec![0x41B4, 0x0000]);
    assert_eq!(
        encode_readings(&vec![0x1234_5678, 0xFFFF_0001]),
        vec![0x1234, 0x5678, 0xFFFF, 0x0001]
    );
    assert_eq!(encode_readings(&vec![]), Vec::<u16>::new());
}

#[test]
fn negative_temperature_keeps_its_sign_bit() {
    let bits = (-10.0625f32).to_bits();
    let registers = encode_readings(&vec![bits]);
    assert_eq!(registers.len(), 2);
    assert_eq!(((registers[0] as u32) << 16) | registers[1] as u32, bits);
    assert!(registers[0] & 0x8000 != 0);
}

#[test]
fn readings_become_the_response() {
    assert_eq!(
        finish_read(SensorReply::Readings(vec![0xAAAA_BBBB, 0x0000_0001])),
        Ok(vec![0xAAAA, 0xBBBB, 0x0000, 0x0001])
    );
}

#[test]
fn refused_query_is_illegal_data_address() {
    assert_eq!(
        finish_read(SensorReply::Failed(SensorError::Refused)),
        Err(Exception::IllegalDataAddress)
    );
}

#[test]
fn failed_reading_is_server_device_failure() {
    assert_eq!(
        finish_read(SensorReply::Failed(SensorError::ReadFailed)),
        Err(Exception::ServerDeviceFailure)
    );
}

#[test]
fn unreachable_thermometers_are_server_device_failure() {
    assert_eq!(finish_read(SensorReply::Unavailable), Err(Exception::ServerDeviceFailure));
}

#[test]
fn exception_codes_are_the_modbus_ones() {
    assert_eq!(Exception::IllegalFunction.code(), 0x01);
    assert_eq!(Exception::IllegalDataAddress.code(), 0x02);
    assert_eq!(Exception::ServerDeviceFailure.code(), 0x04);
}

#[test]
fn read_window_matches_register_map() {
    // Three thermometers; registers 0..6 hold their readings, high half first.
    let all = vec![0x0001_0002u32, 0x0003_0004, 0x0005_0006];
    let register_map = encode_readings(&all);
    let query = plan_read(&ModbusRequest::ReadInputRegisters(2, 4)).unwrap();
    let window = all[query.start..query.end].to_vec();
    let answer = finish_read(SensorReply::Readings(window)).unwrap();
    assert_eq!(answer.len(), 4);
    assert_eq!(answer, register_map[2..6].to_vec());
}

#[test]
fn all_readings_become_a_reply() {
    match reply_from_readings(&vec![Some(7), Some(0x41B4_0000)]) {
        SensorReply::Readings(readings) => assert_eq!(readings, vec![7, 0x41B4_0000]),
        _ => panic!("expected readings"),
    }
    match reply_from_readings(&vec![]) {
        SensorReply::Readings(readings) => assert!(readings.is_empty()),
        _ => panic!("expected readings"),
    }
}

#[test]
fn a_missing_reading_fails_the_reply() {
    assert!(matches!(
        reply_from_readings(&vec![Some(1), None, Some(3)]),
        SensorReply::Failed(SensorError::ReadFailed)
    ));
}
