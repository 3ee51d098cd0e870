use sensor_modbus::registers::{SensorError, SensorQuery};
use sensor_modbus::sensors::{sort_by_key, SensorRegistry};

#[test]
fn registry_orders_by_address() {
    let found = vec![(0x9700_0000_6A14_FE28u64, 'a'), (0x2300_0004_6EAF_BC28, 'b'), (0x4500_0000_8820_4E28, 'c')];
    let registry = SensorRegistry::from_discovered(found);
    assert_eq!(registry.len(), 3);
    assert_eq!(registry.handles(), vec!['b', 'c', 'a']);
}

#[test]
fn equal_addresses_keep_their_order() {
    let mut entries = vec![(3u64, 1u8), (1, 2), (3, 3), (1, 4), (2, 5)];
    sort_by_key(&mut entries);
    assert_eq!(entries, vec![(1, 2), (1, 4), (2, 5), (3, 1), (3, 3)]);
}

#[test]
fn sort_of_nothing_and_of_one() {
    let mut none: Vec<(u64, u8)> = vec![];
    sort_by_key(&mut none);
    assert!(none.is_empty());
    let mut one = vec![(7u64, 0u8)];
    sort_by_key(&mut one);
    assert_eq!(one, vec![(7, 0)]);
}

#[test]
fn position_holding_a_thermometer_is_refused() {
    let registry = SensorRegistry::from_discovered(vec![(30u64, 30u32), (10, 10), (20, 20)]);
    assert_eq!(registry.select(SensorQuery { start: 1, end: 3 }), Err(SensorError::Refused));
    assert_eq!(registry.select(SensorQuery { start: 0, end: 1 }), Err(SensorError::Refused));
    assert_eq!(registry.select(SensorQuery { start: 2, end: 9 }), Err(SensorError::Refused));
}

#[test]
fn empty_query_names_nothing() {
    let registry = SensorRegistry::from_discovered(vec![(1u64, ()), (2, ())]);
    assert_eq!(registry.select(SensorQuery { start: 2, end: 2 }), Ok(vec![]));
    assert_eq!(registry.select(SensorQuery { start: 5, end: 1 }), Ok(vec![]));
}

#[test]
fn empty_registry() {
    let registry: SensorRegistry<u8> = SensorRegistry::from_discovered(vec![]);
    assert_eq!(registry.len(), 0);
    assert!(registry.handles().is_empty());
    assert_eq!(registry.select(SensorQuery { start: 0, end: 0 }), Ok(vec![]));
}

#[test]
fn search_order_does_not_change_the_registry() {
    let first = SensorRegistry::from_discovered(vec![(0x45u64, 'x'), (0x23, 'y'), (0x97, 'z')]);
    let second = SensorRegistry::from_discovered(vec![(0x97u64, 'z'), (0x45, 'x'), (0x23, 'y')]);
    assert_eq!(first.handles(), second.handles());
    assert_eq!(first.handles(), vec!['y', 'x', 'z']);
}
