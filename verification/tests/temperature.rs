use relay_board::modbus::ExceptionCode;
use relay_board::temperature::{plan_reading, sort_order, Error};

#[test]
fn sorts_by_address() {
    let keys = vec![0x28ff_0000_0000_0003, 0x28ff_0000_0000_0001, 0x28ff_0000_0000_0002];
    assert_eq!(sort_order(&keys), vec![1, 2, 0]);
}

#[test]
fn sort_is_stable() {
    let keys = vec![5, 3, 5, 1, 3, 5];
    assert_eq!(sort_order(&keys), vec![3, 1, 4, 0, 2, 5]);
}

#[test]
fn sort_of_nothing() {
    assert_eq!(sort_order(&vec![]), Vec::<usize>::new());
    assert_eq!(sort_order(&vec![42]), vec![0]);
}

#[test]
fn sort_matches_std() {
    let keys: Vec<u64> = (0..50u64).map(|i| (i * 7919) % 13).collect();
    let mut expected: Vec<usize> = (0..keys.len()).collect();
    expected.sort_by_key(|&i| keys[i]);
    assert_eq!(sort_order(&keys), expected);
}

#[test]
fn plans_the_requested_sensors() {
    assert_eq!(plan_reading(1..3, 4).unwrap(), vec![1, 2]);
    assert_eq!(plan_reading(0..4, 4).unwrap(), vec![0, 1, 2, 3]);
    assert_eq!(plan_reading(2..2, 4).unwrap(), Vec::<usize>::new());
    assert_eq!(plan_reading(3..1, 4).unwrap(), Vec::<usize>::new());
    assert_eq!(plan_reading(0..0, 0).unwrap(), Vec::<usize>::new());
}

#[test]
fn refuses_indices_past_the_sensors() {
    match plan_reading(1..5, 4) {
        Err(Error::InvalidIndex { received, expected }) => {
            assert_eq!(received, 1..5);
            assert_eq!(expected, 0..4);
        }
        other => panic!("unexpected {other:?}"),
    }
    assert!(plan_reading(9..5, 4).is_err());
}

#[test]
fn errors_map_to_exceptions() {
    let invalid = Error::InvalidIndex { received: 0..3, expected: 0..2 };
    assert_eq!(ExceptionCode::from(invalid), ExceptionCode::IllegalDataAddress);
    let internal = Error::Internal(String::from("bus reset failed"));
    assert_eq!(ExceptionCode::from(internal), ExceptionCode::ServerDeviceFailure);
}

#[test]
fn order_does_not_depend_on_search_order() {
    let found = vec![0x30, 0x10, 0x20, 0x10];
    let found_again = vec![0x10, 0x20, 0x10, 0x30];
    let sorted: Vec<u64> = sort_order(&found).into_iter().map(|i| found[i]).collect();
    let sorted_again: Vec<u64> =
        sort_order(&found_again).into_iter().map(|i| found_again[i]).collect();
    assert_eq!(sorted, vec![0x10, 0x10, 0x20, 0x30]);
    assert_eq!(sorted, sorted_again);
}
