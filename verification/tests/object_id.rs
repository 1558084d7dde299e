use cosplay::{Client, ObjectId, ObjectIdDecodeError, ObjectIdFactory, Server};

#[test]
fn from_client_raw_ok() {
    let actual = ObjectId::<Client>::from_raw(2).unwrap().unwrap();
    assert_eq!(2, actual.inner());
}

#[test]
fn from_server_raw_ok() {
    let actual = ObjectId::<Server>::from_raw(0xFF000003).unwrap().unwrap();
    assert_eq!(0xFF000003, actual.inner());
}

#[test]
fn from_client_raw_greater_than_error() {
    let actual_error = ObjectId::<Client>::from_raw(0xFFFF0000).unwrap_err();
    let expected_error = ObjectIdDecodeError::RawGreaterThanMax(0xFFFF0000, 0xFEFFFFFF);
    assert_eq!(expected_error, actual_error);
}

#[test]
fn from_server_raw_less_than_error() {
    let actual_error = ObjectId::<Server>::from_raw(3).unwrap_err();
    let expected_error = ObjectIdDecodeError::RawLessThanMin(3, 0xFF000000);
    assert_eq!(expected_error, actual_error);
}

#[test]
fn optional_from_raw() {
    let actual = ObjectId::<Client>::from_raw(0).unwrap();
    assert!(actual.is_none());

    let actual = ObjectId::<Client>::from_raw(1).unwrap().unwrap();
    assert_eq!(1, actual.inner());
}

#[test]
fn client_factory_first_and_next() {
    let mut factory = ObjectIdFactory::<Client>::new();
    assert_eq!(1, factory.next().inner());
    assert_eq!(2, factory.next().inner());
}

#[test]
fn server_factory_first() {
    let mut factory = ObjectIdFactory::<Server>::new();
    assert_eq!(0xFF000000, factory.next().inner());
    assert_eq!(0xFF000001, factory.next().inner());
}

#[test]
fn client_factory_wrapping_next() {
    let mut factory = ObjectIdFactory::<Client>::starting_at(0xFEFFFFFF).unwrap();

    assert_eq!(0xFEFFFFFF, factory.next().inner());
    assert_eq!(1, factory.next().inner());
}

#[test]
fn server_factory_wrapping_next() {
    let mut factory = ObjectIdFactory::<Server>::starting_at(0xFFFFFFFF).unwrap();

    assert_eq!(0xFFFFFFFF, factory.next().inner());
    assert_eq!(0xFF000000, factory.next().inner());
}

#[test]
fn factory_rejects_start_outside_range() {
    assert!(ObjectIdFactory::<Client>::starting_at(0).is_none());
    assert!(ObjectIdFactory::<Client>::starting_at(0xFF000000).is_none());
    assert!(ObjectIdFactory::<Server>::starting_at(0xFEFFFFFF).is_none());
}

#[test]
fn from_raw_range_edges() {
    assert_eq!(0xFEFFFFFF, ObjectId::<Client>::from_raw(0xFEFFFFFF).unwrap().unwrap().inner());
    assert_eq!(
        ObjectIdDecodeError::RawGreaterThanMax(0xFF000000, 0xFEFFFFFF),
        ObjectId::<Client>::from_raw(0xFF000000).unwrap_err()
    );
    assert!(ObjectId::<Server>::from_raw(0).unwrap().is_none());
    assert_eq!(0xFFFFFFFF, ObjectId::<Server>::from_raw(0xFFFFFFFF).unwrap().unwrap().inner());
}

#[test]
fn factory_ids_stay_in_range_across_wrap() {
    let mut factory = ObjectIdFactory::<Client>::starting_at(0xFEFFFFFE).unwrap();
    let ids: Vec<u32> = (0..4).map(|_| factory.next().inner()).collect();
    assert_eq!(vec![0xFEFFFFFE, 0xFEFFFFFF, 1, 2], ids);
}
