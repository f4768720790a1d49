use fieldbus_gateway::store::{RegisterStore, StoreError};

type Store = RegisterStore<4, 4, 8, 8>;

#[test]
fn new_store_is_cleared() {
    let s = Store::new();
    for a in 0..8u16 {
        assert_eq!(s.get_holding(a), Ok(0));
        assert_eq!(s.get_input(a), Ok(0));
    }
}

#[test]
fn set_then_get_holding() {
    let mut s = Store::new();
    assert_eq!(s.set_holding(3, 0xBEEF), Ok(()));
    assert_eq!(s.get_holding(3), Ok(0xBEEF));
    assert_eq!(s.get_holding(2), Ok(0));
    assert_eq!(s.get_holding(4), Ok(0));
}

#[test]
fn set_then_get_input_at_last_address() {
    let mut s = Store::new();
    assert_eq!(s.set_input(7, 42), Ok(()));
    assert_eq!(s.get_input(7), Ok(42));
}

#[test]
fn out_of_range_is_an_error() {
    let mut s = Store::new();
    assert_eq!(s.get_holding(8), Err(StoreError::OutOfRange));
    assert_eq!(s.get_input(8), Err(StoreError::OutOfRange));
    assert_eq!(s.set_holding(8, 1), Err(StoreError::OutOfRange));
    assert_eq!(s.set_input(u16::MAX, 1), Err(StoreError::OutOfRange));
    assert_eq!(s.get_holdings_u32(7), Err(StoreError::OutOfRange));
    assert_eq!(s.set_holdings_u32(7, 1), Err(StoreError::OutOfRange));
    assert_eq!(s.get_holding(7), Ok(0));
}

#[test]
fn u32_round_trip_high_register_first() {
    let mut s = Store::new();
    assert_eq!(s.set_holdings_u32(2, 0x1234_5678), Ok(()));
    assert_eq!(s.get_holding(2), Ok(0x1234));
    assert_eq!(s.get_holding(3), Ok(0x5678));
    assert_eq!(s.get_holdings_u32(2), Ok(0x1234_5678));
}

#[test]
fn u32_inputs_at_last_pair() {
    let mut s = Store::new();
    assert_eq!(s.set_inputs_u32(6, 0xDEAD_BEEF), Ok(()));
    assert_eq!(s.get_input(6), Ok(0xDEAD));
    assert_eq!(s.get_input(7), Ok(0xBEEF));
    assert_eq!(s.get_inputs_u32(6), Ok(0xDEAD_BEEF));
}

#[test]
fn two_writes_leave_the_last_whole_value() {
    let mut s = Store::new();
    s.set_holdings_u32(0, 0x0001_FFFF).unwrap();
    s.set_holdings_u32(0, 0xFFFF_0001).unwrap();
    assert_eq!(s.get_holdings_u32(0), Ok(0xFFFF_0001));
}

#[test]
fn bytes_fill_registers_big_endian() {
    let mut s = Store::new();
    assert_eq!(s.set_holdings_from_bytes(5, &[0x01, 0x02, 0x03, 0x04]), Ok(()));
    assert_eq!(s.get_holding(5), Ok(0x0102));
    assert_eq!(s.get_holding(6), Ok(0x0304));
    assert_eq!(s.set_holdings_from_bytes(7, &[1, 2, 3, 4]), Err(StoreError::OutOfRange));
    assert_eq!(s.get_holding(7), Ok(0));
}

#[test]
fn raw_storage_reflects_writes() {
    let mut s = Store::new();
    s.set_holding(1, 9).unwrap();
    assert_eq!(s.storage().holdings[1], 9);
    s.storage_mut().inputs[0] = 5;
    assert_eq!(s.get_input(0), Ok(5));
}
