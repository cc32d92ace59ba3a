//! The canonical identifier encoding and its round trip.

use wordle::ident::Id;

#[test]
fn to_hex_of_zero() {
    let id = Id { hi: 0, lo: 0 };
    assert_eq!(id.to_hex(), "000000000000000000000000");
}

#[test]
fn to_hex_concrete_value() {
    let id = Id { hi: 0x0123456789abcdef, lo: 0xdeadbeef };
    assert_eq!(id.to_hex(), "0123456789abcdefdeadbeef");
}

#[test]
fn from_hex_lowercase() {
    let id = Id::from_hex("0123456789abcdefdeadbeef").unwrap();
    assert_eq!(id, Id { hi: 0x0123456789abcdef, lo: 0xdeadbeef });
}

#[test]
fn from_hex_accepts_uppercase() {
    let id = Id::from_hex("0123456789ABCDEFDEADBEEF").unwrap();
    assert_eq!(id, Id { hi: 0x0123456789abcdef, lo: 0xdeadbeef });
}

#[test]
fn from_hex_rejects_wrong_length() {
    assert!(Id::from_hex("").is_none());
    assert!(Id::from_hex("0123456789abcdef").is_none());
    assert!(Id::from_hex("0123456789abcdefdeadbeef00").is_none());
}

#[test]
fn from_hex_rejects_non_hex() {
    assert!(Id::from_hex("0123456789abcdefdeadbeeg").is_none());
    assert!(Id::from_hex("zzzzzzzzzzzzzzzzzzzzzzzz").is_none());
}

#[test]
fn hex_round_trip_concrete() {
    let id = Id { hi: 0xfedcba9876543210, lo: 0x01020304 };
    assert_eq!(Id::from_hex(&id.to_hex()), Some(id));
    assert_eq!(id.hex_round_trip(), Some(id));
}

#[test]
fn fresh_ids_encode_and_parse() {
    let id = Id::fresh();
    let hex = id.to_hex();
    assert_eq!(hex.len(), 24);
    assert_eq!(Id::from_hex(&hex), Some(id));
}
