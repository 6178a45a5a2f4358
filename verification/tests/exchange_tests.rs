use perpbot::exchange::{
    encode_action, secret_key_from_bytes, sign_action, wallet_address_hex, wire_decimal,
    Action, CancelRequest, LimitOrderType, OrderTypeWire, OrderWire,
};

#[test]
fn test_leverage_action_bytes() {
    let action = Action::UpdateLeverage { asset: 5, is_cross: false, leverage: 20 };
    let bytes = encode_action(&action);
    let expected: Vec<u8> = vec![
        0x84, 0xa4, 0x74, 0x79, 0x70, 0x65, 0xae, 0x75, 0x70, 0x64, 0x61, 0x74, 0x65, 0x4c,
        0x65, 0x76, 0x65, 0x72, 0x61, 0x67, 0x65, 0xa5, 0x61, 0x73, 0x73, 0x65, 0x74, 0x05,
        0xa7, 0x69, 0x73, 0x43, 0x72, 0x6f, 0x73, 0x73, 0xc2, 0xa8, 0x6c, 0x65, 0x76, 0x65,
        0x72, 0x61, 0x67, 0x65, 0x14,
    ];
    assert_eq!(bytes, expected);
}

#[test]
fn test_cancel_action_bytes() {
    let action = Action::Cancel { cancels: vec![CancelRequest { a: 1, o: 300 }] };
    let bytes = encode_action(&action);
    let mut expected: Vec<u8> = Vec::new();
    expected.push(0x82);
    expected.extend([0xa4]);
    expected.extend(b"type");
    expected.extend([0xa6]);
    expected.extend(b"cancel");
    expected.extend([0xa7]);
    expected.extend(b"cancels");
    expected.push(0x91);
    expected.push(0x82);
    expected.extend([0xa1]);
    expected.extend(b"a");
    expected.push(0x01);
    expected.extend([0xa1]);
    expected.extend(b"o");
    // 300 needs the 16-bit form
    expected.extend([0xcd, 0x01, 0x2c]);
    assert_eq!(bytes, expected);
}

#[test]
fn test_order_action_bytes_shape() {
    let order = OrderWire {
        a: 0,
        b: true,
        p: String::from("123.5"),
        s: String::from("2"),
        r: false,
        t: OrderTypeWire::Limit(LimitOrderType { tif: String::from("Gtc") }),
    };
    let action = Action::Order { orders: vec![order], grouping: String::from("na") };
    let bytes = encode_action(&action);
    // map(3), "type", "order"
    assert_eq!(bytes[0], 0x83);
    assert_eq!(&bytes[1..6], &[0xa4, 0x74, 0x79, 0x70, 0x65]);
    assert_eq!(&bytes[6..12], &[0xa5, 0x6f, 0x72, 0x64, 0x65, 0x72]);
    // one order in the array
    let arr_pos = 12 + 7;
    assert_eq!(bytes[arr_pos - 7..arr_pos], [0xa6, 0x6f, 0x72, 0x64, 0x65, 0x72, 0x73]);
    assert_eq!(bytes[arr_pos], 0x91);
    assert_eq!(bytes[arr_pos + 1], 0x86);
    // the tail is the grouping pair
    let n = bytes.len();
    assert_eq!(&bytes[n - 12..], &[
        0xa8, 0x67, 0x72, 0x6f, 0x75, 0x70, 0x69, 0x6e, 0x67, 0xa2, 0x6e, 0x61,
    ]);
}

#[test]
fn test_wire_decimal_formats() {
    assert_eq!(wire_decimal(0), "0");
    assert_eq!(wire_decimal(100_000_000), "1");
    assert_eq!(wire_decimal(12_345_678_900), "123.456789");
    assert_eq!(wire_decimal(5), "0.00000005");
    assert_eq!(wire_decimal(250_000_000), "2.5");
    assert_eq!(wire_decimal(20_099_000_000), "200.99");
}

#[test]
fn test_wallet_address_known_key() {
    let mut key_bytes = [0u8; 32];
    key_bytes[31] = 1;
    let key = secret_key_from_bytes(&key_bytes).expect("valid key");
    let address = wallet_address_hex(&key);
    assert_eq!(address, "0x7e5f4552091a69125d5dfcb7b8c2659029395bdf");
}

#[test]
fn test_secret_key_rejects_bad_lengths() {
    assert!(secret_key_from_bytes(&[1u8; 31]).is_none());
    assert!(secret_key_from_bytes(&[1u8; 33]).is_none());
    assert!(secret_key_from_bytes(&[0u8; 32]).is_none());
}

#[test]
fn test_sign_action_format() {
    let mut key_bytes = [0u8; 32];
    key_bytes[31] = 7;
    let key = secret_key_from_bytes(&key_bytes).expect("valid key");
    let action = Action::UpdateLeverage { asset: 0, is_cross: false, leverage: 5 };
    let sig = sign_action(&key, &action, 1_700_000_000_000, true);
    assert_eq!(sig.r.len(), 66);
    assert_eq!(sig.s.len(), 66);
    assert!(sig.r.starts_with("0x"));
    assert!(sig.s.starts_with("0x"));
    assert!(sig.v >= 27 && sig.v < 31);

    // deterministic nonces: the same action signs the same way
    let sig2 = sign_action(&key, &action, 1_700_000_000_000, true);
    assert_eq!(sig.r, sig2.r);
    assert_eq!(sig.s, sig2.s);
    assert_eq!(sig.v, sig2.v);

    // a different nonce moves the digest
    let sig3 = sign_action(&key, &action, 1_700_000_000_001, true);
    assert!(sig.r != sig3.r || sig.s != sig3.s);
}
