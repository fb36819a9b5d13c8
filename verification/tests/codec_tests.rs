use xbi_executor::codec::{
    decode_format, decode_metadata, decode_order, encode_format, encode_metadata, encode_order,
    DecodeError, XBI_VERSION,
};
use xbi_executor::ident::message_id;
use xbi_executor::xbi_format::{
    ActionNotificationTimeouts, XBIFormat, XBIMetadata, XBIOrder,
};

fn timeouts(action: u128, notification: u128) -> ActionNotificationTimeouts {
    ActionNotificationTimeouts { action, notification }
}

fn valid_metadata() -> XBIMetadata {
    XBIMetadata {
        sent: timeouts(100, 50),
        delivered: timeouts(200, 150),
        executed: timeouts(300, 250),
    }
}

fn sample_orders() -> Vec<XBIOrder> {
    vec![
        XBIOrder::CallNative { payload: vec![1, 2, 3] },
        XBIOrder::CallNative { payload: vec![] },
        XBIOrder::CallEvm {
            caller: [1u8; 32],
            dest: [2u8; 32],
            value: 12345678901234567890,
            input: vec![0xde, 0xad, 0xbe, 0xef],
            gas_limit: 21000,
            max_fee_per_gas: Some(7),
            max_priority_fee_per_gas: None,
            nonce: Some(42),
            access_list: Some(vec![9, 9, 9]),
        },
        XBIOrder::CallEvm {
            caller: [0u8; 32],
            dest: [0xff; 32],
            value: 0,
            input: vec![],
            gas_limit: 0,
            max_fee_per_gas: None,
            max_priority_fee_per_gas: Some(u128::MAX),
            nonce: None,
            access_list: None,
        },
        XBIOrder::CallWasm {
            caller: [3u8; 32],
            dest: [4u8; 32],
            value: 5,
            input: vec![1],
            additional_params: Some(vec![vec![1, 2], vec![], vec![3]]),
        },
        XBIOrder::CallCustom {
            caller: [5u8; 32],
            dest: [6u8; 32],
            value: u128::MAX,
            input: vec![7; 40],
            additional_params: None,
        },
        XBIOrder::Transfer { dest: [7u8; 32], value: 500, additional_params: None },
        XBIOrder::TransferMulti {
            dest: [8u8; 32],
            currency_id: [9u8; 32],
            value: 1,
            additional_params: Some(vec![]),
        },
        XBIOrder::Result { success: true, output: vec![9], witness: vec![8, 7] },
        XBIOrder::Result { success: false, output: vec![], witness: vec![] },
    ]
}

#[test]
fn order_round_trip_all_variants() {
    for order in sample_orders() {
        let bytes = encode_order(&order);
        let (decoded, consumed) = decode_order(&bytes).expect("decode must succeed");
        assert_eq!(decoded, order);
        assert_eq!(consumed, bytes.len());
    }
}

#[test]
fn order_round_trip_with_trailing_bytes() {
    let order = XBIOrder::CallNative { payload: vec![1, 2, 3] };
    let mut bytes = encode_order(&order);
    let plain = bytes.len();
    bytes.extend_from_slice(&[0xaa, 0xbb]);
    let (decoded, consumed) = decode_order(&bytes).expect("decode must succeed");
    assert_eq!(decoded, order);
    assert_eq!(consumed, plain);
}

#[test]
fn call_native_exact_bytes() {
    let order = XBIOrder::CallNative { payload: vec![1, 2, 3] };
    let bytes = encode_order(&order);
    assert_eq!(bytes, vec![0, 3, 0, 0, 0, 0, 0, 0, 0, 1, 2, 3]);
}

#[test]
fn result_exact_bytes() {
    let order = XBIOrder::Result { success: true, output: vec![9], witness: vec![] };
    let bytes = encode_order(&order);
    assert_eq!(
        bytes,
        vec![6, 1, 1, 0, 0, 0, 0, 0, 0, 0, 9, 0, 0, 0, 0, 0, 0, 0, 0]
    );
}

#[test]
fn encoding_is_deterministic() {
    let order = XBIOrder::Transfer { dest: [7u8; 32], value: 500, additional_params: None };
    assert_eq!(encode_order(&order), encode_order(&order));
    let m = valid_metadata();
    assert_eq!(encode_metadata(&m), encode_metadata(&m));
}

#[test]
fn metadata_round_trip() {
    let m = valid_metadata();
    let bytes = encode_metadata(&m);
    assert_eq!(bytes.len(), 96);
    let (decoded, consumed) = decode_metadata(&bytes).expect("decode must succeed");
    assert_eq!(decoded, m);
    assert_eq!(consumed, 96);
}

#[test]
fn decreasing_deadline_is_invalid_metadata() {
    // delivered.action < sent.action violates the monotonic invariant.
    let m = XBIMetadata {
        sent: timeouts(100, 50),
        delivered: timeouts(99, 150),
        executed: timeouts(300, 250),
    };
    let bytes = encode_metadata(&m);
    assert_eq!(decode_metadata(&bytes), Err(DecodeError::InvalidMetadata));
}

#[test]
fn executed_before_delivered_is_invalid_metadata() {
    let m = XBIMetadata {
        sent: timeouts(1, 1),
        delivered: timeouts(5, 1),
        executed: timeouts(4, 1),
    };
    let bytes = encode_metadata(&m);
    assert_eq!(decode_metadata(&bytes), Err(DecodeError::InvalidMetadata));
}

#[test]
fn truncated_buffers_are_rejected() {
    let order = XBIOrder::CallEvm {
        caller: [1u8; 32],
        dest: [2u8; 32],
        value: 3,
        input: vec![4, 5],
        gas_limit: 6,
        max_fee_per_gas: None,
        max_priority_fee_per_gas: None,
        nonce: None,
        access_list: None,
    };
    let bytes = encode_order(&order);
    for cut in 0..bytes.len() {
        assert_eq!(decode_order(&bytes[..cut]), Err(DecodeError::Truncated));
    }
}

#[test]
fn unknown_discriminant_is_rejected() {
    assert_eq!(decode_order(&[7u8]), Err(DecodeError::UnknownVariant));
    assert_eq!(decode_order(&[255u8, 0, 0]), Err(DecodeError::UnknownVariant));
}

#[test]
fn unknown_option_tag_is_rejected() {
    // CallEvm with an option tag of 2 where max_fee_per_gas starts.
    let order = XBIOrder::CallEvm {
        caller: [1u8; 32],
        dest: [2u8; 32],
        value: 3,
        input: vec![],
        gas_limit: 6,
        max_fee_per_gas: None,
        max_priority_fee_per_gas: None,
        nonce: None,
        access_list: None,
    };
    let mut bytes = encode_order(&order);
    // Layout: 1 disc + 32 + 32 + 16 value + 8 input len + 16 gas, then tag.
    let tag_at = 1 + 32 + 32 + 16 + 8 + 16;
    bytes[tag_at] = 2;
    assert_eq!(decode_order(&bytes), Err(DecodeError::UnknownVariant));
}

#[test]
fn unknown_bool_tag_is_rejected() {
    let order = XBIOrder::Result { success: false, output: vec![], witness: vec![] };
    let mut bytes = encode_order(&order);
    bytes[1] = 3;
    assert_eq!(decode_order(&bytes), Err(DecodeError::UnknownVariant));
}

#[test]
fn format_round_trip() {
    let f = XBIFormat {
        xbi_order: XBIOrder::CallWasm {
            caller: [3u8; 32],
            dest: [4u8; 32],
            value: 5,
            input: vec![1],
            additional_params: Some(vec![vec![1, 2], vec![3]]),
        },
        metadata: valid_metadata(),
    };
    let bytes = encode_format(&f);
    assert_eq!(bytes[0], XBI_VERSION);
    let (decoded, consumed) = decode_format(&bytes).expect("decode must succeed");
    assert_eq!(decoded, f);
    assert_eq!(consumed, bytes.len());
}

#[test]
fn wrong_version_is_rejected() {
    let f = XBIFormat { xbi_order: XBIOrder::default(), metadata: XBIMetadata::default() };
    let mut bytes = encode_format(&f);
    bytes[0] = XBI_VERSION + 1;
    assert_eq!(decode_format(&bytes), Err(DecodeError::UnknownVariant));
    assert_eq!(decode_format(&[]), Err(DecodeError::Truncated));
}

#[test]
fn default_values() {
    assert_eq!(XBIOrder::default(), XBIOrder::CallNative { payload: vec![] });
    assert_eq!(
        ActionNotificationTimeouts::default(),
        ActionNotificationTimeouts { action: 0, notification: 0 }
    );
    let m = XBIMetadata::default();
    assert_eq!(m.sent, ActionNotificationTimeouts::default());
    assert_eq!(m.delivered, ActionNotificationTimeouts::default());
    assert_eq!(m.executed, ActionNotificationTimeouts::default());
    let f = XBIFormat::default();
    assert_eq!(f.xbi_order, XBIOrder::default());
    assert_eq!(f.metadata, m);
}

#[test]
fn message_id_is_content_derived() {
    let order = XBIOrder::CallNative { payload: vec![1, 2, 3] };
    let a = message_id(&order, &[1u8; 32], &[2u8; 32], 7);
    let b = message_id(&order, &[1u8; 32], &[2u8; 32], 7);
    assert_eq!(a, b);
    // Any change of order, routing pair or nonce changes the identifier.
    let other_order = XBIOrder::CallNative { payload: vec![1, 2, 4] };
    assert_ne!(a, message_id(&other_order, &[1u8; 32], &[2u8; 32], 7));
    assert_ne!(a, message_id(&order, &[3u8; 32], &[2u8; 32], 7));
    assert_ne!(a, message_id(&order, &[1u8; 32], &[4u8; 32], 7));
    assert_ne!(a, message_id(&order, &[1u8; 32], &[2u8; 32], 8));
}
