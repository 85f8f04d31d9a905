use busmaster::signal::{ByteOrder, SignalDef, ValueType};

#[test]
fn test_byte_order_variants() {
    assert_ne!(ByteOrder::LittleEndian, ByteOrder::BigEndian);
}

#[test]
fn test_value_type_variants() {
    let types = [
        ValueType::Unsigned,
        ValueType::Signed,
        ValueType::Float32,
        ValueType::Float64,
    ];
    for (i, t1) in types.iter().enumerate() {
        for (j, t2) in types.iter().enumerate() {
            if i != j {
                assert_ne!(t1, t2);
            }
        }
    }
}

#[test]
fn test_signal_def_with_comment() {
    let mut sig = SignalDef::new("Test", 0, 8);
    sig.comment = Some("Test comment".to_string());
    assert_eq!(sig.comment, Some("Test comment".to_string()));
}

#[test]
fn test_extract_16bit_unsigned_little_endian() {
    let sig = SignalDef::new("Test", 0, 16)
        .with_byte_order(ByteOrder::LittleEndian)
        .with_value_type(ValueType::Unsigned);
    let data = [0x10, 0x27, 0x00, 0x00, 0x00, 0x00, 0x00, 0x00];
    let val = sig.extract_raw(&data).unwrap();
    assert_eq!(val, 10000);
}

#[test]
fn test_extract_signed_positive() {
    let sig = SignalDef::new("Test", 0, 8)
        .with_byte_order(ByteOrder::LittleEndian)
        .with_value_type(ValueType::Signed);
    let data = [0x7F, 0x00, 0x00, 0x00, 0x00, 0x00, 0x00, 0x00];
    let val = sig.extract_raw(&data).unwrap();
    assert_eq!(val, 127);
}

#[test]
fn test_extract_signed_negative() {
    let sig = SignalDef::new("Test", 0, 8)
        .with_byte_order(ByteOrder::LittleEndian)
        .with_value_type(ValueType::Signed);
    let data = [0xFF, 0x00, 0x00, 0x00, 0x00, 0x00, 0x00, 0x00];
    let val = sig.extract_raw(&data).unwrap();
    assert_eq!(val, -1);
}

#[test]
fn test_extract_signed_16bit_negative() {
    let sig = SignalDef::new("Test", 0, 16)
        .with_byte_order(ByteOrder::LittleEndian)
        .with_value_type(ValueType::Signed);
    let data = [0xFF, 0xFF, 0x00, 0x00, 0x00, 0x00, 0x00, 0x00];
    let val = sig.extract_raw(&data).unwrap();
    assert_eq!(val, -1);
}

#[test]
fn test_extract_big_endian_8bit() {
    let sig = SignalDef::new("Test", 0, 8)
        .with_byte_order(ByteOrder::BigEndian)
        .with_value_type(ValueType::Unsigned);
    let data = [0x42, 0x00, 0x00, 0x00, 0x00, 0x00, 0x00, 0x00];
    let val = sig.extract_raw(&data).unwrap();
    assert_eq!(val, 0x42);
}

#[test]
fn test_extract_big_endian_16bit() {
    let sig = SignalDef::new("Test", 0, 16)
        .with_byte_order(ByteOrder::BigEndian)
        .with_value_type(ValueType::Unsigned);
    let data = [0x27, 0x10, 0x00, 0x00, 0x00, 0x00, 0x00, 0x00];
    let val = sig.extract_raw(&data).unwrap();
    assert_eq!(val, 10000);
}

#[test]
fn test_extract_cross_byte_boundary() {
    let sig = SignalDef::new("Test", 4, 16)
        .with_byte_order(ByteOrder::LittleEndian)
        .with_value_type(ValueType::Unsigned);
    let data = [0x00, 0x01, 0x02, 0x00, 0x00, 0x00, 0x00, 0x00];
    let val = sig.extract_raw(&data).unwrap();
    assert!(val > 0);
}

#[test]
fn test_extract_signal_too_long() {
    let sig = SignalDef::new("Test", 0, 16)
        .with_byte_order(ByteOrder::LittleEndian)
        .with_value_type(ValueType::Unsigned);
    let data = [0x42];
    let result = sig.extract_raw(&data);
    assert!(result.is_err());
}

#[test]
fn test_extract_signal_beyond_data() {
    let sig = SignalDef::new("Test", 56, 16)
        .with_byte_order(ByteOrder::LittleEndian)
        .with_value_type(ValueType::Unsigned);
    let data = [0x00, 0x00, 0x00, 0x00, 0x00, 0x00, 0x00, 0x00];
    let result = sig.extract_raw(&data);
    assert!(result.is_err());
}

#[test]
fn extract_rejects_invalid_lengths_and_sign_extends_64_bits() {
    let data = [0xFFu8; 8];
    let zero = SignalDef::new("Z", 0, 0).with_value_type(ValueType::Unsigned);
    assert!(zero.extract_raw(&data).is_err());
    let zero_signed = SignalDef::new("Z", 0, 0).with_value_type(ValueType::Signed);
    assert!(zero_signed.extract_raw(&data).is_err());
    let long = SignalDef::new("L", 0, 65).with_value_type(ValueType::Unsigned);
    let more = [0xFFu8; 9];
    assert!(long.extract_raw(&more).is_err());
    let full = SignalDef::new("F", 0, 64)
        .with_byte_order(ByteOrder::LittleEndian)
        .with_value_type(ValueType::Signed);
    assert_eq!(full.extract_raw(&data).unwrap(), -1);
}
