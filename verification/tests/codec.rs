use xpt_reader::byte2number;
use xpt_reader::number2Byte;
use xpt_reader::XPTError;

fn decode_f64(bytes: &[u8]) -> Option<f64> {
    byte2number(bytes).unwrap().map(f64::from_bits)
}

#[test]
fn test_byte2number() {
    assert_eq!(
        f64::from_bits(byte2number(&[63, 245, 194, 143, 92, 0]).unwrap().unwrap()),
        0.059999999997671694
    );
    assert_eq!(
        number2Byte(Some(0.059999999997671694f64.to_bits())),
        vec![63, 245, 194, 143, 92, 0, 0, 0]
    );
}

#[test]
fn decode_all_zero_bytes_is_zero() {
    assert_eq!(decode_f64(&[0u8; 8]), Some(0.0));
    assert_eq!(decode_f64(&[0u8; 3]), Some(0.0));
    assert_eq!(decode_f64(&[]), Some(0.0));
}

#[test]
fn decode_negative_zero() {
    let v = decode_f64(&[0x08, 0, 0, 0, 0, 0, 0, 0]).unwrap();
    assert_eq!(v, 0.0);
    assert!(v.is_sign_negative());
}

#[test]
fn decode_generic_missing() {
    assert_eq!(decode_f64(&[0x2E, 0, 0, 0, 0, 0, 0, 0]), None);
    assert_eq!(decode_f64(&[0x2E, 0, 0, 0, 0, 0]), None);
}

#[test]
fn decode_tagged_missing() {
    assert_eq!(decode_f64(&[0x41, 0, 0, 0, 0, 0, 0, 0]), None);
    assert_eq!(decode_f64(&[0x5A, 0, 0, 0, 0, 0, 0, 0]), None);
    assert_eq!(decode_f64(&[0x5F, 0, 0, 0, 0, 0, 0, 0]), None);
}

#[test]
fn decode_unreadable_zero_mantissa() {
    let r = byte2number(&[0x01, 0, 0, 0, 0, 0, 0, 0]);
    match r {
        Err(XPTError::ParseError(msg)) => assert_eq!(msg, "unreadable zero-mantissa value"),
        _ => panic!("expected a parse error"),
    }
    assert!(matches!(
        byte2number(&[0x30, 0, 0, 0, 0, 0, 0, 0]),
        Err(XPTError::ParseError(_))
    ));
}

#[test]
fn decode_one() {
    assert_eq!(decode_f64(&[0x41, 0x10, 0, 0, 0, 0, 0, 0]), Some(1.0));
}

#[test]
fn encode_special_values() {
    assert_eq!(number2Byte(None), vec![0u8; 8]);
    assert_eq!(number2Byte(Some(0.0f64.to_bits())), vec![0u8; 8]);
    assert_eq!(number2Byte(Some((-0.0f64).to_bits())), vec![0u8; 8]);
    assert_eq!(number2Byte(Some(f64::NAN.to_bits())), vec![0u8; 8]);
}

#[test]
fn round_trip_values() {
    let values = [
        1.0f64,
        -1.0,
        0.059999999997671694,
        3.14159265358979,
        -123456.789,
        1e-60,
        1e60,
        2.0_f64.powi(-200),
        2.0_f64.powi(200),
    ];
    for v in values {
        let enc = number2Byte(Some(v.to_bits()));
        let dec = decode_f64(&enc).unwrap();
        assert_eq!(dec.to_bits(), v.to_bits());
    }
}
