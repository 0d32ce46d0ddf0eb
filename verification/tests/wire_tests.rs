use rivals_rwinner::wire::{
    decode_event, decode_record, emit_record, encode_record, forward_data, read_data, send_data_ipc, truncate,
    ByteOrder, ObservedRecord, RECORD_SIZE,
};

fn native() -> ByteOrder {
    if 1u16.to_ne_bytes()[0] == 1 {
        ByteOrder::Little
    } else {
        ByteOrder::Big
    }
}

#[test]
fn sample_values_round_trip_and_truncate() {
    let samples: [(f64, i32); 5] = [(0.0, 0), (1.0, 1), (2.0, 2), (-1.0, -1), (3.999, 3)];
    for (value, expected) in samples {
        let bytes = encode_record(value.to_bits(), native());
        assert_eq!(bytes, value.to_ne_bytes());
        let bits = decode_record(&bytes, native());
        assert_eq!(f64::from_bits(bits), value);
        assert_eq!(truncate(bits), expected);
        assert_eq!(decode_event(&bytes, native()), expected);
    }
}

#[test]
fn truncate_agrees_with_the_cast() {
    let values: [f64; 24] = [
        0.0, -0.0, 0.5, -0.5, 0.999_999, 1.0, -1.0, 1.5, -1.5, 3.999, -3.999, 1e9, -1e9,
        2147483647.0, 2147483647.5, 2147483648.0, -2147483648.0, -2147483648.5, -2147483649.0, 1e300, -1e300,
        f64::MIN_POSITIVE, 4.9e-324, 123456.789,
    ];
    for value in values {
        assert_eq!(truncate(value.to_bits()), value as i32, "{}", value);
    }
}

#[test]
fn truncate_of_special_values() {
    assert_eq!(truncate(f64::NAN.to_bits()), 0);
    assert_eq!(truncate((-f64::NAN).to_bits()), 0);
    assert_eq!(truncate(f64::INFINITY.to_bits()), i32::MAX);
    assert_eq!(truncate(f64::NEG_INFINITY.to_bits()), i32::MIN);
    assert_eq!(truncate(0x4000_0000_0000_0000), 2);
    assert_eq!(truncate(0xC008_0000_0000_0000), -3);
}

#[test]
fn record_has_eight_bytes_in_either_order() {
    assert_eq!(RECORD_SIZE, 8);
    let bits: u64 = 0x0102_0304_0506_0708;
    assert_eq!(encode_record(bits, ByteOrder::Little), bits.to_le_bytes());
    assert_eq!(encode_record(bits, ByteOrder::Big), bits.to_be_bytes());
    assert_eq!(decode_record(&[8, 7, 6, 5, 4, 3, 2, 1], ByteOrder::Little), bits);
    assert_eq!(decode_record(&[1, 2, 3, 4, 5, 6, 7, 8], ByteOrder::Big), bits);
    assert_eq!(decode_record(&[0xff; 8], ByteOrder::Little), u64::MAX);
    assert_eq!(encode_record(u64::MAX, ByteOrder::Big), [0xff; 8]);
}

#[test]
fn emitted_record_holds_the_value() {
    let record = ObservedRecord { value_bits: 2.0f64.to_bits(), field_8: 0, field_c: 7 };
    assert_eq!(emit_record(&record, native()), 2.0f64.to_ne_bytes());
}

#[test]
fn forward_record_is_the_native_integer() {
    for value in [0, 1, 2, -1, 3, i32::MAX, i32::MIN, 0x0102_0304, -123_456] {
        assert_eq!(send_data_ipc(value, native()), value.to_ne_bytes());
        assert_eq!(send_data_ipc(value, ByteOrder::Little), value.to_le_bytes());
        assert_eq!(send_data_ipc(value, ByteOrder::Big), value.to_be_bytes());
    }
}

#[test]
fn data_worker_decodes_and_forwards_two() {
    let received = 2.0f64.to_ne_bytes();
    let events = read_data(&received, native());
    assert_eq!(events, vec![2]);
    let forwarded = forward_data(&events, true, native());
    assert_eq!(forwarded, 2i32.to_ne_bytes().to_vec());
    assert_eq!(forwarded.len(), 4);
}

#[test]
fn nothing_is_forwarded_without_a_connection() {
    let events = vec![1, 2, 3];
    assert_eq!(forward_data(&events, false, native()), Vec::<u8>::new());
    assert_eq!(forward_data(&[], true, native()), Vec::<u8>::new());
}

#[test]
fn several_records_give_several_events() {
    let mut received: Vec<u8> = Vec::new();
    for value in [1.0f64, -1.0, 3.999, 2.0] {
        received.extend_from_slice(&value.to_le_bytes());
    }
    received.extend_from_slice(&[1, 2, 3]);
    let events = read_data(&received, ByteOrder::Little);
    assert_eq!(events, vec![1, -1, 3, 2]);
    let forwarded = forward_data(&events, true, ByteOrder::Big);
    assert_eq!(forwarded, vec![0, 0, 0, 1, 0xff, 0xff, 0xff, 0xff, 0, 0, 0, 3, 0, 0, 0, 2]);
}

#[test]
fn incomplete_record_gives_no_event() {
    assert_eq!(read_data(&[], ByteOrder::Little), Vec::<i32>::new());
    assert_eq!(read_data(&[0, 0, 0, 0, 0, 0, 0], ByteOrder::Little), Vec::<i32>::new());
}
