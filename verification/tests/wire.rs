use gearbot::wire::{
    append_bytes, copy_bytes, decode_record, encode_record, read_field, write_field, SlotKind, Value,
};

fn schema() -> Vec<SlotKind> {
    vec![SlotKind::Number, SlotKind::Flag, SlotKind::Text, SlotKind::OptionalText, SlotKind::Ids]
}

fn encoded(values: &Vec<Value>) -> Vec<u8> {
    let mut out = Vec::new();
    encode_record(values, &mut out);
    out
}

#[test]
fn the_bytes_of_a_field() {
    let mut out = vec![0xaa];
    write_field(&mut out, 7, &[1, 2, 3]);
    assert_eq!(out, vec![0xaa, 7, 3, 0, 0, 0, 0, 0, 0, 0, 1, 2, 3]);
    let mut long = Vec::new();
    write_field(&mut long, 1, &vec![5u8; 258]);
    assert_eq!(&long[..9], &[1, 2, 1, 0, 0, 0, 0, 0, 0]);
    assert_eq!(long.len(), 9 + 258);
}

#[test]
fn a_field_is_found_where_it_begins() {
    let bytes = [9u8, 7, 3, 0, 0, 0, 0, 0, 0, 0, 1, 2, 3, 8, 0, 0, 0, 0, 0, 0, 0, 0];
    assert_eq!(read_field(&bytes, 1), Some((7, 10, 13)));
    assert_eq!(read_field(&bytes, 13), Some((8, 22, 22)));
    assert_eq!(read_field(&bytes, 0), None);
    assert_eq!(read_field(&bytes, 14), None);
    assert_eq!(read_field(&[1u8, 255, 255, 255, 255, 255, 255, 255, 255, 0], 0), None);
}

#[test]
fn bytes_are_appended_and_copied() {
    let mut out = vec![1, 2];
    append_bytes(&mut out, &[3, 4]);
    append_bytes(&mut out, &[]);
    assert_eq!(out, vec![1, 2, 3, 4]);
    assert_eq!(copy_bytes(&[5, 6]), vec![5, 6]);
}

#[test]
fn a_record_of_defaults_is_empty() {
    let values = vec![
        Value::Number(0),
        Value::Flag(false),
        Value::Text(String::new()),
        Value::OptionalText(None),
        Value::Ids(vec![]),
    ];
    assert_eq!(encoded(&values), Vec::<u8>::new());
    assert_eq!(decode_record(&schema(), &[]), Some(values));
}

#[test]
fn the_bytes_of_a_record() {
    let values = vec![
        Value::Number(0x0102_0304_0506_0708),
        Value::Flag(true),
        Value::Text(String::from("é")),
        Value::OptionalText(Some(String::new())),
        Value::Ids(vec![1, 0x0100]),
    ];
    let mut expected: Vec<u8> = Vec::new();
    expected.extend_from_slice(&[1, 8, 0, 0, 0, 0, 0, 0, 0, 8, 7, 6, 5, 4, 3, 2, 1]);
    expected.extend_from_slice(&[2, 1, 0, 0, 0, 0, 0, 0, 0, 1]);
    expected.extend_from_slice(&[3, 2, 0, 0, 0, 0, 0, 0, 0, 0xc3, 0xa9]);
    expected.extend_from_slice(&[4, 0, 0, 0, 0, 0, 0, 0, 0]);
    expected.extend_from_slice(&[5, 16, 0, 0, 0, 0, 0, 0, 0]);
    expected.extend_from_slice(&[1, 0, 0, 0, 0, 0, 0, 0, 0, 1, 0, 0, 0, 0, 0, 0]);
    assert_eq!(encoded(&values), expected);
    assert_eq!(decode_record(&schema(), &expected), Some(values));
}

#[test]
fn a_record_is_read_back_as_it_was_written() {
    let values = vec![
        Value::Number(u64::MAX),
        Value::Flag(false),
        Value::Text(String::from("a longer text with ünïcödé ✓")),
        Value::OptionalText(Some(String::from("x"))),
        Value::Ids(vec![u64::MAX, 0, 5]),
    ];
    assert_eq!(decode_record(&schema(), &encoded(&values)), Some(values));
}

#[test]
fn fields_may_come_in_any_order_and_the_last_one_wins() {
    let mut bytes: Vec<u8> = Vec::new();
    bytes.extend_from_slice(&[2, 1, 0, 0, 0, 0, 0, 0, 0, 1]);
    bytes.extend_from_slice(&[1, 8, 0, 0, 0, 0, 0, 0, 0, 5, 0, 0, 0, 0, 0, 0, 0]);
    bytes.extend_from_slice(&[2, 1, 0, 0, 0, 0, 0, 0, 0, 0]);
    bytes.extend_from_slice(&[6, 1, 0, 0, 0, 0, 0, 0, 0, 9]);
    assert_eq!(
        decode_record(&schema(), &bytes),
        Some(vec![
            Value::Number(5),
            Value::Flag(false),
            Value::Text(String::new()),
            Value::OptionalText(None),
            Value::Ids(vec![]),
        ])
    );
}

#[test]
fn malformed_records_are_refused() {
    // Cut inside the header of a field.
    assert_eq!(decode_record(&schema(), &[1, 8, 0, 0]), None);
    // A payload shorter than announced.
    assert_eq!(decode_record(&schema(), &[1, 8, 0, 0, 0, 0, 0, 0, 0, 5, 0, 0]), None);
    // A number of four bytes.
    assert_eq!(decode_record(&schema(), &[1, 4, 0, 0, 0, 0, 0, 0, 0, 5, 0, 0, 0]), None);
    // A flag that is 2.
    assert_eq!(decode_record(&schema(), &[2, 1, 0, 0, 0, 0, 0, 0, 0, 2]), None);
    // A flag of two bytes.
    assert_eq!(decode_record(&schema(), &[2, 2, 0, 0, 0, 0, 0, 0, 0, 1, 0]), None);
    // A text that is no UTF-8.
    assert_eq!(decode_record(&schema(), &[3, 1, 0, 0, 0, 0, 0, 0, 0, 0x80]), None);
    assert_eq!(decode_record(&schema(), &[4, 2, 0, 0, 0, 0, 0, 0, 0, 0xc3, 0x28]), None);
    // A list of identifiers of nine bytes.
    assert_eq!(decode_record(&schema(), &[5, 9, 0, 0, 0, 0, 0, 0, 0, 1, 2, 3, 4, 5, 6, 7, 8, 9]), None);
}

#[test]
fn a_record_without_slots_passes_over_every_field() {
    assert_eq!(decode_record(&vec![], &[1, 1, 0, 0, 0, 0, 0, 0, 0, 7]), Some(vec![]));
    assert_eq!(encoded(&vec![]), Vec::<u8>::new());
}
