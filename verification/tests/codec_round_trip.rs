//! The wire codec on concrete values: exact encodings, round trips, and
//! rejected payloads.

use roth::value::ValueTree;

fn position_tree(x: f64, y: f64) -> ValueTree {
    ValueTree::Table(vec![(
        "Position".to_string(),
        ValueTree::Table(vec![
            ("x".to_string(), ValueTree::Float(x.to_bits())),
            ("y".to_string(), ValueTree::Float(y.to_bits())),
        ]),
    )])
}

#[test]
fn unit_encodes_to_one_tag_byte() {
    assert_eq!(ValueTree::Unit.encode(), vec![0u8]);
}

#[test]
fn int_encodes_tag_then_little_endian() {
    assert_eq!(
        ValueTree::Int(1).encode(),
        vec![1u8, 1, 0, 0, 0, 0, 0, 0, 0]
    );
    assert_eq!(
        ValueTree::Int(-1).encode(),
        vec![1u8, 255, 255, 255, 255, 255, 255, 255, 255]
    );
}

#[test]
fn text_encodes_length_then_utf8() {
    let enc = ValueTree::Text("ab".to_string()).encode();
    assert_eq!(enc, vec![3u8, 2, 0, 0, 0, 0, 0, 0, 0, b'a', b'b']);
}

#[test]
fn unit_round_trips() {
    let enc = ValueTree::Unit.encode();
    assert_eq!(ValueTree::decode(&enc), Some(ValueTree::Unit));
}

#[test]
fn int_round_trips() {
    for v in [0i64, 1, -1, 42, i64::MIN, i64::MAX] {
        let enc = ValueTree::Int(v).encode();
        assert_eq!(ValueTree::decode(&enc), Some(ValueTree::Int(v)));
    }
}

#[test]
fn float_bits_round_trip_losslessly() {
    for v in [0.0f64, 1.0, 2.0, -1.5, f64::MIN_POSITIVE, f64::MAX] {
        let enc = ValueTree::Float(v.to_bits()).encode();
        match ValueTree::decode(&enc) {
            Some(ValueTree::Float(bits)) => assert_eq!(f64::from_bits(bits), v),
            other => panic!("decoded {:?}", other),
        }
    }
}

#[test]
fn text_round_trips_including_non_ascii() {
    for s in ["", "name", "Cube!", "gr\u{00fc}n \u{2603}"] {
        let enc = ValueTree::Text(s.to_string()).encode();
        assert_eq!(ValueTree::decode(&enc), Some(ValueTree::Text(s.to_string())));
    }
}

#[test]
fn nested_tree_round_trips() {
    let tree = ValueTree::Table(vec![
        (
            "Position".to_string(),
            ValueTree::Table(vec![
                ("x".to_string(), ValueTree::Float(1.0f64.to_bits())),
                ("y".to_string(), ValueTree::Float(2.0f64.to_bits())),
            ]),
        ),
        (
            "tags".to_string(),
            ValueTree::List(vec![
                ValueTree::Text("a".to_string()),
                ValueTree::Int(7),
                ValueTree::Unit,
            ]),
        ),
    ]);
    let enc = tree.encode();
    let back = ValueTree::decode(&enc).expect("well-formed encoding must decode");
    assert_eq!(back, tree);
}

#[test]
fn position_tree_round_trips() {
    let tree = position_tree(1.0, 2.0);
    let enc = tree.encode();
    assert_eq!(ValueTree::decode(&enc), Some(position_tree(1.0, 2.0)));
}

#[test]
fn empty_payload_is_rejected() {
    assert_eq!(ValueTree::decode(&vec![]), None);
}

#[test]
fn unknown_tag_is_rejected() {
    assert_eq!(ValueTree::decode(&vec![9u8]), None);
}

#[test]
fn truncated_int_is_rejected() {
    assert_eq!(ValueTree::decode(&vec![1u8, 1, 0]), None);
}

#[test]
fn trailing_bytes_are_rejected() {
    let mut enc = ValueTree::Unit.encode();
    enc.push(0);
    assert_eq!(ValueTree::decode(&enc), None);
}

#[test]
fn invalid_utf8_text_is_rejected() {
    // tag, length 2, then bytes that are no UTF-8 sequence
    let enc = vec![3u8, 2, 0, 0, 0, 0, 0, 0, 0, 0xff, 0xfe];
    assert_eq!(ValueTree::decode(&enc), None);
}

#[test]
fn overlong_text_length_is_rejected() {
    let enc = vec![3u8, 200, 0, 0, 0, 0, 0, 0, 0, b'a'];
    assert_eq!(ValueTree::decode(&enc), None);
}
