use galaxy::modem::{decode, encode, encode_number, DecodeError, NestedList};

fn bits(s: &str) -> Vec<bool> {
    s.chars().map(|c| c == '1').collect()
}

#[test]
fn encode_zero() {
    assert_eq!(encode_number(0), bits("010"));
}

#[test]
fn encode_one() {
    assert_eq!(encode_number(1), bits("01100001"));
}

#[test]
fn encode_minus_one() {
    assert_eq!(encode_number(-1), bits("10100001"));
}

#[test]
fn encode_sixteen() {
    assert_eq!(encode_number(16), bits("0111000010000"));
}

#[test]
fn encode_minus_sixteen() {
    assert_eq!(encode_number(-16), bits("1011000010000"));
}

#[test]
fn encode_two_fifty_five() {
    assert_eq!(encode_number(255), bits("0111011111111"));
}

#[test]
fn encode_nil_value() {
    assert_eq!(encode(&NestedList::Nil), bits("00"));
}

#[test]
fn encode_pair_of_numbers() {
    let pair = NestedList::Cons(
        Box::new(NestedList::Number(1)),
        Box::new(NestedList::Number(2)),
    );
    assert_eq!(encode(&pair), bits("110110000101100010"));
}

#[test]
fn round_trip_small_numbers() {
    for n in -300i64..300i64 {
        let enc = encode_number(n);
        let (v, used) = decode(&enc).unwrap();
        assert_eq!(v, NestedList::Number(n));
        assert_eq!(used, enc.len());
    }
}

#[test]
fn round_trip_extremes() {
    for n in [i64::MAX, i64::MIN, i64::MAX - 1, i64::MIN + 1, 1 << 62, -(1 << 62)] {
        let enc = encode_number(n);
        let (v, used) = decode(&enc).unwrap();
        assert_eq!(v, NestedList::Number(n));
        assert_eq!(used, enc.len());
    }
}

#[test]
fn round_trip_nested_list() {
    // (1, (2, nil)) as a cons chain
    let list = NestedList::Cons(
        Box::new(NestedList::Number(1)),
        Box::new(NestedList::Cons(
            Box::new(NestedList::Number(2)),
            Box::new(NestedList::Nil),
        )),
    );
    let enc = encode(&list);
    let (v, used) = decode(&enc).unwrap();
    assert_eq!(v, list);
    assert_eq!(used, enc.len());
}

#[test]
fn decode_reports_consumed_prefix() {
    let mut enc = encode_number(5);
    let expected = enc.len();
    enc.extend_from_slice(&[true, false, true]);
    let (v, used) = decode(&enc).unwrap();
    assert_eq!(v, NestedList::Number(5));
    assert_eq!(used, expected);
}

#[test]
fn decode_empty_fails() {
    assert_eq!(decode(&Vec::new()), Err(DecodeError::UnexpectedEnd));
}

#[test]
fn decode_unterminated_unary_prefix_fails() {
    // sign `01`, then ones with no terminating zero
    assert_eq!(decode(&bits("0111")), Err(DecodeError::UnexpectedEnd));
}

#[test]
fn decode_missing_magnitude_fails() {
    // sign `01`, one group announced, only three magnitude bits present
    assert_eq!(decode(&bits("0110000")), Err(DecodeError::UnexpectedEnd));
}

#[test]
fn decode_half_pair_fails() {
    // `11` then nil then nothing: the second component is missing
    assert_eq!(decode(&bits("1100")), Err(DecodeError::UnexpectedEnd));
}

#[test]
fn decode_out_of_range_number_fails() {
    // a positive number of sixteen groups whose top bit is set: 2^63
    let mut v = bits("01");
    for _ in 0..16 {
        v.push(true);
    }
    v.push(false);
    v.push(true);
    for _ in 0..63 {
        v.push(false);
    }
    assert_eq!(decode(&v), Err(DecodeError::NumberOutOfRange));
}

#[test]
fn decode_least_number_in_range() {
    // the negative number 2^63 is exactly representable
    let enc = encode_number(i64::MIN);
    let (v, _) = decode(&enc).unwrap();
    assert_eq!(v, NestedList::Number(i64::MIN));
}
