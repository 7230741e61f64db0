use hyperminhash::Sketch;
use sqlite3_hyperminhash::accum::{
    hyperminhash_serialize_final, hyperminhash_step, hyperminhash_union_step, Accumulator,
};
use sqlite3_hyperminhash::error::HmhError;
use sqlite3_hyperminhash::funcs::{
    hyperminhash_add, hyperminhash_deserialize, hyperminhash_intersection, hyperminhash_zero,
};
use sqlite3_hyperminhash::value::RawValue;

fn expect_error_msg<T: std::fmt::Debug>(r: Result<T, HmhError>, needle: &str, err_msg: &str) {
    match r {
        Err(e) if e.message().contains(needle) => {},
        other => {
            panic!("{} {:?}", err_msg, other);
        },
    }
}

/// Serializes the aggregate over single-integer rows drawn from a range.
fn serialize_range(range: std::ops::Range<i64>) -> Vec<u8> {
    let mut acc = Accumulator::new();
    for i in range {
        hyperminhash_step(&mut acc, &vec![RawValue::Int(i)]);
    }
    hyperminhash_serialize_final(Some(acc))
}

#[test]
fn zero() {
    // Count is zero
    let buf = hyperminhash_zero();
    let sketch = Sketch::load(&buf[..]).unwrap();
    assert_eq!(sketch.cardinality(), 0.0);
}

#[test]
fn serialize() {
    // Count is zero
    let buf = hyperminhash_serialize_final(None);
    let sketch = Sketch::load(&buf[..]).unwrap();
    assert_eq!(sketch.cardinality(), 0.0);

    // Count is not zero
    let buf = serialize_range(0..1);
    let r = Sketch::load(&buf[..]).unwrap().cardinality();
    assert!((1.0 - r).abs() < 0.05);
}

#[test]
fn deserialize() {
    let sketch: Sketch = (0..100).collect();
    let mut buf: Vec<u8> = Vec::new();
    sketch.save(&mut buf).unwrap();

    let r = hyperminhash_deserialize(&RawValue::Blob(buf)).unwrap();
    assert_eq!(f64::from_bits(r), sketch.cardinality());
}

#[test]
fn deserialize_wrong_type() {
    let r = hyperminhash_deserialize(&RawValue::Text(b"foo".to_vec()));
    expect_error_msg(r, "not of type BLOB", "did not complain about type:");
}

#[test]
fn deserialize_bad_data() {
    let r = hyperminhash_deserialize(&RawValue::Blob(vec![0u8]));
    expect_error_msg(r, "IO-error in hyperminhash", "unpacked bad data without error");
}

#[test]
fn add() {
    let mut data = hyperminhash_zero();

    let first = serialize_range(0..100);
    data = hyperminhash_add(&vec![RawValue::Blob(data), RawValue::Blob(first)]).unwrap();
    let r = f64::from_bits(hyperminhash_deserialize(&RawValue::Blob(data.clone())).unwrap());
    assert!((1.0 - (r / 100.0)).abs() < 0.05);

    let second = serialize_range(100..200);
    data = hyperminhash_add(&vec![RawValue::Blob(data), RawValue::Blob(second)]).unwrap();
    let r = f64::from_bits(hyperminhash_deserialize(&RawValue::Blob(data)).unwrap());
    assert!((1.0 - (r / 200.0)).abs() < 0.05);
}

#[test]
fn add_wrong_type() {
    let r = hyperminhash_add(&vec![RawValue::Text(b"foo".to_vec())]);
    expect_error_msg(r, "not of type BLOB", "did not complain about type:");
}

#[test]
fn add_bad_data() {
    let r = hyperminhash_add(&vec![RawValue::Blob(vec![0u8])]);
    expect_error_msg(r, "IO-error in hyperminhash", "unpacked bad data without error");
}

#[test]
fn union() {
    let low = serialize_range(0..51);
    let high = serialize_range(51..100);

    let mut acc = Accumulator::new();
    hyperminhash_union_step(&mut acc, &RawValue::Blob(low)).unwrap();
    hyperminhash_union_step(&mut acc, &RawValue::Blob(high)).unwrap();
    let data = hyperminhash_serialize_final(Some(acc));

    let r = f64::from_bits(hyperminhash_deserialize(&RawValue::Blob(data)).unwrap());
    assert!((1.0 - (r / 100.0)).abs() < 0.05);
}

#[test]
fn union_wrong_type() {
    let mut acc = Accumulator::new();
    let r = hyperminhash_union_step(&mut acc, &RawValue::Text(b"foo".to_vec()));
    expect_error_msg(r, "not of type BLOB", "did not complain about type:");
}

#[test]
fn union_bad_data() {
    let mut acc = Accumulator::new();
    let r = hyperminhash_union_step(&mut acc, &RawValue::Blob(vec![0u8]));
    expect_error_msg(r, "IO-error in hyperminhash", "unpacked bad data without error");
}

#[test]
fn intersection() {
    let low = serialize_range(0..750);
    let high = serialize_range(250..1000);

    let r = hyperminhash_intersection(&RawValue::Blob(low), &RawValue::Blob(high)).unwrap();
    let r = f64::from_bits(r);
    assert!((1.0 - (r / 500.0)).abs() < 0.05);
}

#[test]
fn intersection_wrong_type() {
    let r = hyperminhash_intersection(
        &RawValue::Text(b"foo".to_vec()),
        &RawValue::Text(b"bar".to_vec()),
    );
    expect_error_msg(r, "not of type BLOB", "did not complain about type:");
}

#[test]
fn intersection_bad_data() {
    let r = hyperminhash_intersection(&RawValue::Blob(vec![0u8]), &RawValue::Blob(vec![0u8]));
    expect_error_msg(r, "IO-error in hyperminhash", "unpacked bad data without error");
}
