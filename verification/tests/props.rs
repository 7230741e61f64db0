use sqlite3_hyperminhash::accum::{
    hyperminhash_final, hyperminhash_serialize_final, hyperminhash_step, Accumulator,
};
use sqlite3_hyperminhash::error::HmhError;
use sqlite3_hyperminhash::funcs::{
    hyperminhash_add, hyperminhash_deserialize, hyperminhash_intersection, hyperminhash_zero,
};
use sqlite3_hyperminhash::value::{classify_value_type, RawValue, ValueKind};

fn estimate(rows: Vec<Vec<RawValue>>) -> f64 {
    if rows.is_empty() {
        return f64::from_bits(hyperminhash_final(None));
    }
    let mut acc = Accumulator::new();
    for row in &rows {
        hyperminhash_step(&mut acc, row);
    }
    f64::from_bits(hyperminhash_final(Some(acc)))
}

fn serialize_rows(rows: &[Vec<RawValue>]) -> Vec<u8> {
    let mut acc = Accumulator::new();
    for row in rows {
        hyperminhash_step(&mut acc, row);
    }
    hyperminhash_serialize_final(Some(acc))
}

fn int_rows(range: std::ops::Range<i64>) -> Vec<Vec<RawValue>> {
    range.map(|i| vec![RawValue::Int(i)]).collect()
}

#[test]
fn null_row_canonicalization() {
    // The first all-null row advances the estimate from 0 to about 1.
    let one = estimate(vec![vec![RawValue::Null, RawValue::Null, RawValue::Null]]);
    assert!(one > 0.8);
    assert!(one < 1.2);

    // Further all-null rows leave the sketch state byte-identical, whatever
    // their width: they all carry the canonical empty token.
    let first = serialize_rows(&[vec![RawValue::Null]]);
    let many = serialize_rows(&[
        vec![RawValue::Null],
        vec![RawValue::Null, RawValue::Null],
        vec![RawValue::Null, RawValue::Null, RawValue::Null],
    ]);
    assert_eq!(first, many);
}

#[test]
fn zero_row_identity() {
    // An aggregation that never saw a row reports exactly 0.0.
    let bits = hyperminhash_final(None);
    assert_eq!(bits, 0);
    assert_eq!(f64::from_bits(bits), 0.0);

    // The serialized empty sketch deserializes to exactly 0.0.
    let zero = hyperminhash_zero();
    let r = hyperminhash_deserialize(&RawValue::Blob(zero)).unwrap();
    assert_eq!(f64::from_bits(r), 0.0);
}

#[test]
fn round_trip_preserves_estimate() {
    let rows = vec![
        vec![RawValue::Int(7), RawValue::Text(b"abc".to_vec())],
        vec![RawValue::Float(1.5f64.to_bits())],
        vec![RawValue::Blob(vec![1, 2, 3])],
        vec![RawValue::Null],
    ];
    // Build the same sketch twice: once finalized, once serialized. The
    // decoded blob must report the very same estimate.
    let direct = {
        let mut acc = Accumulator::new();
        for row in &rows {
            hyperminhash_step(&mut acc, row);
        }
        hyperminhash_final(Some(acc))
    };
    let blob = serialize_rows(&rows);
    let via_blob = hyperminhash_deserialize(&RawValue::Blob(blob)).unwrap();
    assert_eq!(direct, via_blob);
}

#[test]
fn deserialize_ignores_trailing_bytes() {
    // The decoder consumes exactly the serialized registers; extra bytes
    // after them do not change the outcome.
    let mut blob = serialize_rows(&int_rows(0..25));
    let plain = hyperminhash_deserialize(&RawValue::Blob(blob.clone())).unwrap();
    blob.push(0xab);
    let padded = hyperminhash_deserialize(&RawValue::Blob(blob)).unwrap();
    assert_eq!(plain, padded);
}

#[test]
fn union_commutative_associative() {
    let a = serialize_rows(&int_rows(0..40));
    let b = serialize_rows(&int_rows(30..70));
    let c = serialize_rows(&int_rows(60..100));

    let ab = |x: &Vec<u8>, y: &Vec<u8>| {
        hyperminhash_add(&vec![RawValue::Blob(x.clone()), RawValue::Blob(y.clone())]).unwrap()
    };

    // Register-wise union makes both orders and both associations carry the
    // very same state, so the blobs agree byte for byte.
    assert_eq!(ab(&a, &b), ab(&b, &a));
    let left = ab(&ab(&a, &b), &c);
    let right = ab(&a, &ab(&b, &c));
    assert_eq!(left, right);

    let le = f64::from_bits(hyperminhash_deserialize(&RawValue::Blob(left)).unwrap());
    let re = f64::from_bits(hyperminhash_deserialize(&RawValue::Blob(right)).unwrap());
    assert_eq!(le, re);
    assert!((1.0 - (le / 100.0)).abs() < 0.05);
}

#[test]
fn add_of_nothing_is_zero() {
    // A fold over no blobs yields the serialized empty sketch.
    assert_eq!(hyperminhash_add(&Vec::new()).unwrap(), hyperminhash_zero());
}

#[test]
fn tuple_counted_once() {
    let tuple = || {
        vec![
            RawValue::Int(1),
            RawValue::Float(2.0f64.to_bits()),
            RawValue::Text(b"3.0".to_vec()),
            RawValue::Blob(b"4.0".to_vec()),
        ]
    };
    // The same tuple, however often inserted, leaves the state of a single
    // insertion.
    let once = serialize_rows(&[tuple()]);
    let hundred: Vec<Vec<RawValue>> = (0..100).map(|_| tuple()).collect();
    assert_eq!(once, serialize_rows(&hundred));

    // Two rows differing in a single column are two distinct tuples.
    let r = estimate(vec![
        vec![RawValue::Int(1), RawValue::Int(2)],
        vec![RawValue::Int(1), RawValue::Int(3)],
    ]);
    assert!(r > 1.5);
    assert!(r < 2.5);
}

#[test]
fn value_kinds_tokenize_distinctly() {
    // A zero-length blob, zero-length text, and an all-null row are three
    // different observations.
    let r = estimate(vec![
        vec![RawValue::Blob(Vec::new())],
        vec![RawValue::Text(Vec::new())],
        vec![RawValue::Null],
    ]);
    assert!(r > 2.4);
    assert!(r < 3.6);

    // Floats count by bit pattern: negative zero differs from zero, while
    // a NaN bit pattern repeated is one value.
    let nz = (-0.0f64).to_bits();
    let pz = 0.0f64.to_bits();
    let nan = f64::NAN.to_bits();
    let r = estimate(vec![
        vec![RawValue::Float(nz)],
        vec![RawValue::Float(pz)],
        vec![RawValue::Float(nan)],
        vec![RawValue::Float(nan)],
    ]);
    assert!(r > 2.4);
    assert!(r < 3.6);
}

#[test]
fn tokens_resist_prefix_collisions() {
    // Length prefixes keep adjacent byte payloads apart: these two rows
    // concatenate to the same characters but are different tuples.
    let r = estimate(vec![
        vec![RawValue::Text(b"ab".to_vec()), RawValue::Text(b"c".to_vec())],
        vec![RawValue::Text(b"a".to_vec()), RawValue::Text(b"bc".to_vec())],
    ]);
    assert!(r > 1.5);
    assert!(r < 2.5);

    // Type tags keep equal payloads of different kinds apart.
    let r = estimate(vec![
        vec![RawValue::Text(b"42".to_vec())],
        vec![RawValue::Blob(b"42".to_vec())],
    ]);
    assert!(r > 1.5);
    assert!(r < 2.5);
}

#[test]
fn error_messages() {
    assert_eq!(HmhError::ValueIsNotBlob.message(), "value is not of type BLOB");
    assert_eq!(HmhError::UnknownValueType.message(), "unknown value-type from sqlite");
    assert_eq!(
        HmhError::CorruptData.message(),
        "IO-error in hyperminhash: invalid sketch data"
    );
}

#[test]
fn classify_known_codes() {
    assert_eq!(classify_value_type(1), Ok(ValueKind::Integer));
    assert_eq!(classify_value_type(2), Ok(ValueKind::Float));
    assert_eq!(classify_value_type(3), Ok(ValueKind::Text));
    assert_eq!(classify_value_type(4), Ok(ValueKind::Blob));
    assert_eq!(classify_value_type(5), Ok(ValueKind::Null));
}

#[test]
fn classify_unknown_codes() {
    for code in [0u32, 6, 7, 100, u32::MAX] {
        assert_eq!(classify_value_type(code), Err(HmhError::UnknownValueType));
    }
}

#[test]
fn as_blob_accepts_only_blobs() {
    let b = RawValue::Blob(vec![9, 8, 7]);
    assert_eq!(b.as_blob().unwrap(), &vec![9u8, 8, 7]);
    let zero_len = RawValue::Blob(Vec::new());
    assert_eq!(zero_len.as_blob().unwrap().len(), 0);
    assert_eq!(RawValue::Int(1).as_blob(), Err(HmhError::ValueIsNotBlob));
    assert_eq!(RawValue::Null.as_blob(), Err(HmhError::ValueIsNotBlob));
}

#[test]
fn error_precedence_in_order() {
    let good = serialize_rows(&int_rows(0..10));
    // The first argument is checked before the second.
    let r = hyperminhash_intersection(&RawValue::Text(b"x".to_vec()), &RawValue::Blob(good.clone()));
    assert_eq!(r, Err(HmhError::ValueIsNotBlob));
    let r = hyperminhash_intersection(&RawValue::Blob(good.clone()), &RawValue::Blob(vec![0u8]));
    assert_eq!(r, Err(HmhError::CorruptData));
    // In a fold, the first offending argument decides the error.
    let r = hyperminhash_add(&vec![
        RawValue::Blob(good.clone()),
        RawValue::Int(5),
        RawValue::Blob(vec![0u8]),
    ]);
    assert_eq!(r, Err(HmhError::ValueIsNotBlob));
    let r = hyperminhash_add(&vec![
        RawValue::Blob(good),
        RawValue::Blob(vec![0u8]),
        RawValue::Int(5),
    ]);
    assert_eq!(r, Err(HmhError::CorruptData));
}

#[test]
fn scale_accuracy() {
    let rows: Vec<Vec<RawValue>> = (0..10_000i64)
        .map(|i| vec![RawValue::Int(i), RawValue::Text(format!("row-{}", i).into_bytes())])
        .collect();
    let once = serialize_rows(&rows);
    let r = f64::from_bits(hyperminhash_deserialize(&RawValue::Blob(once.clone())).unwrap());
    assert!((1.0 - (r / 10_000.0)).abs() < 0.05);

    // Inserting the same 10,000 tuples again changes nothing at all.
    let mut doubled = rows.clone();
    doubled.extend(rows);
    assert_eq!(once, serialize_rows(&doubled));
}
