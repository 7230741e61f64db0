use vstd::prelude::*;

use crate::value::{RawValue, ValueModel};

verus! {

// A row's token is the concatenation of one self-delimiting encoding per
// non-null argument: a tag byte naming the value's type, then a fixed-width
// integer payload, or a length-prefixed byte payload. A row whose arguments
// are all null yields the empty token, so such a row still contributes
// exactly one distinct observation. The encoding is deterministic (a pure
// function of the values) and injective, which `lemma_token_injective`
// below proves by exhibiting a decoder.
pub const TAG_INT: u8 = 1;

pub const TAG_FLOAT: u8 = 2;

pub const TAG_TEXT: u8 = 3;

pub const TAG_BLOB: u8 = 4;

/// 256 raised to the power `k`.
pub open spec fn pow256(k: nat) -> int
    decreases k,
{
    if k == 0 {
        1
    } else {
        256 * pow256((k - 1) as nat)
    }
}

/// The `k` little-endian base-256 digits of `n`.
pub open spec fn le_bytes(n: int, k: nat) -> Seq<u8>
    recommends
        0 <= n,
    decreases k,
{
    if k == 0 {
        Seq::empty()
    } else {
        seq![(n % 256) as u8] + le_bytes(n / 256, (k - 1) as nat)
    }
}

/// Reads little-endian base-256 digits back as the number they encode.
pub open spec fn from_le(b: Seq<u8>) -> int
    decreases b.len(),
{
    if b.len() == 0 {
        0
    } else {
        b[0] + 256 * from_le(b.drop_first())
    }
}

/// A signed 64-bit value shifted into the range `[0, 2^64)`,
/// preserving order and injectivity.
pub open spec fn offset_i64(i: i64) -> int {
    i + 0x8000_0000_0000_0000
}

/// Inverse of `offset_i64`.
pub open spec fn unoffset_i64(n: int) -> i64 {
    (n - 0x8000_0000_0000_0000) as i64
}

/// The self-delimiting encoding of one non-null value.
pub open spec fn enc_value(v: ValueModel) -> Seq<u8>
    recommends
        !(v is Null),
{
    match v {
        ValueModel::Null => Seq::empty(),
        ValueModel::Int(i) => seq![TAG_INT] + le_bytes(offset_i64(i), 8),
        ValueModel::Float(bits) => seq![TAG_FLOAT] + le_bytes(bits as int, 8),
        ValueModel::Text(s) => seq![TAG_TEXT] + le_bytes(s.len() as int, 8) + s,
        ValueModel::Blob(b) => seq![TAG_BLOB] + le_bytes(b.len() as int, 8) + b,
    }
}

/// Whether a value's byte payload is small enough for its 8-byte length
/// prefix; every value held in actual memory satisfies this.
pub open spec fn value_len_ok(v: ValueModel) -> bool {
    match v {
        ValueModel::Text(s) => s.len() < pow256(8),
        ValueModel::Blob(b) => b.len() < pow256(8),
        _ => true,
    }
}

/// The subsequence of non-null values of a row, in row order.
pub open spec fn non_null(row: Seq<ValueModel>) -> Seq<ValueModel>
    decreases row.len(),
{
    if row.len() == 0 {
        Seq::empty()
    } else if row[0] is Null {
        non_null(row.drop_first())
    } else {
        seq![row[0]] + non_null(row.drop_first())
    }
}

/// The concatenated encoding of a sequence of (non-null) values.
pub open spec fn token_of(vs: Seq<ValueModel>) -> Seq<u8>
    decreases vs.len(),
{
    if vs.len() == 0 {
        Seq::empty()
    } else {
        enc_value(vs[0]) + token_of(vs.drop_first())
    }
}

/// The composite token that one row of argument values contributes.
pub open spec fn row_token_spec(row: Seq<ValueModel>) -> Seq<u8> {
    token_of(non_null(row))
}

/// The views of a row of argument values.
pub open spec fn models(row: Seq<RawValue>) -> Seq<ValueModel> {
    row.map_values(|v: RawValue| v@)
}

proof fn lemma_le_bytes_len(n: int, k: nat)
    ensures
        le_bytes(n, k).len() == k,
    decreases k,
{
    if k > 0 {
        lemma_le_bytes_len(n / 256, (k - 1) as nat);
    }
}

proof fn lemma_from_le_of_le_bytes(n: int, k: nat)
    requires
        0 <= n < pow256(k),
    ensures
        from_le(le_bytes(n, k)) == n,
    decreases k,
{
    if k > 0 {
        assert(0 <= n / 256 && n / 256 < pow256((k - 1) as nat)) by (nonlinear_arith)
            requires
                0 <= n,
                n < 256 * pow256((k - 1) as nat),
        ;
        lemma_from_le_of_le_bytes(n / 256, (k - 1) as nat);
        let b = le_bytes(n, k);
        assert(b.drop_first() =~= le_bytes(n / 256, (k - 1) as nat));
        assert(b[0] == (n % 256) as u8);
    }
}

proof fn lemma_pow256_8()
    ensures
        pow256(8) == 0x1_0000_0000_0000_0000,
{
    assert(pow256(0) == 1);
    assert(pow256(1) == 256);
    assert(pow256(2) == 0x1_0000);
    assert(pow256(3) == 0x100_0000);
    assert(pow256(4) == 0x1_0000_0000);
    assert(pow256(5) == 0x100_0000_0000);
    assert(pow256(6) == 0x1_0000_0000_0000);
    assert(pow256(7) == 0x100_0000_0000_0000);
    assert(pow256(8) == 0x1_0000_0000_0000_0000);
}

/// How appending one value extends the non-null projection of a row.
proof fn lemma_non_null_push(row: Seq<ValueModel>, v: ValueModel)
    ensures
        non_null(row.push(v)) == if v is Null {
            non_null(row)
        } else {
            non_null(row).push(v)
        },
    decreases row.len(),
{
    if row.len() == 0 {
        assert(row.push(v)[0] == v);
        assert(row.push(v).drop_first() =~= Seq::<ValueModel>::empty());
        assert(non_null(Seq::<ValueModel>::empty()) == Seq::<ValueModel>::empty());
        if v is Null {
            assert(non_null(row.push(v)) == non_null(row));
        } else {
            assert(non_null(row.push(v)) == seq![v] + Seq::<ValueModel>::empty());
            assert(seq![v] + Seq::<ValueModel>::empty() =~= non_null(row).push(v));
        }
    } else {
        assert(row.push(v)[0] == row[0]);
        assert(row.push(v).drop_first() =~= row.drop_first().push(v));
        lemma_non_null_push(row.drop_first(), v);
        if row[0] is Null {
            assert(non_null(row.push(v)) == non_null(row.drop_first().push(v)));
            assert(non_null(row) == non_null(row.drop_first()));
        } else {
            assert(non_null(row.push(v)) == seq![row[0]] + non_null(row.drop_first().push(v)));
            assert(non_null(row) == seq![row[0]] + non_null(row.drop_first()));
            if !(v is Null) {
                assert(seq![row[0]] + non_null(row.drop_first()).push(v) =~= (seq![row[0]]
                    + non_null(row.drop_first())).push(v));
            }
        }
    }
}

/// How appending one value extends a token.
proof fn lemma_token_push(vs: Seq<ValueModel>, v: ValueModel)
    ensures
        token_of(vs.push(v)) == token_of(vs) + enc_value(v),
    decreases vs.len(),
{
    if vs.len() == 0 {
        assert(vs.push(v)[0] == v);
        assert(vs.push(v).drop_first() =~= Seq::<ValueModel>::empty());
        assert(token_of(Seq::<ValueModel>::empty()) == Seq::<u8>::empty());
        assert(token_of(vs.push(v)) == enc_value(v) + Seq::<u8>::empty());
        assert(enc_value(v) + Seq::<u8>::empty() =~= token_of(vs) + enc_value(v));
    } else {
        assert(vs.push(v)[0] == vs[0]);
        assert(vs.push(v).drop_first() =~= vs.drop_first().push(v));
        lemma_token_push(vs.drop_first(), v);
        assert(token_of(vs.push(v)) == enc_value(vs[0]) + token_of(vs.drop_first().push(v)));
        assert(enc_value(vs[0]) + (token_of(vs.drop_first()) + enc_value(v)) =~= (enc_value(vs[0])
            + token_of(vs.drop_first())) + enc_value(v));
    }
}

/// The non-null projection holds no nulls, and only values drawn from the row.
proof fn lemma_non_null_props(row: Seq<ValueModel>)
    ensures
        forall|i: int|
            0 <= i < non_null(row).len() ==> !((#[trigger] non_null(row)[i]) is Null),
        forall|i: int|
            0 <= i < non_null(row).len() ==> exists|j: int|
                0 <= j < row.len() && #[trigger] non_null(row)[i] == row[j],
    decreases row.len(),
{
    if row.len() > 0 {
        lemma_non_null_props(row.drop_first());
        assert forall|i: int| 0 <= i < non_null(row).len() implies !((#[trigger] non_null(
            row,
        )[i]) is Null) && exists|j: int| 0 <= j < row.len() && non_null(row)[i] == row[j] by {
            let rest = non_null(row.drop_first());
            if row[0] is Null {
                assert(non_null(row)[i] == rest[i]);
                let j = choose|j: int|
                    0 <= j < row.drop_first().len() && rest[i] == row.drop_first()[j];
                assert(non_null(row)[i] == row[j + 1]);
            } else {
                if i == 0 {
                    assert(non_null(row)[i] == row[0]);
                } else {
                    assert(non_null(row)[i] == rest[i - 1]);
                    let j = choose|j: int|
                        0 <= j < row.drop_first().len() && rest[i - 1] == row.drop_first()[j];
                    assert(non_null(row)[i] == row[j + 1]);
                }
            }
        }
    }
}

/// A decoder for the token format: reads back the sequence of values a
/// token encodes, or nothing if the bytes are not a valid token. Its
/// existence is what makes the encoding injective.
pub open spec fn decode_token(t: Seq<u8>) -> Option<Seq<ValueModel>>
    decreases t.len(),
{
    if t.len() == 0 {
        Some(Seq::empty())
    } else if t[0] == TAG_INT && t.len() >= 9 {
        match decode_token(t.skip(9)) {
            Some(rest) => Some(
                seq![ValueModel::Int(unoffset_i64(from_le(t.subrange(1, 9))))] + rest,
            ),
            None => None,
        }
    } else if t[0] == TAG_FLOAT && t.len() >= 9 {
        match decode_token(t.skip(9)) {
            Some(rest) => Some(seq![ValueModel::Float(from_le(t.subrange(1, 9)) as u64)] + rest),
            None => None,
        }
    } else if (t[0] == TAG_TEXT || t[0] == TAG_BLOB) && t.len() >= 9 {
        let n = from_le(t.subrange(1, 9));
        if 0 <= n && t.len() >= 9 + n {
            let payload = t.subrange(9, 9 + n);
            match decode_token(t.skip(9 + n)) {
                Some(rest) => Some(
                    seq![
                        if t[0] == TAG_TEXT {
                            ValueModel::Text(payload)
                        } else {
                            ValueModel::Blob(payload)
                        },
                    ] + rest,
                ),
                None => None,
            }
        } else {
            None
        }
    } else {
        None
    }
}

/// Decoding inverts encoding: the token of any sequence of non-null,
/// realizable values decodes back to exactly that sequence.
proof fn lemma_decode_encode(vs: Seq<ValueModel>)
    requires
        forall|i: int|
            0 <= i < vs.len() ==> !((#[trigger] vs[i]) is Null) && value_len_ok(vs[i]),
    ensures
        decode_token(token_of(vs)) == Some(vs),
    decreases vs.len(),
{
    lemma_pow256_8();
    if vs.len() > 0 {
        let v = vs[0];
        let rest = vs.drop_first();
        let t = token_of(vs);
        let rt = token_of(rest);
        assert(forall|i: int|
            0 <= i < rest.len() ==> !((#[trigger] rest[i]) is Null) && value_len_ok(rest[i]));
        lemma_decode_encode(rest);
        match v {
            ValueModel::Null => {
                assert(false);
            },
            ValueModel::Int(i) => {
                lemma_le_bytes_len(offset_i64(i), 8);
                lemma_from_le_of_le_bytes(offset_i64(i), 8);
                assert(t[0] == TAG_INT);
                assert(t.subrange(1, 9) =~= le_bytes(offset_i64(i), 8));
                assert(t.skip(9) =~= rt);
                assert(unoffset_i64(offset_i64(i)) == i);
                assert(seq![v] + rest =~= vs);
            },
            ValueModel::Float(bits) => {
                lemma_le_bytes_len(bits as int, 8);
                lemma_from_le_of_le_bytes(bits as int, 8);
                assert(t[0] == TAG_FLOAT);
                assert(t.subrange(1, 9) =~= le_bytes(bits as int, 8));
                assert(t.skip(9) =~= rt);
                assert(seq![v] + rest =~= vs);
            },
            ValueModel::Text(s) => {
                let n = s.len() as int;
                lemma_le_bytes_len(n, 8);
                lemma_from_le_of_le_bytes(n, 8);
                assert(t[0] == TAG_TEXT);
                assert(t.subrange(1, 9) =~= le_bytes(n, 8));
                assert(t.len() >= 9 + n);
                assert(t.subrange(9, 9 + n) =~= s);
                assert(t.skip(9 + n) =~= rt);
                assert(seq![v] + rest =~= vs);
            },
            ValueModel::Blob(b) => {
                let n = b.len() as int;
                lemma_le_bytes_len(n, 8);
                lemma_from_le_of_le_bytes(n, 8);
                assert(t[0] == TAG_BLOB);
                assert(t.subrange(1, 9) =~= le_bytes(n, 8));
                assert(t.len() >= 9 + n);
                assert(t.subrange(9, 9 + n) =~= b);
                assert(t.skip(9 + n) =~= rt);
                assert(seq![v] + rest =~= vs);
            },
        }
    }
}

/// Tokenization is injective: two rows with the same token have the same
/// non-null values in the same order, so distinct tuples are never
/// conflated. The realizability bound holds of every value that fits in
/// memory.
pub proof fn lemma_token_injective(row1: Seq<ValueModel>, row2: Seq<ValueModel>)
    requires
        forall|i: int| 0 <= i < row1.len() ==> value_len_ok(#[trigger] row1[i]),
        forall|i: int| 0 <= i < row2.len() ==> value_len_ok(#[trigger] row2[i]),
        row_token_spec(row1) == row_token_spec(row2),
    ensures
        non_null(row1) == non_null(row2),
{
    lemma_non_null_props(row1);
    lemma_non_null_props(row2);
    assert forall|i: int| 0 <= i < non_null(row1).len() implies !((#[trigger] non_null(row1)[i])
        is Null) && value_len_ok(non_null(row1)[i]) by {
        let j = choose|j: int| 0 <= j < row1.len() && non_null(row1)[i] == row1[j];
        assert(value_len_ok(row1[j]));
    }
    assert forall|i: int| 0 <= i < non_null(row2).len() implies !((#[trigger] non_null(row2)[i])
        is Null) && value_len_ok(non_null(row2)[i]) by {
        let j = choose|j: int| 0 <= j < row2.len() && non_null(row2)[i] == row2[j];
        assert(value_len_ok(row2[j]));
    }
    lemma_decode_encode(non_null(row1));
    lemma_decode_encode(non_null(row2));
}

/// Rows whose arguments are all null share the canonical empty token, so
/// every such row contributes the same single observation.
pub proof fn lemma_all_null_row_token(row: Seq<ValueModel>)
    requires
        forall|i: int| 0 <= i < row.len() ==> (#[trigger] row[i]) is Null,
    ensures
        row_token_spec(row) == Seq::<u8>::empty(),
    decreases row.len(),
{
    if row.len() > 0 {
        assert(forall|i: int|
            0 <= i < row.drop_first().len() ==> (#[trigger] row.drop_first()[i]) is Null);
        lemma_all_null_row_token(row.drop_first());
    }
}

/// Appends the little-endian bytes of `n`, `k` digits wide.
fn push_le_bytes(out: &mut Vec<u8>, n: u64, k: usize)
    ensures
        final(out)@ == old(out)@ + le_bytes(n as int, k as nat),
    decreases k,
{
    if k > 0 {
        out.push((n % 256) as u8);
        push_le_bytes(out, n / 256, k - 1);
        proof {
            assert(out@ =~= old(out)@ + le_bytes(n as int, k as nat));
        }
    } else {
        proof {
            assert(out@ =~= old(out)@ + le_bytes(n as int, 0));
        }
    }
}

/// Appends a byte payload.
fn push_bytes(out: &mut Vec<u8>, b: &Vec<u8>)
    ensures
        final(out)@ == old(out)@ + b@,
{
    let mut j: usize = 0;
    while j < b.len()
        invariant
            0 <= j <= b@.len(),
            out@ == old(out)@ + b@.take(j as int),
        decreases b@.len() - j,
    {
        out.push(b[j]);
        proof {
            assert(b@.take(j + 1 as int) =~= b@.take(j as int).push(b@[j as int]));
            assert(out@ =~= old(out)@ + b@.take(j + 1 as int));
        }
        j = j + 1;
    }
    proof {
        assert(b@.take(b@.len() as int) =~= b@);
    }
}

/// The offset mapping of `offset_i64`, computed on machine integers.
fn offset_bits(i: i64) -> (u: u64)
    ensures
        u as int == offset_i64(i),
{
    if i >= 0 {
        (i as u64) + 0x8000_0000_0000_0000u64
    } else {
        ((i + 0x7FFF_FFFF_FFFF_FFFFi64) + 1) as u64
    }
}

/// Builds the composite token for one row of argument values: null
/// arguments are dropped, the rest are encoded in order with their type
/// tag. An all-null row yields the empty token.
pub fn row_token(values: &Vec<RawValue>) -> (t: Vec<u8>)
    ensures
        t@ == row_token_spec(models(values@)),
{
    let mut out: Vec<u8> = Vec::new();
    let mut idx: usize = 0;
    while idx < values.len()
        invariant
            0 <= idx <= values@.len(),
            out@ == row_token_spec(models(values@.take(idx as int))),
        decreases values@.len() - idx,
    {
        let ghost prefix = models(values@.take(idx as int));
        let ghost vm = values@[idx as int]@;
        match &values[idx] {
            RawValue::Null => {},
            RawValue::Int(i) => {
                out.push(TAG_INT);
                let u = offset_bits(*i);
                push_le_bytes(&mut out, u, 8);
            },
            RawValue::Float(bits) => {
                out.push(TAG_FLOAT);
                push_le_bytes(&mut out, *bits, 8);
            },
            RawValue::Text(s) => {
                out.push(TAG_TEXT);
                push_le_bytes(&mut out, s.len() as u64, 8);
                push_bytes(&mut out, s);
            },
            RawValue::Blob(b) => {
                out.push(TAG_BLOB);
                push_le_bytes(&mut out, b.len() as u64, 8);
                push_bytes(&mut out, b);
            },
        }
        proof {
            assert(models(values@.take(idx + 1 as int)) =~= prefix.push(vm));
            lemma_non_null_push(prefix, vm);
            lemma_token_push(non_null(prefix), vm);
            if !(vm is Null) {
                assert(out@ =~= row_token_spec(prefix) + enc_value(vm));
            }
        }
        idx = idx + 1;
    }
    proof {
        assert(values@.take(values@.len() as int) =~= values@);
    }
    out
}

} // verus!
