use vstd::prelude::*;

use crate::error::HmhError;
use crate::sketch::{
    bytes_of_regs, lemma_encode_decode_roundtrip, regs_of_blob, regs_union,
    sketch_cardinality_bits, sketch_intersection_bits, sketch_load, sketch_new, sketch_regs,
    sketch_save, sketch_union, spec_cardinality, spec_intersection, valid_sketch_blob, zero_regs,
    REG_COUNT,
};
use crate::token::models;
use crate::value::{RawValue, ValueModel};

verus! {

/// Whether one argument value is a structurally valid sketch blob.
pub open spec fn blob_ok(v: ValueModel) -> bool {
    v matches ValueModel::Blob(b) && valid_sketch_blob(b)
}

/// The error reported for an argument that is not a valid sketch blob:
/// wrong type, or a blob whose bytes do not decode.
pub open spec fn blob_error(v: ValueModel) -> HmhError {
    if !(v is Blob) {
        HmhError::ValueIsNotBlob
    } else {
        HmhError::CorruptData
    }
}

/// Whether every argument of a row is a valid sketch blob.
pub open spec fn blobs_ok(row: Seq<ValueModel>) -> bool {
    forall|i: int| 0 <= i < row.len() ==> blob_ok(#[trigger] row[i])
}

/// The register-wise union of all the sketches a row of blobs encodes,
/// folded left starting from the empty sketch.
pub open spec fn fold_regs(row: Seq<ValueModel>) -> Seq<u16>
    recommends
        blobs_ok(row),
    decreases row.len(),
{
    if row.len() == 0 {
        zero_regs()
    } else {
        regs_union(fold_regs(row.drop_last()), regs_of_blob(row.last()->Blob_0))
    }
}

/// The `hyperminhash_zero()` scalar: the serialized empty sketch. The blob
/// is structurally valid and decodes back to the empty sketch, which
/// `hyperminhash_deserialize` reports as exactly 0.0.
pub fn hyperminhash_zero() -> (r: Vec<u8>)
    ensures
        r@ == bytes_of_regs(zero_regs()),
        valid_sketch_blob(r@),
        regs_of_blob(r@) == zero_regs(),
{
    proof {
        lemma_encode_decode_roundtrip(zero_regs());
    }
    let sk = sketch_new();
    sketch_save(&sk)
}

/// The `hyperminhash_deserialize(blob)` scalar: decodes a blob and reports
/// the estimated cardinality of the sketch it holds, as the bit pattern of
/// a double. A non-blob argument is a type mismatch; a blob that does not
/// decode is corrupt data; the serialized empty sketch reports exactly 0.0.
pub fn hyperminhash_deserialize(v: &RawValue) -> (r: Result<u64, HmhError>)
    ensures
        !(v@ is Blob) ==> r == Err::<u64, HmhError>(HmhError::ValueIsNotBlob),
        v@ matches ValueModel::Blob(b) ==> (!valid_sketch_blob(b) ==> r == Err::<u64, HmhError>(
            HmhError::CorruptData,
        )),
        v@ matches ValueModel::Blob(b) ==> (valid_sketch_blob(b) ==> r == Ok::<u64, HmhError>(
            spec_cardinality(regs_of_blob(b)),
        )),
        v@ matches ValueModel::Blob(b) ==> (valid_sketch_blob(b) && regs_of_blob(b) == zero_regs()
            ==> r == Ok::<u64, HmhError>(0)),
{
    match v.as_blob() {
        Err(e) => Err(e),
        Ok(blob) => match sketch_load(blob) {
            None => Err(HmhError::CorruptData),
            Some(sk) => Ok(sketch_cardinality_bits(&sk)),
        },
    }
}

/// The `hyperminhash_add(blob, ...)` scalar: decodes every argument and
/// serializes the union of all of them; no arguments yields the serialized
/// empty sketch. The first argument that is not a valid blob fails the call
/// with its own error, in argument order.
pub fn hyperminhash_add(values: &Vec<RawValue>) -> (r: Result<Vec<u8>, HmhError>)
    ensures
        r is Ok <==> blobs_ok(models(values@)),
        r matches Ok(out) ==> out@ == bytes_of_regs(fold_regs(models(values@))),
        r matches Ok(out) ==> valid_sketch_blob(out@) && regs_of_blob(out@) == fold_regs(
            models(values@),
        ),
        r matches Err(e) ==> exists|i: int|
            0 <= i < values@.len() && !blob_ok(#[trigger] models(values@)[i]) && e == blob_error(
                models(values@)[i],
            ) && (forall|j: int| 0 <= j < i ==> blob_ok(#[trigger] models(values@)[j])),
{
    let mut acc = sketch_new();
    let mut idx: usize = 0;
    while idx < values.len()
        invariant
            0 <= idx <= values@.len(),
            sketch_regs(acc) == fold_regs(models(values@.take(idx as int))),
            sketch_regs(acc).len() == REG_COUNT,
            forall|j: int| 0 <= j < idx ==> blob_ok(#[trigger] models(values@)[j]),
        decreases values@.len() - idx,
    {
        let ghost prefix = models(values@.take(idx as int));
        let ghost vm = values@[idx as int]@;
        let blob = match values[idx].as_blob() {
            Ok(b) => b,
            Err(e) => {
                proof {
                    assert(!blob_ok(models(values@)[idx as int]));
                }
                return Err(e);
            },
        };
        let sk = match sketch_load(blob) {
            Some(sk) => sk,
            None => {
                proof {
                    assert(!blob_ok(models(values@)[idx as int]));
                }
                return Err(HmhError::CorruptData);
            },
        };
        sketch_union(&mut acc, &sk);
        proof {
            assert(models(values@.take(idx + 1 as int)) =~= prefix.push(vm));
            assert(prefix.push(vm).drop_last() =~= prefix);
            assert(models(values@)[idx as int] == vm);
        }
        idx = idx + 1;
    }
    proof {
        assert(values@.take(values@.len() as int) =~= values@);
        lemma_encode_decode_roundtrip(fold_regs(models(values@)));
    }
    Ok(sketch_save(&acc))
}

/// The `hyperminhash_intersection(blob, blob)` scalar: decodes both
/// arguments, in order, and reports the estimated cardinality of their
/// intersection as the bit pattern of a double; neither input is changed.
pub fn hyperminhash_intersection(v1: &RawValue, v2: &RawValue) -> (r: Result<u64, HmhError>)
    ensures
        !blob_ok(v1@) ==> r == Err::<u64, HmhError>(blob_error(v1@)),
        blob_ok(v1@) && !blob_ok(v2@) ==> r == Err::<u64, HmhError>(blob_error(v2@)),
        v1@ matches ValueModel::Blob(b1) ==> (v2@ matches ValueModel::Blob(b2) ==> (
        valid_sketch_blob(b1) && valid_sketch_blob(b2) ==> r == Ok::<u64, HmhError>(
            spec_intersection(regs_of_blob(b1), regs_of_blob(b2)),
        ))),
{
    let sk1 = match v1.as_blob() {
        Err(e) => {
            return Err(e);
        },
        Ok(blob) => match sketch_load(blob) {
            None => {
                return Err(HmhError::CorruptData);
            },
            Some(sk) => sk,
        },
    };
    let sk2 = match v2.as_blob() {
        Err(e) => {
            return Err(e);
        },
        Ok(blob) => match sketch_load(blob) {
            None => {
                return Err(HmhError::CorruptData);
            },
            Some(sk) => sk,
        },
    };
    Ok(sketch_intersection_bits(&sk1, &sk2))
}

} // verus!
