use vstd::prelude::*;

use hyperminhash::Sketch;

use crate::error::HmhError;
use crate::sketch::{
    bytes_of_regs, lemma_encode_decode_roundtrip, regs_of_blob, regs_union, sketch_add_bytes,
    sketch_cardinality_bits, sketch_load, sketch_new, sketch_regs, sketch_save, sketch_union,
    spec_add, spec_cardinality, valid_sketch_blob, zero_regs, REG_COUNT,
};
use crate::token::{models, row_token, row_token_spec};
use crate::value::{RawValue, ValueModel};

verus! {

/// The per-aggregation-group accumulator: one sketch, owned by the host's
/// per-group context slot from the first step call until the finalize call
/// consumes it. The host-facing shell allocates it lazily on the first step
/// of a group and never aliases it between groups.
pub struct Accumulator {
    sketch: Sketch,
}

impl Accumulator {
    /// The registers of the accumulated sketch.
    pub closed spec fn regs(&self) -> Seq<u16> {
        sketch_regs(self.sketch)
    }

    /// Well-formed: holds a full register array.
    pub open spec fn wf(&self) -> bool {
        self.regs().len() == REG_COUNT
    }

    /// A fresh accumulator over the empty sketch, created on the first step
    /// call for a group.
    pub fn new() -> (acc: Accumulator)
        ensures
            acc.wf(),
            acc.regs() == zero_regs(),
    {
        Accumulator { sketch: sketch_new() }
    }
}

/// One step call of the `hyperminhash` and `hyperminhash_serialize`
/// aggregates: inserts the row's composite token into the group's sketch.
/// Re-stepping a row with the same values (after null filtering) leaves the
/// state unchanged, so duplicate tuples are counted once.
pub fn hyperminhash_step(acc: &mut Accumulator, values: &Vec<RawValue>)
    requires
        old(acc).wf(),
    ensures
        final(acc).wf(),
        final(acc).regs() == spec_add(old(acc).regs(), row_token_spec(models(values@))),
        spec_add(final(acc).regs(), row_token_spec(models(values@))) == final(acc).regs(),
{
    let token = row_token(values);
    sketch_add_bytes(&mut acc.sketch, &token);
}

/// The finalize call of the `hyperminhash` aggregate: reports the group's
/// estimated cardinality as the bit pattern of a double. A group that never
/// saw a step call has no accumulator and reports exactly 0.0, as does a
/// group whose sketch is still empty.
pub fn hyperminhash_final(acc: Option<Accumulator>) -> (r: u64)
    requires
        acc matches Some(a) ==> a.wf(),
    ensures
        acc is None ==> r == 0,
        acc matches Some(a) ==> r == spec_cardinality(a.regs()),
        acc matches Some(a) && a.regs() == zero_regs() ==> r == 0,
{
    match acc {
        None => 0,
        Some(a) => sketch_cardinality_bits(&a.sketch),
    }
}

/// The finalize call of the `hyperminhash_serialize` and
/// `hyperminhash_union` aggregates: serializes the group's sketch. A group
/// that never saw a step call serializes the empty sketch.
pub fn hyperminhash_serialize_final(acc: Option<Accumulator>) -> (r: Vec<u8>)
    requires
        acc matches Some(a) ==> a.wf(),
    ensures
        acc is None ==> r@ == bytes_of_regs(zero_regs()) && regs_of_blob(r@) == zero_regs(),
        acc matches Some(a) ==> r@ == bytes_of_regs(a.regs()) && regs_of_blob(r@) == a.regs(),
        valid_sketch_blob(r@),
{
    proof {
        match &acc {
            None => lemma_encode_decode_roundtrip(zero_regs()),
            Some(a) => lemma_encode_decode_roundtrip(a.regs()),
        }
    }
    match acc {
        None => {
            let sk = sketch_new();
            sketch_save(&sk)
        },
        Some(a) => sketch_save(&a.sketch),
    }
}

/// One step call of the `hyperminhash_union` aggregate: decodes the row's
/// blob and unions it into the group's sketch. A non-blob argument or a
/// structurally invalid blob fails this one call and leaves the group's
/// state untouched.
pub fn hyperminhash_union_step(acc: &mut Accumulator, v: &RawValue) -> (r: Result<(), HmhError>)
    requires
        old(acc).wf(),
    ensures
        final(acc).wf(),
        !(v@ is Blob) ==> r == Err::<(), HmhError>(HmhError::ValueIsNotBlob) && *final(acc) == *old(
            acc,
        ),
        v@ matches ValueModel::Blob(b) ==> (!valid_sketch_blob(b) ==> r == Err::<(), HmhError>(
            HmhError::CorruptData,
        ) && *final(acc) == *old(acc)),
        v@ matches ValueModel::Blob(b) ==> (valid_sketch_blob(b) ==> r == Ok::<(), HmhError>(())
            && final(acc).regs() == regs_union(old(acc).regs(), regs_of_blob(b))),
{
    let blob = match v.as_blob() {
        Ok(b) => b,
        Err(e) => {
            return Err(e);
        },
    };
    match sketch_load(blob) {
        Some(sk) => {
            sketch_union(&mut acc.sketch, &sk);
            Ok(())
        },
        None => Err(HmhError::CorruptData),
    }
}

} // verus!
