use vstd::prelude::*;

use hyperminhash::Sketch;

verus! {

// The sketch is modelled by its registers: hyperminhash's `Sketch` is a
// fixed array of 16384 16-bit registers, each insertion raises at most one
// register via a maximum, the union of two sketches is the register-wise
// maximum, and the serialized form is the registers as little-endian byte
// pairs. Estimates (cardinality, intersection) are pure functions of the
// registers whose formulas are the library's own business; they are given
// names here and pinned down only where the library documents an exact
// value (the empty sketch estimates exactly zero).
#[verifier::external_type_specification]
#[verifier::external_body]
pub struct ExSketch(Sketch);

/// How many registers a sketch holds.
pub const REG_COUNT: usize = 16384;

/// The exact byte length of a serialized sketch.
pub const SKETCH_BYTES: usize = 32768;

/// The registers of a sketch.
pub uninterp spec fn sketch_regs(sk: Sketch) -> Seq<u16>;

/// The registers after one byte string is inserted into a sketch with the
/// given registers.
pub uninterp spec fn spec_add(regs: Seq<u16>, token: Seq<u8>) -> Seq<u16>;

/// The cardinality estimate of a sketch with the given registers, as the
/// bit pattern of the IEEE-754 double it reports.
pub uninterp spec fn spec_cardinality(regs: Seq<u16>) -> u64;

/// The intersection estimate of two sketches, as the bit pattern of the
/// IEEE-754 double it reports.
pub uninterp spec fn spec_intersection(a: Seq<u16>, b: Seq<u16>) -> u64;

/// The all-zero registers of a fresh, empty sketch.
pub open spec fn zero_regs() -> Seq<u16> {
    Seq::new(REG_COUNT as nat, |i: int| 0u16)
}

/// The register-wise maximum of two register arrays.
pub open spec fn regs_union(a: Seq<u16>, b: Seq<u16>) -> Seq<u16>
    recommends
        a.len() == b.len(),
{
    Seq::new(a.len(), |i: int| if a[i] >= b[i] { a[i] } else { b[i] })
}

/// The serialized form of a register array: each register as two
/// little-endian bytes, in register order.
pub open spec fn bytes_of_regs(regs: Seq<u16>) -> Seq<u8> {
    Seq::new(
        regs.len() * 2,
        |i: int|
            if i % 2 == 0 {
                (regs[i / 2] % 256) as u8
            } else {
                (regs[i / 2] / 256) as u8
            },
    )
}

/// The register array read back from serialized bytes.
pub open spec fn regs_of_bytes(b: Seq<u8>) -> Seq<u16> {
    Seq::new(b.len() / 2, |i: int| (b[2 * i] + 256 * b[2 * i + 1]) as u16)
}

/// Whether a blob holds a structurally valid serialized sketch: the decoder
/// consumes exactly `SKETCH_BYTES` bytes from the front and fails on
/// anything shorter; trailing bytes are ignored.
pub open spec fn valid_sketch_blob(b: Seq<u8>) -> bool {
    b.len() >= SKETCH_BYTES
}

/// The registers a valid blob stands for.
pub open spec fn regs_of_blob(b: Seq<u8>) -> Seq<u16> {
    regs_of_bytes(b.take(SKETCH_BYTES as int))
}

/// Relies on `hyperminhash::Sketch::default`: a fresh sketch has every
/// register zero.
#[verifier::external_body]
pub fn sketch_new() -> (sk: Sketch)
    ensures
        sketch_regs(sk) == zero_regs(),
{
    Sketch::default()
}

/// Relies on `hyperminhash::Sketch::add_bytes`: the new registers are a pure
/// function of the old registers and the inserted bytes (the hash is an
/// unseeded xxh3, deterministic across processes and machines); the update
/// raises at most one register to a maximum, so the length is kept and
/// inserting the same bytes again changes nothing.
#[verifier::external_body]
pub fn sketch_add_bytes(sk: &mut Sketch, token: &Vec<u8>)
    ensures
        sketch_regs(*final(sk)) == spec_add(sketch_regs(*old(sk)), token@),
        sketch_regs(*final(sk)).len() == sketch_regs(*old(sk)).len(),
        spec_add(sketch_regs(*final(sk)), token@) == sketch_regs(*final(sk)),
{
    sk.add_bytes(token.as_slice());
}

/// Relies on `hyperminhash::Sketch::union`: every register of `sk` becomes
/// the maximum of itself and the corresponding register of `other`.
#[verifier::external_body]
pub fn sketch_union(sk: &mut Sketch, other: &Sketch)
    ensures
        sketch_regs(*final(sk)) == regs_union(sketch_regs(*old(sk)), sketch_regs(*other)),
{
    sk.union(other);
}

/// Relies on `hyperminhash::Sketch::cardinality`: the estimate is a pure
/// function of the registers, and an all-zero sketch reports exactly 0.0
/// (stated in the library's documentation and asserted by its own tests);
/// the bit pattern of 0.0 is 0.
#[verifier::external_body]
pub fn sketch_cardinality_bits(sk: &Sketch) -> (r: u64)
    ensures
        r == spec_cardinality(sketch_regs(*sk)),
        sketch_regs(*sk) == zero_regs() ==> r == 0,
{
    sk.cardinality().to_bits()
}

/// Relies on `hyperminhash::Sketch::intersection`: the estimate is a pure
/// function of the two registers arrays and mutates neither sketch.
#[verifier::external_body]
pub fn sketch_intersection_bits(a: &Sketch, b: &Sketch) -> (r: u64)
    ensures
        r == spec_intersection(sketch_regs(*a), sketch_regs(*b)),
{
    a.intersection(b).to_bits()
}

/// Relies on `hyperminhash::Sketch::save`: writes each register as two
/// little-endian bytes, in order. Writing into a `Vec` is infallible, so
/// the saved form is always produced whole.
#[verifier::external_body]
pub fn sketch_save(sk: &Sketch) -> (r: Vec<u8>)
    ensures
        r@ == bytes_of_regs(sketch_regs(*sk)),
{
    let mut buf: Vec<u8> = Vec::with_capacity(SKETCH_BYTES);
    sk.save(&mut buf).expect("writing to a Vec cannot fail");
    buf
}

/// Relies on `hyperminhash::Sketch::load`: reads exactly two bytes per
/// register from the front of the byte slice, failing exactly when the
/// slice is too short; bytes past the registers are ignored.
#[verifier::external_body]
pub fn sketch_load(b: &Vec<u8>) -> (r: Option<Sketch>)
    ensures
        r is Some <==> valid_sketch_blob(b@),
        r matches Some(sk) ==> sketch_regs(sk) == regs_of_blob(b@),
{
    Sketch::load(b.as_slice()).ok()
}

/// Serialization round-trips: reading the written bytes restores the
/// registers exactly.
pub proof fn lemma_regs_roundtrip(regs: Seq<u16>)
    ensures
        bytes_of_regs(regs).len() == 2 * regs.len(),
        regs_of_bytes(bytes_of_regs(regs)) == regs,
{
    let b = bytes_of_regs(regs);
    assert forall|i: int| 0 <= i < regs.len() implies regs_of_bytes(b)[i] == regs[i] by {
        assert(b[2 * i] == (regs[i] % 256) as u8);
        assert(b[2 * i + 1] == (regs[i] / 256) as u8);
    }
    assert(regs_of_bytes(b) =~= regs);
}

/// Any sketch state serializes to a valid blob whose decoding restores
/// exactly that state, and therefore the same cardinality estimate.
pub proof fn lemma_encode_decode_roundtrip(regs: Seq<u16>)
    requires
        regs.len() == REG_COUNT,
    ensures
        bytes_of_regs(regs).len() == SKETCH_BYTES,
        valid_sketch_blob(bytes_of_regs(regs)),
        regs_of_blob(bytes_of_regs(regs)) == regs,
        spec_cardinality(regs_of_blob(bytes_of_regs(regs))) == spec_cardinality(regs),
{
    lemma_regs_roundtrip(regs);
    assert(bytes_of_regs(regs).take(SKETCH_BYTES as int) =~= bytes_of_regs(regs));
}

/// Register-wise union is commutative.
pub proof fn lemma_union_comm(a: Seq<u16>, b: Seq<u16>)
    requires
        a.len() == b.len(),
    ensures
        regs_union(a, b) == regs_union(b, a),
{
    assert(regs_union(a, b) =~= regs_union(b, a));
}

/// Register-wise union is associative.
pub proof fn lemma_union_assoc(a: Seq<u16>, b: Seq<u16>, c: Seq<u16>)
    requires
        a.len() == b.len(),
        b.len() == c.len(),
    ensures
        regs_union(regs_union(a, b), c) == regs_union(a, regs_union(b, c)),
{
    assert(regs_union(regs_union(a, b), c) =~= regs_union(a, regs_union(b, c)));
}

/// The empty sketch is a unit for union: folding blobs into a fresh sketch
/// (as `hyperminhash_add` does) carries the same registers as folding from
/// the first blob itself.
pub proof fn lemma_union_zero(a: Seq<u16>)
    requires
        a.len() == REG_COUNT,
    ensures
        regs_union(zero_regs(), a) == a,
        regs_union(a, zero_regs()) == a,
{
    assert(regs_union(zero_regs(), a) =~= a);
    assert(regs_union(a, zero_regs()) =~= a);
}

/// Unions taken in either association or order carry the very same
/// registers, so their cardinality estimates agree exactly.
pub proof fn lemma_union_estimates_agree(a: Seq<u16>, b: Seq<u16>, c: Seq<u16>)
    requires
        a.len() == b.len(),
        b.len() == c.len(),
    ensures
        spec_cardinality(regs_union(regs_union(a, b), c)) == spec_cardinality(
            regs_union(a, regs_union(b, c)),
        ),
        spec_cardinality(regs_union(a, b)) == spec_cardinality(regs_union(b, a)),
{
    lemma_union_assoc(a, b, c);
    lemma_union_comm(a, b);
}

} // verus!
