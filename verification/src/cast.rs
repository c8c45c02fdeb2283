//! Reinterpreting sample buffers as bytes and back, through `bytemuck`.
//!
//! Samples are 32-bit patterns; on the wire they travel as their bytes in
//! the machine's own byte order.

use vstd::prelude::*;

verus! {

/// `bytemuck::PodCastError`, the reason a byte buffer could not be viewed as
/// samples.
#[verifier::external_type_specification]
#[verifier::external_body]
pub struct ExPodCastError(bytemuck::PodCastError);

/// The bytes of a sample, least significant first.
pub open spec fn le_word(x: u32) -> Seq<u8> {
    seq![(x & 0xff) as u8, ((x >> 8) & 0xff) as u8, ((x >> 16) & 0xff) as u8, ((x >> 24) & 0xff) as u8]
}

/// The bytes of a sample, most significant first.
pub open spec fn be_word(x: u32) -> Seq<u8> {
    seq![((x >> 24) & 0xff) as u8, ((x >> 16) & 0xff) as u8, ((x >> 8) & 0xff) as u8, (x & 0xff) as u8]
}

/// The bytes of samples in little-endian order, sample after sample.
pub open spec fn le_bytes(s: Seq<u32>) -> Seq<u8>
    decreases s.len(),
{
    if s.len() == 0 {
        Seq::<u8>::empty()
    } else {
        le_bytes(s.drop_last()) + le_word(s.last())
    }
}

/// The bytes of samples in big-endian order, sample after sample.
pub open spec fn be_bytes(s: Seq<u32>) -> Seq<u8>
    decreases s.len(),
{
    if s.len() == 0 {
        Seq::<u8>::empty()
    } else {
        be_bytes(s.drop_last()) + be_word(s.last())
    }
}

/// Whether `bytes` are the bytes of `samples` in one of the two byte
/// orders (the machine's own is one of them).
pub open spec fn encodes(bytes: Seq<u8>, samples: Seq<u32>) -> bool {
    bytes == le_bytes(samples) || bytes == be_bytes(samples)
}

/// Four bytes per sample, in either order.
pub proof fn lemma_bytes_len(s: Seq<u32>)
    ensures
        le_bytes(s).len() == 4 * s.len(),
        be_bytes(s).len() == 4 * s.len(),
    decreases s.len(),
{
    if s.len() > 0 {
        lemma_bytes_len(s.drop_last());
    }
}

proof fn lemma_word_injective(x: u32, y: u32)
    requires
        le_word(x) == le_word(y) || be_word(x) == be_word(y),
    ensures
        x == y,
{
    if le_word(x) == le_word(y) {
        assert(le_word(x)[0] == le_word(y)[0] && le_word(x)[1] == le_word(y)[1]
            && le_word(x)[2] == le_word(y)[2] && le_word(x)[3] == le_word(y)[3]);
    } else {
        assert(be_word(x)[3] == be_word(y)[3] && be_word(x)[2] == be_word(y)[2]
            && be_word(x)[1] == be_word(y)[1] && be_word(x)[0] == be_word(y)[0]);
    }
    assert(x == y) by (bit_vector)
        requires
            (x & 0xff) as u8 == (y & 0xff) as u8,
            ((x >> 8) & 0xff) as u8 == ((y >> 8) & 0xff) as u8,
            ((x >> 16) & 0xff) as u8 == ((y >> 16) & 0xff) as u8,
            ((x >> 24) & 0xff) as u8 == ((y >> 24) & 0xff) as u8,
    ;
}

/// Samples encoded as bytes and decoded in the same byte order come back
/// unchanged: the bytes of two sample sequences in one order agree only
/// where the samples do.
pub proof fn law_bytes_round_trip(s: Seq<u32>, v: Seq<u32>)
    requires
        le_bytes(s) == le_bytes(v) || be_bytes(s) == be_bytes(v),
    ensures
        s == v,
    decreases s.len(),
{
    lemma_bytes_len(s);
    lemma_bytes_len(v);
    if s.len() > 0 {
        let n = 4 * (s.len() - 1);
        lemma_bytes_len(s.drop_last());
        lemma_bytes_len(v.drop_last());
        if le_bytes(s) == le_bytes(v) {
            let a = le_bytes(s);
            assert(a.subrange(0, n) =~= le_bytes(s.drop_last()));
            assert(a.subrange(0, n) =~= le_bytes(v.drop_last()));
            assert(a.subrange(n, n + 4) =~= le_word(s.last()));
            assert(a.subrange(n, n + 4) =~= le_word(v.last()));
        } else {
            let a = be_bytes(s);
            assert(a.subrange(0, n) =~= be_bytes(s.drop_last()));
            assert(a.subrange(0, n) =~= be_bytes(v.drop_last()));
            assert(a.subrange(n, n + 4) =~= be_word(s.last()));
            assert(a.subrange(n, n + 4) =~= be_word(v.last()));
        }
        lemma_word_injective(s.last(), v.last());
        law_bytes_round_trip(s.drop_last(), v.drop_last());
        assert(s =~= v.drop_last().push(v.last()));
        assert(v =~= v.drop_last().push(v.last()));
    }
}

/// `bytemuck::cast_slice::<u32, u8>`, copied out: the bytes of `samples`
/// as they lie in memory, four per sample in the machine's byte order,
/// which is little- or big-endian (which one is left unsaid). The cast
/// never fails in this direction.
#[verifier::external_body]
pub(crate) fn samples_to_bytes(samples: &[u32]) -> (bytes: Vec<u8>)
    ensures
        bytes@.len() == 4 * samples@.len(),
        encodes(bytes@, samples@),
{
    bytemuck::cast_slice::<u32, u8>(samples).to_vec()
}

/// `bytemuck::try_cast_slice::<u8, u32>`, copied out: the samples whose
/// bytes, in the machine's byte order, `bytes` holds. It fails when the
/// length is not a multiple of four, and also when the buffer's address is
/// not aligned for `u32` (which no clause can state).
#[verifier::external_body]
pub(crate) fn bytes_to_samples(bytes: &[u8]) -> (r: Result<Vec<u32>, bytemuck::PodCastError>)
    ensures
        r matches Ok(v) ==> v@.len() * 4 == bytes@.len() && encodes(bytes@, v@),
        bytes@.len() % 4 != 0 ==> r is Err,
{
    bytemuck::try_cast_slice::<u8, u32>(bytes).map(|s| s.to_vec())
}

} // verus!
