//! The Reed-Solomon layer of the link.  Every frame payload is the encoded
//! message followed by eight check bytes; a block corrupted in at most four
//! bytes still corrects to the original payload.
//!
//! The code itself is computed by the `reed-solomon` crate through the two
//! trusted wrappers below; everything around them is verified against what
//! the wrappers state.

use vstd::prelude::*;

verus! {

/// Length of the error-correction code appended to each payload.
pub const ECC_LEN: usize = 8;

/// In how many positions two equally long byte strings differ.
pub open spec fn byte_diff_count(a: Seq<u8>, b: Seq<u8>) -> int
    decreases a.len(),
{
    if a.len() == 0 {
        0
    } else {
        byte_diff_count(a.drop_last(), b.drop_last())
            + if a.last() == b.last() { 0int } else { 1int }
    }
}

/// A byte string differs from itself in no position.
pub proof fn lemma_byte_diff_count_self(a: Seq<u8>)
    ensures
        byte_diff_count(a, a) == 0,
    decreases a.len(),
{
    if a.len() > 0 {
        lemma_byte_diff_count_self(a.drop_last());
    }
}

/// The eight-byte Reed-Solomon code over a payload: a function of the
/// payload alone, computed by the outside encoder.
pub uninterp spec fn rs_ecc_of(data: Seq<u8>) -> Seq<u8>;

/// What the outside decoder makes of a block: the corrected payload, or
/// nothing when the block is corrupted beyond repair.  A function of the
/// block alone.
pub uninterp spec fn rs_correct_res(block: Seq<u8>) -> Option<Seq<u8>>;

/// Relies on `reed_solomon::Encoder::encode` with eight check bytes: the
/// result is the payload followed by its eight-byte code, and depends on
/// the payload alone.  The encoder works in an arithmetic over 256 symbols,
/// so the whole block must fit in 255 bytes.
#[verifier::external_body]
pub(crate) fn rs_encode(data: &[u8]) -> (r: Vec<u8>)
    requires
        data@.len() + ECC_LEN <= 255,
    ensures
        r@ == data@ + rs_ecc_of(data@),
        r@.len() == data@.len() + ECC_LEN,
{
    let encoded = reed_solomon::Encoder::new(ECC_LEN).encode(data);
    encoded[..].to_vec()
}

/// Relies on `reed_solomon::Decoder::correct` with eight check bytes.  The
/// decoder treats the last eight bytes of the block as the code; its
/// outcome depends on the block alone.  Whenever the block differs in at
/// most four positions from some payload with its code, it returns exactly
/// that payload: eight check bytes correct up to four errors.
#[verifier::external_body]
pub(crate) fn rs_correct(block: &[u8]) -> (r: Option<Vec<u8>>)
    requires
        ECC_LEN <= block@.len() <= 255,
    ensures
        (r is Some) == (rs_correct_res(block@) is Some),
        r matches Some(v) ==> rs_correct_res(block@) == Some(v@),
        r matches Some(v) ==> v@.len() + ECC_LEN == block@.len(),
        forall|d: Seq<u8>|
            (block@.len() == d.len() + (#[trigger] rs_ecc_of(d)).len()
                && byte_diff_count(block@, d + rs_ecc_of(d)) <= ECC_LEN / 2)
                ==> (r is Some && r->0@ == d),
{
    match reed_solomon::Decoder::new(ECC_LEN).correct(block, None) {
        Ok(buf) => Some(buf.data().to_vec()),
        Err(_) => None,
    }
}

} // verus!
