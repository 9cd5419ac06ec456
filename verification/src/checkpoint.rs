//! The durable checkpoint: a small file artifact holding the last confirmed
//! block as a decimal digit string.  It is read once at boot and overwritten
//! on every successful confirmation.

use vstd::prelude::*;
use crate::numeric::{
    dec_rep, parse_dec_spec, parse_dec_u64, u128_to_dec, lemma_dec_rep_value,
};

verus! {

/// The bytes to write for a checkpoint at `block`: its canonical decimal
/// form.
pub fn encode_checkpoint(block: u64) -> (r: Vec<u8>)
    ensures
        r@ == dec_rep(block as int),
{
    u128_to_dec(block as u128)
}

/// Interpret the checkpoint artifact read at boot.  An absent file means
/// nothing was ever confirmed, so the watermark starts at zero; a present
/// but unreadable artifact yields nothing, an unrecoverable storage fault.
pub fn load_checkpoint(raw: &Option<Vec<u8>>) -> (r: Option<u64>)
    ensures
        raw is None ==> r == Some(0u64),
        raw matches Some(bytes) ==> r == parse_dec_spec(bytes@),
{
    match raw {
        None => Some(0),
        Some(bytes) => parse_dec_u64(bytes.as_slice()),
    }
}

/// A checkpoint written for `block` reads back as exactly `block`: after a
/// confirmation is persisted, a restart that reloads the artifact resumes
/// with the same watermark.
pub proof fn lemma_checkpoint_round_trip(block: u64)
    ensures
        parse_dec_spec(dec_rep(block as int)) == Some(block),
{
    lemma_dec_rep_value(block as int);
}

} // verus!
