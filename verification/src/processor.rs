//! The per-block processing pipeline: from decoded call results to the
//! records appended to the sink, and to the confirmation that advances the
//! coordinator's watermark.
//!
//! A single reserve that fails to decode is isolated — it yields no record
//! but does not block the rest of the block.  A block whose reserve
//! enumeration failed produces nothing and is not confirmed, so it stays
//! eligible for a later submission.

use vstd::prelude::*;
use crate::coordinator::Coordinator;
use crate::metrics::{
    calculate_utilization, ray_to_percent, ray_percent_spec, utilization_spec, RATE_SCALE,
};
use crate::numeric::{bytes_to_hex_prefixed, dec_rep, hex_of_bytes, u128_to_dec};
use crate::reserve::{
    decode_reserve_data, reserve_data_of, reserve_words_ok, ReserveData, ReserveDescriptor,
};

verus! {

/// One persisted record: the state of one reserve at one block.  Rates are
/// percentages scaled by [`RATE_SCALE`]; amounts are canonical decimal
/// digit strings; the address is `0x`-prefixed lowercase hexadecimal.
pub struct TokenData {
    pub chain: String,
    pub market: String,
    pub version: String,
    pub token_symbol: String,
    pub token_address: Vec<u8>,
    pub block: u64,
    pub total_supply: Vec<u8>,
    pub total_borrow: Vec<u8>,
    pub utilization_rate: u128,
    pub supply_rate: u128,
    pub borrow_rate: u128,
}

/// The record that reserve state `d` of reserve `desc` at `block` must
/// produce.
pub open spec fn record_matches(
    block: u64,
    desc: ReserveDescriptor,
    d: ReserveData,
    t: TokenData,
) -> bool {
    &&& t.chain@ == "Base Mainnet"@
    &&& t.market@ == "Aave"@
    &&& t.version@ == "3"@
    &&& t.token_symbol@ == desc.symbol@
    &&& t.token_address@ == seq![0x30u8, 0x78u8] + hex_of_bytes(desc.address@)
    &&& t.block == block
    &&& t.total_supply@ == dec_rep(d.total_a_token as int)
    &&& t.total_borrow@ == dec_rep(d.total_stable_debt + d.total_variable_debt)
    &&& t.utilization_rate as int == utilization_spec(
        d.total_stable_debt + d.total_variable_debt,
        d.total_a_token as int,
    )
    &&& t.supply_rate as int == ray_percent_spec(d.liquidity_rate as int)
    &&& t.borrow_rate as int == ray_percent_spec(d.variable_borrow_rate as int)
}

/// Whether reserve state `d` yields a record at all: the borrow total and
/// the scaled utilization numerator must fit the machine words they are
/// computed in.
pub open spec fn record_feasible(d: ReserveData) -> bool {
    &&& d.total_stable_debt + d.total_variable_debt <= u128::MAX
    &&& (d.total_a_token == 0 || (d.total_stable_debt + d.total_variable_debt) * 100 * RATE_SCALE
        <= u128::MAX)
}

/// Derive the record for one reserve from its decoded state.
pub fn make_record(block: u64, desc: &ReserveDescriptor, d: &ReserveData) -> (r: Option<
    TokenData,
>)
    ensures
        (r is Some) <==> record_feasible(*d),
        r matches Some(t) ==> record_matches(block, *desc, *d, t),
{
    let total_borrow = match d.total_stable_debt.checked_add(d.total_variable_debt) {
        Some(v) => v,
        None => {
            return None;
        },
    };
    let utilization_rate = match calculate_utilization(total_borrow, d.total_a_token) {
        Some(v) => v,
        None => {
            return None;
        },
    };
    Some(
        TokenData {
            chain: ("Base Mainnet").to_owned(),
            market: ("Aave").to_owned(),
            version: ("3").to_owned(),
            token_symbol: desc.symbol.clone(),
            token_address: bytes_to_hex_prefixed(desc.address.as_slice()),
            block,
            total_supply: u128_to_dec(d.total_a_token),
            total_borrow: u128_to_dec(total_borrow),
            utilization_rate,
            supply_rate: ray_to_percent(d.liquidity_rate),
            borrow_rate: ray_to_percent(d.variable_borrow_rate),
        },
    )
}

/// What one reserve's fetch outcome must become: no raw result or a
/// malformed one yields no record, a well-formed one yields exactly the
/// record of its decoded state.
pub open spec fn per_reserve_matches(
    block: u64,
    desc: ReserveDescriptor,
    raw: Option<Vec<u8>>,
    rec: Option<TokenData>,
) -> bool {
    match raw {
        None => rec is None,
        Some(bytes) => {
            if reserve_words_ok(bytes@) && record_feasible(reserve_data_of(bytes@)) {
                rec matches Some(t) && record_matches(block, desc, reserve_data_of(bytes@), t)
            } else {
                rec is None
            }
        },
    }
}

/// Turn one reserve's raw fetch result into its record, if any.  A `None`
/// input is a failed or skipped fetch; it is isolated to this reserve.
pub fn make_record_from_raw(block: u64, desc: &ReserveDescriptor, raw: &Option<Vec<u8>>) -> (r:
    Option<TokenData>)
    ensures
        per_reserve_matches(block, *desc, *raw, r),
{
    match raw {
        None => None,
        Some(bytes) => {
            match decode_reserve_data(bytes.as_slice()) {
                None => None,
                Some(d) => make_record(block, desc, &d),
            }
        },
    }
}

/// Everything one block's processing produces.
pub struct BlockOutcome {
    /// One slot per enumerated reserve: the record to append, or nothing
    /// for a reserve whose fetch or decode failed.
    pub records: Vec<Option<TokenData>>,
    /// Whether the block was confirmed to the coordinator.
    pub confirmed: bool,
    /// The new watermark to persist durably, if confirmation advanced it.
    pub checkpoint: Option<u64>,
}

/// Process one block, given the decoded reserve enumeration (or its
/// failure) and the raw per-reserve fetch results.  A failed enumeration
/// confirms nothing and leaves the coordinator untouched; otherwise every
/// reserve is attempted, per-reserve failures are isolated, and the block
/// is confirmed.
pub fn ingest_block(
    coordinator: &mut Coordinator,
    block: u64,
    reserves: &Option<Vec<ReserveDescriptor>>,
    raw_data: &Vec<Option<Vec<u8>>>,
) -> (out: BlockOutcome)
    requires
        reserves matches Some(rs) ==> raw_data@.len() == rs@.len(),
    ensures
        final(coordinator).pending_set() == old(coordinator).pending_set(),
        final(coordinator).reorg_depth() == old(coordinator).reorg_depth(),
        reserves is None ==> ({
            &&& out.records@.len() == 0
            &&& !out.confirmed
            &&& out.checkpoint is None
            &&& *final(coordinator) == *old(coordinator)
        }),
        reserves matches Some(rs) ==> ({
            &&& out.records@.len() == rs@.len()
            &&& forall|i: int|
                0 <= i < rs@.len() ==> per_reserve_matches(
                    block,
                    rs@[i],
                    raw_data@[i],
                    #[trigger] out.records@[i],
                )
            &&& out.confirmed
            &&& block > old(coordinator).last_confirmed() ==> {
                &&& final(coordinator).last_confirmed() == block
                &&& out.checkpoint == Some(block)
            }
            &&& block <= old(coordinator).last_confirmed() ==> {
                &&& final(coordinator).last_confirmed() == old(coordinator).last_confirmed()
                &&& out.checkpoint is None
            }
        }),
{
    match reserves {
        None => BlockOutcome { records: Vec::new(), confirmed: false, checkpoint: None },
        Some(rs) => {
            let mut records: Vec<Option<TokenData>> = Vec::new();
            let mut i: usize = 0;
            while i < rs.len()
                invariant
                    raw_data@.len() == rs@.len(),
                    0 <= i <= rs@.len(),
                    records@.len() == i,
                    forall|j: int|
                        0 <= j < i ==> per_reserve_matches(
                            block,
                            rs@[j],
                            raw_data@[j],
                            #[trigger] records@[j],
                        ),
                    *coordinator == *old(coordinator),
                decreases rs@.len() - i,
            {
                let rec = make_record_from_raw(block, &rs[i], &raw_data[i]);
                records.push(rec);
                i = i + 1;
            }
            let checkpoint = coordinator.confirm(block);
            BlockOutcome { records, confirmed: true, checkpoint }
        },
    }
}

} // verus!
