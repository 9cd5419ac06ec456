//! Derived financial metrics.
//!
//! Percentages are carried as integers scaled by [`RATE_SCALE`]: a stored
//! value of `50_000_000` means 50%.  On-chain interest rates arrive as
//! fixed-point "ray" values scaled by `10^27`.

use vstd::prelude::*;
use vstd::arithmetic::div_mod::{lemma_div_denominator, lemma_div_multiples_vanish};

verus! {

/// Scale of the stored percentages: one percent is `RATE_SCALE` units.
pub const RATE_SCALE: u64 = 1_000_000;

/// One whole unit of an on-chain fixed-point rate: `10^27`.
pub const RAY: u128 = 1_000_000_000_000_000_000_000_000_000;

/// The utilization rate of a reserve, as a scaled percentage:
/// `(total_borrow / total_supply) * 100`, zero when nothing is supplied.
pub open spec fn utilization_spec(total_borrow: int, total_supply: int) -> int {
    if total_supply == 0 {
        0
    } else {
        (total_borrow * 100 * RATE_SCALE) / total_supply
    }
}

/// A ray-scaled rate as a scaled percentage: `(ray / 10^27) * 100`.
pub open spec fn ray_percent_spec(ray: int) -> int {
    (ray * 100 * RATE_SCALE) / (RAY as int)
}

/// Compute the utilization rate of a reserve.  The result is exact for
/// every borrow total small enough that the scaled numerator fits in a
/// `u128`; above that the computation reports failure rather than a wrong
/// value.
pub fn calculate_utilization(total_borrow: u128, total_supply: u128) -> (r: Option<u128>)
    ensures
        total_supply == 0 ==> r == Some(0u128),
        total_supply != 0 ==> ((r is Some) <==> total_borrow * 100 * RATE_SCALE <= u128::MAX),
        r matches Some(v) ==> v as int == utilization_spec(
            total_borrow as int,
            total_supply as int,
        ),
{
    if total_supply == 0 {
        Some(0)
    } else {
        match total_borrow.checked_mul(100_000_000) {
            Some(scaled) => {
                assert(scaled == total_borrow * 100 * RATE_SCALE);
                Some(scaled / total_supply)
            },
            None => None,
        }
    }
}

/// Convert a ray-scaled rate to a scaled percentage.  Total: every `u128`
/// ray value has an exact scaled-percentage image.
pub fn ray_to_percent(ray_value: u128) -> (r: u128)
    ensures
        r as int == ray_percent_spec(ray_value as int),
{
    let r = ray_value / 10_000_000_000_000_000_000;
    proof {
        let scaled = ray_value as int * 100 * RATE_SCALE;
        assert(scaled == ray_value as int * 100_000_000);
        lemma_div_denominator(scaled, 100_000_000, 10_000_000_000_000_000_000);
        assert(100_000_000int * 10_000_000_000_000_000_000 == RAY as int);
        lemma_div_multiples_vanish(ray_value as int, 100_000_000);
        assert(ray_value as int * 100_000_000 == 100_000_000int * ray_value as int)
            by (nonlinear_arith);
        assert(scaled / 100_000_000 == ray_value as int);
    }
    r
}

} // verus!
