//! The arithmetic of a resale: royalty and platform fee are basis-point
//! shares of the sale price, rounded toward zero, and the seller keeps the
//! rest.
use vstd::prelude::*;
use crate::types::{ContractError, PrimarySplit, SaleSplit};

verus! {

/// Highest platform fee, in basis points (10%).
pub const MAX_PLATFORM_FEE_BPS: u32 = 1000;

/// Highest creator royalty, in basis points (50%).
pub const MAX_ROYALTY_BPS: u32 = 5000;

/// Platform fee applied before the contract is initialised (2.5%).
pub const DEFAULT_PLATFORM_FEE_BPS: u32 = 250;

/// Basis points in a whole.
pub const BPS_DENOMINATOR: i128 = 10000;

/// Whether an integer fits in `i128`.
pub open spec fn fits_i128(x: int) -> bool {
    i128::MIN <= x <= i128::MAX
}

/// Division by a positive divisor, rounded toward zero (as Rust's `/`).
pub open spec fn div_toward_zero(a: int, d: int) -> int
    recommends
        d > 0,
{
    if a >= 0 {
        a / d
    } else {
        -((-a) / d)
    }
}

/// The share of `amount` given by `bps` basis points, rounded toward zero.
pub open spec fn bps_share(amount: int, bps: int) -> int {
    div_toward_zero(amount * bps, BPS_DENOMINATOR as int)
}

/// The split of a resale at `sale_price`, or why it cannot be made: the
/// products `sale_price * royalty_bps` and `sale_price * fee_bps` and the
/// two subtractions must stay within `i128`, and the seller's share may not
/// be negative.
pub open spec fn spec_sale_split(sale_price: i128, royalty_bps: u32, fee_bps: u32) -> Result<
    SaleSplit,
    ContractError,
> {
    let royalty = bps_share(sale_price as int, royalty_bps as int);
    let platform_fee = bps_share(sale_price as int, fee_bps as int);
    if !fits_i128(sale_price * royalty_bps) || !fits_i128(sale_price * fee_bps) || !fits_i128(
        sale_price - royalty,
    ) || !fits_i128(sale_price - royalty - platform_fee) {
        Err(ContractError::ArithmeticOverflow)
    } else if sale_price - royalty - platform_fee < 0 {
        Err(ContractError::SalePriceTooLow)
    } else {
        Ok(
            SaleSplit {
                royalty: royalty as i128,
                platform_fee: platform_fee as i128,
                seller: (sale_price - royalty - platform_fee) as i128,
            },
        )
    }
}

/// The split of a primary sale at `price`: the platform takes its
/// basis-point share, rounded toward zero, and the creator the rest; the
/// product `price * fee_bps` and the subtraction must stay within `i128`.
pub open spec fn spec_primary_split(price: i128, fee_bps: u32) -> Result<PrimarySplit, ContractError> {
    let platform_fee = bps_share(price as int, fee_bps as int);
    if !fits_i128(price * fee_bps) || !fits_i128(price - platform_fee) {
        Err(ContractError::ArithmeticOverflow)
    } else {
        Ok(PrimarySplit { creator: (price - platform_fee) as i128, platform_fee: platform_fee as i128 })
    }
}

proof fn lemma_div_toward_zero_bounds(a: int, d: int)
    requires
        d > 0,
    ensures
        a >= 0 ==> 0 <= div_toward_zero(a, d) <= a,
        a < 0 ==> a <= div_toward_zero(a, d) <= 0,
{
    if a >= 0 {
        assert(a / d <= a) by (nonlinear_arith)
            requires
                a >= 0,
                d > 0,
        ;
        assert(a / d >= 0) by (nonlinear_arith)
            requires
                a >= 0,
                d > 0,
        ;
    } else {
        let b = -a;
        assert(b / d <= b) by (nonlinear_arith)
            requires
                b >= 0,
                d > 0,
        ;
        assert(b / d >= 0) by (nonlinear_arith)
            requires
                b >= 0,
                d > 0,
        ;
    }
}

/// `product / 10000`, rounded toward zero, for a product that fits in `i128`.
fn share_of_product(product: i128) -> (r: i128)
    ensures
        r == div_toward_zero(product as int, BPS_DENOMINATOR as int),
{
    proof {
        lemma_div_toward_zero_bounds(product as int, BPS_DENOMINATOR as int);
    }
    if product >= 0 {
        product / BPS_DENOMINATOR
    } else {
        // `-product` may not fit in `i128`; its magnitude does fit in `u128`.
        let below: i128 = product + 1;
        let magnitude: u128 = ((-below) as u128) + 1;
        let q: u128 = magnitude / 10000u128;
        assert(magnitude == -(product as int));
        assert(q <= magnitude);
        assert(q <= 0x8000_0000_0000_0000_0000_0000_0000_0000u128 / 10000u128) by (nonlinear_arith)
            requires
                magnitude <= 0x8000_0000_0000_0000_0000_0000_0000_0000u128,
                q == magnitude / 10000u128,
        ;
        -(q as i128)
    }
}

/// Divides the price of a primary sale between the creator and the
/// platform: the platform takes its basis-point share of the price, rounded
/// toward zero, and the creator the rest.
pub fn primary_split(price: i128, fee_bps: u32) -> (r: Result<PrimarySplit, ContractError>)
    ensures
        r == spec_primary_split(price, fee_bps),
{
    let fee_product = match price.checked_mul(fee_bps as i128) {
        Some(p) => p,
        None => {
            return Err(ContractError::ArithmeticOverflow);
        },
    };
    let platform_fee = share_of_product(fee_product);
    let creator = match price.checked_sub(platform_fee) {
        Some(v) => v,
        None => {
            return Err(ContractError::ArithmeticOverflow);
        },
    };
    Ok(PrimarySplit { creator, platform_fee })
}

/// Divides the price of a resale into the creator's royalty, the platform
/// fee and the seller's remainder. Royalty and fee are the basis-point
/// shares of the price, rounded toward zero.
pub fn sale_split(sale_price: i128, royalty_bps: u32, fee_bps: u32) -> (r: Result<
    SaleSplit,
    ContractError,
>)
    ensures
        r == spec_sale_split(sale_price, royalty_bps, fee_bps),
{
    let royalty_product = match sale_price.checked_mul(royalty_bps as i128) {
        Some(p) => p,
        None => {
            return Err(ContractError::ArithmeticOverflow);
        },
    };
    let fee_product = match sale_price.checked_mul(fee_bps as i128) {
        Some(p) => p,
        None => {
            return Err(ContractError::ArithmeticOverflow);
        },
    };
    let royalty = share_of_product(royalty_product);
    let platform_fee = share_of_product(fee_product);
    let after_royalty = match sale_price.checked_sub(royalty) {
        Some(v) => v,
        None => {
            return Err(ContractError::ArithmeticOverflow);
        },
    };
    let seller = match after_royalty.checked_sub(platform_fee) {
        Some(v) => v,
        None => {
            return Err(ContractError::ArithmeticOverflow);
        },
    };
    if seller < 0 {
        return Err(ContractError::SalePriceTooLow);
    }
    Ok(SaleSplit { royalty, platform_fee, seller })
}

} // verus!
