use vstd::prelude::*;
use ethers_core::types::U256;
use ethers_core::utils::{format_units, ConversionError};
use crate::words::{u256_value, limb_base};

verus! {

/// The error of ethers' unit formatting, carried through without being looked into.
#[verifier::external_type_specification]
#[verifier::external_body]
pub struct ExConversionError(ConversionError);

/// Decimal places of the native currency's base unit.
pub const NATIVE_DECIMALS: u32 = 18;

/// Decimal places of the price oracle's answer.
pub const USD_PRICE_DECIMALS: u32 = 8;

/// Decimal places between the base unit and one gwei.
pub const GWEI_DECIMALS: u32 = 9;

/// Gas units consumed by a plain value transfer.
pub const TRANSFER_GAS: u64 = 21000;

/// 10^18, one native unit expressed in base units.
pub const NATIVE_BASE: u64 = 1_000_000_000_000_000_000;

/// 2^256: every `U256` is below it.
pub open spec fn u256_bound() -> nat {
    limb_base() * limb_base() * limb_base() * limb_base()
}

pub open spec fn pow10(d: nat) -> nat
    decreases d,
{
    if d == 0 {
        1
    } else {
        10 * pow10((d - 1) as nat)
    }
}

pub open spec fn digit_char(d: nat) -> char {
    if d == 0 {
        '0'
    } else if d == 1 {
        '1'
    } else if d == 2 {
        '2'
    } else if d == 3 {
        '3'
    } else if d == 4 {
        '4'
    } else if d == 5 {
        '5'
    } else if d == 6 {
        '6'
    } else if d == 7 {
        '7'
    } else if d == 8 {
        '8'
    } else {
        '9'
    }
}

/// The decimal digits of `n`, most significant first, with no leading zero ("0" for zero).
pub open spec fn decimal(n: nat) -> Seq<char>
    decreases n,
{
    if n < 10 {
        seq![digit_char(n)]
    } else {
        decimal(n / 10).push(digit_char(n % 10))
    }
}

/// `s` preceded by as many '0' as it takes to make it `width` long.
pub open spec fn pad_zeros(s: Seq<char>, width: nat) -> Seq<char> {
    if s.len() >= width {
        s
    } else {
        Seq::new((width - s.len()) as nat, |i: int| '0') + s
    }
}

/// `v` read as a fixed-point number with `d` decimal places, written out in full:
/// the integer part, a point, then exactly `d` fractional digits.
pub open spec fn fixed_point(v: nat, d: nat) -> Seq<char> {
    decimal(v / pow10(d)) + seq!['.'] + pad_zeros(decimal(v % pow10(d)), d)
}

/// The fixed-point USD value, with `USD_PRICE_DECIMALS` places, of `amount` base units
/// at `price_usd` (itself with `USD_PRICE_DECIMALS` places) per native unit: the
/// product is taken first and divided by 10^18 after, truncating.
pub open spec fn usd_fixed(amount: nat, price_usd: nat) -> nat {
    amount * price_usd / pow10(NATIVE_DECIMALS as nat)
}

/// What the oracle and the node reported, turned into text for display.
pub struct GasQuote {
    /// The gas price in gwei, with nine decimal places.
    pub gwei: String,
    /// The USD cost of one gas unit, with eight decimal places.
    pub usd_per_gas: String,
    /// The USD cost of a plain transfer, with eight decimal places.
    pub transfer_usd: String,
}

/// Relies on `U256::checked_mul` of the uint crate: the exact product, or `None` when it
/// does not fit in 256 bits.
pub assume_specification[ U256::checked_mul ](a: U256, b: U256) -> (r: Option<U256>)
    ensures
        u256_value(a) * u256_value(b) < u256_bound() <==> r is Some,
        r matches Some(v) ==> u256_value(v) == u256_value(a) * u256_value(b),
;

/// Relies on `U256::checked_div` of the uint crate: the truncated quotient, or `None`
/// for a zero divisor.
pub assume_specification[ U256::checked_div ](a: U256, b: U256) -> (r: Option<U256>)
    ensures
        u256_value(b) != 0 <==> r is Some,
        r matches Some(v) ==> u256_value(v) == u256_value(a) / u256_value(b),
;

/// Relies on ethers_core::utils::format_units for a `U256` amount and a decimal count:
/// it writes `amount / 10^d`, a point, and `amount % 10^d` padded with zeros to `d`
/// digits, and refuses a count of 78 or more.
#[verifier::external_body]
fn format_fixed(amount: U256, decimals: u32) -> (r: Result<String, ConversionError>)
    ensures
        decimals <= 77 ==> r is Ok,
        r is Ok ==> r->Ok_0@ == fixed_point(u256_value(amount), decimals as nat),
        decimals >= 78 ==> r is Err,
{
    format_units(amount, decimals)
}

/// `v` as a `U256`.
pub fn u256_from_u64(v: u64) -> (r: U256)
    ensures
        u256_value(r) == v as nat,
{
    U256([v, 0, 0, 0])
}

fn format_with(amount: U256, decimals: u32) -> (r: String)
    requires
        decimals <= 77,
    ensures
        r@ == fixed_point(u256_value(amount), decimals as nat),
{
    match format_fixed(amount, decimals) {
        Ok(s) => s,
        Err(_) => {
            proof {
                assert(false);
            }
            String::new()
        },
    }
}

proof fn lemma_pow10_18()
    ensures
        pow10(18) == NATIVE_BASE as nat,
{
    reveal_with_fuel(pow10, 19);
}

/// The USD value of `amount` base units at `price_usd` per native unit, as fixed-point
/// text with eight decimal places. Multiplies before it divides, in 256-bit integers.
pub fn usd_value(amount: U256, price_usd: U256) -> (r: String)
    requires
        u256_value(amount) * u256_value(price_usd) < u256_bound(),
    ensures
        r@ == fixed_point(
            usd_fixed(u256_value(amount), u256_value(price_usd)),
            USD_PRICE_DECIMALS as nat,
        ),
{
    let value = usd_fixed_value(amount, price_usd);
    format_with(value, USD_PRICE_DECIMALS)
}

fn usd_fixed_value(amount: U256, price_usd: U256) -> (r: U256)
    requires
        u256_value(amount) * u256_value(price_usd) < u256_bound(),
    ensures
        u256_value(r) == usd_fixed(u256_value(amount), u256_value(price_usd)),
{
    proof {
        lemma_pow10_18();
    }
    let base = u256_from_u64(NATIVE_BASE);
    match amount.checked_mul(price_usd) {
        Some(product) => match product.checked_div(base) {
            Some(v) => v,
            None => {
                proof {
                    assert(false);
                }
                product
            },
        },
        None => {
            proof {
                assert(false);
            }
            amount
        },
    }
}

proof fn lemma_transfer_fits(amount: nat, price_usd: nat)
    requires
        amount * price_usd < u256_bound(),
    ensures
        usd_fixed(amount, price_usd) * (TRANSFER_GAS as nat) < u256_bound(),
{
    lemma_pow10_18();
    let p = amount * price_usd;
    let q = p / (NATIVE_BASE as nat);
    assert(q * (NATIVE_BASE as nat) <= p) by (nonlinear_arith)
        requires
            q == p / (NATIVE_BASE as nat),
    ;
    assert(q * (TRANSFER_GAS as nat) <= q * (NATIVE_BASE as nat)) by (nonlinear_arith);
}

/// The gas price in gwei, and what a gas unit and a plain transfer cost in USD at
/// `usd_per_eth` (eight decimal places) per native unit. The transfer cost is the
/// truncated per-unit cost times `TRANSFER_GAS`.
pub fn gas_quote(wei_per_gas: U256, usd_per_eth: U256) -> (r: GasQuote)
    requires
        u256_value(wei_per_gas) * u256_value(usd_per_eth) < u256_bound(),
    ensures
        r.gwei@ == fixed_point(u256_value(wei_per_gas), GWEI_DECIMALS as nat),
        r.usd_per_gas@ == fixed_point(
            usd_fixed(u256_value(wei_per_gas), u256_value(usd_per_eth)),
            USD_PRICE_DECIMALS as nat,
        ),
        r.transfer_usd@ == fixed_point(
            usd_fixed(u256_value(wei_per_gas), u256_value(usd_per_eth)) * (TRANSFER_GAS as nat),
            USD_PRICE_DECIMALS as nat,
        ),
{
    proof {
        lemma_transfer_fits(u256_value(wei_per_gas), u256_value(usd_per_eth));
    }
    let gwei = format_with(wei_per_gas, GWEI_DECIMALS);
    let per_gas = usd_fixed_value(wei_per_gas, usd_per_eth);
    let usd_per_gas = format_with(per_gas, USD_PRICE_DECIMALS);
    let transfer = match per_gas.checked_mul(u256_from_u64(TRANSFER_GAS)) {
        Some(v) => v,
        None => {
            proof {
                assert(false);
            }
            per_gas
        },
    };
    let transfer_usd = format_with(transfer, USD_PRICE_DECIMALS);
    GasQuote { gwei, usd_per_gas, transfer_usd }
}

} // verus!
