//! The commission engine: fixed-point fee computation over a
//! nominator/denominator rate, widened to 256 bits before multiplying so the
//! intermediate product cannot overflow.

use vstd::prelude::*;

use crate::errors::FardelError;

verus! {

/// A commission rate expressed as the rational number
/// `commission_rate_nom / commission_rate_denom`.
#[derive(Clone, Copy, Debug, PartialEq, Eq, Structural)]
pub struct StoredFee {
    pub commission_rate_nom: u128,
    pub commission_rate_denom: u128,
}

/// A rate is usable when the denominator is positive and the rate is at most
/// one, so that the commission never exceeds the amount it is taken from.
pub open spec fn fee_valid(fee: StoredFee) -> bool {
    0 < fee.commission_rate_denom && fee.commission_rate_nom <= fee.commission_rate_denom
}

/// The commission owed on `amount` under `fee`:
/// `floor(amount * nom / denom)`.
pub open spec fn spec_commission(amount: u128, fee: StoredFee) -> int {
    (amount * fee.commission_rate_nom) / (fee.commission_rate_denom as int)
}

/// The default rate applied when none is configured.
pub fn default_transaction_fee() -> (r: StoredFee)
    ensures
        r.commission_rate_nom == 3,
        r.commission_rate_denom == 1000,
{
    StoredFee { commission_rate_nom: 3, commission_rate_denom: 1000 }
}

/// Validates a configured rate, falling back to the default when none is
/// given.  A rate above one, or one whose denominator is zero, is refused.
pub fn valid_transaction_fee(val: Option<StoredFee>) -> (r: Result<StoredFee, FardelError>)
    ensures
        match r {
            Ok(fee) => {
                &&& fee_valid(fee)
                &&& match val {
                    Some(v) => fee == v,
                    None => fee == (StoredFee { commission_rate_nom: 3, commission_rate_denom: 1000 }),
                }
            },
            Err(e) => {
                &&& e == FardelError::InvalidInput
                &&& val is Some
                &&& !fee_valid(val->Some_0)
            },
        },
{
    match val {
        Some(v) => {
            if v.commission_rate_denom == 0 || v.commission_rate_nom > v.commission_rate_denom {
                Err(FardelError::InvalidInput)
            } else {
                Ok(v)
            }
        },
        None => Ok(default_transaction_fee()),
    }
}

/// Relies on `primitive_types::U256`: `From<u128>` embeds exactly, `*` on two
/// values below 2^128 cannot overflow 256 bits, `/` is floor division (the
/// divisor is nonzero here), and `low_u128` is exact because the quotient is
/// at most `a`.
#[verifier::external_body]
fn mul_div_u128(a: u128, b: u128, d: u128) -> (r: u128)
    requires
        0 < d,
        b <= d,
    ensures
        r == (a * b) / (d as int),
{
    let wide = primitive_types::U256::from(a) * primitive_types::U256::from(b);
    (wide / primitive_types::U256::from(d)).low_u128()
}

/// The commission never exceeds the amount it is computed from.
pub proof fn lemma_commission_le_amount(amount: u128, fee: StoredFee)
    requires
        fee_valid(fee),
    ensures
        0 <= spec_commission(amount, fee) <= amount,
{
    let n = fee.commission_rate_nom as int;
    let d = fee.commission_rate_denom as int;
    let a = amount as int;
    vstd::arithmetic::mul::lemma_mul_inequality(n, d, a);
    assert(a * n == n * a) by (nonlinear_arith);
    assert(a * d == d * a) by (nonlinear_arith);
    vstd::arithmetic::div_mod::lemma_div_is_ordered(a * n, a * d, d);
    vstd::arithmetic::div_mod::lemma_div_multiples_vanish(a, d);
    vstd::arithmetic::div_mod::lemma_div_pos_is_pos(a * n, d);
    vstd::arithmetic::mul::lemma_mul_nonnegative(a, n);
}

/// Settlement of one payment: splits `amount` into the part paid to the
/// listing owner and the commission routed to the operator.  The split is
/// exact: the two parts always sum back to `amount`, and the commission is
/// `floor(amount * nom / denom)`.
pub fn settle(amount: u128, fee: StoredFee) -> (r: (u128, u128))
    requires
        fee_valid(fee),
    ensures
        r.1 == spec_commission(amount, fee),
        r.0 == amount - spec_commission(amount, fee),
        r.0 + r.1 == amount,
{
    proof {
        lemma_commission_le_amount(amount, fee);
    }
    let commission = mul_div_u128(amount, fee.commission_rate_nom, fee.commission_rate_denom);
    let payment = amount - commission;
    (payment, commission)
}

} // verus!
