//! Payments attached to a call.
use vstd::prelude::*;

verus! {

/// The currency in which sales are settled.
pub const DENOM: &'static str = "uawesome";

/// An amount of one currency attached to a call.
#[derive(Clone, Debug, PartialEq, Eq)]
pub struct Coin {
    pub denom: String,
    pub amount: u128,
}

/// The amount of `denom` that `funds` pays: nothing attached pays 0, one coin of `denom`
/// pays its amount (0 included); anything else is no valid payment.
pub open spec fn paid_amount(funds: Seq<Coin>, denom: Seq<char>) -> Option<u128> {
    if funds.len() == 0 {
        Some(0)
    } else if funds.len() == 1 && funds[0].denom@ == denom {
        Some(funds[0].amount)
    } else {
        None
    }
}

/// The error of `cw_utils::may_pay`, carried through unopened.
#[verifier::external_type_specification]
#[verifier::external_body]
pub struct ExPaymentError(cw_utils::PaymentError);

/// Relies on `cw_utils::may_pay`: with no coin it returns 0, with one coin of `denom` it
/// returns that coin's amount, with one coin of another denomination an error. With two
/// or more coins all of `denom` it panics, so at most one coin is passed.
#[verifier::external_body]
fn may_pay_amount(funds: &Vec<Coin>, denom: &str) -> (r: Result<u128, cw_utils::PaymentError>)
    requires
        funds@.len() <= 1,
    ensures
        match r {
            Ok(a) => paid_amount(funds@, denom@) == Some(a),
            Err(_) => paid_amount(funds@, denom@) is None,
        },
{
    let info = cosmwasm_std::MessageInfo {
        sender: cosmwasm_std::Addr::unchecked(""),
        funds: funds.iter().map(|c| cosmwasm_std::Coin::new(c.amount, c.denom.clone())).collect(),
    };
    cw_utils::may_pay(&info, denom).map(|a| a.u128())
}

/// The amount of the settlement currency attached to a call, when the attachment is a
/// valid payment.
pub fn attached_payment(funds: &Vec<Coin>) -> (r: Option<u128>)
    ensures
        r == paid_amount(funds@, DENOM@),
{
    if funds.len() > 1 {
        return None;
    }
    match may_pay_amount(funds, DENOM) {
        Ok(a) => Some(a),
        Err(_) => None,
    }
}

} // verus!
