use vstd::prelude::*;

verus! {

/// Why an operation of the exchange was refused.
#[derive(Clone, Copy, Debug, PartialEq, Eq, Structural)]
pub enum ContractError {
    /// The caller lacks the relationship to the record or asset that the operation needs.
    Unauthorized {},
    /// The sale or trade referred to does not exist.
    NotFound {},
    /// The payment attached to a purchase is not the sale's price.
    IncorrectPayment { price: u128 },
    /// The sale asked for in a trade does not exist or is not open to trades.
    NonTradeable {},
    /// A completion notice carried a tag that the exchange never issued.
    UnrecognizedReply {},
    /// An operation counter is at its largest value.
    Overflow {},
}

} // verus!
