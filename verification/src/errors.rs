use vstd::prelude::*;

verus! {

/// Why a ledger operation rejected the call. Every failure is a
/// whole-operation rejection: no partial state is ever written.
#[derive(Clone, Copy, Debug, PartialEq, Eq, Structural)]
pub enum LedgerError {
    /// The named campaign or token does not exist.
    NotFound,
    /// The caller lacks the role the operation requires.
    Unauthorized,
    /// The attached payment is below the fixed campaign-creation fee.
    InsufficientFee,
    /// The attached payment is below the listed price.
    InsufficientPayment,
    /// The campaign's deadline has passed.
    CampaignEnded,
    /// The token is not listed for sale.
    NotForSale,
    /// The token is listed but carries no price. A well-formed ledger
    /// never produces this: a listed token always has a price.
    PriceMissing,
    /// The buyer already owns the token.
    SelfPurchase,
    /// Accumulating the donation would exceed the representable range.
    Overflow,
}

} // verus!
