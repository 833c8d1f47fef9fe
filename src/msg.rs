//! The messages the exchange is created with, executes and answers.
use vstd::prelude::*;

use crate::payment::Coin;

verus! {

/// Creates the exchange for the custody service at `nft_address`.
#[derive(Clone, Debug, PartialEq, Eq)]
pub struct InstantiateMsg {
    pub nft_address: String,
}

/// The operations of the exchange.
#[derive(Clone, Debug, PartialEq, Eq)]
pub enum ExecuteMsg {
    /// Buy the asset `id` at its price.
    BuyNFT { id: String },
    /// List the caller's asset `id` at `price`, open to trades if `tradable`.
    NewSale { id: String, price: u128, tradable: bool },
    /// Take the caller's listing of `id` down.
    CancelSale { id: String },
    /// Offer the caller's asset `offered` for the asset `target` on sale.
    NewTrade { target: String, offered: String },
    /// As the seller of `id`, accept the offer of `trader`.
    AcceptTrade { id: String, trader: String },
    /// Withdraw the caller's offer for `id`.
    CancelTrade { id: String },
}

/// The read-only questions the exchange answers.
#[derive(Clone, Debug, PartialEq, Eq)]
pub enum QueryMsg {
    GetSale { id: String },
    GetSalesBySeller { seller: String, from_index: Option<u64>, limit: Option<u64> },
    GetTrade { id: String, trader: String },
    GetTradesByTrader { trader: String, from_index: Option<u64>, limit: Option<u64> },
}

#[derive(Clone, Copy, Debug, PartialEq, Eq, Structural)]
pub struct GetCountResponse {
    pub count: i32,
}

/// Facts of the host about the running exchange.
#[derive(Clone, Debug, PartialEq, Eq)]
pub struct Env {
    /// The exchange's own address, where listed assets are held.
    pub contract_address: String,
}

/// Who calls, and what they attached.
#[derive(Clone, Debug, PartialEq, Eq)]
pub struct MessageInfo {
    pub sender: String,
    pub funds: Vec<Coin>,
}

/// What the custody service reported, before the call, about the asset that a listing
/// or a trade offer puts forward.
#[derive(Clone, Debug, PartialEq, Eq)]
pub struct CustodyReport {
    /// The asset's current owner.
    pub owner: String,
    /// Whether the exchange holds an active approval over the asset.
    pub approved: bool,
}

} // verus!
