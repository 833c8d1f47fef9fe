//! The records that the exchange keeps.
use vstd::prelude::*;

verus! {

/// Set once when the exchange is created.
#[derive(Clone, Debug, PartialEq, Eq)]
pub struct Config {
    /// Address of the custody service (the NFT contract) that holds the assets.
    pub nft_contract: String,
}

/// An asset listed at a fixed price, held in escrow for its owner.
#[derive(Clone, Debug, PartialEq, Eq)]
pub struct Sale {
    pub nft_id: String,
    pub price: u128,
    pub owner: String,
    pub tradable: bool,
}

pub struct SaleView {
    pub nft_id: Seq<char>,
    pub price: u128,
    pub owner: Seq<char>,
    pub tradable: bool,
}

impl View for Sale {
    type V = SaleView;

    open spec fn view(&self) -> SaleView {
        SaleView {
            nft_id: self.nft_id@,
            price: self.price,
            owner: self.owner@,
            tradable: self.tradable,
        }
    }
}

impl Sale {
    /// A copy of this record.
    pub fn duplicate(&self) -> (r: Sale)
        ensures
            r@ == self@,
    {
        Sale {
            nft_id: self.nft_id.clone(),
            price: self.price,
            owner: self.owner.clone(),
            tradable: self.tradable,
        }
    }
}

/// A standing offer by `trader` to swap `to_trade_id` for the asset `asked_id` on sale.
#[derive(Clone, Debug, PartialEq, Eq)]
pub struct Trade {
    pub asked_id: String,
    pub to_trade_id: String,
    pub trader: String,
}

pub struct TradeView {
    pub asked_id: Seq<char>,
    pub to_trade_id: Seq<char>,
    pub trader: Seq<char>,
}

impl View for Trade {
    type V = TradeView;

    open spec fn view(&self) -> TradeView {
        TradeView { asked_id: self.asked_id@, to_trade_id: self.to_trade_id@, trader: self.trader@ }
    }
}

impl Trade {
    /// A copy of this record.
    pub fn duplicate(&self) -> (r: Trade)
        ensures
            r@ == self@,
    {
        Trade {
            asked_id: self.asked_id.clone(),
            to_trade_id: self.to_trade_id.clone(),
            trader: self.trader.clone(),
        }
    }
}

/// Counters of settled operations, kept for observation only.
#[derive(Clone, Copy, Debug, Default, PartialEq, Eq)]
pub struct Operations {
    pub n_trades: u128,
    pub n_sales: u128,
}

} // verus!
