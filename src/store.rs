//! The ledger store: the configuration, the sales keyed by asset, the trades keyed by
//! (asked asset, offeror) and the operation counters, with load / save / remove.
use vstd::prelude::*;

use crate::keys::{
    key_less, key_lt, key_order, lemma_key_lt_order, lemma_trade_key_lt_order, trade_key_less,
    trade_key_lt, trade_key_order,
};
use crate::state::{Config, Operations, Sale, SaleView, Trade, TradeView};
use crate::table::{
    lemma_table_at, lemma_table_insert, lemma_table_keys, lemma_table_remove, lemma_table_update,
    sorted_by, table_map,
};

verus! {

/// The key a sale is stored under: its asset.
pub open spec fn sale_key() -> spec_fn(SaleView) -> Seq<char> {
    |s: SaleView| s.nft_id
}

/// The key a trade is stored under: its asked asset and its offeror.
pub open spec fn trade_key() -> spec_fn(TradeView) -> (Seq<char>, Seq<char>) {
    |t: TradeView| (t.asked_id, t.trader)
}

/// What the ledger holds, as maps.
pub struct LedgerModel {
    pub nft_contract: Seq<char>,
    pub sales: Map<Seq<char>, SaleView>,
    pub trades: Map<(Seq<char>, Seq<char>), TradeView>,
    pub n_trades: u128,
    pub n_sales: u128,
}

impl LedgerModel {
    /// Every record is stored under its own key.
    pub open spec fn wf(self) -> bool {
        &&& forall|k: Seq<char>| #[trigger] self.sales.contains_key(k) ==> self.sales[k].nft_id == k
        &&& forall|k: (Seq<char>, Seq<char>)| #[trigger] self.trades.contains_key(k) ==> (
            self.trades[k].asked_id,
            self.trades[k].trader,
        ) == k
    }
}

/// The exchange's state. Sales are kept in increasing order of asset; trades in
/// increasing order of offeror, then asked asset.
pub struct Ledger {
    config: Config,
    sales: Vec<Sale>,
    trades: Vec<Trade>,
    operations: Operations,
}

impl Ledger {
    /// The sales in the order they are kept.
    pub closed spec fn sale_list(&self) -> Seq<SaleView> {
        self.sales@.map_values(|s: Sale| s@)
    }

    /// The trades in the order they are kept.
    pub closed spec fn trade_list(&self) -> Seq<TradeView> {
        self.trades@.map_values(|t: Trade| t@)
    }

    pub open spec fn wf(&self) -> bool {
        &&& sorted_by(self.sale_list(), sale_key(), key_order())
        &&& sorted_by(self.trade_list(), trade_key(), trade_key_order())
        &&& self@.sales == table_map(self.sale_list(), sale_key())
        &&& self@.trades == table_map(self.trade_list(), trade_key())
        &&& self@.wf()
    }

    /// Address of the custody service.
    pub fn nft_contract(&self) -> (r: &String)
        ensures
            r@ == self@.nft_contract,
    {
        &self.config.nft_contract
    }

    /// The configuration.
    pub fn config(&self) -> (r: &Config)
        ensures
            r.nft_contract@ == self@.nft_contract,
    {
        &self.config
    }

    /// The operation counters.
    pub fn operations(&self) -> (r: Operations)
        ensures
            r.n_trades == self@.n_trades,
            r.n_sales == self@.n_sales,
    {
        self.operations
    }

    /// Replaces the operation counters.
    pub fn save_operations(&mut self, ops: Operations)
        requires
            old(self).wf(),
        ensures
            final(self).wf(),
            final(self)@ == (LedgerModel { n_trades: ops.n_trades, n_sales: ops.n_sales, ..old(self)@ }),
    {
        self.operations = ops;
    }

    proof fn lemma_model_wf(&self)
        requires
            sorted_by(self.sale_list(), sale_key(), key_order()),
            sorted_by(self.trade_list(), trade_key(), trade_key_order()),
        ensures
            self.wf(),
    {
        lemma_key_lt_order();
        lemma_trade_key_lt_order();
        lemma_table_keys(self.sale_list(), sale_key(), key_order());
        lemma_table_keys(self.trade_list(), trade_key(), trade_key_order());
    }

    /// An empty ledger for the given configuration.
    pub fn new(config: Config) -> (r: Ledger)
        ensures
            r.wf(),
            r@ == (LedgerModel {
                nft_contract: config.nft_contract@,
                sales: Map::empty(),
                trades: Map::empty(),
                n_trades: 0,
                n_sales: 0,
            }),
    {
        let r = Ledger {
            config,
            sales: Vec::new(),
            trades: Vec::new(),
            operations: Operations { n_trades: 0, n_sales: 0 },
        };
        assert(r.sale_list() =~= Seq::empty());
        assert(r.trade_list() =~= Seq::empty());
        assert(r@.sales =~= Map::empty());
        assert(r@.trades =~= Map::empty());
        proof {
            r.lemma_model_wf();
        }
        r
    }

    /// The sales in increasing order of asset.
    pub fn sale_records(&self) -> (r: &Vec<Sale>)
        ensures
            r@.map_values(|s: Sale| s@) == self.sale_list(),
    {
        &self.sales
    }

    /// The trades in increasing order of offeror, then asked asset.
    pub fn trade_records(&self) -> (r: &Vec<Trade>)
        ensures
            r@.map_values(|t: Trade| t@) == self.trade_list(),
    {
        &self.trades
    }

    fn find_sale(&self, id: &String) -> (r: Option<usize>)
        requires
            self.wf(),
        ensures
            match r {
                Some(i) => i < self.sale_list().len() && self.sale_list()[i as int].nft_id == id@,
                None => !self@.sales.contains_key(id@),
            },
    {
        let mut i: usize = 0;
        while i < self.sales.len()
            invariant
                i <= self.sales@.len(),
                forall|j: int| 0 <= j < i ==> self.sale_list()[j].nft_id != id@,
            decreases self.sales@.len() - i,
        {
            if self.sales[i].nft_id == *id {
                return Some(i);
            }
            i = i + 1;
        }
        None
    }

    fn find_trade(&self, asked_id: &String, trader: &String) -> (r: Option<usize>)
        requires
            self.wf(),
        ensures
            match r {
                Some(i) => i < self.trade_list().len() && trade_key()(self.trade_list()[i as int])
                    == (asked_id@, trader@),
                None => !self@.trades.contains_key((asked_id@, trader@)),
            },
    {
        let mut i: usize = 0;
        while i < self.trades.len()
            invariant
                i <= self.trades@.len(),
                forall|j: int|
                    0 <= j < i ==> trade_key()(self.trade_list()[j]) != (asked_id@, trader@),
            decreases self.trades@.len() - i,
        {
            if self.trades[i].asked_id == *asked_id && self.trades[i].trader == *trader {
                return Some(i);
            }
            i = i + 1;
        }
        None
    }

    /// The sale of asset `id`, if there is one.
    pub fn load_sale(&self, id: &String) -> (r: Option<Sale>)
        requires
            self.wf(),
        ensures
            match r {
                Some(s) => self@.sales.contains_key(id@) && self@.sales[id@] == s@,
                None => !self@.sales.contains_key(id@),
            },
    {
        match self.find_sale(id) {
            Some(i) => {
                proof {
                    lemma_key_lt_order();
                    lemma_table_at(self.sale_list(), sale_key(), key_order(), i as int);
                }
                Some(self.sales[i].duplicate())
            },
            None => None,
        }
    }

    /// The trade of `trader` for asset `asked_id`, if there is one.
    pub fn load_trade(&self, asked_id: &String, trader: &String) -> (r: Option<Trade>)
        requires
            self.wf(),
        ensures
            match r {
                Some(t) => self@.trades.contains_key((asked_id@, trader@)) && self@.trades[(
                asked_id@,
                trader@,
                )] == t@,
                None => !self@.trades.contains_key((asked_id@, trader@)),
            },
    {
        match self.find_trade(asked_id, trader) {
            Some(i) => {
                proof {
                    lemma_trade_key_lt_order();
                    lemma_table_at(self.trade_list(), trade_key(), trade_key_order(), i as int);
                }
                Some(self.trades[i].duplicate())
            },
            None => None,
        }
    }

    /// Whether any offeror has a trade for asset `asked_id`.
    pub fn has_trade_for(&self, asked_id: &String) -> (r: bool)
        requires
            self.wf(),
        ensures
            r == exists|k: (Seq<char>, Seq<char>)| #[trigger] self@.trades.contains_key(k) && k.0
                == asked_id@,
    {
        let mut i: usize = 0;
        while i < self.trades.len()
            invariant
                i <= self.trades@.len(),
                self.wf(),
                forall|j: int| 0 <= j < i ==> self.trade_list()[j].asked_id != asked_id@,
            decreases self.trades@.len() - i,
        {
            if self.trades[i].asked_id == *asked_id {
                proof {
                    lemma_trade_key_lt_order();
                    lemma_table_at(self.trade_list(), trade_key(), trade_key_order(), i as int);
                    let k = trade_key()(self.trade_list()[i as int]);
                    assert(self@.trades.contains_key(k));
                }
                return true;
            }
            i = i + 1;
        }
        proof {
            assert forall|k: (Seq<char>, Seq<char>)| #[trigger]
                self@.trades.contains_key(k) implies k.0 != asked_id@ by {
                let j = choose|j: int|
                    0 <= j < self.trade_list().len() && trade_key()(
                        #[trigger] self.trade_list()[j],
                    ) == k;
            }
        }
        false
    }

    /// Stores `sale` under its asset, replacing any sale of that asset.
    pub fn save_sale(&mut self, sale: Sale)
        requires
            old(self).wf(),
        ensures
            final(self).wf(),
            final(self)@ == (LedgerModel {
                sales: old(self)@.sales.insert(sale@.nft_id, sale@),
                ..old(self)@
            }),
    {
        proof {
            lemma_key_lt_order();
        }
        let ghost old_list = self.sale_list();
        match self.find_sale(&sale.nft_id) {
            Some(i) => {
                let ghost v = sale@;
                self.sales.set(i, sale);
                proof {
                    assert(self.sale_list() =~= old_list.update(i as int, v));
                    lemma_table_update(old_list, sale_key(), key_order(), i as int, v);
                }
            },
            None => {
                let mut p: usize = 0;
                while p < self.sales.len() && key_less(&self.sales[p].nft_id, &sale.nft_id)
                    invariant
                        p <= self.sales@.len(),
                        self.sale_list() == old_list,
                        forall|j: int| 0 <= j < p ==> key_lt(old_list[j].nft_id, sale@.nft_id),
                    decreases self.sales@.len() - p,
                {
                    p = p + 1;
                }
                proof {
                    if p < old_list.len() {
                        assert(old_list[p as int].nft_id != sale@.nft_id) by {
                            lemma_table_at(old_list, sale_key(), key_order(), p as int);
                        }
                        assert(key_order()(sale@.nft_id, old_list[p as int].nft_id) || key_order()(
                            old_list[p as int].nft_id,
                            sale@.nft_id,
                        ));
                        assert forall|j: int| p <= j < old_list.len() implies key_lt(
                            sale@.nft_id,
                            #[trigger] old_list[j].nft_id,
                        ) by {
                            if j > p {
                                assert(key_order()(old_list[p as int].nft_id, old_list[j].nft_id));
                                assert(key_order()(sale@.nft_id, old_list[p as int].nft_id));
                            }
                        }
                    }
                }
                let ghost v = sale@;
                self.sales.insert(p, sale);
                proof {
                    assert(self.sale_list() =~= old_list.insert(p as int, v));
                    lemma_table_insert(old_list, sale_key(), key_order(), p as int, v);
                }
            },
        }
        proof {
            self.lemma_model_wf();
        }
    }

    /// Takes out the sale of asset `id`, if there is one.
    pub fn remove_sale(&mut self, id: &String)
        requires
            old(self).wf(),
        ensures
            final(self).wf(),
            final(self)@ == (LedgerModel { sales: old(self)@.sales.remove(id@), ..old(self)@ }),
    {
        proof {
            lemma_key_lt_order();
        }
        let ghost old_list = self.sale_list();
        match self.find_sale(id) {
            Some(i) => {
                self.sales.remove(i);
                proof {
                    assert(self.sale_list() =~= old_list.remove(i as int));
                    lemma_table_remove(old_list, sale_key(), key_order(), i as int);
                }
            },
            None => {
                assert(self@.sales =~= old(self)@.sales.remove(id@));
            },
        }
        proof {
            self.lemma_model_wf();
        }
    }

    /// Stores `trade` under its asked asset and offeror, replacing any trade there.
    pub fn save_trade(&mut self, trade: Trade)
        requires
            old(self).wf(),
        ensures
            final(self).wf(),
            final(self)@ == (LedgerModel {
                trades: old(self)@.trades.insert((trade@.asked_id, trade@.trader), trade@),
                ..old(self)@
            }),
    {
        proof {
            lemma_trade_key_lt_order();
        }
        let ghost old_list = self.trade_list();
        let ghost k = (trade@.asked_id, trade@.trader);
        match self.find_trade(&trade.asked_id, &trade.trader) {
            Some(i) => {
                let ghost v = trade@;
                self.trades.set(i, trade);
                proof {
                    assert(self.trade_list() =~= old_list.update(i as int, v));
                    lemma_table_update(old_list, trade_key(), trade_key_order(), i as int, v);
                }
            },
            None => {
                let mut p: usize = 0;
                while p < self.trades.len() && trade_key_less(
                    &self.trades[p].asked_id,
                    &self.trades[p].trader,
                    &trade.asked_id,
                    &trade.trader,
                )
                    invariant
                        p <= self.trades@.len(),
                        self.trade_list() == old_list,
                        k == (trade@.asked_id, trade@.trader),
                        forall|j: int| 0 <= j < p ==> trade_key_lt(trade_key()(old_list[j]), k),
                    decreases self.trades@.len() - p,
                {
                    p = p + 1;
                }
                proof {
                    if p < old_list.len() {
                        let kp = trade_key()(old_list[p as int]);
                        assert(kp != k) by {
                            lemma_table_at(old_list, trade_key(), trade_key_order(), p as int);
                        }
                        assert(trade_key_order()(k, kp) || trade_key_order()(kp, k));
                        assert forall|j: int| p <= j < old_list.len() implies trade_key_lt(
                            k,
                            trade_key()(#[trigger] old_list[j]),
                        ) by {
                            if j > p {
                                assert(trade_key_order()(kp, trade_key()(old_list[j])));
                                assert(trade_key_order()(k, kp));
                            }
                        }
                    }
                }
                let ghost v = trade@;
                self.trades.insert(p, trade);
                proof {
                    assert(self.trade_list() =~= old_list.insert(p as int, v));
                    lemma_table_insert(old_list, trade_key(), trade_key_order(), p as int, v);
                }
            },
        }
        proof {
            self.lemma_model_wf();
        }
    }

    /// Takes out the trade of `trader` for asset `asked_id`, if there is one.
    pub fn remove_trade(&mut self, asked_id: &String, trader: &String)
        requires
            old(self).wf(),
        ensures
            final(self).wf(),
            final(self)@ == (LedgerModel {
                trades: old(self)@.trades.remove((asked_id@, trader@)),
                ..old(self)@
            }),
    {
        proof {
            lemma_trade_key_lt_order();
        }
        let ghost old_list = self.trade_list();
        match self.find_trade(asked_id, trader) {
            Some(i) => {
                self.trades.remove(i);
                proof {
                    assert(self.trade_list() =~= old_list.remove(i as int));
                    lemma_table_remove(old_list, trade_key(), trade_key_order(), i as int);
                }
            },
            None => {
                assert(self@.trades =~= old(self)@.trades.remove((asked_id@, trader@)));
            },
        }
        proof {
            self.lemma_model_wf();
        }
    }
}

impl View for Ledger {
    type V = LedgerModel;

    closed spec fn view(&self) -> LedgerModel {
        LedgerModel {
            nft_contract: self.config.nft_contract@,
            sales: table_map(self.sale_list(), sale_key()),
            trades: table_map(self.trade_list(), trade_key()),
            n_trades: self.operations.n_trades,
            n_sales: self.operations.n_sales,
        }
    }
}

} // verus!
