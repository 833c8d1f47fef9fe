//! Read-only questions over the ledger: point lookups and paginated listings.
use vstd::prelude::*;

use crate::error::ContractError;
use crate::msg::QueryMsg;
use crate::state::{Sale, SaleView, Trade, TradeView};
use crate::store::Ledger;

verus! {

/// How many records a listing returns when the caller names no limit.
pub const DEFAULT_LIMIT: u64 = 10;

/// `o`'s value, or `d` when there is none.
pub open spec fn or_else(o: Option<u64>, d: u64) -> u64 {
    match o {
        Some(v) => v,
        None => d,
    }
}

/// The records of `s` from position `from` on, at most `limit` of them.
pub open spec fn page<T>(s: Seq<T>, from: u64, limit: u64) -> Seq<T> {
    if from >= s.len() {
        Seq::empty()
    } else if from + limit <= s.len() {
        s.subrange(from as int, from + limit)
    } else {
        s.subrange(from as int, s.len() as int)
    }
}

/// Sales whose owner is `seller`.
pub open spec fn sold_by(seller: Seq<char>) -> spec_fn(SaleView) -> bool {
    |s: SaleView| s.owner == seller
}

/// Trades whose offeror is `trader`.
pub open spec fn offered_by(trader: Seq<char>) -> spec_fn(TradeView) -> bool {
    |t: TradeView| t.trader == trader
}

pub open spec fn sale_views(v: Seq<Sale>) -> Seq<SaleView> {
    v.map_values(|s: Sale| s@)
}

pub open spec fn trade_views(v: Seq<Trade>) -> Seq<TradeView> {
    v.map_values(|t: Trade| t@)
}

/// What a point lookup of the sale of `id` answers.
pub open spec fn sale_answer(ledger: &Ledger, id: Seq<char>) -> Result<SaleView, ContractError> {
    if ledger@.sales.contains_key(id) {
        Ok(ledger@.sales[id])
    } else {
        Err(ContractError::NotFound {})
    }
}

/// What a point lookup of the trade of `trader` for `id` answers.
pub open spec fn trade_answer(ledger: &Ledger, id: Seq<char>, trader: Seq<char>) -> Result<
    TradeView,
    ContractError,
> {
    if ledger@.trades.contains_key((id, trader)) {
        Ok(ledger@.trades[(id, trader)])
    } else {
        Err(ContractError::NotFound {})
    }
}

/// The page of `seller`'s sales, in increasing order of asset.
pub open spec fn sales_page(ledger: &Ledger, seller: Seq<char>, from: Option<u64>, limit: Option<u64>) -> Seq<SaleView> {
    page(ledger.sale_list().filter(sold_by(seller)), or_else(from, 0), or_else(limit, DEFAULT_LIMIT))
}

/// The page of `trader`'s trades, in increasing order of asked asset.
pub open spec fn trades_page(ledger: &Ledger, trader: Seq<char>, from: Option<u64>, limit: Option<u64>) -> Seq<TradeView> {
    page(ledger.trade_list().filter(offered_by(trader)), or_else(from, 0), or_else(limit, DEFAULT_LIMIT))
}

/// The sale of asset `id`.
pub fn get_sale(ledger: &Ledger, id: String) -> (r: Result<Sale, ContractError>)
    requires
        ledger.wf(),
    ensures
        match r {
            Ok(s) => sale_answer(ledger, id@) == Ok::<SaleView, ContractError>(s@),
            Err(e) => sale_answer(ledger, id@) == Err::<SaleView, ContractError>(e),
        },
{
    match ledger.load_sale(&id) {
        Some(s) => Ok(s),
        None => Err(ContractError::NotFound {}),
    }
}

/// The trade of `trader` for asset `id`.
pub fn get_trade(ledger: &Ledger, id: String, trader: String) -> (r: Result<Trade, ContractError>)
    requires
        ledger.wf(),
    ensures
        match r {
            Ok(t) => trade_answer(ledger, id@, trader@) == Ok::<TradeView, ContractError>(t@),
            Err(e) => trade_answer(ledger, id@, trader@) == Err::<TradeView, ContractError>(e),
        },
{
    match ledger.load_trade(&id, &trader) {
        Some(t) => Ok(t),
        None => Err(ContractError::NotFound {}),
    }
}

fn page_sales(v: &Vec<Sale>, from: u64, limit: u64) -> (r: Vec<Sale>)
    ensures
        sale_views(r@) == page(sale_views(v@), from, limit),
{
    let mut out: Vec<Sale> = Vec::new();
    let n = v.len();
    if (from as u128) < (n as u128) {
        let start = from as usize;
        let stop: usize = if (limit as u128) < ((n - start) as u128) {
            start + limit as usize
        } else {
            n
        };
        let mut k: usize = start;
        while k < stop
            invariant
                start <= k <= stop <= n == v@.len(),
                sale_views(out@) == sale_views(v@).subrange(start as int, k as int),
            decreases stop - k,
        {
            let ghost before = out@;
            out.push(v[k].duplicate());
            assert(sale_views(out@) =~= sale_views(before).push(v@[k as int]@));
            assert(sale_views(out@) =~= sale_views(v@).subrange(start as int, k + 1));
            k = k + 1;
        }
    } else {
        assert(sale_views(out@) =~= Seq::empty());
    }
    out
}

fn page_trades(v: &Vec<Trade>, from: u64, limit: u64) -> (r: Vec<Trade>)
    ensures
        trade_views(r@) == page(trade_views(v@), from, limit),
{
    let mut out: Vec<Trade> = Vec::new();
    let n = v.len();
    if (from as u128) < (n as u128) {
        let start = from as usize;
        let stop: usize = if (limit as u128) < ((n - start) as u128) {
            start + limit as usize
        } else {
            n
        };
        let mut k: usize = start;
        while k < stop
            invariant
                start <= k <= stop <= n == v@.len(),
                trade_views(out@) == trade_views(v@).subrange(start as int, k as int),
            decreases stop - k,
        {
            let ghost before = out@;
            out.push(v[k].duplicate());
            assert(trade_views(out@) =~= trade_views(before).push(v@[k as int]@));
            assert(trade_views(out@) =~= trade_views(v@).subrange(start as int, k + 1));
            k = k + 1;
        }
    } else {
        assert(trade_views(out@) =~= Seq::empty());
    }
    out
}

/// A page of the sales of `seller`, in increasing order of asset: skip `from_index`
/// (default none), then at most `limit` (default ten).
pub fn get_sales_seller(
    ledger: &Ledger,
    seller: String,
    from_index: Option<u64>,
    limit: Option<u64>,
) -> (r: Vec<Sale>)
    ensures
        sale_views(r@) == sales_page(ledger, seller@, from_index, limit),
{
    let sales = ledger.sale_records();
    let ghost all = ledger.sale_list();
    let ghost pred = sold_by(seller@);
    let mut owned: Vec<Sale> = Vec::new();
    let mut i: usize = 0;
    assert(sale_views(owned@) =~= all.take(0).filter(pred)) by {
        reveal(Seq::filter);
    }
    while i < sales.len()
        invariant
            i <= sales@.len(),
            sale_views(sales@) == all,
            pred == sold_by(seller@),
            sale_views(owned@) == all.take(i as int).filter(pred),
        decreases sales@.len() - i,
    {
        let ghost before = owned@;
        if sales[i].owner == seller {
            owned.push(sales[i].duplicate());
        }
        proof {
            reveal(Seq::filter);
            assert(all.take(i + 1).drop_last() =~= all.take(i as int));
            assert(all.take(i + 1).last() == all[i as int]);
            assert(all[i as int] == sales@[i as int]@);
            if pred(all[i as int]) {
                assert(sale_views(owned@) =~= sale_views(before).push(all[i as int]));
            } else {
                assert(sale_views(owned@) =~= sale_views(before));
            }
        }
        i = i + 1;
    }
    assert(all.take(sales@.len() as int) =~= all);
    let from = match from_index {
        Some(f) => f,
        None => 0,
    };
    let lim = match limit {
        Some(l) => l,
        None => DEFAULT_LIMIT,
    };
    page_sales(&owned, from, lim)
}

/// A page of the trades offered by `trader`, in increasing order of asked asset: skip
/// `from_index` (default none), then at most `limit` (default ten).
pub fn get_trades_trader(
    ledger: &Ledger,
    trader: String,
    from_index: Option<u64>,
    limit: Option<u64>,
) -> (r: Vec<Trade>)
    ensures
        trade_views(r@) == trades_page(ledger, trader@, from_index, limit),
{
    let trades = ledger.trade_records();
    let ghost all = ledger.trade_list();
    let ghost pred = offered_by(trader@);
    let mut mine: Vec<Trade> = Vec::new();
    let mut i: usize = 0;
    assert(trade_views(mine@) =~= all.take(0).filter(pred)) by {
        reveal(Seq::filter);
    }
    while i < trades.len()
        invariant
            i <= trades@.len(),
            trade_views(trades@) == all,
            pred == offered_by(trader@),
            trade_views(mine@) == all.take(i as int).filter(pred),
        decreases trades@.len() - i,
    {
        let ghost before = mine@;
        if trades[i].trader == trader {
            mine.push(trades[i].duplicate());
        }
        proof {
            reveal(Seq::filter);
            assert(all.take(i + 1).drop_last() =~= all.take(i as int));
            assert(all.take(i + 1).last() == all[i as int]);
            assert(all[i as int] == trades@[i as int]@);
            if pred(all[i as int]) {
                assert(trade_views(mine@) =~= trade_views(before).push(all[i as int]));
            } else {
                assert(trade_views(mine@) =~= trade_views(before));
            }
        }
        i = i + 1;
    }
    assert(all.take(trades@.len() as int) =~= all);
    let from = match from_index {
        Some(f) => f,
        None => 0,
    };
    let lim = match limit {
        Some(l) => l,
        None => DEFAULT_LIMIT,
    };
    page_trades(&mine, from, lim)
}

/// An answer to a question.
#[derive(Clone, Debug, PartialEq, Eq)]
pub enum QueryAnswer {
    Sale(Sale),
    Sales(Vec<Sale>),
    Trade(Trade),
    Trades(Vec<Trade>),
}

pub enum QueryAnswerView {
    Sale(SaleView),
    Sales(Seq<SaleView>),
    Trade(TradeView),
    Trades(Seq<TradeView>),
}

impl View for QueryAnswer {
    type V = QueryAnswerView;

    open spec fn view(&self) -> QueryAnswerView {
        match self {
            QueryAnswer::Sale(s) => QueryAnswerView::Sale(s@),
            QueryAnswer::Sales(v) => QueryAnswerView::Sales(sale_views(v@)),
            QueryAnswer::Trade(t) => QueryAnswerView::Trade(t@),
            QueryAnswer::Trades(v) => QueryAnswerView::Trades(trade_views(v@)),
        }
    }
}

/// What the question `msg` is answered with.
pub open spec fn query_answer(ledger: &Ledger, msg: QueryMsg) -> Result<QueryAnswerView, ContractError> {
    match msg {
        QueryMsg::GetSale { id } => match sale_answer(ledger, id@) {
            Ok(s) => Ok(QueryAnswerView::Sale(s)),
            Err(e) => Err(e),
        },
        QueryMsg::GetSalesBySeller { seller, from_index, limit } => Ok(
            QueryAnswerView::Sales(sales_page(ledger, seller@, from_index, limit)),
        ),
        QueryMsg::GetTrade { id, trader } => match trade_answer(ledger, id@, trader@) {
            Ok(t) => Ok(QueryAnswerView::Trade(t)),
            Err(e) => Err(e),
        },
        QueryMsg::GetTradesByTrader { trader, from_index, limit } => Ok(
            QueryAnswerView::Trades(trades_page(ledger, trader@, from_index, limit)),
        ),
    }
}

/// Answers the question `msg`.
pub fn query(ledger: &Ledger, msg: QueryMsg) -> (r: Result<QueryAnswer, ContractError>)
    requires
        ledger.wf(),
    ensures
        match r {
            Ok(a) => query_answer(ledger, msg) == Ok::<QueryAnswerView, ContractError>(a@),
            Err(e) => query_answer(ledger, msg) == Err::<QueryAnswerView, ContractError>(e),
        },
{
    match msg {
        QueryMsg::GetSale { id } => match get_sale(ledger, id) {
            Ok(s) => Ok(QueryAnswer::Sale(s)),
            Err(e) => Err(e),
        },
        QueryMsg::GetSalesBySeller { seller, from_index, limit } => Ok(
            QueryAnswer::Sales(get_sales_seller(ledger, seller, from_index, limit)),
        ),
        QueryMsg::GetTrade { id, trader } => match get_trade(ledger, id, trader) {
            Ok(t) => Ok(QueryAnswer::Trade(t)),
            Err(e) => Err(e),
        },
        QueryMsg::GetTradesByTrader { trader, from_index, limit } => Ok(
            QueryAnswer::Trades(get_trades_trader(ledger, trader, from_index, limit)),
        ),
    }
}

} // verus!
