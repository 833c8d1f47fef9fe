//! Properties of the exchange that relate several operations, or an operation and what
//! the host does with the calls it issues.
use vstd::prelude::*;

use crate::contract::{
    accept_trade_step, buy_step, cancel_sale_step, cancel_trade_step, execute_step, new_sale_step,
    new_trade_step, plain, reply_step, transfer,
};
use crate::error::ContractError;
use crate::keys::{key_lt, key_order, lemma_key_lt_order};
use crate::msg::{CustodyReport, Env, ExecuteMsg, MessageInfo};
use crate::payment::{paid_amount, Coin, DENOM};
use crate::query::{sales_page, sold_by};
use crate::response::{MessageView, ReplyOn, SubMsgView, SALE_REPLY, TRADE_REPLY};
use crate::state::SaleView;
use crate::store::{sale_key, Ledger, LedgerModel};
use crate::table::{lemma_table_at, sorted_by};

verus! {

/// The owners the custody service at `contract` records once it has carried out, in
/// order, the transfers in `msgs` addressed to it.
pub open spec fn custody_after(
    owners: Map<Seq<char>, Seq<char>>,
    contract: Seq<char>,
    msgs: Seq<SubMsgView>,
) -> Map<Seq<char>, Seq<char>>
    decreases msgs.len(),
{
    if msgs.len() == 0 {
        owners
    } else {
        let before = custody_after(owners, contract, msgs.drop_last());
        match msgs.last().msg {
            MessageView::TransferNft { contract_addr, recipient, token_id } => if contract_addr
                == contract {
                before.insert(token_id, recipient)
            } else {
                before
            },
            MessageView::BankSend { .. } => before,
        }
    }
}

/// The amount of `denom` that the payments in `msgs` send to `to`.
pub open spec fn paid_to(msgs: Seq<SubMsgView>, to: Seq<char>, denom: Seq<char>) -> int
    decreases msgs.len(),
{
    if msgs.len() == 0 {
        0
    } else {
        let before = paid_to(msgs.drop_last(), to, denom);
        match msgs.last().msg {
            MessageView::BankSend { to_address, denom: d, amount } => if to_address == to && d
                == denom {
                before + amount
            } else {
                before
            },
            MessageView::TransferNft { .. } => before,
        }
    }
}

/// The tags of the completion notices the host delivers for `msgs`, where `ok[i]` tells
/// whether call `i` succeeded.
pub open spec fn notices(msgs: Seq<SubMsgView>, ok: Seq<bool>) -> Seq<u64>
    decreases msgs.len(),
{
    if msgs.len() == 0 {
        seq![]
    } else {
        let i = msgs.len() - 1;
        let before = notices(msgs.drop_last(), ok);
        let m = msgs[i];
        if m.reply_on == ReplyOn::Always || (m.reply_on == ReplyOn::Success && ok[i]) {
            before.push(m.id)
        } else {
            before
        }
    }
}

/// The ledger after the completion handler has run on each tag of `tags`, in order.
pub open spec fn after_notices(m: LedgerModel, tags: Seq<u64>) -> LedgerModel
    decreases tags.len(),
{
    if tags.len() == 0 {
        m
    } else {
        reply_step(after_notices(m, tags.drop_last()), tags.last()).0
    }
}

/// Listing an asset and then cancelling the listing, both by its owner, succeeds, hands
/// the asset back to that owner and leaves no sale of it.
pub proof fn lemma_list_then_cancel(
    m: LedgerModel,
    owners: Map<Seq<char>, Seq<char>>,
    escrow: Seq<char>,
    owner: Seq<char>,
    id: Seq<char>,
    price: u128,
    tradable: bool,
)
    ensures
        ({
            let (m1, r1) = new_sale_step(m, escrow, owner, id, price, tradable, owner);
            let (m2, r2) = cancel_sale_step(m1, owner, id);
            &&& r1 is Ok
            &&& r2 == Ok::<Seq<SubMsgView>, ContractError>(seq![plain(transfer(m, id, owner))])
            &&& !m2.sales.contains_key(id)
            &&& m2 == LedgerModel { sales: m.sales.remove(id), ..m }
            &&& custody_after(
                custody_after(owners, m.nft_contract, r1->Ok_0),
                m.nft_contract,
                r2->Ok_0,
            )[id] == owner
        }),
{
    let (m1, r1) = new_sale_step(m, escrow, owner, id, price, tradable, owner);
    let (m2, r2) = cancel_sale_step(m1, owner, id);
    assert(m2.sales =~= m.sales.remove(id));
    let msgs = r2->Ok_0;
    assert(msgs.drop_last() =~= seq![]);
    let first = r1->Ok_0;
    assert(first.drop_last() =~= seq![]);
}

/// A purchase of a listed asset succeeds exactly when the payment attached is the
/// sale's price: one coin of the settlement currency succeeds exactly when its amount is
/// the price, no coin exactly when the price is 0. Otherwise the purchase is refused with
/// that price and the ledger is unchanged.
pub proof fn lemma_purchase_needs_exact_payment(
    m: LedgerModel,
    buyer: Seq<char>,
    funds: Seq<Coin>,
    id: Seq<char>,
)
    requires
        m.sales.contains_key(id),
    ensures
        ({
            let price = m.sales[id].price;
            let paid = paid_amount(funds, DENOM@);
            &&& buy_step(m, buyer, paid, id).1 is Ok <==> paid == Some(price)
            &&& funds.len() == 1 && funds[0].denom@ == DENOM@ ==> (buy_step(
                m,
                buyer,
                paid,
                id,
            ).1 is Ok <==> funds[0].amount == price)
            &&& funds.len() == 0 ==> (buy_step(m, buyer, paid, id).1 is Ok <==> price == 0)
            &&& paid != Some(price) ==> buy_step(m, buyer, paid, id) == (
                m,
                Err::<Seq<SubMsgView>, ContractError>(ContractError::IncorrectPayment { price }),
            )
        }),
{
}

/// After a purchase of `id` by `buyer` paying the price in one coin of the settlement
/// currency: the sale is gone, the seller is paid exactly the price, the custody service
/// records the buyer as owner once the transfer is carried out, and its completion
/// notice counts exactly one more sale.
pub proof fn lemma_purchase_settles(
    m: LedgerModel,
    owners: Map<Seq<char>, Seq<char>>,
    buyer: Seq<char>,
    funds: Seq<Coin>,
    id: Seq<char>,
)
    requires
        m.sales.contains_key(id),
        funds.len() == 1,
        funds[0].denom@ == DENOM@,
        funds[0].amount == m.sales[id].price,
        m.n_sales < u128::MAX,
    ensures
        ({
            let sale = m.sales[id];
            let (m1, r1) = buy_step(m, buyer, paid_amount(funds, DENOM@), id);
            let msgs = r1->Ok_0;
            &&& r1 is Ok
            &&& !m1.sales.contains_key(id)
            &&& m1.trades == m.trades
            &&& paid_to(msgs, sale.owner, DENOM@) == sale.price
            &&& custody_after(owners, m.nft_contract, msgs)[id] == buyer
            &&& after_notices(m1, notices(msgs, seq![true, true])).n_sales == m.n_sales + 1
        }),
{
    let sale = m.sales[id];
    let (m1, r1) = buy_step(m, buyer, paid_amount(funds, DENOM@), id);
    let msgs = r1->Ok_0;
    assert(msgs.drop_last() =~= seq![msgs[0]]);
    assert(msgs.drop_last().drop_last() =~= seq![]);
    let tags = notices(msgs, seq![true, true]);
    assert(notices(msgs.drop_last(), seq![true, true]) =~= seq![]) by {
        assert(notices(msgs.drop_last().drop_last(), seq![true, true]) =~= seq![]);
    }
    assert(tags =~= seq![SALE_REPLY]);
    assert(tags.drop_last() =~= seq![]);
    assert(after_notices(m1, tags.drop_last()) == m1);
    assert(tags.last() == SALE_REPLY);
    assert(after_notices(m1, tags) == reply_step(m1, SALE_REPLY).0);
    assert(paid_to(msgs.drop_last(), sale.owner, DENOM@) == sale.price) by {
        assert(paid_to(msgs.drop_last().drop_last(), sale.owner, DENOM@) == 0);
    }
    assert(msgs.last().msg == transfer(m, id, buyer));
    assert(custody_after(owners, m.nft_contract, msgs) == custody_after(
        owners,
        m.nft_contract,
        msgs.drop_last(),
    ).insert(id, buyer));
}

/// An offer for a sale that is not open to trades is refused as non-tradeable, even
/// when the offeror owns the offered asset and has approved the exchange over it.
pub proof fn lemma_offer_needs_tradable(
    m: LedgerModel,
    sender: Seq<char>,
    asked: Seq<char>,
    offered: Seq<char>,
)
    requires
        m.sales.contains_key(asked),
        !m.sales[asked].tradable,
    ensures
        new_trade_step(m, sender, asked, offered, sender, true) == (
            m,
            Err::<Seq<SubMsgView>, ContractError>(ContractError::NonTradeable {}),
        ),
{
}

/// Accepting a trade swaps the two assets between the offeror and the seller once the
/// transfers are carried out, removes the trade, and counts exactly two more trades
/// whether or not either transfer succeeded.
pub proof fn lemma_accept_trade_swaps(
    m: LedgerModel,
    owners: Map<Seq<char>, Seq<char>>,
    asked: Seq<char>,
    trader: Seq<char>,
    ok: Seq<bool>,
)
    requires
        m.wf(),
        m.trades.contains_key((asked, trader)),
        m.sales.contains_key(asked),
        m.trades[(asked, trader)].to_trade_id != asked,
        m.n_trades < u128::MAX - 1,
        ok.len() == 2,
    ensures
        ({
            let seller = m.sales[asked].owner;
            let offered = m.trades[(asked, trader)].to_trade_id;
            let (m1, r1) = accept_trade_step(m, seller, asked, trader);
            let msgs = r1->Ok_0;
            &&& r1 is Ok
            &&& !m1.trades.contains_key((asked, trader))
            &&& custody_after(owners, m.nft_contract, msgs)[asked] == trader
            &&& custody_after(owners, m.nft_contract, msgs)[offered] == seller
            &&& after_notices(m1, notices(msgs, ok)).n_trades == m.n_trades + 2
        }),
{
    let seller = m.sales[asked].owner;
    let (m1, r1) = accept_trade_step(m, seller, asked, trader);
    let msgs = r1->Ok_0;
    assert(msgs.drop_last() =~= seq![msgs[0]]);
    assert(msgs.drop_last().drop_last() =~= seq![]);
    let tags = notices(msgs, ok);
    assert(notices(msgs.drop_last(), ok) =~= seq![TRADE_REPLY]) by {
        assert(notices(msgs.drop_last().drop_last(), ok) =~= seq![]);
    }
    assert(tags =~= seq![TRADE_REPLY, TRADE_REPLY]);
    assert(tags.drop_last() =~= seq![TRADE_REPLY]);
    assert(tags.drop_last().drop_last() =~= seq![]);
    let t = TRADE_REPLY;
    assert(after_notices(m1, tags.drop_last().drop_last()) == m1);
    assert(tags.drop_last().last() == t);
    assert(after_notices(m1, tags.drop_last()) == reply_step(m1, t).0);
    assert(after_notices(m1, tags) == reply_step(reply_step(m1, t).0, t).0);
    let offered = m.trades[(asked, trader)].to_trade_id;
    let c = m.nft_contract;
    assert(msgs.last().msg == transfer(m, offered, seller));
    assert(msgs.drop_last().last().msg == transfer(m, asked, trader));
    let c0 = custody_after(owners, c, msgs.drop_last().drop_last());
    assert(custody_after(owners, c, msgs.drop_last()) == c0.insert(asked, trader));
    assert(custody_after(owners, c, msgs) == c0.insert(asked, trader).insert(offered, seller));
}

/// Withdrawing a trade reaches only the caller's own offer: the offer of anyone else
/// stays, and a caller without an offer for an asset that others made offers for is
/// refused as unauthorized.
pub proof fn lemma_cancel_trade_only_by_offeror(
    m: LedgerModel,
    caller: Seq<char>,
    asked: Seq<char>,
    trader: Seq<char>,
)
    requires
        m.trades.contains_key((asked, trader)),
        caller != trader,
    ensures
        ({
            let (m1, r1) = cancel_trade_step(m, caller, asked);
            &&& m1.trades.contains_key((asked, trader))
            &&& m1.trades[(asked, trader)] == m.trades[(asked, trader)]
            &&& !m.trades.contains_key((asked, caller)) ==> r1 == Err::<
                Seq<SubMsgView>,
                ContractError,
            >(ContractError::Unauthorized {})
        }),
{
    assert(m.trades.contains_key((asked, trader)) && (asked, trader).0 == asked);
}

/// No operation changes the configuration or the counters; only the completion
/// handler moves a counter, and never down.
pub proof fn lemma_counters_only_grow_on_notice(
    m: LedgerModel,
    env: Env,
    info: MessageInfo,
    msg: ExecuteMsg,
    report: CustodyReport,
    id: u64,
)
    ensures
        ({
            let m1 = execute_step(m, env, info, msg, report).0;
            &&& m1.nft_contract == m.nft_contract
            &&& m1.n_sales == m.n_sales
            &&& m1.n_trades == m.n_trades
        }),
        ({
            let m2 = reply_step(m, id).0;
            &&& m2.nft_contract == m.nft_contract
            &&& m2.sales == m.sales
            &&& m2.trades == m.trades
            &&& m2.n_sales >= m.n_sales
            &&& m2.n_trades >= m.n_trades
        }),
{
}

proof fn lemma_filter_sorted(l: Seq<SaleView>, pred: spec_fn(SaleView) -> bool)
    requires
        sorted_by(l, sale_key(), key_order()),
    ensures
        sorted_by(l.filter(pred), sale_key(), key_order()),
        forall|i: int| 0 <= i < l.filter(pred).len() ==> #[trigger] l.contains(l.filter(pred)[i]),
    decreases l.len(),
{
    reveal(Seq::filter);
    if l.len() > 0 {
        let rest = l.drop_last();
        assert(sorted_by(rest, sale_key(), key_order())) by {
            assert forall|i: int, j: int| 0 <= i < j < rest.len() implies #[trigger] key_order()(
                sale_key()(rest[i]),
                sale_key()(rest[j]),
            ) by {
                assert(key_order()(sale_key()(l[i]), sale_key()(l[j])));
            }
        }
        lemma_filter_sorted(rest, pred);
        let f = rest.filter(pred);
        assert forall|i: int| 0 <= i < f.len() implies #[trigger] l.contains(f[i]) by {
            assert(rest.contains(f[i]));
            let j = choose|j: int| 0 <= j < rest.len() && rest[j] == f[i];
            assert(l[j] == f[i]);
        }
        if pred(l.last()) {
            let g = f.push(l.last());
            assert forall|i: int, j: int| 0 <= i < j < g.len() implies #[trigger] key_order()(
                sale_key()(g[i]),
                sale_key()(g[j]),
            ) by {
                if j == g.len() - 1 {
                    assert(rest.contains(f[i]));
                    let k = choose|k: int| 0 <= k < rest.len() && rest[k] == f[i];
                    assert(l[k] == f[i]);
                    assert(key_order()(sale_key()(l[k]), sale_key()(l[l.len() - 1])));
                } else {
                    assert(key_order()(sale_key()(f[i]), sale_key()(f[j])));
                }
            }
            assert forall|i: int| 0 <= i < g.len() implies #[trigger] l.contains(g[i]) by {
                if i < f.len() {
                    assert(l.contains(f[i]));
                } else {
                    assert(l[l.len() - 1] == g[i]);
                }
            }
        }
    }
}

/// A page of a seller's sales holds at most `limit` sales, each of them a sale of that
/// seller as the ledger stores it, in strictly increasing order of asset; a first page
/// long enough for all of the seller's sales holds every one of them.
pub proof fn lemma_sales_page(ledger: &Ledger, seller: Seq<char>, from: Option<u64>, limit: u64)
    requires
        ledger.wf(),
    ensures
        ({
            let r = sales_page(ledger, seller, from, Some(limit));
            &&& r.len() <= limit
            &&& forall|i: int|
                0 <= i < r.len() ==> {
                    &&& (#[trigger] r[i]).owner == seller
                    &&& ledger@.sales.contains_key(r[i].nft_id)
                    &&& ledger@.sales[r[i].nft_id] == r[i]
                }
            &&& forall|i: int, j: int| 0 <= i < j < r.len() ==> key_lt(r[i].nft_id, r[j].nft_id)
            &&& (from is None || from == Some(0u64)) && ledger.sale_list().filter(
                sold_by(seller),
            ).len() <= limit ==> forall|k: Seq<char>|
                #[trigger] ledger@.sales.contains_key(k) && ledger@.sales[k].owner == seller
                    ==> exists|i: int| 0 <= i < r.len() && r[i].nft_id == k
        }),
{
    lemma_key_lt_order();
    let l = ledger.sale_list();
    let pred = sold_by(seller);
    let f = l.filter(pred);
    lemma_filter_sorted(l, pred);
    let r = sales_page(ledger, seller, from, Some(limit));
    let start: int = match from {
        Some(v) => v as int,
        None => 0,
    };
    assert forall|i: int| 0 <= i < r.len() implies {
        &&& (#[trigger] r[i]).owner == seller
        &&& ledger@.sales.contains_key(r[i].nft_id)
        &&& ledger@.sales[r[i].nft_id] == r[i]
    } by {
        assert(r[i] == f[start + i]);
        l.lemma_filter_pred(pred, start + i);
        assert(l.contains(f[start + i]));
        let k = choose|k: int| 0 <= k < l.len() && l[k] == f[start + i];
        lemma_table_at(l, sale_key(), key_order(), k);
    }
    assert forall|i: int, j: int| 0 <= i < j < r.len() implies key_lt(r[i].nft_id, r[j].nft_id) by {
        assert(r[i] == f[start + i] && r[j] == f[start + j]);
        assert(key_order()(sale_key()(f[start + i]), sale_key()(f[start + j])));
    }
    if (from is None || from == Some(0u64)) && f.len() <= limit {
        assert(r =~= f);
        assert forall|k: Seq<char>|
            #[trigger] ledger@.sales.contains_key(k) && ledger@.sales[k].owner == seller implies exists|
            i: int,
        | 0 <= i < r.len() && r[i].nft_id == k by {
            let j = choose|j: int| 0 <= j < l.len() && sale_key()(#[trigger] l[j]) == k;
            lemma_table_at(l, sale_key(), key_order(), j);
            l.lemma_filter_contains(pred, j);
            assert(f.contains(l[j]));
            let i = choose|i: int| 0 <= i < f.len() && f[i] == l[j];
            assert(r[i].nft_id == k);
        }
    }
}

} // verus!
