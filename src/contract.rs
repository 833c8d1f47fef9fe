//! The exchange engine: listing, cancelling, buying, offering, accepting and
//! withdrawing trades, and the handler of completion notices. Each operation is stated
//! as a step from the ledger it finds to the ledger it leaves and the calls it issues.
use vstd::prelude::*;

use crate::error::ContractError;
use crate::msg::{CustodyReport, Env, ExecuteMsg, InstantiateMsg, MessageInfo};
use crate::payment::{attached_payment, paid_amount, DENOM};
use crate::response::{Message, MessageView, ReplyOn, Response, SubMsg, SubMsgView, SALE_REPLY, TRADE_REPLY};
use crate::state::{Config, Sale, SaleView, Trade, TradeView};
use crate::store::{Ledger, LedgerModel};

verus! {

/// What an operation ends with: the calls it issues, or why it was refused.
pub type Outcome = Result<Seq<SubMsgView>, ContractError>;

pub open spec fn outcome(r: Result<Response, ContractError>) -> Outcome {
    match r {
        Ok(resp) => Ok(resp@),
        Err(e) => Err(e),
    }
}

/// Ask the custody service to move `token_id` to `recipient`.
pub open spec fn transfer(m: LedgerModel, token_id: Seq<char>, recipient: Seq<char>) -> MessageView {
    MessageView::TransferNft { contract_addr: m.nft_contract, recipient, token_id }
}

/// A call whose outcome is not reported back.
pub open spec fn plain(msg: MessageView) -> SubMsgView {
    SubMsgView { id: 0, msg, reply_on: ReplyOn::Never }
}

/// The ledger a new exchange starts with.
pub open spec fn initial(nft_contract: Seq<char>) -> LedgerModel {
    LedgerModel {
        nft_contract,
        sales: Map::empty(),
        trades: Map::empty(),
        n_trades: 0,
        n_sales: 0,
    }
}

/// Creates the exchange for the custody service named in `msg`.
pub fn instantiate(msg: InstantiateMsg) -> (r: Ledger)
    ensures
        r.wf(),
        r@ == initial(msg.nft_address@),
{
    Ledger::new(Config { nft_contract: msg.nft_address })
}

/// Listing: the reported owner of `id` lists it; the asset moves into escrow at `escrow`.
pub open spec fn new_sale_step(
    m: LedgerModel,
    escrow: Seq<char>,
    sender: Seq<char>,
    id: Seq<char>,
    price: u128,
    tradable: bool,
    owner: Seq<char>,
) -> (LedgerModel, Outcome) {
    if owner != sender {
        (m, Err(ContractError::Unauthorized {}))
    } else {
        let sale = SaleView { nft_id: id, price, owner: sender, tradable };
        (
            LedgerModel { sales: m.sales.insert(id, sale), ..m },
            Ok(seq![plain(transfer(m, id, escrow))]),
        )
    }
}

/// Lists asset `id` at `price`; `nft_owner` is the owner the custody service reports.
pub fn exec_new_sale(
    ledger: &mut Ledger,
    env: &Env,
    info: &MessageInfo,
    id: String,
    price: u128,
    tradable: bool,
    nft_owner: &String,
) -> (r: Result<Response, ContractError>)
    requires
        old(ledger).wf(),
    ensures
        final(ledger).wf(),
        (final(ledger)@, outcome(r)) == new_sale_step(
            old(ledger)@,
            env.contract_address@,
            info.sender@,
            id@,
            price,
            tradable,
            nft_owner@,
        ),
{
    if !(*nft_owner == info.sender) {
        return Err(ContractError::Unauthorized {});
    }
    let ghost m = ledger@;
    let sale = Sale { nft_id: id.clone(), price, owner: info.sender.clone(), tradable };
    ledger.save_sale(sale);
    let mut resp = Response::new();
    resp.add(
        SubMsg {
            id: 0,
            msg: Message::TransferNft {
                contract_addr: ledger.nft_contract().clone(),
                recipient: env.contract_address.clone(),
                token_id: id,
            },
            reply_on: ReplyOn::Never,
        },
    );
    assert(resp@ =~= seq![plain(transfer(m, id@, env.contract_address@))]);
    Ok(resp)
}

/// Purchase of `id` by `buyer`, who attached a valid payment of `paid` (if any).
pub open spec fn buy_step(m: LedgerModel, buyer: Seq<char>, paid: Option<u128>, id: Seq<char>) -> (
    LedgerModel,
    Outcome,
) {
    if !m.sales.contains_key(id) {
        (m, Err(ContractError::NotFound {}))
    } else {
        let sale = m.sales[id];
        if paid != Some(sale.price) {
            (m, Err(ContractError::IncorrectPayment { price: sale.price }))
        } else {
            (
                LedgerModel { sales: m.sales.remove(id), ..m },
                Ok(
                    seq![
                        plain(MessageView::BankSend { to_address: sale.owner, denom: DENOM@, amount: sale.price }),
                        SubMsgView { id: SALE_REPLY, msg: transfer(m, id, buyer), reply_on: ReplyOn::Success },
                    ],
                ),
            )
        }
    }
}

/// Buys asset `id` with the payment attached to the call.
pub fn exec_buy(ledger: &mut Ledger, info: &MessageInfo, id: String) -> (r: Result<
    Response,
    ContractError,
>)
    requires
        old(ledger).wf(),
    ensures
        final(ledger).wf(),
        (final(ledger)@, outcome(r)) == buy_step(
            old(ledger)@,
            info.sender@,
            paid_amount(info.funds@, DENOM@),
            id@,
        ),
{
    let ghost m = ledger@;
    let target = match ledger.load_sale(&id) {
        Some(s) => s,
        None => return Err(ContractError::NotFound {}),
    };
    let paid = attached_payment(&info.funds);
    let exact = match paid {
        Some(amount) => amount == target.price,
        None => false,
    };
    if !exact {
        return Err(ContractError::IncorrectPayment { price: target.price });
    }
    ledger.remove_sale(&id);
    let mut resp = Response::new();
    resp.add(
        SubMsg {
            id: 0,
            msg: Message::BankSend {
                to_address: target.owner.clone(),
                denom: DENOM.to_owned(),
                amount: target.price,
            },
            reply_on: ReplyOn::Never,
        },
    );
    resp.add(
        SubMsg {
            id: SALE_REPLY,
            msg: Message::TransferNft {
                contract_addr: ledger.nft_contract().clone(),
                recipient: info.sender.clone(),
                token_id: target.nft_id,
            },
            reply_on: ReplyOn::Success,
        },
    );
    assert(resp@ =~= buy_step(m, info.sender@, paid_amount(info.funds@, DENOM@), id@).1->Ok_0);
    Ok(resp)
}

/// Cancelling a listing: only its owner may; the asset goes back to the owner.
pub open spec fn cancel_sale_step(m: LedgerModel, sender: Seq<char>, id: Seq<char>) -> (
    LedgerModel,
    Outcome,
) {
    if !m.sales.contains_key(id) {
        (m, Err(ContractError::NotFound {}))
    } else if m.sales[id].owner != sender {
        (m, Err(ContractError::Unauthorized {}))
    } else {
        (
            LedgerModel { sales: m.sales.remove(id), ..m },
            Ok(seq![plain(transfer(m, id, m.sales[id].owner))]),
        )
    }
}

/// Takes the caller's listing of `id` down.
pub fn exec_cancel_sale(ledger: &mut Ledger, info: &MessageInfo, id: String) -> (r: Result<
    Response,
    ContractError,
>)
    requires
        old(ledger).wf(),
    ensures
        final(ledger).wf(),
        (final(ledger)@, outcome(r)) == cancel_sale_step(old(ledger)@, info.sender@, id@),
{
    let ghost m = ledger@;
    let target = match ledger.load_sale(&id) {
        Some(s) => s,
        None => return Err(ContractError::NotFound {}),
    };
    if !(target.owner == info.sender) {
        return Err(ContractError::Unauthorized {});
    }
    ledger.remove_sale(&id);
    let mut resp = Response::new();
    resp.add(
        SubMsg {
            id: 0,
            msg: Message::TransferNft {
                contract_addr: ledger.nft_contract().clone(),
                recipient: target.owner,
                token_id: id,
            },
            reply_on: ReplyOn::Never,
        },
    );
    assert(resp@ =~= cancel_sale_step(m, info.sender@, id@).1->Ok_0);
    Ok(resp)
}

/// Offering a trade: the offeror must own `offered` and have approved the exchange over
/// it, and the sale of `asked` must exist and be open to trades.
pub open spec fn new_trade_step(
    m: LedgerModel,
    sender: Seq<char>,
    asked: Seq<char>,
    offered: Seq<char>,
    owner: Seq<char>,
    approved: bool,
) -> (LedgerModel, Outcome) {
    if owner != sender || !approved {
        (m, Err(ContractError::Unauthorized {}))
    } else if !m.sales.contains_key(asked) || !m.sales[asked].tradable {
        (m, Err(ContractError::NonTradeable {}))
    } else {
        let trade = TradeView { asked_id: asked, to_trade_id: offered, trader: sender };
        (LedgerModel { trades: m.trades.insert((asked, sender), trade), ..m }, Ok(seq![]))
    }
}

/// Offers the caller's asset `offered_id` for the asset `asked_id` on sale; the custody
/// service reported `nft_owner` as the owner of `offered_id`, and whether the exchange
/// holds an approval over it (`approved`).
pub fn exec_new_trade(
    ledger: &mut Ledger,
    info: &MessageInfo,
    asked_id: String,
    offered_id: String,
    nft_owner: &String,
    approved: bool,
) -> (r: Result<Response, ContractError>)
    requires
        old(ledger).wf(),
    ensures
        final(ledger).wf(),
        (final(ledger)@, outcome(r)) == new_trade_step(
            old(ledger)@,
            info.sender@,
            asked_id@,
            offered_id@,
            nft_owner@,
            approved,
        ),
{
    if !(*nft_owner == info.sender) || !approved {
        return Err(ContractError::Unauthorized {});
    }
    let tradable = match ledger.load_sale(&asked_id) {
        Some(sale) => sale.tradable,
        None => false,
    };
    if !tradable {
        return Err(ContractError::NonTradeable {});
    }
    let trade = Trade { asked_id, to_trade_id: offered_id, trader: info.sender.clone() };
    ledger.save_trade(trade);
    let resp = Response::new();
    assert(resp@ =~= seq![]);
    Ok(resp)
}

/// Accepting a trade: the seller of `asked` takes the offer of `trader`. Both assets
/// move, each with a notice reported back whatever its outcome; the sale stays listed.
pub open spec fn accept_trade_step(
    m: LedgerModel,
    sender: Seq<char>,
    asked: Seq<char>,
    trader: Seq<char>,
) -> (LedgerModel, Outcome) {
    if !m.trades.contains_key((asked, trader)) || !m.sales.contains_key(asked) {
        (m, Err(ContractError::NotFound {}))
    } else if m.sales[asked].owner != sender {
        (m, Err(ContractError::Unauthorized {}))
    } else {
        let offered = m.trades[(asked, trader)].to_trade_id;
        let seller = m.sales[asked].owner;
        (
            LedgerModel { trades: m.trades.remove((asked, trader)), ..m },
            Ok(
                seq![
                    SubMsgView { id: TRADE_REPLY, msg: transfer(m, asked, trader), reply_on: ReplyOn::Always },
                    SubMsgView { id: TRADE_REPLY, msg: transfer(m, offered, seller), reply_on: ReplyOn::Always },
                ],
            ),
        )
    }
}

/// As the seller of `asked_id`, accepts the trade offered by `trader`.
pub fn exec_accept_trade(
    ledger: &mut Ledger,
    info: &MessageInfo,
    asked_id: String,
    trader: String,
) -> (r: Result<Response, ContractError>)
    requires
        old(ledger).wf(),
    ensures
        final(ledger).wf(),
        (final(ledger)@, outcome(r)) == accept_trade_step(
            old(ledger)@,
            info.sender@,
            asked_id@,
            trader@,
        ),
{
    let ghost m = ledger@;
    let trade = match ledger.load_trade(&asked_id, &trader) {
        Some(t) => t,
        None => return Err(ContractError::NotFound {}),
    };
    let sale = match ledger.load_sale(&asked_id) {
        Some(s) => s,
        None => return Err(ContractError::NotFound {}),
    };
    if !(sale.owner == info.sender) {
        return Err(ContractError::Unauthorized {});
    }
    let contract_addr = ledger.nft_contract().clone();
    let mut resp = Response::new();
    resp.add(
        SubMsg {
            id: TRADE_REPLY,
            msg: Message::TransferNft {
                contract_addr: contract_addr.clone(),
                recipient: trade.trader.clone(),
                token_id: trade.asked_id.clone(),
            },
            reply_on: ReplyOn::Always,
        },
    );
    resp.add(
        SubMsg {
            id: TRADE_REPLY,
            msg: Message::TransferNft {
                contract_addr,
                recipient: sale.owner,
                token_id: trade.to_trade_id,
            },
            reply_on: ReplyOn::Always,
        },
    );
    ledger.remove_trade(&trade.asked_id, &trade.trader);
    assert(resp@ =~= accept_trade_step(m, info.sender@, asked_id@, trader@).1->Ok_0);
    Ok(resp)
}

/// Whether some offeror has a trade for asset `asked`.
pub open spec fn has_trade_for(m: LedgerModel, asked: Seq<char>) -> bool {
    exists|k: (Seq<char>, Seq<char>)| #[trigger] m.trades.contains_key(k) && k.0 == asked
}

/// Withdrawing a trade: only the offeror recorded in the trade's key may; the offered
/// asset goes back to them. A caller with no trade for an asset that others made offers
/// for is refused as unauthorized.
pub open spec fn cancel_trade_step(m: LedgerModel, sender: Seq<char>, asked: Seq<char>) -> (
    LedgerModel,
    Outcome,
) {
    if m.trades.contains_key((asked, sender)) {
        (
            LedgerModel { trades: m.trades.remove((asked, sender)), ..m },
            Ok(seq![plain(transfer(m, m.trades[(asked, sender)].to_trade_id, sender))]),
        )
    } else if has_trade_for(m, asked) {
        (m, Err(ContractError::Unauthorized {}))
    } else {
        (m, Err(ContractError::NotFound {}))
    }
}

/// Withdraws the caller's offer for asset `asked_id`.
pub fn exec_cancel_trade(ledger: &mut Ledger, info: &MessageInfo, asked_id: String) -> (r: Result<
    Response,
    ContractError,
>)
    requires
        old(ledger).wf(),
    ensures
        final(ledger).wf(),
        (final(ledger)@, outcome(r)) == cancel_trade_step(old(ledger)@, info.sender@, asked_id@),
{
    let ghost m = ledger@;
    let target = match ledger.load_trade(&asked_id, &info.sender) {
        Some(t) => t,
        None => {
            if ledger.has_trade_for(&asked_id) {
                return Err(ContractError::Unauthorized {});
            }
            return Err(ContractError::NotFound {});
        },
    };
    ledger.remove_trade(&asked_id, &info.sender);
    let mut resp = Response::new();
    resp.add(
        SubMsg {
            id: 0,
            msg: Message::TransferNft {
                contract_addr: ledger.nft_contract().clone(),
                recipient: target.trader,
                token_id: target.to_trade_id,
            },
            reply_on: ReplyOn::Never,
        },
    );
    assert(resp@ =~= cancel_trade_step(m, info.sender@, asked_id@).1->Ok_0);
    Ok(resp)
}

/// The completion handler: a notice tagged as a sale or a trade counts one more of that
/// kind; any other tag is refused.
pub open spec fn reply_step(m: LedgerModel, id: u64) -> (LedgerModel, Outcome) {
    if id == SALE_REPLY {
        if m.n_sales == u128::MAX {
            (m, Err(ContractError::Overflow {}))
        } else {
            (LedgerModel { n_sales: (m.n_sales + 1) as u128, ..m }, Ok(seq![]))
        }
    } else if id == TRADE_REPLY {
        if m.n_trades == u128::MAX {
            (m, Err(ContractError::Overflow {}))
        } else {
            (LedgerModel { n_trades: (m.n_trades + 1) as u128, ..m }, Ok(seq![]))
        }
    } else {
        (m, Err(ContractError::UnrecognizedReply {}))
    }
}

/// Handles the completion notice tagged `id`.
pub fn reply(ledger: &mut Ledger, id: u64) -> (r: Result<Response, ContractError>)
    requires
        old(ledger).wf(),
    ensures
        final(ledger).wf(),
        (final(ledger)@, outcome(r)) == reply_step(old(ledger)@, id),
{
    let mut ops = ledger.operations();
    if id == SALE_REPLY {
        if ops.n_sales == u128::MAX {
            return Err(ContractError::Overflow {});
        }
        ops.n_sales = ops.n_sales + 1;
    } else if id == TRADE_REPLY {
        if ops.n_trades == u128::MAX {
            return Err(ContractError::Overflow {});
        }
        ops.n_trades = ops.n_trades + 1;
    } else {
        return Err(ContractError::UnrecognizedReply {});
    }
    ledger.save_operations(ops);
    let resp = Response::new();
    assert(resp@ =~= seq![]);
    Ok(resp)
}

/// One operation, as named by `msg`; `report` is what the custody service said of the
/// asset that a listing or an offer puts forward.
pub open spec fn execute_step(
    m: LedgerModel,
    env: Env,
    info: MessageInfo,
    msg: ExecuteMsg,
    report: CustodyReport,
) -> (LedgerModel, Outcome) {
    match msg {
        ExecuteMsg::BuyNFT { id } => buy_step(m, info.sender@, paid_amount(info.funds@, DENOM@), id@),
        ExecuteMsg::NewSale { id, price, tradable } => new_sale_step(
            m,
            env.contract_address@,
            info.sender@,
            id@,
            price,
            tradable,
            report.owner@,
        ),
        ExecuteMsg::CancelSale { id } => cancel_sale_step(m, info.sender@, id@),
        ExecuteMsg::NewTrade { target, offered } => new_trade_step(
            m,
            info.sender@,
            target@,
            offered@,
            report.owner@,
            report.approved,
        ),
        ExecuteMsg::AcceptTrade { id, trader } => accept_trade_step(m, info.sender@, id@, trader@),
        ExecuteMsg::CancelTrade { id } => cancel_trade_step(m, info.sender@, id@),
    }
}

/// Runs the operation that `msg` names.
pub fn execute(
    ledger: &mut Ledger,
    env: &Env,
    info: &MessageInfo,
    msg: ExecuteMsg,
    report: &CustodyReport,
) -> (r: Result<Response, ContractError>)
    requires
        old(ledger).wf(),
    ensures
        final(ledger).wf(),
        (final(ledger)@, outcome(r)) == execute_step(old(ledger)@, *env, *info, msg, *report),
{
    match msg {
        ExecuteMsg::BuyNFT { id } => exec_buy(ledger, info, id),
        ExecuteMsg::NewSale { id, price, tradable } => exec_new_sale(
            ledger,
            env,
            info,
            id,
            price,
            tradable,
            &report.owner,
        ),
        ExecuteMsg::CancelSale { id } => exec_cancel_sale(ledger, info, id),
        ExecuteMsg::NewTrade { target, offered } => exec_new_trade(
            ledger,
            info,
            target,
            offered,
            &report.owner,
            report.approved,
        ),
        ExecuteMsg::AcceptTrade { id, trader } => exec_accept_trade(ledger, info, id, trader),
        ExecuteMsg::CancelTrade { id } => exec_cancel_trade(ledger, info, id),
    }
}

} // verus!
