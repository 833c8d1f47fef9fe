use nft_exchange::contract::{
    exec_accept_trade, exec_buy, exec_cancel_sale, exec_cancel_trade, exec_new_sale, exec_new_trade,
    instantiate, reply,
};
use nft_exchange::error::ContractError;
use nft_exchange::keys::key_less;
use nft_exchange::msg::{Env, InstantiateMsg, MessageInfo};
use nft_exchange::payment::{attached_payment, Coin, DENOM};
use nft_exchange::query::{get_sale, get_sales_seller, get_trade, get_trades_trader};
use nft_exchange::response::{transfer_payload, Message, ReplyOn, SubMsg, SALE_REPLY, TRADE_REPLY};
use nft_exchange::state::{Operations, Sale};
use nft_exchange::store::Ledger;

const TOKEN: &str = "nft token";
const CONTRACT: &str = "exchange";

fn s(x: &str) -> String {
    x.to_string()
}

fn env() -> Env {
    Env { contract_address: s(CONTRACT) }
}

fn info(sender: &str) -> MessageInfo {
    MessageInfo { sender: s(sender), funds: vec![] }
}

fn paying(sender: &str, denom: &str, amount: u128) -> MessageInfo {
    MessageInfo { sender: s(sender), funds: vec![Coin { denom: s(denom), amount }] }
}

fn fresh() -> Ledger {
    instantiate(InstantiateMsg { nft_address: s(TOKEN) })
}

fn list(ledger: &mut Ledger, owner: &str, id: &str, price: u128, tradable: bool) {
    exec_new_sale(ledger, &env(), &info(owner), s(id), price, tradable, &s(owner)).unwrap();
}

fn transfer(recipient: &str, token_id: &str) -> Message {
    Message::TransferNft { contract_addr: s(TOKEN), recipient: s(recipient), token_id: s(token_id) }
}

#[test]
fn new_sale_escrows_asset() {
    let mut ledger = fresh();
    let r = exec_new_sale(&mut ledger, &env(), &info("alice"), s("a1"), 100, true, &s("alice")).unwrap();
    assert_eq!(r.messages, vec![SubMsg { id: 0, msg: transfer(CONTRACT, "a1"), reply_on: ReplyOn::Never }]);
    let sale = get_sale(&ledger, s("a1")).unwrap();
    assert_eq!(sale, Sale { nft_id: s("a1"), price: 100, owner: s("alice"), tradable: true });
}

#[test]
fn new_sale_by_non_owner_is_unauthorized() {
    let mut ledger = fresh();
    let r = exec_new_sale(&mut ledger, &env(), &info("mallory"), s("a1"), 100, true, &s("alice"));
    assert_eq!(r, Err(ContractError::Unauthorized {}));
    assert_eq!(get_sale(&ledger, s("a1")), Err(ContractError::NotFound {}));
}

#[test]
fn cancel_sale_errors() {
    let mut ledger = fresh();
    assert_eq!(exec_cancel_sale(&mut ledger, &info("alice"), s("a1")), Err(ContractError::NotFound {}));
    list(&mut ledger, "alice", "a1", 5, false);
    assert_eq!(exec_cancel_sale(&mut ledger, &info("bob"), s("a1")), Err(ContractError::Unauthorized {}));
    let r = exec_cancel_sale(&mut ledger, &info("alice"), s("a1")).unwrap();
    assert_eq!(r.messages, vec![SubMsg { id: 0, msg: transfer("alice", "a1"), reply_on: ReplyOn::Never }]);
    assert_eq!(ledger.load_sale(&s("a1")), None);
}

#[test]
fn buy_with_exact_payment() {
    let mut ledger = fresh();
    list(&mut ledger, "alice", "a1", 100, false);
    let r = exec_buy(&mut ledger, &paying("bob", DENOM, 100), s("a1")).unwrap();
    assert_eq!(
        r.messages,
        vec![
            SubMsg {
                id: 0,
                msg: Message::BankSend { to_address: s("alice"), denom: s(DENOM), amount: 100 },
                reply_on: ReplyOn::Never,
            },
            SubMsg { id: SALE_REPLY, msg: transfer("bob", "a1"), reply_on: ReplyOn::Success },
        ]
    );
    assert_eq!(get_sale(&ledger, s("a1")), Err(ContractError::NotFound {}));
}

#[test]
fn buy_with_wrong_payment_changes_nothing() {
    let mut ledger = fresh();
    list(&mut ledger, "alice", "a1", 100, false);
    let wrong = vec![
        paying("bob", DENOM, 99),
        paying("bob", DENOM, 101),
        paying("bob", "uother", 100),
        paying("bob", DENOM, 0),
        info("bob"),
        MessageInfo {
            sender: s("bob"),
            funds: vec![Coin { denom: s(DENOM), amount: 50 }, Coin { denom: s(DENOM), amount: 50 }],
        },
    ];
    for payer in wrong {
        assert_eq!(exec_buy(&mut ledger, &payer, s("a1")), Err(ContractError::IncorrectPayment { price: 100 }));
        assert_eq!(get_sale(&ledger, s("a1")).unwrap().owner, s("alice"));
    }
    assert_eq!(exec_buy(&mut ledger, &paying("bob", DENOM, 100), s("zz")), Err(ContractError::NotFound {}));
}

#[test]
fn attached_payment_reads_single_coin() {
    assert_eq!(attached_payment(&vec![Coin { denom: s(DENOM), amount: 42 }]), Some(42));
    assert_eq!(attached_payment(&vec![Coin { denom: s("uoak"), amount: 42 }]), None);
    assert_eq!(attached_payment(&vec![Coin { denom: s(DENOM), amount: 0 }]), Some(0));
    assert_eq!(attached_payment(&vec![]), Some(0));
    let two = vec![Coin { denom: s(DENOM), amount: 1 }, Coin { denom: s(DENOM), amount: 2 }];
    assert_eq!(attached_payment(&two), None);
    let mixed = vec![Coin { denom: s(DENOM), amount: 1 }, Coin { denom: s("uoak"), amount: 2 }];
    assert_eq!(attached_payment(&mixed), None);
}

#[test]
fn sale_at_price_zero_can_be_bought() {
    let mut ledger = fresh();
    list(&mut ledger, "alice", "a1", 0, false);
    list(&mut ledger, "alice", "a2", 0, false);
    let r = exec_buy(&mut ledger, &info("bob"), s("a1")).unwrap();
    assert_eq!(
        r.messages,
        vec![
            SubMsg {
                id: 0,
                msg: Message::BankSend { to_address: s("alice"), denom: s(DENOM), amount: 0 },
                reply_on: ReplyOn::Never,
            },
            SubMsg { id: SALE_REPLY, msg: transfer("bob", "a1"), reply_on: ReplyOn::Success },
        ]
    );
    assert!(exec_buy(&mut ledger, &paying("carol", DENOM, 0), s("a2")).is_ok());
    assert_eq!(get_sale(&ledger, s("a1")), Err(ContractError::NotFound {}));
    assert_eq!(get_sale(&ledger, s("a2")), Err(ContractError::NotFound {}));
}

#[test]
fn priced_sale_refuses_empty_payment() {
    let mut ledger = fresh();
    list(&mut ledger, "alice", "a1", 1, false);
    assert_eq!(exec_buy(&mut ledger, &info("bob"), s("a1")), Err(ContractError::IncorrectPayment { price: 1 }));
}

#[test]
fn offer_on_non_tradable_sale_is_refused() {
    let mut ledger = fresh();
    list(&mut ledger, "alice", "a1", 100, false);
    let r = exec_new_trade(&mut ledger, &info("bob"), s("a1"), s("b1"), &s("bob"), true);
    assert_eq!(r, Err(ContractError::NonTradeable {}));
    let r = exec_new_trade(&mut ledger, &info("bob"), s("nope"), s("b1"), &s("bob"), true);
    assert_eq!(r, Err(ContractError::NonTradeable {}));
    assert_eq!(get_trade(&ledger, s("a1"), s("bob")), Err(ContractError::NotFound {}));
}

#[test]
fn offer_needs_ownership_and_approval() {
    let mut ledger = fresh();
    list(&mut ledger, "alice", "a1", 100, true);
    let r = exec_new_trade(&mut ledger, &info("bob"), s("a1"), s("b1"), &s("carol"), true);
    assert_eq!(r, Err(ContractError::Unauthorized {}));
    let r = exec_new_trade(&mut ledger, &info("bob"), s("a1"), s("b1"), &s("bob"), false);
    assert_eq!(r, Err(ContractError::Unauthorized {}));
    let r = exec_new_trade(&mut ledger, &info("bob"), s("a1"), s("b1"), &s("bob"), true).unwrap();
    assert!(r.messages.is_empty());
    let t = get_trade(&ledger, s("a1"), s("bob")).unwrap();
    assert_eq!((t.asked_id, t.to_trade_id, t.trader), (s("a1"), s("b1"), s("bob")));
}

#[test]
fn later_offer_replaces_earlier_one() {
    let mut ledger = fresh();
    list(&mut ledger, "alice", "a1", 100, true);
    exec_new_trade(&mut ledger, &info("bob"), s("a1"), s("b1"), &s("bob"), true).unwrap();
    exec_new_trade(&mut ledger, &info("bob"), s("a1"), s("b2"), &s("bob"), true).unwrap();
    assert_eq!(get_trade(&ledger, s("a1"), s("bob")).unwrap().to_trade_id, s("b2"));
    assert_eq!(get_trades_trader(&ledger, s("bob"), None, None).len(), 1);
}

#[test]
fn accept_trade_issues_two_notified_transfers() {
    let mut ledger = fresh();
    list(&mut ledger, "alice", "a1", 100, true);
    exec_new_trade(&mut ledger, &info("bob"), s("a1"), s("b1"), &s("bob"), true).unwrap();
    assert_eq!(
        exec_accept_trade(&mut ledger, &info("bob"), s("a1"), s("bob")),
        Err(ContractError::Unauthorized {})
    );
    assert_eq!(
        exec_accept_trade(&mut ledger, &info("alice"), s("a1"), s("carol")),
        Err(ContractError::NotFound {})
    );
    let r = exec_accept_trade(&mut ledger, &info("alice"), s("a1"), s("bob")).unwrap();
    assert_eq!(
        r.messages,
        vec![
            SubMsg { id: TRADE_REPLY, msg: transfer("bob", "a1"), reply_on: ReplyOn::Always },
            SubMsg { id: TRADE_REPLY, msg: transfer("alice", "b1"), reply_on: ReplyOn::Always },
        ]
    );
    assert_eq!(get_trade(&ledger, s("a1"), s("bob")), Err(ContractError::NotFound {}));
    assert!(get_sale(&ledger, s("a1")).is_ok());
    // Both notices count, whether or not the transfers went through.
    reply(&mut ledger, TRADE_REPLY).unwrap();
    reply(&mut ledger, TRADE_REPLY).unwrap();
    assert_eq!(ledger.operations(), Operations { n_trades: 2, n_sales: 0 });
}

#[test]
fn cancel_trade_only_by_offeror() {
    let mut ledger = fresh();
    list(&mut ledger, "alice", "a1", 100, true);
    exec_new_trade(&mut ledger, &info("bob"), s("a1"), s("b1"), &s("bob"), true).unwrap();
    assert_eq!(exec_cancel_trade(&mut ledger, &info("alice"), s("a1")), Err(ContractError::Unauthorized {}));
    assert_eq!(exec_cancel_trade(&mut ledger, &info("carol"), s("a1")), Err(ContractError::Unauthorized {}));
    assert!(get_trade(&ledger, s("a1"), s("bob")).is_ok());
    let r = exec_cancel_trade(&mut ledger, &info("bob"), s("a1")).unwrap();
    assert_eq!(r.messages, vec![SubMsg { id: 0, msg: transfer("bob", "b1"), reply_on: ReplyOn::Never }]);
    assert_eq!(exec_cancel_trade(&mut ledger, &info("bob"), s("a1")), Err(ContractError::NotFound {}));
}

#[test]
fn reply_counts_and_refuses_unknown_tags() {
    let mut ledger = fresh();
    assert!(reply(&mut ledger, SALE_REPLY).unwrap().messages.is_empty());
    reply(&mut ledger, TRADE_REPLY).unwrap();
    reply(&mut ledger, TRADE_REPLY).unwrap();
    assert_eq!(ledger.operations(), Operations { n_trades: 2, n_sales: 1 });
    assert_eq!(reply(&mut ledger, 0), Err(ContractError::UnrecognizedReply {}));
    assert_eq!(reply(&mut ledger, 3), Err(ContractError::UnrecognizedReply {}));
    assert_eq!(ledger.operations(), Operations { n_trades: 2, n_sales: 1 });
}

#[test]
fn reply_refuses_counter_overflow() {
    let mut ledger = fresh();
    ledger.save_operations(Operations { n_trades: u128::MAX, n_sales: u128::MAX });
    assert_eq!(reply(&mut ledger, SALE_REPLY), Err(ContractError::Overflow {}));
    assert_eq!(reply(&mut ledger, TRADE_REPLY), Err(ContractError::Overflow {}));
}

#[test]
fn sales_by_seller_match_reference() {
    let mut ledger = fresh();
    let owners = ["olga", "ulf", "olga", "ivy", "olga"];
    let mut reference: Vec<String> = Vec::new();
    for i in (0..25).rev() {
        let id = format!("nft-{:02}", i);
        let owner = owners[i % owners.len()];
        list(&mut ledger, owner, &id, i as u128, i % 2 == 0);
        if owner == "olga" {
            reference.push(id);
        }
    }
    reference.sort();
    assert_eq!(reference.len(), 15);

    let page = get_sales_seller(&ledger, s("olga"), Some(0), Some(10));
    let ids: Vec<String> = page.iter().map(|x| x.nft_id.clone()).collect();
    assert_eq!(ids, reference[..10].to_vec());
    assert!(page.iter().all(|x| x.owner == "olga"));

    let default_page = get_sales_seller(&ledger, s("olga"), None, None);
    assert_eq!(default_page, page);

    let rest = get_sales_seller(&ledger, s("olga"), Some(10), Some(10));
    let ids: Vec<String> = rest.iter().map(|x| x.nft_id.clone()).collect();
    assert_eq!(ids, reference[10..].to_vec());

    assert!(get_sales_seller(&ledger, s("olga"), Some(15), None).is_empty());
    assert_eq!(get_sales_seller(&ledger, s("ivy"), None, Some(100)).len(), 5);
    assert!(get_sales_seller(&ledger, s("nobody"), None, None).is_empty());
    assert_eq!(get_sales_seller(&ledger, s("olga"), Some(3), Some(0)), vec![]);
}

#[test]
fn trades_by_trader_in_asset_order() {
    let mut ledger = fresh();
    for id in ["c", "a", "b"] {
        list(&mut ledger, "alice", id, 1, true);
        exec_new_trade(&mut ledger, &info("bob"), s(id), format!("x{}", id), &s("bob"), true).unwrap();
        exec_new_trade(&mut ledger, &info("carl"), s(id), format!("y{}", id), &s("carl"), true).unwrap();
    }
    let asked: Vec<String> =
        get_trades_trader(&ledger, s("bob"), None, None).iter().map(|t| t.asked_id.clone()).collect();
    assert_eq!(asked, vec![s("a"), s("b"), s("c")]);
    let page = get_trades_trader(&ledger, s("carl"), Some(1), Some(1));
    assert_eq!(page.len(), 1);
    assert_eq!((page[0].asked_id.clone(), page[0].to_trade_id.clone()), (s("b"), s("yb")));
}

#[test]
fn keys_compare_by_bytes() {
    assert!(key_less(&s("a"), &s("b")));
    assert!(key_less(&s("a"), &s("ab")));
    assert!(!key_less(&s("ab"), &s("ab")));
    assert!(key_less(&s("Z"), &s("a")));
    assert!(!key_less(&s("b"), &s("abc")));
}

#[test]
fn transfer_payload_encodes_request() {
    let bytes = transfer_payload(&s("bob"), &s("t1"));
    assert_eq!(
        String::from_utf8(bytes).unwrap(),
        r#"{"transfer_nft":{"recipient":"bob","token_id":"t1"}}"#
    );
}

#[test]
fn store_keeps_one_sale_per_asset() {
    let mut ledger = fresh();
    list(&mut ledger, "alice", "a1", 1, true);
    list(&mut ledger, "alice", "a1", 2, false);
    assert_eq!(ledger.sale_records().len(), 1);
    assert_eq!(get_sale(&ledger, s("a1")).unwrap().price, 2);
    let r = ledger.nft_contract().clone();
    assert_eq!(r, s(TOKEN));
}
