use std::collections::HashMap;

use nft_exchange::contract::{execute, instantiate, reply};
use nft_exchange::error::ContractError;
use nft_exchange::msg::{CustodyReport, Env, ExecuteMsg, InstantiateMsg, MessageInfo, QueryMsg};
use nft_exchange::payment::{Coin, DENOM};
use nft_exchange::query::{query, QueryAnswer};
use nft_exchange::response::{Message, ReplyOn, Response};
use nft_exchange::state::{Sale, Trade};
use nft_exchange::store::Ledger;

const TOKEN: &str = "nft token";
const CONTRACT: &str = "exchange";
const USER1: &str = "user1";
const NFT1: &str = "awesome NFT 1";
const USER2: &str = "user2";
const NFT2: &str = "awesome NFT 2";
const USER3: &str = "user3";
const NFT3: &str = "awesome NFT 3";

/// A host: the custody service's owners, bank balances, and the exchange.
struct Host {
    ledger: Ledger,
    owners: HashMap<String, String>,
    balances: HashMap<String, u128>,
}

impl Host {
    fn new() -> Host {
        let ledger = instantiate(InstantiateMsg { nft_address: TOKEN.to_string() });
        let mut owners = HashMap::new();
        owners.insert(NFT1.to_string(), USER1.to_string());
        owners.insert(NFT2.to_string(), USER2.to_string());
        owners.insert(NFT3.to_string(), USER3.to_string());
        Host { ledger, owners, balances: HashMap::new() }
    }

    fn run(&mut self, sender: &str, funds: Vec<Coin>, msg: ExecuteMsg) -> Result<Response, ContractError> {
        let asset = match &msg {
            ExecuteMsg::NewSale { id, .. } => id.clone(),
            ExecuteMsg::NewTrade { offered, .. } => offered.clone(),
            _ => String::new(),
        };
        let report = CustodyReport {
            owner: self.owners.get(&asset).cloned().unwrap_or_default(),
            approved: true,
        };
        let env = Env { contract_address: CONTRACT.to_string() };
        let info = MessageInfo { sender: sender.to_string(), funds };
        let resp = execute(&mut self.ledger, &env, &info, msg, &report)?;
        for sub in &resp.messages {
            match &sub.msg {
                Message::TransferNft { contract_addr, recipient, token_id } => {
                    assert_eq!(contract_addr, TOKEN);
                    self.owners.insert(token_id.clone(), recipient.clone());
                }
                Message::BankSend { to_address, amount, .. } => {
                    *self.balances.entry(to_address.clone()).or_insert(0) += amount;
                }
            }
            if sub.reply_on != ReplyOn::Never {
                reply(&mut self.ledger, sub.id).unwrap();
            }
        }
        Ok(resp)
    }

    fn sale(&self, id: &str) -> Sale {
        match query(&self.ledger, QueryMsg::GetSale { id: id.to_string() }).unwrap() {
            QueryAnswer::Sale(s) => s,
            other => panic!("unexpected answer {:?}", other),
        }
    }

    fn trade(&self, id: &str, trader: &str) -> Trade {
        let q = QueryMsg::GetTrade { id: id.to_string(), trader: trader.to_string() };
        match query(&self.ledger, q).unwrap() {
            QueryAnswer::Trade(t) => t,
            other => panic!("unexpected answer {:?}", other),
        }
    }
}

#[test]
fn sell_flow() {
    let mut host = Host::new();
    host.run(USER1, vec![], ExecuteMsg::NewSale { id: NFT1.to_string(), price: 100, tradable: false })
        .unwrap();

    let sale_info = host.sale(NFT1);
    assert_eq!(sale_info.owner, USER1.to_string());
    assert_eq!(host.owners[NFT1], CONTRACT.to_string());

    let funds = vec![Coin { denom: DENOM.to_string(), amount: sale_info.price }];
    host.run(USER2, funds, ExecuteMsg::BuyNFT { id: NFT1.to_string() }).unwrap();
    assert_eq!(host.owners[NFT1], USER2.to_string());
}

#[test]
fn trade_flow() {
    let mut host = Host::new();
    host.run(USER1, vec![], ExecuteMsg::NewSale { id: NFT1.to_string(), price: 100, tradable: true })
        .unwrap();

    let sale_info = host.sale(NFT1);
    assert_eq!(sale_info.owner, USER1.to_string());

    host.run(USER2, vec![], ExecuteMsg::NewTrade { target: NFT1.to_string(), offered: NFT2.to_string() })
        .unwrap();
    let owner_of = host.trade(NFT1, USER2);
    assert_eq!(owner_of.trader, USER2.to_string());

    host.run(USER1, vec![], ExecuteMsg::AcceptTrade { id: NFT1.to_string(), trader: USER2.to_string() })
        .unwrap();
    assert_eq!(host.owners[NFT1], USER2.to_string());
    assert_eq!(host.owners[NFT2], USER1.to_string());
}

#[test]
fn accepted_trade_leaves_sale_listed() {
    let mut host = Host::new();
    host.run(USER1, vec![], ExecuteMsg::NewSale { id: NFT1.to_string(), price: 100, tradable: true })
        .unwrap();
    host.run(USER2, vec![], ExecuteMsg::NewTrade { target: NFT1.to_string(), offered: NFT2.to_string() })
        .unwrap();
    host.run(USER1, vec![], ExecuteMsg::AcceptTrade { id: NFT1.to_string(), trader: USER2.to_string() })
        .unwrap();

    assert_eq!(host.owners[NFT1], USER2.to_string());
    assert_eq!(host.owners[NFT2], USER1.to_string());
    assert_eq!(host.ledger.load_trade(&NFT1.to_string(), &USER2.to_string()), None);
    assert_eq!(host.ledger.operations().n_trades, 2);
    assert!(host.ledger.load_sale(&NFT1.to_string()).is_some());
}

#[test]
fn purchase_pays_seller_and_counts_sale() {
    let mut host = Host::new();
    host.run(USER1, vec![], ExecuteMsg::NewSale { id: NFT1.to_string(), price: 100, tradable: false })
        .unwrap();
    let funds = vec![Coin { denom: DENOM.to_string(), amount: 100 }];
    host.run(USER2, funds, ExecuteMsg::BuyNFT { id: NFT1.to_string() }).unwrap();

    assert_eq!(host.balances[USER1], 100);
    assert_eq!(host.owners[NFT1], USER2.to_string());
    assert_eq!(host.ledger.load_sale(&NFT1.to_string()), None);
    assert_eq!(host.ledger.operations().n_sales, 1);
    assert_eq!(host.ledger.operations().n_trades, 0);
}

#[test]
fn list_then_cancel_returns_asset() {
    let mut host = Host::new();
    host.run(USER3, vec![], ExecuteMsg::NewSale { id: NFT3.to_string(), price: 7, tradable: true })
        .unwrap();
    assert_eq!(host.owners[NFT3], CONTRACT.to_string());
    host.run(USER3, vec![], ExecuteMsg::CancelSale { id: NFT3.to_string() }).unwrap();
    assert_eq!(host.owners[NFT3], USER3.to_string());
    assert_eq!(host.ledger.load_sale(&NFT3.to_string()), None);
}
