//! What an operation asks the host to do once it commits: calls to the custody service
//! and payments, some of them tagged so that their outcome is reported back.
use vstd::prelude::*;

verus! {

/// Tag of a custody transfer made by accepting a trade.
pub const TRADE_REPLY: u64 = 1;

/// Tag of the custody transfer made by a purchase.
pub const SALE_REPLY: u64 = 2;

/// When the outcome of a call is reported back to the exchange.
#[derive(Clone, Copy, Debug, PartialEq, Eq, Structural)]
pub enum ReplyOn {
    Never,
    Success,
    Always,
}

/// A call made on behalf of the exchange.
#[derive(Clone, Debug, PartialEq, Eq)]
pub enum Message {
    /// Ask the custody service at `contract_addr` to move `token_id` to `recipient`.
    TransferNft { contract_addr: String, recipient: String, token_id: String },
    /// Send `amount` of `denom` to `to_address`.
    BankSend { to_address: String, denom: String, amount: u128 },
}

pub enum MessageView {
    TransferNft { contract_addr: Seq<char>, recipient: Seq<char>, token_id: Seq<char> },
    BankSend { to_address: Seq<char>, denom: Seq<char>, amount: u128 },
}

impl View for Message {
    type V = MessageView;

    open spec fn view(&self) -> MessageView {
        match self {
            Message::TransferNft { contract_addr, recipient, token_id } => MessageView::TransferNft {
                contract_addr: contract_addr@,
                recipient: recipient@,
                token_id: token_id@,
            },
            Message::BankSend { to_address, denom, amount } => MessageView::BankSend {
                to_address: to_address@,
                denom: denom@,
                amount: *amount,
            },
        }
    }
}

/// A call with its correlation tag `id`, and when its outcome is reported under that tag.
#[derive(Clone, Debug, PartialEq, Eq)]
pub struct SubMsg {
    pub id: u64,
    pub msg: Message,
    pub reply_on: ReplyOn,
}

pub struct SubMsgView {
    pub id: u64,
    pub msg: MessageView,
    pub reply_on: ReplyOn,
}

impl View for SubMsg {
    type V = SubMsgView;

    open spec fn view(&self) -> SubMsgView {
        SubMsgView { id: self.id, msg: self.msg@, reply_on: self.reply_on }
    }
}

/// The calls an operation issues, in order.
#[derive(Clone, Debug, PartialEq, Eq)]
pub struct Response {
    pub messages: Vec<SubMsg>,
}

impl View for Response {
    type V = Seq<SubMsgView>;

    open spec fn view(&self) -> Seq<SubMsgView> {
        self.messages@.map_values(|m: SubMsg| m@)
    }
}

impl Response {
    /// A response that issues no call.
    pub fn new() -> (r: Response)
        ensures
            r@ == Seq::<SubMsgView>::empty(),
    {
        let r = Response { messages: Vec::new() };
        assert(r@ =~= Seq::<SubMsgView>::empty());
        r
    }

    /// Issues `m` after the calls already there.
    pub fn add(&mut self, m: SubMsg)
        ensures
            final(self)@ == old(self)@.push(m@),
    {
        self.messages.push(m);
        assert(self@ =~= old(self)@.push(m@));
    }
}

/// The name of what the custody service's transfer request encodes to.
pub uninterp spec fn transfer_nft_json(recipient: Seq<char>, token_id: Seq<char>) -> Seq<u8>;

/// The error of `cosmwasm_std`'s encoders, carried through unopened.
#[verifier::external_type_specification]
#[verifier::external_body]
pub struct ExStdError(cosmwasm_std::StdError);

/// Relies on `cosmwasm_std::to_json_vec` (serde-json-wasm's `to_vec`) applied to
/// `cw721::Cw721ExecuteMsg::TransferNft`: the bytes depend on the recipient and the token
/// alone, and encoding this struct variant of two strings only appends bytes and never
/// fails.
#[verifier::external_body]
fn encode_transfer_nft(recipient: &String, token_id: &String) -> (r: Result<Vec<u8>, cosmwasm_std::StdError>)
    ensures
        r is Ok,
        r matches Ok(b) ==> b@ == transfer_nft_json(recipient@, token_id@),
{
    cosmwasm_std::to_json_vec(
        &cw721::Cw721ExecuteMsg::TransferNft { recipient: recipient.clone(), token_id: token_id.clone() },
    )
}

/// The body of the request that asks the custody service to move `token_id` to `recipient`.
pub fn transfer_payload(recipient: &String, token_id: &String) -> (r: Vec<u8>)
    ensures
        r@ == transfer_nft_json(recipient@, token_id@),
{
    match encode_transfer_nft(recipient, token_id) {
        Ok(b) => b,
        Err(_) => {
            assert(false);
            Vec::new()
        },
    }
}

} // verus!
