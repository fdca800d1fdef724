use vstd::prelude::*;

verus! {

/// Instantiating the mock takes no parameters.
pub struct MockInstantiateMsg {}

/// The decoded ping record carried by a `Receive` payload.
pub struct PingMsg {
    pub payload: String,
}

/// The receive envelope a fungible-token contract hands to a receiver: who
/// sent, how much, and an opaque payload in the mock's envelope text.
pub struct Cw20ReceiveMsg {
    pub sender: String,
    pub amount: u128,
    pub msg: String,
}

/// Execute messages understood by the mock pair contract.
pub enum MockExecuteMsg {
    Receive(Cw20ReceiveMsg),
    Mint { recipient: String, amount: u128 },
    Send { contract: String, amount: u128, msg: String },
    Burn { amount: u128 },
    Transfer { recipient: String, amount: u128 },
}

/// Query messages understood by the mock pair contract.
pub enum MockQueryMsg {
    Pair {},
    Pool {},
    TokenInfo {},
    Balance { address: String },
}

/// The two ways a call can fail; either aborts the call with no state change.
#[derive(Clone, Copy, Debug, PartialEq, Eq, Structural)]
pub enum MockError {
    /// Malformed or type-mismatched message payload.
    DecodeError,
    /// A `Transfer` recipient failed the host's address validation.
    InvalidAddress,
}

/// An asset identifier: a token contract or a native denomination.
pub enum AssetInfo {
    Token { contract_addr: String },
    NativeToken { denom: String },
}

/// An amount of one asset.
pub struct Asset {
    pub info: AssetInfo,
    pub amount: u128,
}

/// Answer to a `Pool {}` query.
pub struct PoolResponse {
    pub assets: [Asset; 2],
    pub total_share: u128,
}

/// Answer to a `Pair {}` query.
pub struct PairResponse {
    pub asset_infos: [AssetInfo; 2],
    pub contract_addr: String,
    pub liquidity_token: String,
}

/// Answer to a `Balance { address }` query.
pub struct BalanceResponse {
    pub balance: u128,
}

/// Answer to a `TokenInfo {}` query.
pub struct TokenInfoResponse {
    pub name: String,
    pub symbol: String,
    pub decimals: u8,
    pub total_supply: u128,
}

/// One answer for each query variant.
pub enum QueryAnswer {
    Pair(PairResponse),
    Pool(PoolResponse),
    TokenInfo(TokenInfoResponse),
    Balance(BalanceResponse),
}

/// One `key=value` response attribute.
pub struct Attribute {
    pub key: String,
    pub value: String,
}

/// An outgoing execute message a response asks the host to deliver: the
/// receive envelope, addressed to `contract`.
pub struct OutgoingMsg {
    pub contract: String,
    pub envelope: Cw20ReceiveMsg,
}

/// What a handler returns: ordered attributes, outgoing messages, and an
/// optional opaque result payload.
pub struct MockResponse {
    pub attributes: Vec<Attribute>,
    pub messages: Vec<OutgoingMsg>,
    pub data: Option<String>,
}

/// Attribute `a` is `k=v`.
pub open spec fn attr_is(a: Attribute, k: Seq<char>, v: Seq<char>) -> bool {
    a.key@ == k && a.value@ == v
}

impl MockResponse {
    /// A response with no attributes, no outgoing messages and no payload.
    pub open spec fn is_empty_response(self) -> bool {
        self.attributes@.len() == 0 && self.messages@.len() == 0 && self.data is None
    }

    pub fn new() -> (r: MockResponse)
        ensures
            r.is_empty_response(),
    {
        MockResponse { attributes: Vec::new(), messages: Vec::new(), data: None }
    }

    /// Appends one attribute, touching nothing else.
    pub fn add_attribute(self, key: String, value: String) -> (r: MockResponse)
        ensures
            r.attributes@ == self.attributes@.push((Attribute { key, value })),
            r.messages@ == self.messages@,
            r.data == self.data,
    {
        let mut attributes = self.attributes;
        attributes.push(Attribute { key, value });
        MockResponse { attributes, messages: self.messages, data: self.data }
    }

    /// Appends one outgoing message, touching nothing else.
    pub fn add_message(self, m: OutgoingMsg) -> (r: MockResponse)
        ensures
            r.messages@ == self.messages@.push(m),
            r.attributes@ == self.attributes@,
            r.data == self.data,
    {
        let mut messages = self.messages;
        messages.push(m);
        MockResponse { attributes: self.attributes, messages, data: self.data }
    }

    /// Overwrites the result payload, touching nothing else.
    pub fn set_data(self, d: String) -> (r: MockResponse)
        ensures
            r.data == Some(d),
            r.attributes@ == self.attributes@,
            r.messages@ == self.messages@,
    {
        MockResponse { attributes: self.attributes, messages: self.messages, data: Some(d) }
    }
}

} // verus!
